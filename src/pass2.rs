//! Pass 2: records to bytes, and the whole assembler.

use vstd::prelude::*;

use crate::diag::{Diagnostic, ErrorKind};
use crate::encode::{encode_spec, get_enc};
use crate::pack::{get_bin, pack};
use crate::pass1::{
    merged_labels, origin_of, overflow_at, pass1, records_view, run_lines, split_lines,
    initial_state, Line, LineView, Section,
};
use crate::symbols::LabelTable;
use crate::text::chars_of;

verus! {

/// The state of pass 2 between two records.
pub struct Pass2State {
    /// The bytes of the Text section so far.
    pub text: Seq<u8>,
    /// The bytes of the Data section so far.
    pub data: Seq<u8>,
    /// The address of the next Text record.
    pub text_adr: u32,
    /// The address of the next Data record.
    pub data_adr: u32,
    /// The unresolved-label diagnostics so far.
    pub diags: Seq<Diagnostic>,
}

/// The state before the first record: Text from `start_text`, Data from `text_end`.
pub open spec fn pass2_initial(start_text: u32, text_end: u32) -> Pass2State {
    Pass2State { text: Seq::empty(), data: Seq::empty(), text_adr: start_text, data_adr: text_end, diags: Seq::empty() }
}

/// The address of the next record of section `s`.
pub open spec fn address(st: Pass2State, s: Section) -> u32 {
    if s == Section::Text {
        st.text_adr
    } else {
        st.data_adr
    }
}

/// `st` with the next address of section `s` set to `a`, after `bytes` more of it.
pub open spec fn advance(st: Pass2State, s: Section, bytes: Seq<u8>, a: u32) -> Pass2State {
    if s == Section::Text {
        Pass2State { text: st.text + bytes, text_adr: a, ..st }
    } else {
        Pass2State { data: st.data + bytes, data_adr: a, ..st }
    }
}

/// The record `rec`, labels looked up in `b`.
///
/// An instruction is encoded at the address of its section and packed into 4 bytes; raw
/// data is copied; a `START` label takes the 4 bytes that pass 1 reserved for it, so that
/// addresses stay as pass 1 counted them.
#[verifier::opaque]
pub open spec fn record_step(st: Pass2State, rec: (LineView, u32, Section), b: Seq<(Seq<char>, u32)>) -> Result<
    Pass2State,
    Diagnostic,
> {
    let (l, n, s) = rec;
    let adr = address(st, s);
    match l {
        LineView::Instr(code, args) => match encode_spec(code, args, b, adr) {
            Err(k) => Err(Diagnostic { kind: k, line: n }),
            Ok(e) => if adr + 4 > u32::MAX {
                Err(overflow_at(n))
            } else {
                let st1 = advance(st, s, pack(e.enc), (adr + 4) as u32);
                if e.resolved {
                    Ok(st1)
                } else {
                    Ok(
                        Pass2State {
                            diags: st1.diags.push(Diagnostic { kind: ErrorKind::UnresolvedLabel, line: n }),
                            ..st1
                        },
                    )
                }
            },
        },
        LineView::Data(d) => if adr + d.len() > u32::MAX {
            Err(overflow_at(n))
        } else {
            Ok(advance(st, s, d, (adr + d.len()) as u32))
        },
        LineView::Label(name) => if name != "START"@ {
            Ok(st)
        } else if adr + 4 > u32::MAX {
            Err(overflow_at(n))
        } else {
            Ok(advance(st, s, Seq::empty(), (adr + 4) as u32))
        },
    }
}

/// The state after the records `recs`, starting from `st`.
pub open spec fn run_records(
    st: Pass2State,
    recs: Seq<(LineView, u32, Section)>,
    b: Seq<(Seq<char>, u32)>,
) -> Result<Pass2State, Diagnostic>
    decreases recs.len(),
{
    if recs.len() == 0 {
        Ok(st)
    } else {
        match run_records(st, recs.drop_last(), b) {
            Err(e) => Err(e),
            Ok(s2) => record_step(s2, recs.last(), b),
        }
    }
}

/// What pass 2 gives for the records `recs`: the Text bytes followed by the Data bytes,
/// and the diagnostics.
pub open spec fn pass2_spec(
    recs: Seq<(LineView, u32, Section)>,
    b: Seq<(Seq<char>, u32)>,
    start_text: u32,
    text_end: u32,
) -> Result<(Seq<u8>, Seq<Diagnostic>), Diagnostic> {
    match run_records(pass2_initial(start_text, text_end), recs, b) {
        Err(e) => Err(e),
        Ok(st) => Ok((st.text + st.data, st.diags)),
    }
}

/// An assembled image and the diagnostics reported on the way.
#[derive(Debug)]
pub struct Assembly {
    /// The flat image: the Text section, then the Data section.
    pub bytes: Vec<u8>,
    /// The non-fatal diagnostics, in the order they were found.
    pub diagnostics: Vec<Diagnostic>,
}

/// A fatal diagnostic before the last record leaves the result failed.
proof fn lemma_error_stays(
    st: Pass2State,
    recs: Seq<(LineView, u32, Section)>,
    b: Seq<(Seq<char>, u32)>,
    k: int,
    e: Diagnostic,
)
    requires
        0 <= k <= recs.len(),
        run_records(st, recs.take(k), b) == Err::<Pass2State, Diagnostic>(e),
    ensures
        run_records(st, recs, b) == Err::<Pass2State, Diagnostic>(e),
    decreases recs.len() - k,
{
    if k == recs.len() {
        assert(recs.take(k) =~= recs);
    } else {
        assert(recs.take(k + 1).drop_last() =~= recs.take(k));
        lemma_error_stays(st, recs, b, k + 1, e);
    }
}

/// Appends `b` to `out`.
fn append_bytes(out: &mut Vec<u8>, b: &[u8])
    ensures
        final(out)@ == old(out)@ + b@,
{
    let mut i: usize = 0;
    while i < b.len()
        invariant
            i <= b@.len(),
            out@ == old(out)@ + b@.take(i as int),
        decreases b@.len() - i,
    {
        out.push(b[i]);
        proof {
            assert(b@.take(i + 1) =~= b@.take(i as int).push(b@[i as int]));
        }
        i = i + 1;
    }
    proof {
        assert(b@.take(i as int) =~= b@);
    }
}

/// Encodes and packs the records `lines`, labels looked up in `lbl_adr`; the Text section
/// starts at `start_text` and the Data section at `text_counter`.
pub fn pass2(lines: &Vec<(Line, u32, Section)>, lbl_adr: &LabelTable, start_text: u32, text_counter: u32) -> (r:
    Result<Assembly, Diagnostic>)
    ensures
        match pass2_spec(records_view(lines@), lbl_adr@, start_text, text_counter) {
            Err(e) => r == Err::<Assembly, Diagnostic>(e),
            Ok((bytes, diags)) => r is Ok && r->Ok_0.bytes@ == bytes && r->Ok_0.diagnostics@ == diags,
        },
{
    let ghost recs = records_view(lines@);
    let ghost b = lbl_adr@;
    let mut text: Vec<u8> = Vec::new();
    let mut data: Vec<u8> = Vec::new();
    let mut text_adr = start_text;
    let mut data_adr = text_counter;
    let mut diags: Vec<Diagnostic> = Vec::new();
    let mut i: usize = 0;
    proof {
        assert(recs.take(0) =~= Seq::<(LineView, u32, Section)>::empty());
        assert(text@ =~= Seq::<u8>::empty());
        assert(data@ =~= Seq::<u8>::empty());
        assert(diags@ =~= Seq::<Diagnostic>::empty());
    }
    while i < lines.len()
        invariant
            recs == records_view(lines@),
            b == lbl_adr@,
            i <= lines@.len(),
            run_records(pass2_initial(start_text, text_counter), recs.take(i as int), b) == Ok::<
                Pass2State,
                Diagnostic,
            >(Pass2State { text: text@, data: data@, text_adr, data_adr, diags: diags@ }),
        decreases lines@.len() - i,
    {
        let ghost st = Pass2State { text: text@, data: data@, text_adr, data_adr, diags: diags@ };
        proof {
            assert(recs.take(i + 1).drop_last() =~= recs.take(i as int));
            assert(recs.take(i + 1).last() == recs[i as int]);
            reveal(record_step);
        }
        let (l, n, s) = (&lines[i].0, lines[i].1, lines[i].2);
        let adr = match s {
            Section::Text => text_adr,
            Section::Data => data_adr,
        };
        let mut bytes: Vec<u8> = Vec::new();
        let mut next: u32 = adr;
        match l {
            Line::Instr(code, args) => {
                match get_enc(code, args, lbl_adr, adr) {
                    Err(k) => {
                        proof {
                            lemma_error_stays(pass2_initial(start_text, text_counter), recs, b, i + 1, Diagnostic { kind: k, line: n });
                        }
                        return Err(Diagnostic { kind: k, line: n });
                    },
                    Ok(e) => {
                        if adr > u32::MAX - 4 {
                            proof {
                                lemma_error_stays(pass2_initial(start_text, text_counter), recs, b, i + 1, overflow_at(n));
                            }
                            return Err(Diagnostic { kind: ErrorKind::AddressOverflow, line: n });
                        }
                        bytes = get_bin(e.enc);
                        next = adr + 4;
                        if !e.resolved {
                            diags.push(Diagnostic { kind: ErrorKind::UnresolvedLabel, line: n });
                        }
                    },
                }
            },
            Line::Data(d) => {
                if d.len() > (u32::MAX - adr) as usize {
                    proof {
                        lemma_error_stays(pass2_initial(start_text, text_counter), recs, b, i + 1, overflow_at(n));
                    }
                    return Err(Diagnostic { kind: ErrorKind::AddressOverflow, line: n });
                }
                append_bytes(&mut bytes, d.as_slice());
                proof {
                    assert(bytes@ =~= d@);
                }
                next = adr + d.len() as u32;
            },
            Line::Label(name) => {
                let c = chars_of(name.as_str());
                let st_word = chars_of("START");
                if crate::tables::chars_eq(c.as_slice(), st_word.as_slice()) {
                    if adr > u32::MAX - 4 {
                        proof {
                            lemma_error_stays(pass2_initial(start_text, text_counter), recs, b, i + 1, overflow_at(n));
                        }
                        return Err(Diagnostic { kind: ErrorKind::AddressOverflow, line: n });
                    }
                    next = adr + 4;
                }
            },
        }
        match s {
            Section::Text => {
                append_bytes(&mut text, bytes.as_slice());
                text_adr = next;
            },
            Section::Data => {
                append_bytes(&mut data, bytes.as_slice());
                data_adr = next;
            },
        }
        proof {
            assert(bytes@ + Seq::<u8>::empty() =~= bytes@);
            assert(st.text + Seq::<u8>::empty() =~= st.text);
            assert(st.data + Seq::<u8>::empty() =~= st.data);
        }
        i = i + 1;
    }
    proof {
        assert(recs.take(i as int) =~= recs);
    }
    append_bytes(&mut text, data.as_slice());
    Ok(Assembly { bytes: text, diagnostics: diags })
}

/// What assembling the source `src` gives: the image and every non-fatal diagnostic, or
/// the fatal one.
pub open spec fn assemble_spec(src: Seq<char>, start_text_opt: Option<u32>) -> Result<
    (Seq<u8>, Seq<Diagnostic>),
    Diagnostic,
> {
    let origin = origin_of(start_text_opt);
    let ls = split_lines(src);
    match run_lines(initial_state(origin), ls) {
        Err(e) => Err(e),
        Ok(st) => if st.data_counter + (st.text_counter - origin) > u32::MAX {
            Err(overflow_at(ls.len() as u32))
        } else {
            match pass2_spec(st.records, merged_labels(st, origin), origin, st.text_counter) {
                Err(e) => Err(e),
                Ok((bytes, d)) => Ok((bytes, st.diags + d)),
            }
        },
    }
}

/// Assembles the source `src` into a flat image whose Text section starts at
/// `start_text_opt` (by default `DEFAULT_ORIGIN`) and is followed by the Data section.
pub fn assemble(src: &str, start_text_opt: Option<u32>) -> (r: Result<Assembly, Diagnostic>)
    ensures
        match assemble_spec(src@, start_text_opt) {
            Err(e) => r == Err::<Assembly, Diagnostic>(e),
            Ok((bytes, diags)) => r is Ok && r->Ok_0.bytes@ == bytes && r->Ok_0.diagnostics@ == diags,
        },
{
    let p1 = match pass1(src, start_text_opt) {
        Ok(p) => p,
        Err(e) => return Err(e),
    };
    let out = match pass2(&p1.lines, &p1.labels, p1.start_text, p1.text_counter) {
        Ok(a) => a,
        Err(e) => return Err(e),
    };
    let mut diagnostics = p1.diagnostics;
    let mut i: usize = 0;
    let ghost first = diagnostics@;
    while i < out.diagnostics.len()
        invariant
            i <= out.diagnostics@.len(),
            diagnostics@ == first + out.diagnostics@.take(i as int),
        decreases out.diagnostics@.len() - i,
    {
        diagnostics.push(out.diagnostics[i]);
        proof {
            assert(out.diagnostics@.take(i + 1) =~= out.diagnostics@.take(i as int).push(out.diagnostics@[i as int]));
        }
        i = i + 1;
    }
    proof {
        assert(out.diagnostics@.take(i as int) =~= out.diagnostics@);
    }
    Ok(Assembly { bytes: out.bytes, diagnostics })
}

/// Encoding the same records again, with the same label addresses and section starts,
/// gives the same bytes and diagnostics.
pub proof fn lemma_reencode_identical(
    first: Seq<(Line, u32, Section)>,
    second: Seq<(Line, u32, Section)>,
    t1: LabelTable,
    t2: LabelTable,
    start_text: u32,
    text_end: u32,
)
    requires
        records_view(first) == records_view(second),
        t1@ == t2@,
    ensures
        pass2_spec(records_view(first), t1@, start_text, text_end) == pass2_spec(
            records_view(second),
            t2@,
            start_text,
            text_end,
        ),
{
}

} // verus!
