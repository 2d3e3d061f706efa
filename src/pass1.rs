//! Pass 1, the symbol builder: source lines to records and label addresses.

use vstd::prelude::*;
use vstd::slice::{slice_subrange, slice_to_vec};
use vstd::utf8::encode_utf8;

use crate::diag::{Diagnostic, ErrorKind};
use crate::operands::{split_chars, split_operands, ArgView, Arg, Args};
use crate::symbols::{all_at_most, lemma_lookup_shifted, lookup_in, shifted, LabelTable};
use crate::tables::{code_entry, code_of_chars, find_code, first_blank, first_word, word_end, InstrCode, Syntax};
use crate::text::{chars_of, find, find_from, is_blank, string_of, trim, trim_bounds};

verus! {

/// The section that a record belongs to.
#[derive(Clone, Copy, Debug, PartialEq, Eq, Structural)]
pub enum Section {
    Text,
    Data,
}

/// One record of pass 1.
#[derive(Debug)]
pub enum Line {
    /// An instruction: 4 bytes.
    Instr(InstrCode<'static>, Args<Arg>),
    /// A label bound to the address of what follows it: no bytes.
    Label(String),
    /// Raw bytes of a data directive.
    Data(Vec<u8>),
}

/// A record as a mathematical value.
pub enum LineView {
    Instr(InstrCode<'static>, Args<ArgView>),
    Label(Seq<char>),
    Data(Seq<u8>),
}

impl View for Line {
    type V = LineView;

    open spec fn view(&self) -> LineView {
        match self {
            Line::Instr(c, a) => LineView::Instr(*c, a@),
            Line::Label(l) => LineView::Label(l@),
            Line::Data(d) => LineView::Data(d@),
        }
    }
}

/// The records `r` as mathematical values.
pub open spec fn records_view(r: Seq<(Line, u32, Section)>) -> Seq<(LineView, u32, Section)> {
    Seq::new(r.len(), |i: int| (r[i].0@, r[i].1, r[i].2))
}

/// The state of pass 1 between two lines.
pub struct Pass1State {
    /// The records emitted so far.
    pub records: Seq<(LineView, u32, Section)>,
    /// The label bindings of the Text section.
    pub text: Seq<(Seq<char>, u32)>,
    /// The label bindings of the Data section, at section-local addresses.
    pub data: Seq<(Seq<char>, u32)>,
    /// The next address of the Text section.
    pub text_counter: u32,
    /// The next section-local address of the Data section.
    pub data_counter: u32,
    /// The active section.
    pub section: Section,
    /// Whether a label opened the current statement block.
    pub labelled: bool,
    /// The non-fatal diagnostics so far.
    pub diags: Seq<Diagnostic>,
}

/// The state before the first line, both counters at `origin`.
pub open spec fn initial_state(origin: u32) -> Pass1State {
    Pass1State {
        records: Seq::empty(),
        text: Seq::empty(),
        data: Seq::empty(),
        text_counter: origin,
        data_counter: origin,
        section: Section::Text,
        labelled: false,
        diags: Seq::empty(),
    }
}

/// The counter of the active section.
pub open spec fn counter(st: Pass1State) -> u32 {
    if st.section == Section::Text {
        st.text_counter
    } else {
        st.data_counter
    }
}

/// The bindings of the active section.
pub open spec fn table(st: Pass1State) -> Seq<(Seq<char>, u32)> {
    if st.section == Section::Text {
        st.text
    } else {
        st.data
    }
}

/// `st` with the counter of the active section set to `c`.
pub open spec fn with_counter(st: Pass1State, c: u32) -> Pass1State {
    if st.section == Section::Text {
        Pass1State { text_counter: c, ..st }
    } else {
        Pass1State { data_counter: c, ..st }
    }
}

/// `st` with the bindings of the active section set to `b`.
pub open spec fn with_table(st: Pass1State, b: Seq<(Seq<char>, u32)>) -> Pass1State {
    if st.section == Section::Text {
        Pass1State { text: b, ..st }
    } else {
        Pass1State { data: b, ..st }
    }
}

/// `st` with a diagnostic of kind `k` on line `n`.
pub open spec fn with_diag(st: Pass1State, k: ErrorKind, n: u32) -> Pass1State {
    Pass1State { diags: st.diags.push(Diagnostic { kind: k, line: n }), ..st }
}

/// `st` with the record `l` of line `n` in the active section.
pub open spec fn with_record(st: Pass1State, l: LineView, n: u32) -> Pass1State {
    Pass1State { records: st.records.push((l, n, st.section)), ..st }
}

/// The fatal diagnostic for an address past the 32-bit space, on line `n`.
pub open spec fn overflow_at(n: u32) -> Diagnostic {
    Diagnostic { kind: ErrorKind::AddressOverflow, line: n }
}

/// `st` after `size` more bytes of the record `l` of line `n`.
pub open spec fn emit(st: Pass1State, l: LineView, n: u32, size: int) -> Result<Pass1State, Diagnostic> {
    if counter(st) + size > u32::MAX {
        Err(overflow_at(n))
    } else {
        Ok(with_counter(with_record(st, l, n), (counter(st) + size) as u32))
    }
}

/// Whether `s` holds a blank.
pub open spec fn has_blank(s: Seq<char>) -> bool {
    exists|i: int| 0 <= i < s.len() && is_blank(#[trigger] s[i])
}

/// The label `name` defined on line `n`.
///
/// A name already bound in the active section is reported and left bound where it was.
/// Otherwise, for `START`, every address bound so far in the section moves up by 4 and so
/// does the counter, leaving room for a jump to it; then the name is bound to the counter.
pub open spec fn label_step(st: Pass1State, name: Seq<char>, n: u32) -> Result<Pass1State, Diagnostic> {
    let st1 = if has_blank(name) {
        with_diag(st, ErrorKind::InvalidLabelName, n)
    } else {
        st
    };
    let start = name == "START"@;
    let c = counter(st1);
    if lookup_in(table(st1), name) is Some {
        Ok(with_diag(st1, ErrorKind::DuplicateLabel, n))
    } else if start && c + 4 > u32::MAX {
        Err(overflow_at(n))
    } else {
        let c2 = if start { (c + 4) as u32 } else { c };
        let b = if start { shifted(table(st1), 4) } else { table(st1) };
        let st2 = with_counter(with_table(st1, b.push((name, c2))), c2);
        Ok(Pass1State { labelled: true, ..with_record(st2, LineView::Label(name), n) })
    }
}

/// The bytes of a string directive named `name` whose text after the name is `rest`:
/// the UTF-8 of what stands between the first two double quotes, then a zero byte
/// for `.asciiz`; `None` when a quote is missing.
pub open spec fn string_payload(name: Seq<char>, rest: Seq<char>) -> Option<Seq<u8>> {
    let q1 = find(rest, '"', 0);
    let q2 = find(rest, '"', q1 + 1);
    if q1 == rest.len() || q2 == rest.len() {
        None
    } else {
        let text = encode_utf8(rest.subrange(q1 + 1, q2));
        Some(if name == ".asciiz"@ { text.push(0u8) } else { text })
    }
}

/// The directive `s` (starting with `.`) on line `n`.
///
/// `.ascii` and `.asciiz` emit their bytes; `.data` and `.text` make their section the
/// active one; any other directive is ignored.
pub open spec fn directive_step(st: Pass1State, s: Seq<char>, n: u32) -> Result<Pass1State, Diagnostic> {
    let w = word_end(s, 0);
    let name = s.take(w);
    if name == ".ascii"@ || name == ".asciiz"@ {
        match string_payload(name, s.skip(w)) {
            None => Ok(with_diag(st, ErrorKind::MalformedDirective, n)),
            Some(b) => emit(st, LineView::Data(b), n, b.len() as int),
        }
    } else if name == ".data"@ {
        Ok(Pass1State { section: Section::Data, ..st })
    } else if name == ".text"@ {
        Ok(Pass1State { section: Section::Text, ..st })
    } else {
        Ok(st)
    }
}

/// Whether operands `a`, split from the text `ops`, are the indexed form `offset(base)`
/// with no target before it, which the load and store classes cannot take.
pub open spec fn lacks_target(syntax: Syntax, ops: Seq<char>, a: Args<ArgView>) -> bool {
    (syntax == Syntax::LoadStore || syntax == Syntax::AtomicLoadStore) && a is Two && find(ops, '(', 0)
        < ops.len()
}

/// The instruction `s` on line `n`: its mnemonic, then its operand text.
pub open spec fn instr_step(st: Pass1State, s: Seq<char>, n: u32) -> Result<Pass1State, Diagnostic> {
    let code = code_entry(find_code(first_word(s), 0));
    let st1 = if code.code == -1 {
        with_diag(st, ErrorKind::UnknownInstruction, n)
    } else {
        st
    };
    let ops = s.skip(word_end(s, 0));
    match split_operands(ops) {
        Err(e) => Ok(with_diag(st1, e, n)),
        Ok(a) => if lacks_target(code.syntax, ops, a) {
            Ok(with_diag(st1, ErrorKind::MalformedOperand, n))
        } else {
            emit(st1, LineView::Instr(code, a), n, 4)
        },
    }
}

/// The statement `s` (a line without its label) on line `n`.
pub open spec fn statement_step(st: Pass1State, s: Seq<char>, n: u32) -> Result<Pass1State, Diagnostic> {
    if s.len() == 0 {
        Ok(st)
    } else if s[0] == '.' {
        directive_step(st, s, n)
    } else {
        instr_step(st, s, n)
    }
}

/// The source line `l`, number `n`.
///
/// The text from `#` on is a comment. A line that starts without a blank ends the
/// current statement block; an indented line outside a labelled block is reported.
/// Text before the first `:` is a label; the rest is a statement.
#[verifier::opaque]
pub open spec fn line_step(st: Pass1State, l: Seq<char>, n: u32) -> Result<Pass1State, Diagnostic> {
    let nc = l.take(find(l, '#', 0));
    let t = trim(nc);
    if t.len() == 0 {
        Ok(st)
    } else {
        let st1 = if !is_blank(nc[0]) {
            Pass1State { labelled: false, ..st }
        } else if !st.labelled {
            with_diag(st, ErrorKind::DanglingIndent, n)
        } else {
            st
        };
        let colon = find(t, ':', 0);
        if colon < t.len() {
            match label_step(st1, t.take(colon), n) {
                Err(e) => Err(e),
                Ok(st2) => statement_step(st2, trim(t.skip(colon + 1)), n),
            }
        } else {
            statement_step(st1, t, n)
        }
    }
}

/// The state after the lines `ls`, numbered from 1, starting from `st`.
pub open spec fn run_lines(st: Pass1State, ls: Seq<Seq<char>>) -> Result<Pass1State, Diagnostic>
    decreases ls.len(),
{
    if ls.len() == 0 {
        Ok(st)
    } else {
        match run_lines(st, ls.drop_last()) {
            Err(e) => Err(e),
            Ok(s2) => line_step(s2, ls.last(), ls.len() as u32),
        }
    }
}

/// Counters never pass below the origin, and no bound address passes its section's counter.
pub open spec fn state_wf(st: Pass1State, origin: u32) -> bool {
    &&& origin <= st.text_counter
    &&& origin <= st.data_counter
    &&& all_at_most(st.text, st.text_counter as int)
    &&& all_at_most(st.data, st.data_counter as int)
}

/// `l` without one trailing carriage return.
pub open spec fn strip_cr(l: Seq<char>) -> Seq<char> {
    if l.len() > 0 && l.last() == '\r' {
        l.drop_last()
    } else {
        l
    }
}

/// The finished lines and the unfinished line of the first `i` characters of `s`.
pub open spec fn lines_upto(s: Seq<char>, i: int) -> (Seq<Seq<char>>, Seq<char>)
    decreases i,
{
    if i <= 0 || i > s.len() {
        (Seq::empty(), Seq::empty())
    } else {
        let (done, cur) = lines_upto(s, i - 1);
        if s[i - 1] == '\n' {
            (done.push(strip_cr(cur)), Seq::empty())
        } else {
            (done, cur.push(s[i - 1]))
        }
    }
}

/// The lines of `s`: split at `\n`, each without a trailing `\r`; a last empty line does not count.
pub open spec fn split_lines(s: Seq<char>) -> Seq<Seq<char>> {
    let (done, cur) = lines_upto(s, s.len() as int);
    if cur.len() > 0 {
        done.push(strip_cr(cur))
    } else {
        done
    }
}

/// The lines of `s`, as character vectors.
fn lines_of(s: &[char]) -> (r: Vec<Vec<char>>)
    ensures
        Seq::new(r@.len(), |k: int| r@[k]@) == split_lines(s@),
{
    let mut done: Vec<Vec<char>> = Vec::new();
    let mut cur: Vec<char> = Vec::new();
    let mut i: usize = 0;
    while i < s.len()
        invariant
            i <= s@.len(),
            (Seq::new(done@.len(), |k: int| done@[k]@), cur@) == lines_upto(s@, i as int),
        decreases s@.len() - i,
    {
        let ghost old_done = done@;
        if s[i] == '\n' {
            let line = strip_cr_vec(cur);
            done.push(line);
            cur = Vec::new();
            proof {
                assert(Seq::new(done@.len(), |k: int| done@[k]@) =~= Seq::new(
                    old_done.len(),
                    |k: int| old_done[k]@,
                ).push(line@));
            }
        } else {
            cur.push(s[i]);
            proof {
                assert(Seq::new(done@.len(), |k: int| done@[k]@) =~= Seq::new(
                    old_done.len(),
                    |k: int| old_done[k]@,
                ));
            }
        }
        i = i + 1;
    }
    if cur.len() > 0 {
        let ghost old_done = done@;
        let line = strip_cr_vec(cur);
        done.push(line);
        proof {
            assert(Seq::new(done@.len(), |k: int| done@[k]@) =~= Seq::new(
                old_done.len(),
                |k: int| old_done[k]@,
            ).push(line@));
        }
    }
    done
}

/// `l` without one trailing carriage return.
fn strip_cr_vec(l: Vec<char>) -> (r: Vec<char>)
    ensures
        r@ == strip_cr(l@),
{
    let mut l = l;
    if l.len() > 0 && l[l.len() - 1] == '\r' {
        l.pop();
    }
    l
}

/// The working state of pass 1.
struct Builder {
    records: Vec<(Line, u32, Section)>,
    text: LabelTable,
    data: LabelTable,
    text_counter: u32,
    data_counter: u32,
    section: Section,
    labelled: bool,
    diags: Vec<Diagnostic>,
    origin: u32,
}

impl View for Builder {
    type V = Pass1State;

    closed spec fn view(&self) -> Pass1State {
        Pass1State {
            records: records_view(self.records@),
            text: self.text@,
            data: self.data@,
            text_counter: self.text_counter,
            data_counter: self.data_counter,
            section: self.section,
            labelled: self.labelled,
            diags: self.diags@,
        }
    }
}

/// Whether `a` and the text `lit` hold the same characters.
fn is_word(a: &[char], lit: &str) -> (r: bool)
    ensures
        r == (a@ == lit@),
{
    let l = chars_of(lit);
    crate::tables::chars_eq(a, l.as_slice())
}

/// Whether `s` holds a blank.
fn holds_blank(s: &[char]) -> (r: bool)
    ensures
        r == has_blank(s@),
{
    let mut i: usize = 0;
    while i < s.len()
        invariant
            i <= s@.len(),
            forall|j: int| 0 <= j < i ==> !is_blank(#[trigger] s@[j]),
        decreases s@.len() - i,
    {
        if s[i] == ' ' || s[i] == '\t' {
            return true;
        }
        i = i + 1;
    }
    false
}

/// The bytes of a string directive, as `string_payload` gives them.
fn payload(asciiz: bool, rest: &[char]) -> (r: Option<Vec<u8>>)
    ensures
        r matches Some(v) ==> string_payload(if asciiz { ".asciiz"@ } else { ".ascii"@ }, rest@)
            == Some(v@),
        r is None ==> string_payload(if asciiz { ".asciiz"@ } else { ".ascii"@ }, rest@) is None,
{
    let ghost name = if asciiz { ".asciiz"@ } else { ".ascii"@ };
    let q1 = find_from(rest, '"', 0);
    if q1 == rest.len() {
        return None;
    }
    let q2 = find_from(rest, '"', q1 + 1);
    if q2 == rest.len() {
        return None;
    }
    let text = string_of(slice_subrange(rest, q1 + 1, q2));
    let mut v = slice_to_vec(text.as_str().as_bytes());
    if asciiz {
        v.push(0u8);
    }
    proof {
        if !asciiz {
            reveal_strlit(".ascii");
            reveal_strlit(".asciiz");
            assert(".ascii"@.len() == 6 && ".asciiz"@.len() == 7);
            assert(name != ".asciiz"@);
        }
    }
    Some(v)
}

impl Builder {
    fn new(origin: u32) -> (r: Builder)
        ensures
            r@ == initial_state(origin),
            r.origin == origin,
            state_wf(r@, origin),
    {
        let r = Builder {
            records: Vec::new(),
            text: LabelTable::new(),
            data: LabelTable::new(),
            text_counter: origin,
            data_counter: origin,
            section: Section::Text,
            labelled: false,
            diags: Vec::new(),
            origin,
        };
        proof {
            assert(r@.records =~= Seq::<(LineView, u32, Section)>::empty());
            assert(r@.diags =~= Seq::<Diagnostic>::empty());
        }
        r
    }

    fn diag(&mut self, k: ErrorKind, n: u32)
        ensures
            final(self)@ == with_diag(old(self)@, k, n),
            final(self).origin == old(self).origin,
    {
        self.diags.push(Diagnostic { kind: k, line: n });
    }

    fn counter(&self) -> (r: u32)
        ensures
            r == counter(self@),
    {
        match self.section {
            Section::Text => self.text_counter,
            Section::Data => self.data_counter,
        }
    }

    fn push_record(&mut self, l: Line, n: u32)
        ensures
            final(self)@ == with_record(old(self)@, l@, n),
            final(self).origin == old(self).origin,
    {
        let sect = self.section;
        self.records.push((l, n, sect));
        proof {
            assert(records_view(self.records@) =~= records_view(old(self).records@).push((l@, n, sect)));
        }
    }

    fn emit(&mut self, l: Line, n: u32, size: usize) -> (r: Result<(), Diagnostic>)
        requires
            state_wf(old(self)@, old(self).origin),
        ensures
            final(self).origin == old(self).origin,
            match emit(old(self)@, l@, n, size as int) {
                Ok(s) => r is Ok && final(self)@ == s && state_wf(s, old(self).origin),
                Err(e) => r == Err::<(), Diagnostic>(e),
            },
    {
        let c = self.counter();
        if size > (u32::MAX - c) as usize {
            return Err(Diagnostic { kind: ErrorKind::AddressOverflow, line: n });
        }
        let c2 = c + size as u32;
        self.push_record(l, n);
        match self.section {
            Section::Text => self.text_counter = c2,
            Section::Data => self.data_counter = c2,
        }
        Ok(())
    }

    fn label(&mut self, name: &[char], n: u32) -> (r: Result<(), Diagnostic>)
        requires
            state_wf(old(self)@, old(self).origin),
        ensures
            final(self).origin == old(self).origin,
            match label_step(old(self)@, name@, n) {
                Ok(s) => r is Ok && final(self)@ == s && state_wf(s, old(self).origin),
                Err(e) => r == Err::<(), Diagnostic>(e),
            },
    {
        if holds_blank(name) {
            self.diag(ErrorKind::InvalidLabelName, n);
        }
        let ghost st1 = self@;
        let name_s = string_of(name);
        let start = is_word(name, "START");
        let c = self.counter();
        let bound = match self.section {
            Section::Text => self.text.get(name_s.as_str()),
            Section::Data => self.data.get(name_s.as_str()),
        };
        if bound.is_some() {
            self.diag(ErrorKind::DuplicateLabel, n);
            return Ok(());
        }
        if start && c > u32::MAX - 4 {
            return Err(Diagnostic { kind: ErrorKind::AddressOverflow, line: n });
        }
        let c2 = if start {
            c + 4
        } else {
            c
        };
        proof {
            if start {
                assert(all_at_most(table(st1), u32::MAX - 4));
                lemma_lookup_shifted(table(st1), name@, 4, 0);
            }
        }
        match self.section {
            Section::Text => {
                if start {
                    self.text.shift_all(4);
                }
                self.text.bind(name_s.as_str(), c2);
                self.text_counter = c2;
            },
            Section::Data => {
                if start {
                    self.data.shift_all(4);
                }
                self.data.bind(name_s.as_str(), c2);
                self.data_counter = c2;
            },
        }
        self.push_record(Line::Label(name_s), n);
        self.labelled = true;
        proof {
            let b = if start { shifted(table(st1), 4) } else { table(st1) };
            assert(all_at_most(b, c2 as int));
            assert(all_at_most(b.push((name@, c2)), c2 as int));
        }
        Ok(())
    }

    fn directive(&mut self, s: &[char], n: u32) -> (r: Result<(), Diagnostic>)
        requires
            state_wf(old(self)@, old(self).origin),
        ensures
            final(self).origin == old(self).origin,
            match directive_step(old(self)@, s@, n) {
                Ok(st) => r is Ok && final(self)@ == st && state_wf(st, old(self).origin),
                Err(e) => r == Err::<(), Diagnostic>(e),
            },
    {
        let w = first_blank(s);
        let name = slice_subrange(s, 0, w);
        let rest = slice_subrange(s, w, s.len());
        proof {
            assert(name@ =~= s@.take(w as int));
            assert(rest@ =~= s@.skip(w as int));
        }
        let asciiz = is_word(name, ".asciiz");
        if is_word(name, ".ascii") || asciiz {
            match payload(asciiz, rest) {
                None => {
                    self.diag(ErrorKind::MalformedDirective, n);
                    Ok(())
                },
                Some(b) => {
                    let len = b.len();
                    self.emit(Line::Data(b), n, len)
                },
            }
        } else if is_word(name, ".data") {
            self.section = Section::Data;
            Ok(())
        } else if is_word(name, ".text") {
            self.section = Section::Text;
            Ok(())
        } else {
            Ok(())
        }
    }

    fn instruction(&mut self, s: &[char], n: u32) -> (r: Result<(), Diagnostic>)
        requires
            state_wf(old(self)@, old(self).origin),
        ensures
            final(self).origin == old(self).origin,
            match instr_step(old(self)@, s@, n) {
                Ok(st) => r is Ok && final(self)@ == st && state_wf(st, old(self).origin),
                Err(e) => r == Err::<(), Diagnostic>(e),
            },
    {
        let code = code_of_chars(s);
        if code.code == -1 {
            self.diag(ErrorKind::UnknownInstruction, n);
        }
        let w = first_blank(s);
        let ops = slice_subrange(s, w, s.len());
        proof {
            assert(ops@ =~= s@.skip(w as int));
        }
        match split_chars(ops) {
            Err(e) => {
                self.diag(e, n);
                Ok(())
            },
            Ok(a) => {
                let indexed = code.syntax == Syntax::LoadStore || code.syntax == Syntax::AtomicLoadStore;
                let two = match &a {
                    Args::Two(..) => true,
                    _ => false,
                };
                if indexed && two && find_from(ops, '(', 0) < ops.len() {
                    self.diag(ErrorKind::MalformedOperand, n);
                    Ok(())
                } else {
                    self.emit(Line::Instr(code, a), n, 4)
                }
            },
        }
    }

    fn statement(&mut self, s: &[char], n: u32) -> (r: Result<(), Diagnostic>)
        requires
            state_wf(old(self)@, old(self).origin),
        ensures
            final(self).origin == old(self).origin,
            match statement_step(old(self)@, s@, n) {
                Ok(st) => r is Ok && final(self)@ == st && state_wf(st, old(self).origin),
                Err(e) => r == Err::<(), Diagnostic>(e),
            },
    {
        if s.len() == 0 {
            Ok(())
        } else if s[0] == '.' {
            self.directive(s, n)
        } else {
            self.instruction(s, n)
        }
    }

    fn line(&mut self, l: &[char], n: u32) -> (r: Result<(), Diagnostic>)
        requires
            state_wf(old(self)@, old(self).origin),
        ensures
            final(self).origin == old(self).origin,
            match line_step(old(self)@, l@, n) {
                Ok(st) => r is Ok && final(self)@ == st && state_wf(st, old(self).origin),
                Err(e) => r == Err::<(), Diagnostic>(e),
            },
    {
        reveal(line_step);
        let h = find_from(l, '#', 0);
        let nc = slice_subrange(l, 0, h);
        proof {
            assert(nc@ =~= l@.take(h as int));
            assert(nc@.subrange(0, nc@.len() as int) =~= nc@);
        }
        let (b, e) = trim_bounds(nc, 0, nc.len());
        if b == e {
            return Ok(());
        }
        let t = slice_subrange(nc, b, e);
        if !(nc[0] == ' ' || nc[0] == '\t') {
            self.labelled = false;
        } else if !self.labelled {
            self.diag(ErrorKind::DanglingIndent, n);
        }
        let colon = find_from(t, ':', 0);
        if colon < t.len() {
            let name = slice_subrange(t, 0, colon);
            proof {
                assert(name@ =~= t@.take(colon as int));
            }
            match self.label(name, n) {
                Err(e) => Err(e),
                Ok(()) => {
                    let (b2, e2) = trim_bounds(t, colon + 1, t.len());
                    proof {
                        assert(t@.subrange(colon + 1, t@.len() as int) =~= t@.skip(colon + 1));
                    }
                    self.statement(slice_subrange(t, b2, e2), n)
                },
            }
        } else {
            self.statement(t, n)
        }
    }
}

/// A label already bound in the active section is rejected: its first address stays, no
/// record is emitted, and a `DuplicateLabel` diagnostic is reported.
pub proof fn lemma_duplicate_label_rejected(st: Pass1State, name: Seq<char>, n: u32)
    requires
        lookup_in(table(st), name) is Some,
    ensures
        label_step(st, name, n) matches Ok(s2) && {
            &&& s2.text == st.text
            &&& s2.data == st.data
            &&& lookup_in(table(s2), name) == lookup_in(table(st), name)
            &&& s2.records == st.records
            &&& s2.text_counter == st.text_counter
            &&& s2.data_counter == st.data_counter
            &&& s2.diags.last() == Diagnostic { kind: ErrorKind::DuplicateLabel, line: n }
        },
{
}

/// A first definition of `name` in the active section binds it: to the section's counter,
/// or, for `START`, to the counter moved up by 4, every earlier binding moving with it.
pub proof fn lemma_first_label_bound(st: Pass1State, name: Seq<char>, n: u32)
    requires
        lookup_in(table(st), name) is None,
        counter(st) + 4 <= u32::MAX,
    ensures
        label_step(st, name, n) matches Ok(s2) && {
            let c = if name == "START"@ { counter(st) + 4 } else { counter(st) as int };
            let earlier = if name == "START"@ { shifted(table(st), 4) } else { table(st) };
            &&& table(s2) == earlier.push((name, c as u32))
            &&& counter(s2) == c
            &&& s2.records == st.records.push((LineView::Label(name), n, st.section))
        },
{
}

/// What pass 1 hands to pass 2.
#[derive(Debug)]
pub struct Pass1Output {
    /// The records, in source order, each with its line number and section.
    pub lines: Vec<(Line, u32, Section)>,
    /// Every label's final address; Data labels come first and hide a Text label of the same name.
    pub labels: LabelTable,
    /// The origin: the address of the first Text byte.
    pub start_text: u32,
    /// The end of the Text section; the Data section starts there.
    pub text_counter: u32,
    /// The non-fatal diagnostics, in source order.
    pub diagnostics: Vec<Diagnostic>,
}

/// The origin used when none is given.
pub const DEFAULT_ORIGIN: u32 = 0x1000;

/// The origin that `o` asks for.
pub open spec fn origin_of(o: Option<u32>) -> u32 {
    match o {
        Some(n) => n,
        None => DEFAULT_ORIGIN,
    }
}

/// Label bindings after pass 1: the Data bindings moved past the Text section, then the
/// Text bindings.
pub open spec fn merged_labels(st: Pass1State, origin: u32) -> Seq<(Seq<char>, u32)> {
    shifted(st.data, st.text_counter - origin) + st.text
}

/// A fatal diagnostic before the last line leaves the result failed.
proof fn lemma_error_stays(st: Pass1State, ls: Seq<Seq<char>>, k: int, e: Diagnostic)
    requires
        0 <= k <= ls.len(),
        run_lines(st, ls.take(k)) == Err::<Pass1State, Diagnostic>(e),
    ensures
        run_lines(st, ls) == Err::<Pass1State, Diagnostic>(e),
    decreases ls.len() - k,
{
    if k == ls.len() {
        assert(ls.take(k) =~= ls);
    } else {
        assert(ls.take(k + 1).drop_last() =~= ls.take(k));
        lemma_error_stays(st, ls, k + 1, e);
    }
}

/// Pass 1 over the source `assem`, the Text section starting at `start_text_opt`
/// (by default `DEFAULT_ORIGIN`).
pub fn pass1(assem: &str, start_text_opt: Option<u32>) -> (r: Result<Pass1Output, Diagnostic>)
    ensures
        ({
            let origin = origin_of(start_text_opt);
            let ls = split_lines(assem@);
            match run_lines(initial_state(origin), ls) {
                Err(e) => r == Err::<Pass1Output, Diagnostic>(e),
                Ok(st) => if st.data_counter + (st.text_counter - origin) > u32::MAX {
                    r == Err::<Pass1Output, Diagnostic>(overflow_at(ls.len() as u32))
                } else {
                    &&& r is Ok
                    &&& records_view(r->Ok_0.lines@) == st.records
                    &&& r->Ok_0.labels@ == merged_labels(st, origin)
                    &&& r->Ok_0.start_text == origin
                    &&& r->Ok_0.text_counter == st.text_counter
                    &&& r->Ok_0.diagnostics@ == st.diags
                },
            }
        }),
{
    let origin = match start_text_opt {
        Some(n) => n,
        None => DEFAULT_ORIGIN,
    };
    let c = chars_of(assem);
    let lines = lines_of(c.as_slice());
    let ghost ls = split_lines(assem@);
    proof {
        assert(origin == origin_of(start_text_opt));
    }
    let mut b = Builder::new(origin);
    let mut i: usize = 0;
    proof {
        assert(ls =~= Seq::new(lines@.len(), |k: int| lines@[k]@));
        assert(ls.take(0) =~= Seq::<Seq<char>>::empty());
    }
    while i < lines.len()
        invariant
            ls == split_lines(assem@),
            origin == origin_of(start_text_opt),
            ls == Seq::new(lines@.len(), |k: int| lines@[k]@),
            i <= lines@.len(),
            b.origin == origin,
            state_wf(b@, origin),
            run_lines(initial_state(origin), ls.take(i as int)) == Ok::<Pass1State, Diagnostic>(b@),
        decreases lines@.len() - i,
    {
        proof {
            assert(ls.take(i + 1).drop_last() =~= ls.take(i as int));
            assert(ls.take(i + 1).last() == lines@[i as int]@);
        }
        match b.line(lines[i].as_slice(), #[verifier::truncate] ((i + 1) as u32)) {
            Err(e) => {
                proof {
                    lemma_error_stays(initial_state(origin), ls, i + 1, e);
                }
                return Err(e);
            },
            Ok(()) => {},
        }
        i = i + 1;
    }
    proof {
        assert(ls.take(i as int) =~= ls);
    }
    let size = b.text_counter - origin;
    if b.data_counter > u32::MAX - size {
        return Err(
            Diagnostic { kind: ErrorKind::AddressOverflow, line: #[verifier::truncate] (lines.len() as u32) },
        );
    }
    let mut labels = LabelTable::new();
    labels.append_shifted(&b.data, size);
    labels.append_shifted(&b.text, 0);
    proof {
        assert(shifted(b.text@, 0) =~= b.text@);
    }
    Ok(
        Pass1Output {
            lines: b.records,
            labels,
            start_text: origin,
            text_counter: b.text_counter,
            diagnostics: b.diags,
        },
    )
}

} // verus!
