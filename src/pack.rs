//! Instruction encodings and their packing into 32-bit big-endian words.

use vstd::prelude::*;

verus! {

/// The operand values of one encoded instruction.
///
/// `Register(override, src, tgt, dst, shamt, func)`,
/// `Immediate(opcode, src, tgt, imm16)` and `Jump(opcode, imm26)`.
#[derive(Clone, Copy, Debug, PartialEq, Eq, Structural)]
pub enum Encoding {
    Register(i8, i8, i8, i8, i8, i8),
    Immediate(i8, i8, i8, i16),
    Jump(i8, i32),
}

/// The three physical word layouts.
#[derive(Clone, Copy, Debug, PartialEq, Eq, Structural)]
pub enum Layout {
    Register,
    Immediate,
    Jump,
}

/// The layout that packs `e`.
pub open spec fn layout_of(e: Encoding) -> Layout {
    match e {
        Encoding::Register(..) => Layout::Register,
        Encoding::Immediate(..) => Layout::Immediate,
        Encoding::Jump(..) => Layout::Jump,
    }
}

/// Every field of `e` fits the bit width its layout gives it.
pub open spec fn fits(e: Encoding) -> bool {
    match e {
        Encoding::Register(o, s, t, d, a, f) => 0 <= o < 64 && 0 <= s < 32 && 0 <= t < 32
            && 0 <= d < 32 && 0 <= a < 32 && 0 <= f < 64,
        Encoding::Immediate(o, s, t, _) => 0 <= o < 64 && 0 <= s < 32 && 0 <= t < 32,
        Encoding::Jump(o, i) => 0 <= o < 64 && 0 <= i < 0x400_0000,
    }
}

/// First byte shared by the layouts: six bits of `op`, then the high two bits of `hi5`.
pub open spec fn head_byte(op: u8, hi: u8) -> u8 {
    ((op & 63u8) << 2u8) | (hi & 3u8)
}

/// The four bytes of `e`, most significant first; each field is cut to its width.
pub open spec fn pack(e: Encoding) -> Seq<u8> {
    match e {
        Encoding::Register(o, s, t, d, a, f) => seq![
            head_byte(o as u8, (s as u8) >> 3u8),
            (((s as u8) & 7u8) << 5u8) | ((t as u8) & 31u8),
            (((d as u8) & 31u8) << 3u8) | (((a as u8) >> 2u8) & 7u8),
            (((a as u8) & 3u8) << 6u8) | ((f as u8) & 63u8),
        ],
        Encoding::Immediate(o, s, t, i) => seq![
            head_byte(o as u8, (s as u8) >> 3u8),
            (((s as u8) & 7u8) << 5u8) | ((t as u8) & 31u8),
            ((i as u16) >> 8u16) as u8,
            i as u8,
        ],
        Encoding::Jump(o, i) => seq![
            head_byte(o as u8, ((i as u32) >> 24u32) as u8),
            ((i as u32) >> 16u32) as u8,
            ((i as u32) >> 8u32) as u8,
            i as u8,
        ],
    }
}

/// Reads the fields of layout `l` back out of the four bytes `b`.
pub open spec fn unpack(b: Seq<u8>, l: Layout) -> Encoding {
    let o = (b[0] >> 2u8) as i8;
    let s = (((b[0] & 3u8) << 3u8) | (b[1] >> 5u8)) as i8;
    let t = (b[1] & 31u8) as i8;
    match l {
        Layout::Register => Encoding::Register(
            o,
            s,
            t,
            (b[2] >> 3u8) as i8,
            (((b[2] & 7u8) << 2u8) | (b[3] >> 6u8)) as i8,
            (b[3] & 63u8) as i8,
        ),
        Layout::Immediate => Encoding::Immediate(
            o,
            s,
            t,
            (((b[2] as u16) << 8u16) | (b[3] as u16)) as i16,
        ),
        Layout::Jump => Encoding::Jump(
            o,
            ((((b[0] & 3u8) as u32) << 24u32) | ((b[1] as u32) << 16u32) | ((b[2] as u32) << 8u32)
                | (b[3] as u32)) as i32,
        ),
    }
}

/// Packs `enc` into four bytes, most significant first, in the layout of its variant.
pub fn get_bin(enc: Encoding) -> (r: Vec<u8>)
    ensures
        r@ == pack(enc),
{
    let mut b: Vec<u8> = Vec::new();
    match enc {
        Encoding::Register(o, s, t, d, a, f) => {
            b.push((((o as u8) & 63) << 2) | (((s as u8) >> 3) & 3));
            b.push((((s as u8) & 7) << 5) | ((t as u8) & 31));
            b.push((((d as u8) & 31) << 3) | (((a as u8) >> 2) & 7));
            b.push((((a as u8) & 3) << 6) | ((f as u8) & 63));
        },
        Encoding::Immediate(o, s, t, i) => {
            b.push((((o as u8) & 63) << 2) | (((s as u8) >> 3) & 3));
            b.push((((s as u8) & 7) << 5) | ((t as u8) & 31));
            b.push(((i as u16) >> 8) as u8);
            b.push(i as u8);
        },
        Encoding::Jump(o, i) => {
            b.push((((o as u8) & 63) << 2) | ((((i as u32) >> 24) as u8) & 3));
            b.push(((i as u32) >> 16) as u8);
            b.push(((i as u32) >> 8) as u8);
            b.push(i as u8);
        },
    }
    proof {
        assert(b@ =~= pack(enc));
    }
    b
}

/// Unpacking a packed word gives back every encoding whose fields fit their widths.
pub proof fn lemma_pack_round_trip(e: Encoding)
    requires
        fits(e),
    ensures
        pack(e).len() == 4,
        unpack(pack(e), layout_of(e)) == e,
{
    let b = pack(e);
    let (b0, b1, b2, b3) = (b[0], b[1], b[2], b[3]);
    match e {
        Encoding::Register(o, s, t, d, a, f) => {
            let (ou, su, tu, du, au, fu) = (o as u8, s as u8, t as u8, d as u8, a as u8, f as u8);
            assert(((b0 >> 2u8) as i8) == o) by (bit_vector)
                requires
                    0 <= o < 64,
                    ou == o as u8,
                    b0 == ((ou & 63u8) << 2u8) | ((su >> 3u8) & 3u8),
            ;
            assert(((((b0 & 3u8) << 3u8) | (b1 >> 5u8)) as i8) == s) by (bit_vector)
                requires
                    0 <= s < 32,
                    su == s as u8,
                    b0 == ((ou & 63u8) << 2u8) | ((su >> 3u8) & 3u8),
                    b1 == ((su & 7u8) << 5u8) | (tu & 31u8),
            ;
            assert(((b1 & 31u8) as i8) == t) by (bit_vector)
                requires
                    0 <= t < 32,
                    tu == t as u8,
                    b1 == ((su & 7u8) << 5u8) | (tu & 31u8),
            ;
            assert(((b2 >> 3u8) as i8) == d) by (bit_vector)
                requires
                    0 <= d < 32,
                    du == d as u8,
                    b2 == ((du & 31u8) << 3u8) | ((au >> 2u8) & 7u8),
            ;
            assert(((((b2 & 7u8) << 2u8) | (b3 >> 6u8)) as i8) == a) by (bit_vector)
                requires
                    0 <= a < 32,
                    au == a as u8,
                    b2 == ((du & 31u8) << 3u8) | ((au >> 2u8) & 7u8),
                    b3 == ((au & 3u8) << 6u8) | (fu & 63u8),
            ;
            assert(((b3 & 63u8) as i8) == f) by (bit_vector)
                requires
                    0 <= f < 64,
                    fu == f as u8,
                    b3 == ((au & 3u8) << 6u8) | (fu & 63u8),
            ;
        },
        Encoding::Immediate(o, s, t, i) => {
            let (ou, su, tu) = (o as u8, s as u8, t as u8);
            assert(((b0 >> 2u8) as i8) == o) by (bit_vector)
                requires
                    0 <= o < 64,
                    ou == o as u8,
                    b0 == ((ou & 63u8) << 2u8) | ((su >> 3u8) & 3u8),
            ;
            assert(((((b0 & 3u8) << 3u8) | (b1 >> 5u8)) as i8) == s) by (bit_vector)
                requires
                    0 <= s < 32,
                    su == s as u8,
                    b0 == ((ou & 63u8) << 2u8) | ((su >> 3u8) & 3u8),
                    b1 == ((su & 7u8) << 5u8) | (tu & 31u8),
            ;
            assert(((b1 & 31u8) as i8) == t) by (bit_vector)
                requires
                    0 <= t < 32,
                    tu == t as u8,
                    b1 == ((su & 7u8) << 5u8) | (tu & 31u8),
            ;
            assert(((((b2 as u16) << 8u16) | (b3 as u16)) as i16) == i) by (bit_vector)
                requires
                    b2 == ((i as u16) >> 8u16) as u8,
                    b3 == i as u8,
            ;
        },
        Encoding::Jump(o, i) => {
            let (ou, iu) = (o as u8, i as u32);
            assert(((b0 >> 2u8) as i8) == o) by (bit_vector)
                requires
                    0 <= o < 64,
                    ou == o as u8,
                    b0 == ((ou & 63u8) << 2u8) | (((iu >> 24u32) as u8) & 3u8),
            ;
            assert(((((b0 & 3u8) as u32) << 24u32) | ((b1 as u32) << 16u32) | ((b2 as u32)
                << 8u32) | (b3 as u32)) as i32 == i) by (bit_vector)
                requires
                    0 <= i < 0x400_0000,
                    iu == i as u32,
                    b0 == ((ou & 63u8) << 2u8) | (((iu >> 24u32) as u8) & 3u8),
                    b1 == (iu >> 16u32) as u8,
                    b2 == (iu >> 8u32) as u8,
                    b3 == i as u8,
            ;
        },
    }
}

} // verus!
