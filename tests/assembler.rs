use mips_asm::{
    as_register, assemble, get_argument, get_arguments, get_bin, get_code, get_enc, parse_num,
    pass1, pass2, rem_spaces, Arg, Args, Diagnostic, Encoded, Encoding, ErrorKind, LabelTable,
    Line, Section, Syntax,
};

fn bytes_of(src: &str, origin: u32) -> Vec<u8> {
    assemble(src, Some(origin)).unwrap().bytes
}

fn kinds(src: &str) -> Vec<(ErrorKind, u32)> {
    assemble(src, Some(0x400000))
        .unwrap()
        .diagnostics
        .iter()
        .map(|d| (d.kind, d.line))
        .collect()
}

fn reg(a: &Arg) -> i8 {
    match a {
        Arg::Reg(r) => *r,
        other => panic!("not a register: {:?}", other),
    }
}

fn imm(a: &Arg) -> i32 {
    match a {
        Arg::Imm(n) => *n,
        other => panic!("not a number: {:?}", other),
    }
}

fn label(a: &Arg) -> String {
    match a {
        Arg::Label(l) => l.clone(),
        other => panic!("not a label: {:?}", other),
    }
}

#[test]
fn rem_spaces_trims_both_ends() {
    assert_eq!(rem_spaces("  \t add $t0 \t "), "add $t0");
    assert_eq!(rem_spaces(""), "");
    assert_eq!(rem_spaces(" \t  "), "");
    assert_eq!(rem_spaces("x"), "x");
}

#[test]
fn registers_need_the_sigil() {
    assert_eq!(as_register("$t0"), Ok(8));
    assert_eq!(as_register("$zero"), Ok(0));
    assert_eq!(as_register("$ra"), Ok(31));
    assert_eq!(as_register("$sp"), Ok(29));
    assert_eq!(as_register("t0"), Err(()));
    assert_eq!(as_register("$t10"), Err(()));
    assert_eq!(as_register(""), Err(()));
}

#[test]
fn catalog_lookup_by_first_word() {
    let c = get_code("add $t0, $t1, $t2");
    assert_eq!(c.name, "add");
    assert_eq!(c.code, 32);
    assert_eq!(c.syntax, Syntax::ArithLog);
    let b = get_code("beq");
    assert_eq!((b.code, b.syntax), (4, Syntax::Branch));
    let u = get_code("frobnicate $t0");
    assert_eq!(u.code, -1);
    assert_eq!(u.name, "null");
}

#[test]
fn literals_in_three_bases() {
    assert_eq!(parse_num("0x000000FF"), Ok(255));
    assert_eq!(parse_num("0b101"), Ok(5));
    assert_eq!(parse_num("42"), Ok(42));
    assert_eq!(parse_num("-12"), Ok(-12));
    assert_eq!(parse_num("7"), Ok(7));
    assert_eq!(parse_num("0x0a"), Ok(10));
    assert_eq!(parse_num("0xFFFFFFFF"), Ok(-1));
    assert_eq!(parse_num("0x0102030405"), Ok(0x01020304));
}

#[test]
fn bad_literals_report_their_text() {
    assert_eq!(parse_num("0x"), Err(String::from("0x")));
    assert_eq!(parse_num("0x1"), Err(String::from("0x1")));
    assert_eq!(parse_num("0xZZ"), Err(String::from("0xZZ")));
    assert_eq!(parse_num("0b102"), Err(String::from("0b102")));
    assert_eq!(parse_num("abc"), Err(String::from("abc")));
    assert_eq!(parse_num(""), Err(String::from("")));
    assert_eq!(parse_num("99999999999"), Err(String::from("99999999999")));
}

#[test]
fn tokens_are_registers_numbers_or_labels() {
    assert_eq!(reg(&get_argument("  $t1 ")), 9);
    assert_eq!(imm(&get_argument("0x000000FF")), 255);
    assert_eq!(imm(&get_argument(" 0b101")), 5);
    assert_eq!(label(&get_argument(" loop ")), "loop");
}

#[test]
fn operand_lists_split_on_commas() {
    assert!(matches!(get_arguments("  "), Ok(Args::Zero)));
    match get_arguments("$t0") {
        Ok(Args::One(a)) => assert_eq!(reg(&a), 8),
        other => panic!("{:?}", other),
    }
    match get_arguments("$t0, 12") {
        Ok(Args::Two(a, b)) => assert_eq!((reg(&a), imm(&b)), (8, 12)),
        other => panic!("{:?}", other),
    }
    match get_arguments("$t0,$t1, done") {
        Ok(Args::Three(a, b, c)) => {
            assert_eq!((reg(&a), reg(&b)), (8, 9));
            assert_eq!(label(&c), "done");
        }
        other => panic!("{:?}", other),
    }
}

#[test]
fn indexed_operands() {
    match get_arguments("$t0, 4($sp)") {
        Ok(Args::Three(a, b, c)) => assert_eq!((reg(&a), imm(&b), reg(&c)), (8, 4, 29)),
        other => panic!("{:?}", other),
    }
    match get_arguments("8($a0)") {
        Ok(Args::Two(a, b)) => assert_eq!((imm(&a), reg(&b)), (8, 4)),
        other => panic!("{:?}", other),
    }
    assert!(matches!(get_arguments("$t0, 4($sp"), Err(ErrorKind::MalformedOperand)));
}

#[test]
fn packs_scenario_add_word() {
    let code = get_code("add");
    let args = get_arguments("$t0, $t1, $t2").unwrap();
    let table = LabelTable::new();
    let e = get_enc(&code, &args, &table, 0x400000).unwrap();
    assert_eq!(e, Encoded { enc: Encoding::Register(0, 9, 10, 8, 0, 32), resolved: true });
    // Low three bits of src (001) then tgt (01010): 0x2A.
    assert_eq!(get_bin(e.enc), vec![0x01, 0x2A, 0x40, 0x20]);
    assert_eq!(bytes_of("add $t0, $t1, $t2", 0x400000), vec![0x01, 0x2A, 0x40, 0x20]);
}

fn unpack_register(b: &[u8]) -> Encoding {
    Encoding::Register(
        (b[0] >> 2) as i8,
        (((b[0] & 3) << 3) | (b[1] >> 5)) as i8,
        (b[1] & 31) as i8,
        (b[2] >> 3) as i8,
        (((b[2] & 7) << 2) | (b[3] >> 6)) as i8,
        (b[3] & 63) as i8,
    )
}

fn unpack_immediate(b: &[u8]) -> Encoding {
    Encoding::Immediate(
        (b[0] >> 2) as i8,
        (((b[0] & 3) << 3) | (b[1] >> 5)) as i8,
        (b[1] & 31) as i8,
        (((b[2] as u16) << 8) | b[3] as u16) as i16,
    )
}

fn unpack_jump(b: &[u8]) -> Encoding {
    let v = (((b[0] & 3) as u32) << 24) | ((b[1] as u32) << 16) | ((b[2] as u32) << 8) | b[3] as u32;
    Encoding::Jump((b[0] >> 2) as i8, v as i32)
}

#[test]
fn packed_words_unpack_to_their_encoding() {
    for e in [
        Encoding::Register(63, 31, 0, 17, 31, 63),
        Encoding::Register(0, 9, 10, 8, 0, 32),
        Encoding::Register(28, 1, 2, 3, 4, 2),
    ] {
        assert_eq!(unpack_register(&get_bin(e)), e);
    }
    for e in [Encoding::Immediate(4, 8, 8, -2), Encoding::Immediate(63, 31, 31, i16::MIN)] {
        assert_eq!(unpack_immediate(&get_bin(e)), e);
    }
    for e in [Encoding::Jump(2, 0x100002), Encoding::Jump(3, 0x3FF_FFFF), Encoding::Jump(0, 12)] {
        assert_eq!(unpack_jump(&get_bin(e)), e);
    }
}

#[test]
fn start_label_reserves_a_word() {
    let src = "START: add $t0,$t0,$t0\nbeq $t0,$t0,START";
    let p = pass1(src, Some(0x400000)).unwrap();
    assert_eq!(p.labels.get("START"), Some(0x400004));
    assert_eq!(p.text_counter, 0x40000C);
    let out = pass2(&p.lines, &p.labels, p.start_text, p.text_counter).unwrap();
    // beq $t0,$t0 at 0x400008: displacement (0x400004 - 0x400008)/4 - 1 = -2.
    assert_eq!(out.bytes, vec![0x01, 0x08, 0x40, 0x20, 0x11, 0x08, 0xFF, 0xFE]);
}

#[test]
fn start_moves_earlier_labels() {
    let p = pass1("early: add $t0,$t0,$t0\nSTART: add $t1,$t1,$t1", Some(0x1000)).unwrap();
    assert_eq!(p.labels.get("early"), Some(0x1004));
    assert_eq!(p.labels.get("START"), Some(0x1008));
}

#[test]
fn asciiz_appends_a_zero() {
    assert_eq!(bytes_of(".asciiz \"hi\"", 0x1000), vec![0x68, 0x69, 0x00]);
    assert_eq!(bytes_of(".ascii \"hi\"", 0x1000), vec![0x68, 0x69]);
}

#[test]
fn indexed_form_without_target_is_rejected() {
    let p = pass1("lw ($t0)", Some(0x1000)).unwrap();
    assert!(p.lines.is_empty());
    assert_eq!(p.diagnostics, vec![Diagnostic { kind: ErrorKind::MalformedOperand, line: 1 }]);
    assert_eq!(p.text_counter, 0x1000);
}

#[test]
fn duplicate_label_keeps_first_address() {
    let src = "foo: add $t0,$t0,$t0\nfoo: add $t1,$t1,$t1";
    let p = pass1(src, Some(0x2000)).unwrap();
    assert_eq!(p.labels.get("foo"), Some(0x2000));
    assert_eq!(p.diagnostics, vec![Diagnostic { kind: ErrorKind::DuplicateLabel, line: 2 }]);
    assert_eq!(p.lines.iter().filter(|r| matches!(r.0, Line::Label(_))).count(), 1);
}

#[test]
fn branch_displacement_forward() {
    let src = "beq $t0, $t1, there\nadd $t0,$t0,$t0\nthere: add $t0,$t0,$t0";
    // beq at 0x400000, there at 0x400008: 8/4 - 1 = 1.
    let b = bytes_of(src, 0x400000);
    assert_eq!(&b[0..4], &[0x11, 0x09, 0x00, 0x01]);
    assert_eq!(unpack_immediate(&b[0..4]), Encoding::Immediate(4, 8, 9, 1));
}

#[test]
fn jump_field_drops_two_bits() {
    let src = "j there\nadd $t0,$t0,$t0\nthere: add $t0,$t0,$t0";
    let b = bytes_of(src, 0x400000);
    // there = 0x400008; 0x400008 >> 2 = 0x100002.
    assert_eq!(unpack_jump(&b[0..4]), Encoding::Jump(2, 0x100002));
    assert_eq!(&b[0..4], &[0x08, 0x10, 0x00, 0x02]);
}

#[test]
fn reencoding_gives_identical_bytes() {
    let src = "main: addi $t0, $zero, 5\nloop: beq $t0, $zero, out\nj loop\nout: syscall\n.data\nmsg: .asciiz \"ok\"";
    let p = pass1(src, None).unwrap();
    let a = pass2(&p.lines, &p.labels, p.start_text, p.text_counter).unwrap();
    let b = pass2(&p.lines, &p.labels, p.start_text, p.text_counter).unwrap();
    assert_eq!(a.bytes, b.bytes);
    assert_eq!(a.diagnostics, b.diagnostics);
}

#[test]
fn data_follows_text() {
    let src = "add $t0,$t0,$t0\n.data\nd: .ascii \"ab\"\n.text\nj d";
    let p = pass1(src, Some(0x100)).unwrap();
    assert_eq!(p.text_counter, 0x108);
    assert_eq!(p.labels.get("d"), Some(0x108));
    let out = pass2(&p.lines, &p.labels, p.start_text, p.text_counter).unwrap();
    assert_eq!(out.bytes.len(), 10);
    assert_eq!(&out.bytes[8..10], b"ab");
    assert_eq!(unpack_jump(&out.bytes[4..8]), Encoding::Jump(2, 0x108 >> 2));
}

#[test]
fn default_origin_applies() {
    let p = pass1("x: add $t0,$t0,$t0", None).unwrap();
    assert_eq!(p.start_text, 0x1000);
    assert_eq!(p.labels.get("x"), Some(0x1000));
}

#[test]
fn comments_and_blank_lines_are_skipped() {
    let src = "# header\n\n   # indented comment\nadd $t0,$t0,$t0 # trailing\r\n";
    assert_eq!(bytes_of(src, 0), vec![0x01, 0x08, 0x40, 0x20]);
    assert!(kinds(src).is_empty());
}

#[test]
fn unknown_instruction_is_reported() {
    assert_eq!(kinds("frob $t0"), vec![(ErrorKind::UnknownInstruction, 1)]);
}

#[test]
fn label_with_blank_is_reported() {
    assert_eq!(kinds("my label: add $t0,$t0,$t0"), vec![(ErrorKind::InvalidLabelName, 1)]);
}

#[test]
fn indented_line_without_label_is_reported() {
    assert_eq!(kinds("  add $t0,$t0,$t0"), vec![(ErrorKind::DanglingIndent, 1)]);
    assert!(kinds("f:\n  add $t0,$t0,$t0").is_empty());
}

#[test]
fn string_directive_without_quotes_is_reported() {
    assert_eq!(kinds(".ascii hi"), vec![(ErrorKind::MalformedDirective, 1)]);
    assert_eq!(kinds(".asciiz \"hi"), vec![(ErrorKind::MalformedDirective, 1)]);
}

#[test]
fn unresolved_label_falls_back_to_zero() {
    let a = assemble("j nowhere", Some(0x400000)).unwrap();
    assert_eq!(a.diagnostics, vec![Diagnostic { kind: ErrorKind::UnresolvedLabel, line: 1 }]);
    assert_eq!(a.bytes, vec![0x08, 0x00, 0x00, 0x00]);
}

#[test]
fn wrong_operand_count_is_fatal() {
    let r = assemble("nop: add $t0,$t0,$t0\nadd $t0", Some(0x400000));
    assert_eq!(r.unwrap_err(), Diagnostic { kind: ErrorKind::MalformedOperandCount, line: 2 });
}

#[test]
fn address_space_end_is_fatal() {
    let r = assemble("add $t0,$t0,$t0", Some(0xFFFF_FFFE));
    assert_eq!(r.unwrap_err(), Diagnostic { kind: ErrorKind::AddressOverflow, line: 1 });
}

#[test]
fn encodings_of_each_family() {
    let t = LabelTable::new();
    let enc = |m: &str, ops: &str, adr: u32| {
        get_enc(&get_code(m), &get_arguments(ops).unwrap(), &t, adr).unwrap().enc
    };
    assert_eq!(enc("div", "$t0, $t1", 0), Encoding::Register(0, 8, 9, 0, 0, 26));
    assert_eq!(enc("sll", "$t0, $t1, 4", 0), Encoding::Register(0, 0, 9, 8, 4, 0));
    assert_eq!(enc("sllv", "$t0, $t1, $t2", 0), Encoding::Register(0, 10, 9, 8, 0, 4));
    assert_eq!(enc("jr", "$ra", 0), Encoding::Register(0, 31, 0, 0, 0, 8));
    assert_eq!(enc("mflo", "$t3", 0), Encoding::Register(0, 0, 0, 11, 0, 18));
    assert_eq!(enc("addi", "$t0, $t1, -3", 0), Encoding::Immediate(8, 9, 8, -3));
    assert_eq!(enc("lhi", "$t0, 0x1234", 0), Encoding::Immediate(25, 0, 8, 0x1234));
    assert_eq!(enc("blez", "$t0, 16", 0), Encoding::Immediate(6, 8, 0, 3));
    assert_eq!(enc("lw", "$t0, 8($sp)", 0), Encoding::Immediate(35, 29, 8, 1));
    assert_eq!(enc("trap", "5", 0), Encoding::Jump(26, 5));
    assert_eq!(enc("syscall", "", 0), Encoding::Jump(0, 12));
    assert_eq!(enc("mul", "$t0, $t1, $t2", 0), Encoding::Register(28, 9, 10, 8, 0, 2));
}

#[test]
fn section_switch_keeps_order_within_sections() {
    let src = ".data\n.ascii \"A\"\n.text\nadd $t0,$t0,$t0\n.data\n.ascii \"B\"";
    let p = pass1(src, Some(0)).unwrap();
    let sections: Vec<Section> = p.lines.iter().map(|r| r.2).collect();
    assert_eq!(sections, vec![Section::Data, Section::Text, Section::Data]);
    let out = pass2(&p.lines, &p.labels, p.start_text, p.text_counter).unwrap();
    assert_eq!(out.bytes, vec![0x01, 0x08, 0x40, 0x20, b'A', b'B']);
}

#[test]
fn label_table_lists_bindings_in_order() {
    let p = pass1("a: add $t0,$t0,$t0\n.data\nb: .ascii \"xy\"", Some(0x10)).unwrap();
    let t = &p.labels;
    assert_eq!(t.len(), 2);
    assert_eq!(t.entry(0), ("b", 0x14));
    assert_eq!(t.entry(1), ("a", 0x10));
    assert_eq!(t.get("c"), None);
}
