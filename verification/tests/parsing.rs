use lmc_service::parser::{parse, parse_line, ParseError};
use lmc_service::statement::{Mnemonic, Operand, Statement};
use lmc_service::text::{chars_of, is_space_char, split_lines, tokenize};

fn stmt(label: Option<&str>, mnemonic: Mnemonic, operand: Option<Operand>, line: usize) -> Statement {
    Statement { label: label.map(|l| l.to_string()), mnemonic, operand, line }
}

fn label(name: &str) -> Option<Operand> {
    Some(Operand::Label(name.to_string()))
}

fn strings(items: &[&str]) -> Vec<String> {
    items.iter().map(|s| s.to_string()).collect()
}

#[test]
fn lines_are_split_at_line_feeds() {
    assert_eq!(split_lines("a\nb c\n\nd"), strings(&["a", "b c", "", "d"]));
}

#[test]
fn text_without_line_feed_is_one_line() {
    assert_eq!(split_lines("INP"), strings(&["INP"]));
    assert_eq!(split_lines(""), strings(&[""]));
}

#[test]
fn trailing_line_feed_leaves_an_empty_last_line() {
    assert_eq!(split_lines("HLT\n"), strings(&["HLT", ""]));
}

#[test]
fn tokens_are_runs_between_white_space() {
    assert_eq!(tokenize("  LOOP\tLDA   A \r"), strings(&["LOOP", "LDA", "A"]));
    assert_eq!(tokenize(""), strings(&[]));
    assert_eq!(tokenize(" \t "), strings(&[]));
}

#[test]
fn tokens_end_at_unicode_white_space() {
    assert_eq!(tokenize("ADD\u{00A0}5\u{3000}"), strings(&["ADD", "5"]));
    assert_eq!(tokenize("A\u{2003}B\u{0085}C"), strings(&["A", "B", "C"]));
}

#[test]
fn white_space_test_agrees_with_std() {
    let mut code: u32 = 0;
    while code <= 0x3100 {
        if let Some(c) = char::from_u32(code) {
            assert_eq!(is_space_char(c), c.is_whitespace(), "U+{:04X}", code);
        }
        code += 1;
    }
}

#[test]
fn comment_token_ends_the_line() {
    assert_eq!(tokenize("ADD 5 // add five"), strings(&["ADD", "5"]));
    assert_eq!(tokenize("// whole line"), strings(&[]));
    assert_eq!(tokenize("//"), strings(&[]));
    assert_eq!(tokenize("ADD 5//x"), strings(&["ADD", "5//x"]));
    assert_eq!(tokenize("ADD / 5"), strings(&["ADD", "/", "5"]));
}

#[test]
fn chars_of_keeps_every_character() {
    assert_eq!(chars_of("a\u{00E9}\u{4E2D}z"), vec!['a', '\u{00E9}', '\u{4E2D}', 'z']);
    assert_eq!(chars_of(""), Vec::<char>::new());
}

#[test]
fn parses_each_line_shape() {
    let program = parse("INP\nSTA 20\nLOOP LDA\u{20}COUNT\nEND HLT\nCOUNT DAT", false).unwrap();
    assert_eq!(
        program,
        vec![
            stmt(None, Mnemonic::Inp, None, 1),
            stmt(None, Mnemonic::Sta, Some(Operand::Value(20)), 2),
            stmt(Some("LOOP"), Mnemonic::Lda, label("COUNT"), 3),
            stmt(Some("END"), Mnemonic::Hlt, None, 4),
            stmt(Some("COUNT"), Mnemonic::Dat, None, 5),
        ]
    );
}

#[test]
fn blank_lines_and_comments_say_nothing_but_count() {
    let program = parse("\n// header\n  \nOUT // print\n\nHLT\n", false).unwrap();
    assert_eq!(
        program,
        vec![stmt(None, Mnemonic::Out, None, 4), stmt(None, Mnemonic::Hlt, None, 6)]
    );
}

#[test]
fn empty_source_is_an_empty_program() {
    assert_eq!(parse("", false), Ok(vec![]));
    assert_eq!(parse("\n\n", true), Ok(vec![]));
}

#[test]
fn mnemonics_are_read_without_regard_to_case() {
    let program = parse("lda 1\nSta 2\naDD 3\nsub 4\ninp\nout\notc\nhlt\nbrz 5\nbrp 6\nbra 7\ndat 8", false)
        .unwrap();
    let mnemonics: Vec<Mnemonic> = program.iter().map(|s| s.mnemonic).collect();
    assert_eq!(
        mnemonics,
        vec![
            Mnemonic::Lda,
            Mnemonic::Sta,
            Mnemonic::Add,
            Mnemonic::Sub,
            Mnemonic::Inp,
            Mnemonic::Out,
            Mnemonic::Otc,
            Mnemonic::Hlt,
            Mnemonic::Brz,
            Mnemonic::Brp,
            Mnemonic::Bra,
            Mnemonic::Dat,
        ]
    );
}

#[test]
fn operands_are_numbers_or_labels() {
    let program = parse("DAT 7\nDAT -5\nDAT +12\nDAT 007\nDAT 32767\nDAT 32768\nDAT 5x\nDAT -\nDAT x1", false)
        .unwrap();
    let operands: Vec<Option<Operand>> = program.iter().map(|s| s.operand.clone()).collect();
    assert_eq!(
        operands,
        vec![
            Some(Operand::Value(7)),
            Some(Operand::Value(-5)),
            Some(Operand::Value(12)),
            Some(Operand::Value(7)),
            Some(Operand::Value(32767)),
            label("32768"),
            label("5x"),
            label("-"),
            label("x1"),
        ]
    );
}

#[test]
fn most_negative_number_is_a_number() {
    let program = parse("DAT -32768\nDAT -32769", false).unwrap();
    assert_eq!(program[0].operand, Some(Operand::Value(-32768)));
    assert_eq!(program[1].operand, label("-32769"));
}

#[test]
fn first_token_that_is_a_mnemonic_is_the_mnemonic() {
    assert_eq!(parse("DAT HLT", false), Ok(vec![stmt(None, Mnemonic::Dat, label("HLT"), 1)]));
    assert_eq!(parse("X HLT", false), Ok(vec![stmt(Some("X"), Mnemonic::Hlt, None, 1)]));
    assert_eq!(
        parse("ADD ADD 5", false),
        Ok(vec![stmt(Some("ADD"), Mnemonic::Add, Some(Operand::Value(5)), 1)])
    );
}

#[test]
fn unknown_mnemonic_is_an_error_with_its_line() {
    assert_eq!(
        parse("INP\nFOO\nHLT", false),
        Err(ParseError::UnknownMnemonic { line: 2, token: "FOO".to_string() })
    );
    assert_eq!(
        parse("HLT\n\nX FOO", false),
        Err(ParseError::UnknownMnemonic { line: 3, token: "FOO".to_string() })
    );
    assert_eq!(
        parse("X FOO 5", false),
        Err(ParseError::UnknownMnemonic { line: 1, token: "FOO".to_string() })
    );
}

#[test]
fn unknown_first_token_of_two_is_a_label() {
    assert_eq!(
        parse("FOO 1", false),
        Err(ParseError::UnknownMnemonic { line: 1, token: "1".to_string() })
    );
}

#[test]
fn missing_operand_is_an_error_not_a_crash() {
    for (source, mnemonic) in [
        ("LDA", Mnemonic::Lda),
        ("STA", Mnemonic::Sta),
        ("ADD", Mnemonic::Add),
        ("SUB", Mnemonic::Sub),
        ("BRZ", Mnemonic::Brz),
        ("BRP", Mnemonic::Brp),
        ("BRA", Mnemonic::Bra),
    ] {
        assert_eq!(parse(source, false), Err(ParseError::MissingOperand { line: 1, mnemonic }));
    }
    assert_eq!(
        parse("HLT\nLOOP add", false),
        Err(ParseError::MissingOperand { line: 2, mnemonic: Mnemonic::Add })
    );
}

#[test]
fn operand_on_a_mnemonic_that_takes_none_is_an_error() {
    assert_eq!(
        parse("INP 5", false),
        Err(ParseError::UnexpectedOperand { line: 1, mnemonic: Mnemonic::Inp })
    );
    assert_eq!(
        parse("OUT\nX HLT 1", false),
        Err(ParseError::UnexpectedOperand { line: 2, mnemonic: Mnemonic::Hlt })
    );
    assert_eq!(
        parse("OUT HLT", false),
        Err(ParseError::UnexpectedOperand { line: 1, mnemonic: Mnemonic::Out })
    );
    assert_eq!(
        parse("otc 1", false),
        Err(ParseError::UnexpectedOperand { line: 1, mnemonic: Mnemonic::Otc })
    );
}

#[test]
fn more_than_three_tokens_are_an_error() {
    assert_eq!(parse("HLT\nA ADD 5 6", false), Err(ParseError::TooManyTokens { line: 2 }));
    assert_eq!(parse("A ADD 5 // fine", false).map(|p| p.len()), Ok(1));
}

#[test]
fn first_error_wins() {
    assert_eq!(
        parse("FOO\nADD", false),
        Err(ParseError::UnknownMnemonic { line: 1, token: "FOO".to_string() })
    );
    assert_eq!(
        parse("ADD\nFOO", false),
        Err(ParseError::MissingOperand { line: 1, mnemonic: Mnemonic::Add })
    );
}

#[test]
fn strict_mode_refuses_a_label_defined_twice() {
    let source = "A DAT 1\nB DAT 2\nA DAT 3";
    assert_eq!(
        parse(source, true),
        Err(ParseError::DuplicateLabel { line: 3, label: "A".to_string() })
    );
    assert_eq!(parse(source, false).map(|p| p.len()), Ok(3));
}

#[test]
fn strict_mode_accepts_what_has_no_duplicate() {
    let source = "A DAT 1\nB DAT 2\na DAT 3";
    assert_eq!(parse(source, true), parse(source, false));
    assert_eq!(parse(source, true).map(|p| p.len()), Ok(3));
}

#[test]
fn labels_are_case_sensitive() {
    let program = parse("loop LDA Loop\nLoop HLT", true).unwrap();
    assert_eq!(program[0].label, Some("loop".to_string()));
    assert_eq!(program[0].operand, label("Loop"));
}

#[test]
fn parse_line_reads_tokens() {
    assert_eq!(parse_line(&strings(&[]), 9), Ok(None));
    assert_eq!(
        parse_line(&strings(&["X", "bra", "X"]), 9),
        Ok(Some(stmt(Some("X"), Mnemonic::Bra, label("X"), 9)))
    );
    assert_eq!(parse_line(&strings(&["a", "b", "c", "d"]), 4), Err(ParseError::TooManyTokens { line: 4 }));
}

#[test]
fn parsed_statements_obey_the_arity_rule() {
    let program = parse("INP\nSTA X\nX DAT\nY DAT 5\nHLT", false).unwrap();
    assert!(program.iter().all(|s| s.is_well_formed()));
    assert!(!stmt(None, Mnemonic::Add, None, 1).is_well_formed());
    assert!(!stmt(None, Mnemonic::Hlt, Some(Operand::Value(1)), 1).is_well_formed());
    assert!(stmt(None, Mnemonic::Dat, None, 1).is_well_formed());
}

#[test]
fn parse_error_messages_carry_the_line() {
    assert_eq!(
        ParseError::UnknownMnemonic { line: 12, token: "FOO".to_string() }.message(),
        "line 12: unknown mnemonic FOO"
    );
    assert_eq!(
        ParseError::MissingOperand { line: 3, mnemonic: Mnemonic::Add }.message(),
        "line 3: ADD requires an operand"
    );
    assert_eq!(
        ParseError::UnexpectedOperand { line: 100, mnemonic: Mnemonic::Inp }.message(),
        "line 100: INP takes no operand"
    );
    assert_eq!(ParseError::TooManyTokens { line: 7 }.message(), "line 7: too many tokens");
    assert_eq!(
        ParseError::DuplicateLabel { line: 1, label: "LOOP".to_string() }.message(),
        "line 1: label LOOP is already defined"
    );
    assert_eq!(ParseError::TooManyTokens { line: 7 }.line(), 7);
}

#[test]
fn mnemonic_tables() {
    let all = [
        (Mnemonic::Lda, "LDA", 500, true, true),
        (Mnemonic::Sta, "STA", 300, true, true),
        (Mnemonic::Add, "ADD", 100, true, true),
        (Mnemonic::Sub, "SUB", 200, true, true),
        (Mnemonic::Inp, "INP", 901, false, false),
        (Mnemonic::Out, "OUT", 902, false, false),
        (Mnemonic::Otc, "OTC", 922, false, false),
        (Mnemonic::Hlt, "HLT", 0, false, false),
        (Mnemonic::Brz, "BRZ", 700, true, true),
        (Mnemonic::Brp, "BRP", 800, true, true),
        (Mnemonic::Bra, "BRA", 600, true, true),
        (Mnemonic::Dat, "DAT", 0, true, false),
    ];
    for (mnemonic, name, base, allows, requires) in all {
        assert_eq!(mnemonic.name(), name);
        assert_eq!(mnemonic.base(), base);
        assert_eq!(mnemonic.allows_operand(), allows);
        assert_eq!(mnemonic.requires_operand(), requires);
    }
}

#[test]
fn every_numeral_is_read_as_its_value() {
    let mut value = i16::MIN;
    loop {
        let program = parse(&format!("DAT {}", value), false).unwrap();
        assert_eq!(program[0].operand, Some(Operand::Value(value)));
        if value == i16::MAX {
            break;
        }
        value += 1;
    }
}

#[test]
fn spelling_outside_ascii_is_left_to_the_recogniser() {
    assert_eq!(
        parse("\u{017F}ta 5", false),
        Ok(vec![stmt(None, Mnemonic::Sta, Some(Operand::Value(5)), 1)])
    );
    assert_eq!(
        parse("\u{017F}ta", false),
        Err(ParseError::MissingOperand { line: 1, mnemonic: Mnemonic::Sta })
    );
    assert_eq!(
        parse("x \u{017F}ub", false),
        Err(ParseError::MissingOperand { line: 1, mnemonic: Mnemonic::Sub })
    );
    assert_eq!(
        parse("caf\u{00E9}", false),
        Err(ParseError::UnknownMnemonic { line: 1, token: "caf\u{00E9}".to_string() })
    );
    assert_eq!(
        parse("caf\u{00E9} HLT", false),
        Ok(vec![stmt(Some("caf\u{00E9}"), Mnemonic::Hlt, None, 1)])
    );
}
