use lmc_service::assembler::{assemble, AssembleError};
use lmc_service::parser::parse;
use lmc_service::statement::{find_label, Mnemonic, Operand, Statement};

fn statement(label: Option<&str>, mnemonic: Mnemonic, operand: Option<Operand>, line: usize) -> Statement {
    Statement { label: label.map(|l| l.to_string()), mnemonic, operand, line }
}

fn assembled(source: &str) -> Result<Vec<i16>, AssembleError> {
    assemble(&parse(source, false).unwrap())
}

#[test]
fn add_five_assembles_to_105() {
    let program = vec![statement(None, Mnemonic::Add, Some(Operand::Value(5)), 1)];
    assert_eq!(assemble(&program), Ok(vec![105]));
}

#[test]
fn label_free_program_has_one_word_per_statement() {
    assert_eq!(
        assembled("INP\nSTA 99\nADD 99\nOUT\nHLT\nDAT 7\nDAT -999\nDAT"),
        Ok(vec![901, 399, 199, 902, 0, 7, -999, 0])
    );
}

#[test]
fn every_mnemonic_has_its_base_word() {
    assert_eq!(
        assembled("LDA 1\nSTA 2\nADD 3\nSUB 4\nINP\nOUT\nOTC\nHLT\nBRZ 5\nBRP 6\nBRA 7\nDAT 8"),
        Ok(vec![501, 302, 103, 204, 901, 902, 922, 0, 705, 806, 607, 8])
    );
}

#[test]
fn empty_program_has_an_empty_image() {
    assert_eq!(assemble(&vec![]), Ok(vec![]));
}

#[test]
fn forward_reference_resolves() {
    assert_eq!(assembled("LDA ONE\nOUT\nHLT\nONE DAT 1"), Ok(vec![503, 902, 0, 1]));
}

#[test]
fn backward_reference_resolves() {
    assert_eq!(assembled("LOOP INP\nOUT\nBRA LOOP"), Ok(vec![901, 902, 600]));
}

#[test]
fn label_may_be_a_datum() {
    assert_eq!(assembled("HLT\nP DAT Q\nQ DAT P"), Ok(vec![0, 2, 1]));
}

#[test]
fn statement_may_refer_to_its_own_label() {
    assert_eq!(assembled("HLT\nSPIN BRA SPIN"), Ok(vec![0, 601]));
}

#[test]
fn undefined_label_is_named() {
    assert_eq!(
        assembled("LDA NOWHERE\nHLT"),
        Err(AssembleError::UndefinedLabel { label: "NOWHERE".to_string(), line: 1 })
    );
}

#[test]
fn undefined_label_carries_the_source_line() {
    assert_eq!(
        assembled("// comment\nHLT\n\nX BRZ Y"),
        Err(AssembleError::UndefinedLabel { label: "Y".to_string(), line: 4 })
    );
}

#[test]
fn label_defined_twice_fails_assembly() {
    assert_eq!(
        assembled("A DAT 1\nB DAT 2\nA DAT 3\nB DAT 4"),
        Err(AssembleError::DuplicateLabel { label: "A".to_string(), line: 3 })
    );
}

#[test]
fn duplicate_is_reported_before_operand_faults() {
    assert_eq!(
        assembled("LDA 500\nA DAT\nA DAT"),
        Err(AssembleError::DuplicateLabel { label: "A".to_string(), line: 3 })
    );
}

#[test]
fn address_operand_must_be_an_address() {
    assert_eq!(assembled("ADD 99"), Ok(vec![199]));
    assert_eq!(assembled("ADD 0"), Ok(vec![100]));
    assert_eq!(
        assembled("HLT\nADD 100"),
        Err(AssembleError::OperandOutOfRange { value: 100, line: 2 })
    );
    assert_eq!(assembled("BRA -1"), Err(AssembleError::OperandOutOfRange { value: -1, line: 1 }));
    assert_eq!(
        assembled("BRP 32767"),
        Err(AssembleError::OperandOutOfRange { value: 32767, line: 1 })
    );
}

#[test]
fn datum_must_be_a_word() {
    assert_eq!(assembled("DAT 999\nDAT -999"), Ok(vec![999, -999]));
    assert_eq!(assembled("DAT 1000"), Err(AssembleError::OperandOutOfRange { value: 1000, line: 1 }));
    assert_eq!(
        assembled("DAT -1000"),
        Err(AssembleError::OperandOutOfRange { value: -1000, line: 1 })
    );
}

#[test]
fn first_operand_fault_wins() {
    assert_eq!(
        assembled("LDA X\nADD 200"),
        Err(AssembleError::UndefinedLabel { label: "X".to_string(), line: 1 })
    );
    assert_eq!(
        assembled("ADD 200\nLDA X"),
        Err(AssembleError::OperandOutOfRange { value: 200, line: 1 })
    );
}

#[test]
fn hundred_statements_fit_and_one_more_does_not() {
    let full: Vec<Statement> = (0..100).map(|i| statement(None, Mnemonic::Dat, Some(Operand::Value(i)), 1)).collect();
    let image = assemble(&full).unwrap();
    assert_eq!(image.len(), 100);
    assert_eq!(image[99], 99);
    let mut over = full;
    over.push(statement(None, Mnemonic::Hlt, None, 101));
    assert_eq!(assemble(&over), Err(AssembleError::TooManyStatements { count: 101 }));
}

#[test]
fn capacity_is_tested_before_anything_else() {
    let over: Vec<Statement> =
        (0..101).map(|_| statement(Some("A"), Mnemonic::Lda, Some(Operand::Label("B".to_string())), 1)).collect();
    assert_eq!(assemble(&over), Err(AssembleError::TooManyStatements { count: 101 }));
}

#[test]
fn last_mailbox_can_be_referred_to_by_label() {
    let mut program: Vec<Statement> =
        (0..99).map(|_| statement(None, Mnemonic::Lda, Some(Operand::Label("END".to_string())), 1)).collect();
    program.push(statement(Some("END"), Mnemonic::Hlt, None, 100));
    let image = assemble(&program).unwrap();
    assert_eq!(image[0], 599);
    assert_eq!(image[99], 0);
}

#[test]
fn find_label_gives_the_first_definition() {
    let program = parse("A DAT\nB DAT\nC DAT", false).unwrap();
    assert_eq!(find_label(&program, &"B".to_string()), Some(1));
    assert_eq!(find_label(&program, &"b".to_string()), None);
    assert_eq!(find_label(&vec![], &"A".to_string()), None);
}

#[test]
fn assemble_error_messages() {
    assert_eq!(
        AssembleError::TooManyStatements { count: 101 }.message(),
        "program has 101 statements, the machine has 100 mailboxes"
    );
    assert_eq!(
        AssembleError::DuplicateLabel { label: "A".to_string(), line: 3 }.message(),
        "line 3: label A is already defined"
    );
    assert_eq!(
        AssembleError::UndefinedLabel { label: "NOWHERE".to_string(), line: 10 }.message(),
        "line 10: undefined label NOWHERE"
    );
    assert_eq!(
        AssembleError::OperandOutOfRange { value: -1000, line: 2 }.message(),
        "line 2: operand -1000 is out of range"
    );
    assert_eq!(
        AssembleError::OperandOutOfRange { value: 0, line: 18446 }.message(),
        "line 18446: operand 0 is out of range"
    );
}
