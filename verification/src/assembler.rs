//! The assembler: from statements to a memory image, or to the first error.

use crate::statement::{
    find_label, label_address, lemma_definition_from, models, Operand, OperandModel, Statement,
    StatementModel,
};
use crate::text::{
    append_decimal, append_signed, decimal, line_prefix, signed_decimal, start_line_message,
};
use crate::word::{is_address, is_word, word_in_range};
use vstd::prelude::*;

verus! {

/// The mathematical content of an [`AssembleError`].
pub enum AssembleErrorModel {
    TooManyStatements { count: usize },
    DuplicateLabel { label: Seq<char>, line: usize },
    UndefinedLabel { label: Seq<char>, line: usize },
    OperandOutOfRange { value: i16, line: usize },
}

/// Why a program has no memory image. `line` is the source line of the
/// offending statement.
#[derive(Debug, Clone, PartialEq, Eq)]
pub enum AssembleError {
    /// The program has more statements than the machine has mailboxes.
    TooManyStatements { count: usize },
    /// The statement defines a label that an earlier statement defines.
    DuplicateLabel { label: String, line: usize },
    /// The statement refers to a label that no statement defines.
    UndefinedLabel { label: String, line: usize },
    /// The statement's number is no mailbox address or, for `DAT`, no word.
    OperandOutOfRange { value: i16, line: usize },
}

impl View for AssembleError {
    type V = AssembleErrorModel;

    open spec fn view(&self) -> AssembleErrorModel {
        match self {
            AssembleError::TooManyStatements { count } => AssembleErrorModel::TooManyStatements {
                count: *count,
            },
            AssembleError::DuplicateLabel { label, line } => AssembleErrorModel::DuplicateLabel {
                label: label@,
                line: *line,
            },
            AssembleError::UndefinedLabel { label, line } => AssembleErrorModel::UndefinedLabel {
                label: label@,
                line: *line,
            },
            AssembleError::OperandOutOfRange { value, line } => AssembleErrorModel::OperandOutOfRange {
                value: *value,
                line: *line,
            },
        }
    }
}

impl AssembleErrorModel {
    /// The error as text. An error of one statement begins with the line
    /// prefix of that statement.
    pub open spec fn text(self) -> Seq<char> {
        match self {
            AssembleErrorModel::TooManyStatements { count } => "program has "@ + decimal(
                count as nat,
            ) + " statements, the machine has 100 mailboxes"@,
            AssembleErrorModel::DuplicateLabel { label, line } => line_prefix(line as nat)
                + "label "@ + label + " is already defined"@,
            AssembleErrorModel::UndefinedLabel { label, line } => line_prefix(line as nat)
                + "undefined label "@ + label,
            AssembleErrorModel::OperandOutOfRange { value, line } => line_prefix(line as nat)
                + "operand "@ + signed_decimal(value as int) + " is out of range"@,
        }
    }
}

impl AssembleError {
    /// The error as human-readable text.
    pub fn message(&self) -> (r: String)
        ensures
            r@ == self@.text(),
    {
        match self {
            AssembleError::TooManyStatements { count } => {
                let mut out = String::from_str("program has ");
                append_decimal(&mut out, *count as u64);
                out.append(" statements, the machine has 100 mailboxes");
                out
            },
            AssembleError::DuplicateLabel { label, line } => {
                let mut out = start_line_message(*line);
                out.append("label ");
                out.append(label.as_str());
                out.append(" is already defined");
                out
            },
            AssembleError::UndefinedLabel { label, line } => {
                let mut out = start_line_message(*line);
                out.append("undefined label ");
                out.append(label.as_str());
                out
            },
            AssembleError::OperandOutOfRange { value, line } => {
                let mut out = start_line_message(*line);
                out.append("operand ");
                append_signed(&mut out, *value);
                out.append(" is out of range");
                out
            },
        }
    }
}

/// Whether statement `at` defines a label that an earlier statement defines.
pub open spec fn duplicate_at(program: Seq<StatementModel>, at: int) -> bool {
    program[at].label matches Some(name) && label_address(program, name) != Some(at)
}

/// The error of the first statement at or after `from` that defines a label
/// again, if there is one.
pub open spec fn first_duplicate(program: Seq<StatementModel>, from: int) -> Option<
    AssembleErrorModel,
>
    decreases program.len() - from,
{
    if from < 0 || from >= program.len() {
        None
    } else if duplicate_at(program, from) {
        Some(
            AssembleErrorModel::DuplicateLabel {
                label: program[from].label->Some_0,
                line: program[from].line,
            },
        )
    } else {
        first_duplicate(program, from + 1)
    }
}

/// What is wrong with the operand of statement `at`, if anything: a number
/// must be a mailbox address, or a word for `DAT`; a label must be defined
/// somewhere in the program. A mnemonic that takes no operand has no fault.
pub open spec fn operand_fault(program: Seq<StatementModel>, at: int) -> Option<
    AssembleErrorModel,
> {
    let statement = program[at];
    match statement.operand {
        Some(OperandModel::Value(value)) => if !statement.mnemonic.operand_allowed() || (
        statement.mnemonic.takes_address() && is_address(value as int)) || (
        !statement.mnemonic.takes_address() && is_word(value as int)) {
            None
        } else {
            Some(AssembleErrorModel::OperandOutOfRange { value, line: statement.line })
        },
        Some(OperandModel::Label(name)) => if !statement.mnemonic.operand_allowed()
            || label_address(program, name) is Some {
            None
        } else {
            Some(AssembleErrorModel::UndefinedLabel { label: name, line: statement.line })
        },
        None => None,
    }
}

/// The fault of the first statement at or after `from` whose operand has
/// one, if there is one.
pub open spec fn first_fault(program: Seq<StatementModel>, from: int) -> Option<AssembleErrorModel>
    decreases program.len() - from,
{
    if from < 0 || from >= program.len() {
        None
    } else if operand_fault(program, from) is Some {
        operand_fault(program, from)
    } else {
        first_fault(program, from + 1)
    }
}

/// The number an operand contributes to its instruction word: its value, the
/// address of its label, or 0 when there is no operand.
pub open spec fn operand_value(program: Seq<StatementModel>, operand: Option<OperandModel>) -> int {
    match operand {
        Some(OperandModel::Value(value)) => value as int,
        Some(OperandModel::Label(name)) => match label_address(program, name) {
            Some(address) => address,
            None => 0,
        },
        None => 0,
    }
}

/// The word statement `at` assembles to: the base word of its mnemonic plus
/// its operand, where the mnemonic takes one.
pub open spec fn encoding(program: Seq<StatementModel>, at: int) -> int {
    let statement = program[at];
    if statement.mnemonic.operand_allowed() {
        statement.mnemonic.base_word() + operand_value(program, statement.operand)
    } else {
        statement.mnemonic.base_word()
    }
}

/// The result of assembling a program. In order: more than 100 statements are
/// an error; so is the first label defined again; so is the first operand at
/// fault. Otherwise the image holds one word per statement, in order.
pub open spec fn assemble_model(program: Seq<StatementModel>) -> Result<
    Seq<i16>,
    AssembleErrorModel,
> {
    if program.len() > 100 {
        Err(AssembleErrorModel::TooManyStatements { count: program.len() as usize })
    } else if first_duplicate(program, 0) is Some {
        Err(first_duplicate(program, 0)->Some_0)
    } else if first_fault(program, 0) is Some {
        Err(first_fault(program, 0)->Some_0)
    } else {
        Ok(Seq::new(program.len(), |i: int| encoding(program, i) as i16))
    }
}

/// Whether the encoder can take the program: at most 100 statements, each
/// obeying the arity rule, no operand at fault.
pub open spec fn encodable(program: Seq<StatementModel>) -> bool {
    &&& program.len() <= 100
    &&& forall|i: int| 0 <= i < program.len() ==> (#[trigger] program[i]).wf()
    &&& forall|i: int| 0 <= i < program.len() ==> #[trigger] operand_fault(program, i) is None
}

/// Hands the statements to `lmc_assembly::assemble` and returns its image.
/// Each instruction is built by `lmc_assembly::Instruction::from_string`
/// from the mnemonic's spelling. Trusted: on an encodable program the
/// assembler returns `Ok` with 100 words; word `i` is the encoding of
/// statement `i`, a label standing for the position of the first statement
/// that defines it, and every word past the last statement is 0.
#[verifier::external_body]
fn encode_program(statements: &Vec<Statement>) -> (r: Result<Vec<i16>, String>)
    requires
        encodable(models(statements@)),
    ensures
        r matches Ok(image) && image@.len() == 100 && forall|i: int|
            0 <= i < 100 ==> #[trigger] image@[i] == if i < statements@.len() {
                encoding(models(statements@), i)
            } else {
                0
            },
{
    let program = statements.iter().map(|s| (
        s.label.clone().map_or(lmc_assembly::Label::None, lmc_assembly::Label::LBL),
        lmc_assembly::Instruction::from_string(s.mnemonic.name(), s.operand.clone().map(|o| match o {
            Operand::Value(value) => lmc_assembly::Operand::Value(value),
            Operand::Label(name) => lmc_assembly::Operand::Label(name),
        })).unwrap(),
    )).collect();
    lmc_assembly::assemble(program).map(|image| image.to_vec())
}

/// Tests the operand of one statement.
fn check_operand(statements: &Vec<Statement>, at: usize) -> (r: Option<AssembleError>)
    requires
        at < statements@.len(),
    ensures
        match r {
            Some(error) => operand_fault(models(statements@), at as int) == Some(error@),
            None => operand_fault(models(statements@), at as int) is None,
        },
{
    let statement = &statements[at];
    assert(models(statements@)[at as int] == statement@);
    if !statement.mnemonic.allows_operand() {
        return None;
    }
    match &statement.operand {
        Some(Operand::Value(value)) => {
            let value: i16 = *value;
            let fits = if statement.mnemonic.requires_operand() {
                0 <= value && value < 100
            } else {
                word_in_range(value)
            };
            if fits {
                None
            } else {
                Some(AssembleError::OperandOutOfRange { value, line: statement.line })
            }
        },
        Some(Operand::Label(name)) => {
            if find_label(statements, name).is_some() {
                None
            } else {
                Some(AssembleError::UndefinedLabel { label: name.clone(), line: statement.line })
            }
        },
        None => None,
    }
}

/// Assembles a program into its memory image: one word per statement, at the
/// mailbox whose address is the statement's position. Either the whole
/// program assembles or an error is returned and no image.
pub fn assemble(statements: &Vec<Statement>) -> (r: Result<Vec<i16>, AssembleError>)
    requires
        forall|i: int| 0 <= i < statements@.len() ==> (#[trigger] statements@[i])@.wf(),
    ensures
        match r {
            Ok(image) => assemble_model(models(statements@)) == Ok::<Seq<i16>, AssembleErrorModel>(
                image@,
            ),
            Err(error) => assemble_model(models(statements@)) == Err::<
                Seq<i16>,
                AssembleErrorModel,
            >(error@),
        },
        r matches Ok(image) ==> image@.len() == statements@.len() && forall|i: int|
            0 <= i < image@.len() ==> is_word(#[trigger] image@[i] as int),
{
    let count: usize = statements.len();
    let ghost program = models(statements@);
    if count > 100 {
        return Err(AssembleError::TooManyStatements { count });
    }
    let mut j: usize = 0;
    while j < count
        invariant
            j <= count,
            count == statements@.len(),
            count <= 100,
            program == models(statements@),
            first_duplicate(program, 0) == first_duplicate(program, j as int),
        decreases count - j,
    {
        let statement = &statements[j];
        assert(program[j as int] == statement@);
        if let Some(label) = &statement.label {
            if find_label(statements, label) != Some(j) {
                return Err(
                    AssembleError::DuplicateLabel { label: label.clone(), line: statement.line },
                );
            }
        }
        j += 1;
    }
    let mut i: usize = 0;
    while i < count
        invariant
            i <= count,
            count == statements@.len(),
            count <= 100,
            program == models(statements@),
            first_duplicate(program, 0) is None,
            first_fault(program, 0) == first_fault(program, i as int),
            forall|k: int| 0 <= k < i ==> #[trigger] operand_fault(program, k) is None,
        decreases count - i,
    {
        if let Some(error) = check_operand(statements, i) {
            return Err(error);
        }
        i += 1;
    }
    assert forall|k: int| 0 <= k < program.len() implies (#[trigger] program[k]).wf() by {
        assert(program[k] == statements@[k]@);
    }
    let mut image = match encode_program(statements) {
        Ok(image) => image,
        Err(_) => Vec::new(),
    };
    image.truncate(count);
    proof {
        assert forall|k: int| 0 <= k < count implies is_word(#[trigger] image@[k] as int)
            && image@[k] == encoding(program, k) as i16 by {
            lemma_encoding_is_word(program, k);
        }
        assert(image@ =~= Seq::new(program.len(), |k: int| encoding(program, k) as i16));
    }
    Ok(image)
}

/// A statement without operand fault, in a program that fits the memory,
/// assembles to a word.
pub proof fn lemma_encoding_is_word(program: Seq<StatementModel>, at: int)
    requires
        0 <= at < program.len() <= 100,
        operand_fault(program, at) is None,
    ensures
        is_word(encoding(program, at)),
{
    match program[at].operand {
        Some(OperandModel::Label(name)) => {
            lemma_definition_from(program, name, 0);
        },
        _ => {},
    }
}

} // verus!
