//! The parser: from source text to statements, or to the first error with its
//! line.

use crate::statement::{
    find_label, label_address, models, Mnemonic, Operand, OperandModel, Statement, StatementModel,
};
use crate::text::{
    line_prefix, lines_model, split_lines, start_line_message, texts, tokenize, tokens_model,
};
use lmc_assembly::Instruction::{ADD, BRA, BRP, BRZ, DAT, HLT, INP, LDA, OTC, OUT, STA, SUB};
use vstd::prelude::*;
use vstd::utf8::is_ascii_chars;

verus! {

/// The mnemonic that `lmc_assembly::Instruction::from_string` reads a token
/// as, if it reads it as one.
pub uninterp spec fn mnemonic_named(token: Seq<char>) -> Option<Mnemonic>;

/// A character with a lower-case ASCII letter replaced by its capital.
pub open spec fn ascii_upper(c: char) -> char {
    if 'a' <= c <= 'z' {
        ((c as u8) - 32) as char
    } else {
        c
    }
}

/// The mnemonic an upper-case spelling is that of.
pub open spec fn spelled(upper: Seq<char>) -> Option<Mnemonic> {
    if upper == Mnemonic::Lda.spelling() {
        Some(Mnemonic::Lda)
    } else if upper == Mnemonic::Sta.spelling() {
        Some(Mnemonic::Sta)
    } else if upper == Mnemonic::Add.spelling() {
        Some(Mnemonic::Add)
    } else if upper == Mnemonic::Sub.spelling() {
        Some(Mnemonic::Sub)
    } else if upper == Mnemonic::Inp.spelling() {
        Some(Mnemonic::Inp)
    } else if upper == Mnemonic::Out.spelling() {
        Some(Mnemonic::Out)
    } else if upper == Mnemonic::Otc.spelling() {
        Some(Mnemonic::Otc)
    } else if upper == Mnemonic::Hlt.spelling() {
        Some(Mnemonic::Hlt)
    } else if upper == Mnemonic::Brz.spelling() {
        Some(Mnemonic::Brz)
    } else if upper == Mnemonic::Brp.spelling() {
        Some(Mnemonic::Brp)
    } else if upper == Mnemonic::Bra.spelling() {
        Some(Mnemonic::Bra)
    } else if upper == Mnemonic::Dat.spelling() {
        Some(Mnemonic::Dat)
    } else {
        None
    }
}

/// The mnemonic a token is recognised as, if it is one: for a token of ASCII
/// characters, the mnemonic its capitals spell; for any other token, whatever
/// the outside recogniser reads it as.
pub open spec fn recognized(token: Seq<char>) -> Option<Mnemonic> {
    if is_ascii_chars(token) {
        spelled(token.map_values(|c: char| ascii_upper(c)))
    } else {
        mnemonic_named(token)
    }
}

/// Whether a character is a decimal digit.
pub open spec fn is_digit(c: char) -> bool {
    '0' <= c <= '9'
}

/// The number a non-empty run of decimal digits denotes. Anything else
/// denotes nothing.
pub open spec fn digits_value(digits: Seq<char>) -> Option<nat>
    decreases digits.len(),
{
    if digits.len() == 0 || !is_digit(digits.last()) {
        None
    } else {
        let unit = (digits.last() as u8 - 48) as nat;
        if digits.len() == 1 {
            Some(unit)
        } else {
            match digits_value(digits.drop_last()) {
                Some(tens) => Some(tens * 10 + unit),
                None => None,
            }
        }
    }
}

/// The integer a numeral denotes: a run of digits, or a sign and a run of
/// digits.
pub open spec fn numeral_value(token: Seq<char>) -> Option<int> {
    if token.len() > 0 && token[0] == '-' {
        match digits_value(token.skip(1)) {
            Some(magnitude) => Some(-(magnitude as int)),
            None => None,
        }
    } else if token.len() > 0 && token[0] == '+' {
        match digits_value(token.skip(1)) {
            Some(magnitude) => Some(magnitude as int),
            None => None,
        }
    } else {
        match digits_value(token) {
            Some(magnitude) => Some(magnitude as int),
            None => None,
        }
    }
}

/// The operand a token is read as: a number where the token is the numeral
/// of an `i16`, else a label of that name.
pub open spec fn operand_read(token: Seq<char>) -> OperandModel {
    match numeral_value(token) {
        Some(value) => if i16::MIN <= value <= i16::MAX {
            OperandModel::Value(value as i16)
        } else {
            OperandModel::Label(token)
        },
        None => OperandModel::Label(token),
    }
}

/// Asks `lmc_assembly::Instruction::from_string` whether a token is a
/// mnemonic, handing it a dummy operand so that no mnemonic is refused for
/// want of one. Trusted: the answer depends on the token alone; a token of
/// ASCII characters is a mnemonic exactly when its capitals spell one.
#[verifier::external_body]
fn recognize_mnemonic(token: &str) -> (r: Option<Mnemonic>)
    ensures
        r == mnemonic_named(token@),
        is_ascii_chars(token@) ==> r == spelled(token@.map_values(|c: char| ascii_upper(c))),
{
    let operand = Some(lmc_assembly::Operand::Value(0));
    lmc_assembly::Instruction::from_string(token, operand).map(|instruction| match instruction {
        LDA(_) => Mnemonic::Lda, STA(_) => Mnemonic::Sta, ADD(_) => Mnemonic::Add,
        SUB(_) => Mnemonic::Sub, BRZ(_) => Mnemonic::Brz, BRP(_) => Mnemonic::Brp,
        BRA(_) => Mnemonic::Bra, DAT(_) => Mnemonic::Dat, INP => Mnemonic::Inp,
        OUT => Mnemonic::Out, OTC => Mnemonic::Otc, HLT => Mnemonic::Hlt,
    })
}

/// Reads a token with `lmc_assembly::Operand::from_str`, which accepts every
/// token. Trusted: the token is read as a number where `i16::from_str`
/// accepts it, which it does for an optional sign followed by decimal digits
/// whose value fits; every other token is a label named by the token.
#[verifier::external_body]
fn read_operand(token: &str) -> (r: Operand)
    ensures
        r@ == operand_read(token@),
{
    match token.parse::<lmc_assembly::Operand>().unwrap() {
        lmc_assembly::Operand::Value(value) => Operand::Value(value),
        lmc_assembly::Operand::Label(name) => Operand::Label(name),
    }
}

/// The mathematical content of a [`ParseError`].
pub enum ParseErrorModel {
    UnknownMnemonic { line: usize, token: Seq<char> },
    MissingOperand { line: usize, mnemonic: Mnemonic },
    UnexpectedOperand { line: usize, mnemonic: Mnemonic },
    TooManyTokens { line: usize },
    DuplicateLabel { line: usize, label: Seq<char> },
}

/// Why a source text is no program. `line` is the 1-based number of the
/// offending line.
#[derive(Debug, Clone, PartialEq, Eq)]
pub enum ParseError {
    /// The token in mnemonic position is no mnemonic.
    UnknownMnemonic { line: usize, token: String },
    /// The mnemonic requires an operand and the line has none.
    MissingOperand { line: usize, mnemonic: Mnemonic },
    /// The mnemonic takes no operand and the line has one.
    UnexpectedOperand { line: usize, mnemonic: Mnemonic },
    /// The line has more than a label, a mnemonic and an operand.
    TooManyTokens { line: usize },
    /// In strict mode: the line's label was defined on an earlier line.
    DuplicateLabel { line: usize, label: String },
}

impl View for ParseError {
    type V = ParseErrorModel;

    open spec fn view(&self) -> ParseErrorModel {
        match self {
            ParseError::UnknownMnemonic { line, token } => ParseErrorModel::UnknownMnemonic {
                line: *line,
                token: token@,
            },
            ParseError::MissingOperand { line, mnemonic } => ParseErrorModel::MissingOperand {
                line: *line,
                mnemonic: *mnemonic,
            },
            ParseError::UnexpectedOperand { line, mnemonic } => ParseErrorModel::UnexpectedOperand {
                line: *line,
                mnemonic: *mnemonic,
            },
            ParseError::TooManyTokens { line } => ParseErrorModel::TooManyTokens { line: *line },
            ParseError::DuplicateLabel { line, label } => ParseErrorModel::DuplicateLabel {
                line: *line,
                label: label@,
            },
        }
    }
}

impl ParseErrorModel {
    /// The 1-based number of the offending line.
    pub open spec fn line(self) -> usize {
        match self {
            ParseErrorModel::UnknownMnemonic { line, .. } => line,
            ParseErrorModel::MissingOperand { line, .. } => line,
            ParseErrorModel::UnexpectedOperand { line, .. } => line,
            ParseErrorModel::TooManyTokens { line } => line,
            ParseErrorModel::DuplicateLabel { line, .. } => line,
        }
    }

    /// What the error says, after the line prefix.
    pub open spec fn detail(self) -> Seq<char> {
        match self {
            ParseErrorModel::UnknownMnemonic { token, .. } => "unknown mnemonic "@ + token,
            ParseErrorModel::MissingOperand { mnemonic, .. } => mnemonic.spelling()
                + " requires an operand"@,
            ParseErrorModel::UnexpectedOperand { mnemonic, .. } => mnemonic.spelling()
                + " takes no operand"@,
            ParseErrorModel::TooManyTokens { .. } => "too many tokens"@,
            ParseErrorModel::DuplicateLabel { label, .. } => "label "@ + label
                + " is already defined"@,
        }
    }

    /// The error as text: the line prefix followed by the detail.
    pub open spec fn text(self) -> Seq<char> {
        line_prefix(self.line() as nat) + self.detail()
    }
}

impl ParseError {
    /// The 1-based number of the offending line.
    pub fn line(&self) -> (r: usize)
        ensures
            r == self@.line(),
    {
        match self {
            ParseError::UnknownMnemonic { line, .. } => *line,
            ParseError::MissingOperand { line, .. } => *line,
            ParseError::UnexpectedOperand { line, .. } => *line,
            ParseError::TooManyTokens { line } => *line,
            ParseError::DuplicateLabel { line, .. } => *line,
        }
    }

    /// The error as human-readable text that begins with its line number.
    pub fn message(&self) -> (r: String)
        ensures
            r@ == self@.text(),
    {
        let mut out = start_line_message(self.line());
        let ghost prefix = out@;
        match self {
            ParseError::UnknownMnemonic { token, .. } => {
                out.append("unknown mnemonic ");
                out.append(token.as_str());
                assert(out@ =~= prefix + ("unknown mnemonic "@ + token@));
            },
            ParseError::MissingOperand { mnemonic, .. } => {
                out.append(mnemonic.name());
                out.append(" requires an operand");
                assert(out@ =~= prefix + (mnemonic.spelling() + " requires an operand"@));
            },
            ParseError::UnexpectedOperand { mnemonic, .. } => {
                out.append(mnemonic.name());
                out.append(" takes no operand");
                assert(out@ =~= prefix + (mnemonic.spelling() + " takes no operand"@));
            },
            ParseError::TooManyTokens { .. } => {
                out.append("too many tokens");
            },
            ParseError::DuplicateLabel { label, .. } => {
                out.append("label ");
                out.append(label.as_str());
                out.append(" is already defined");
                assert(out@ =~= prefix + ("label "@ + label@ + " is already defined"@));
            },
        }
        out
    }
}

/// The statement a line says once its label, mnemonic token and operand
/// token have been told apart: the arity rule is applied to the recognised
/// mnemonic.
pub open spec fn arranged(
    label: Option<Seq<char>>,
    mnemonic: Seq<char>,
    operand: Option<Seq<char>>,
    line: usize,
) -> Result<Option<StatementModel>, ParseErrorModel> {
    match recognized(mnemonic) {
        None => Err(ParseErrorModel::UnknownMnemonic { line, token: mnemonic }),
        Some(m) => match operand {
            None => if m.operand_required() {
                Err(ParseErrorModel::MissingOperand { line, mnemonic: m })
            } else {
                Ok(Some(StatementModel { label, mnemonic: m, operand: None, line }))
            },
            Some(token) => if m.operand_allowed() {
                Ok(
                    Some(
                        StatementModel {
                            label,
                            mnemonic: m,
                            operand: Some(operand_read(token)),
                            line,
                        },
                    ),
                )
            } else {
                Err(ParseErrorModel::UnexpectedOperand { line, mnemonic: m })
            },
        },
    }
}

/// What one line says, from its tokens. No token: nothing. One token: a
/// mnemonic. Two tokens: a mnemonic and its operand where the first token is a
/// mnemonic, else a label and a mnemonic. Three tokens: label, mnemonic and
/// operand. More than three are an error.
pub open spec fn line_model(tokens: Seq<Seq<char>>, line: usize) -> Result<
    Option<StatementModel>,
    ParseErrorModel,
> {
    if tokens.len() == 0 {
        Ok(None)
    } else if tokens.len() == 1 {
        arranged(None, tokens[0], None, line)
    } else if tokens.len() == 2 {
        if recognized(tokens[0]) is Some {
            arranged(None, tokens[0], Some(tokens[1]), line)
        } else {
            arranged(Some(tokens[0]), tokens[1], None, line)
        }
    } else if tokens.len() == 3 {
        arranged(Some(tokens[0]), tokens[1], Some(tokens[2]), line)
    } else {
        Err(ParseErrorModel::TooManyTokens { line })
    }
}

/// The result of parsing the first `count` lines: the statements of those
/// lines in order, or the error of the first line that has one. In strict
/// mode a line whose label an earlier statement defines is an error.
pub open spec fn parse_lines(lines: Seq<Seq<char>>, strict: bool, count: int) -> Result<
    Seq<StatementModel>,
    ParseErrorModel,
>
    decreases count,
{
    if count <= 0 {
        Ok(Seq::empty())
    } else {
        match parse_lines(lines, strict, count - 1) {
            Err(error) => Err(error),
            Ok(program) => match line_model(tokens_model(lines[count - 1]), count as usize) {
                Err(error) => Err(error),
                Ok(None) => Ok(program),
                Ok(Some(statement)) => if strict && statement.label is Some && label_address(
                    program,
                    statement.label->Some_0,
                ) is Some {
                    Err(
                        ParseErrorModel::DuplicateLabel {
                            line: count as usize,
                            label: statement.label->Some_0,
                        },
                    )
                } else {
                    Ok(program.push(statement))
                },
            },
        }
    }
}

/// The result of parsing a source text.
pub open spec fn parse_model(source: Seq<char>, strict: bool) -> Result<
    Seq<StatementModel>,
    ParseErrorModel,
> {
    parse_lines(lines_model(source), strict, lines_model(source).len() as int)
}

/// An error found in the first lines stays the result however many further
/// lines are parsed.
pub proof fn lemma_parse_error_is_final(lines: Seq<Seq<char>>, strict: bool, found: int, count: int)
    requires
        found <= count,
        parse_lines(lines, strict, found) is Err,
    ensures
        parse_lines(lines, strict, count) == parse_lines(lines, strict, found),
    decreases count - found,
{
    if found < count {
        lemma_parse_error_is_final(lines, strict, found, count - 1);
    }
}

/// Builds the statement of a line from its parts, applying the arity rule.
fn arrange(label: Option<String>, mnemonic: &String, operand: Option<&String>, line: usize) -> (r:
    Result<Option<Statement>, ParseError>)
    ensures
        match r {
            Ok(Some(statement)) => Ok::<Option<StatementModel>, ParseErrorModel>(
                Some(statement@),
            ),
            Ok(None) => Ok(None),
            Err(error) => Err(error@),
        } == arranged(
            match label {
                Some(name) => Some(name@),
                None => None,
            },
            mnemonic@,
            match operand {
                Some(token) => Some(token@),
                None => None,
            },
            line,
        ),
{
    let m = match recognize_mnemonic(mnemonic.as_str()) {
        Some(m) => m,
        None => {
            return Err(ParseError::UnknownMnemonic { line, token: mnemonic.clone() });
        },
    };
    match operand {
        None => {
            if m.requires_operand() {
                Err(ParseError::MissingOperand { line, mnemonic: m })
            } else {
                Ok(Some(Statement { label, mnemonic: m, operand: None, line }))
            }
        },
        Some(token) => {
            if m.allows_operand() {
                let operand = read_operand(token.as_str());
                Ok(Some(Statement { label, mnemonic: m, operand: Some(operand), line }))
            } else {
                Err(ParseError::UnexpectedOperand { line, mnemonic: m })
            }
        },
    }
}

/// Parses the tokens of one line.
pub fn parse_line(tokens: &Vec<String>, line: usize) -> (r: Result<Option<Statement>, ParseError>)
    ensures
        match r {
            Ok(Some(statement)) => Ok::<Option<StatementModel>, ParseErrorModel>(
                Some(statement@),
            ),
            Ok(None) => Ok(None),
            Err(error) => Err(error@),
        } == line_model(texts(tokens@), line),
{
    let count: usize = tokens.len();
    if count == 0 {
        Ok(None)
    } else if count == 1 {
        arrange(None, &tokens[0], None, line)
    } else if count == 2 {
        if recognize_mnemonic(tokens[0].as_str()).is_some() {
            arrange(None, &tokens[0], Some(&tokens[1]), line)
        } else {
            arrange(Some(tokens[0].clone()), &tokens[1], None, line)
        }
    } else if count == 3 {
        arrange(Some(tokens[0].clone()), &tokens[1], Some(&tokens[2]), line)
    } else {
        Err(ParseError::TooManyTokens { line })
    }
}

/// Parses a source text into its statements. Blank lines and comments say
/// nothing; every other line is one statement. On the first line in error the
/// parse ends with that error and no statements. In strict mode a label
/// defined twice is an error of the line that defines it again; otherwise it
/// is left for assembly to refuse.
pub fn parse(source: &str, strict: bool) -> (r: Result<Vec<Statement>, ParseError>)
    ensures
        match r {
            Ok(statements) => parse_model(source@, strict) == Ok::<
                Seq<StatementModel>,
                ParseErrorModel,
            >(models(statements@)),
            Err(error) => parse_model(source@, strict) == Err::<
                Seq<StatementModel>,
                ParseErrorModel,
            >(error@),
        },
        r matches Ok(statements) ==> forall|i: int|
            0 <= i < statements@.len() ==> (#[trigger] statements@[i])@.wf(),
{
    let lines = split_lines(source);
    let mut statements: Vec<Statement> = Vec::new();
    let mut i: usize = 0;
    assert(models(statements@) =~= Seq::<StatementModel>::empty());
    while i < lines.len()
        invariant
            i <= lines@.len(),
            texts(lines@) == lines_model(source@),
            parse_lines(lines_model(source@), strict, i as int) == Ok::<
                Seq<StatementModel>,
                ParseErrorModel,
            >(models(statements@)),
            forall|k: int| 0 <= k < statements@.len() ==> (#[trigger] statements@[k])@.wf(),
        decreases lines@.len() - i,
    {
        let number: usize = i + 1;
        let tokens = tokenize(lines[i].as_str());
        match parse_line(&tokens, number) {
            Err(error) => {
                proof {
                    lemma_parse_error_is_final(
                        lines_model(source@),
                        strict,
                        number as int,
                        lines@.len() as int,
                    );
                }
                return Err(error);
            },
            Ok(None) => {},
            Ok(Some(statement)) => {
                if strict {
                    if let Some(label) = &statement.label {
                        if find_label(&statements, label).is_some() {
                            proof {
                                lemma_parse_error_is_final(
                                    lines_model(source@),
                                    strict,
                                    number as int,
                                    lines@.len() as int,
                                );
                            }
                            return Err(
                                ParseError::DuplicateLabel { line: number, label: label.clone() },
                            );
                        }
                    }
                }
                let ghost before = models(statements@);
                statements.push(statement);
                assert(models(statements@) =~= before.push(statement@));
            },
        }
        i += 1;
    }
    Ok(statements)
}

} // verus!
