//! Laws of the parser and of the numerals it reads.

use crate::assembler::{duplicate_at, first_duplicate};
use crate::laws::assembly::lemma_some_duplicate;
use crate::parser::{
    ascii_upper, digits_value, is_digit, line_model, numeral_value, operand_read, parse_lines,
    parse_model, recognized,
};
use crate::statement::{definition_from, Mnemonic, OperandModel, StatementModel};
use crate::text::{decimal, lines_model, signed_decimal, tokens_model};
use vstd::prelude::*;
use vstd::utf8::is_ascii_chars;

verus! {

/// The numeral of a natural number is a run of digits that denotes the
/// number.
pub proof fn law_decimal_reads_back(n: nat)
    ensures
        decimal(n).len() >= 1,
        forall|i: int| 0 <= i < decimal(n).len() ==> is_digit(#[trigger] decimal(n)[i]),
        digits_value(decimal(n)) == Some(n),
    decreases n,
{
    if n >= 10 {
        law_decimal_reads_back(n / 10);
        assert(decimal(n).drop_last() =~= decimal(n / 10));
    }
}

/// Every `i16` is read back from its own numeral: a token that is the
/// numeral of a value is the operand of that value.
pub proof fn law_numeral_is_read_as_its_value(value: i16)
    ensures
        numeral_value(signed_decimal(value as int)) == Some(value as int),
        operand_read(signed_decimal(value as int)) == OperandModel::Value(value),
{
    if value < 0 {
        let magnitude = (-(value as int)) as nat;
        law_decimal_reads_back(magnitude);
        assert(signed_decimal(value as int).skip(1) =~= decimal(magnitude));
    } else {
        law_decimal_reads_back(value as nat);
        assert(is_digit(decimal(value as nat)[0]));
    }
}

/// Every mnemonic is recognised from its own spelling, in capitals.
pub proof fn law_spelling_is_recognized(mnemonic: Mnemonic)
    ensures
        recognized(mnemonic.spelling()) == Some(mnemonic),
{
    reveal_strlit("LDA");
    reveal_strlit("STA");
    reveal_strlit("ADD");
    reveal_strlit("SUB");
    reveal_strlit("INP");
    reveal_strlit("OUT");
    reveal_strlit("OTC");
    reveal_strlit("HLT");
    reveal_strlit("BRZ");
    reveal_strlit("BRP");
    reveal_strlit("BRA");
    reveal_strlit("DAT");
    let spelling = mnemonic.spelling();
    assert(spelling.len() == 3);
    assert(is_ascii_chars(spelling));
    assert(spelling.map_values(|c: char| ascii_upper(c)) =~= spelling);
    assert(Mnemonic::Lda.spelling() =~= seq!['L', 'D', 'A']);
    assert(Mnemonic::Sta.spelling() =~= seq!['S', 'T', 'A']);
    assert(Mnemonic::Add.spelling() =~= seq!['A', 'D', 'D']);
    assert(Mnemonic::Sub.spelling() =~= seq!['S', 'U', 'B']);
    assert(Mnemonic::Inp.spelling() =~= seq!['I', 'N', 'P']);
    assert(Mnemonic::Out.spelling() =~= seq!['O', 'U', 'T']);
    assert(Mnemonic::Otc.spelling() =~= seq!['O', 'T', 'C']);
    assert(Mnemonic::Hlt.spelling() =~= seq!['H', 'L', 'T']);
    assert(Mnemonic::Brz.spelling() =~= seq!['B', 'R', 'Z']);
    assert(Mnemonic::Brp.spelling() =~= seq!['B', 'R', 'P']);
    assert(Mnemonic::Bra.spelling() =~= seq!['B', 'R', 'A']);
    assert(Mnemonic::Dat.spelling() =~= seq!['D', 'A', 'T']);
    let upper = spelling.map_values(|c: char| ascii_upper(c));
    assert(upper[0] == spelling[0] && upper[1] == spelling[1] && upper[2] == spelling[2]);
}

/// What one line says obeys the arity rule and carries the number of the
/// line, and so does its error.
pub proof fn law_line_carries_its_number(tokens: Seq<Seq<char>>, line: usize)
    ensures
        match line_model(tokens, line) {
            Ok(Some(statement)) => statement.line == line && statement.wf(),
            Ok(None) => true,
            Err(error) => error.line() == line,
        },
{
}

/// Parsing numbers lines from 1: the statements of the first `count` lines
/// carry the numbers of their lines, in rising order, none above `count`, and
/// each obeys the arity rule; an error carries the number of its line.
pub proof fn law_parsed_lines_are_numbered(lines: Seq<Seq<char>>, strict: bool, count: int)
    requires
        0 <= count <= usize::MAX,
    ensures
        match parse_lines(lines, strict, count) {
            Ok(program) => {
                &&& program.len() <= count
                &&& forall|i: int|
                    0 <= i < program.len() ==> 1 <= (#[trigger] program[i]).line <= count
                        && program[i].wf()
                &&& forall|i: int, j: int|
                    0 <= i < j < program.len() ==> (#[trigger] program[i]).line
                        < (#[trigger] program[j]).line
            },
            Err(error) => 1 <= error.line() <= count,
        },
    decreases count,
{
    if count > 0 {
        law_parsed_lines_are_numbered(lines, strict, count - 1);
        law_line_carries_its_number(tokens_model(lines[count - 1]), count as usize);
    }
}

/// The errors and statements of a source text carry line numbers within the
/// text, counted from 1.
pub proof fn law_parse_numbers_lines_from_one(source: Seq<char>, strict: bool)
    requires
        lines_model(source).len() <= usize::MAX,
    ensures
        match parse_model(source, strict) {
            Ok(program) => forall|i: int|
                0 <= i < program.len() ==> 1 <= (#[trigger] program[i]).line <= lines_model(
                    source,
                ).len() && program[i].wf(),
            Err(error) => 1 <= error.line() <= lines_model(source).len(),
        },
{
    law_parsed_lines_are_numbered(lines_model(source), strict, lines_model(source).len() as int);
}

/// What strict parsing accepts, lenient parsing accepts with the same
/// statements.
pub proof fn law_strict_parse_agrees_with_lenient(lines: Seq<Seq<char>>, count: int)
    requires
        parse_lines(lines, true, count) is Ok,
    ensures
        parse_lines(lines, false, count) == parse_lines(lines, true, count),
    decreases count,
{
    if count > 0 {
        law_strict_parse_agrees_with_lenient(lines, count - 1);
    }
}

/// Appending a statement leaves every earlier definition where it was; a
/// label that had none is defined by the new statement if that carries it.
pub proof fn lemma_definition_after_push(
    program: Seq<StatementModel>,
    statement: StatementModel,
    name: Seq<char>,
    from: int,
)
    requires
        0 <= from <= program.len(),
    ensures
        definition_from(program.push(statement), name, from) == match definition_from(
            program,
            name,
            from,
        ) {
            Some(at) => Some(at),
            None => if statement.label == Some(name) {
                Some(program.len() as int)
            } else {
                None
            },
        },
    decreases program.len() - from,
{
    let longer = program.push(statement);
    if from < program.len() {
        assert(longer[from] == program[from]);
        if program[from].label != Some(name) {
            lemma_definition_after_push(program, statement, name, from + 1);
        }
    } else {
        assert(longer[from] == statement);
        assert(definition_from(longer, name, from + 1) is None);
    }
}

/// Strict parsing leaves no label defined twice, so that assembly never
/// refuses its statements for a duplicate label.
pub proof fn law_strict_parse_defines_each_label_once(lines: Seq<Seq<char>>, count: int)
    requires
        parse_lines(lines, true, count) is Ok,
    ensures
        forall|i: int|
            0 <= i < parse_lines(lines, true, count)->Ok_0.len() ==> !#[trigger] duplicate_at(
                parse_lines(lines, true, count)->Ok_0,
                i,
            ),
        first_duplicate(parse_lines(lines, true, count)->Ok_0, 0) is None,
    decreases count,
{
    let program = parse_lines(lines, true, count)->Ok_0;
    if count > 0 {
        law_strict_parse_defines_each_label_once(lines, count - 1);
        let earlier = parse_lines(lines, true, count - 1)->Ok_0;
        match line_model(tokens_model(lines[count - 1]), count as usize) {
            Ok(Some(statement)) => {
                assert(program == earlier.push(statement));
                assert forall|i: int| 0 <= i < program.len() implies !#[trigger] duplicate_at(
                    program,
                    i,
                ) by {
                    if program[i].label is Some {
                        let name = program[i].label->Some_0;
                        lemma_definition_after_push(earlier, statement, name, 0);
                        if i < earlier.len() {
                            assert(program[i] == earlier[i]);
                            assert(!duplicate_at(earlier, i));
                        }
                    }
                }
            },
            _ => {},
        }
    }
    if first_duplicate(program, 0) is Some {
        lemma_some_duplicate(program, 0);
    }
}

} // verus!
