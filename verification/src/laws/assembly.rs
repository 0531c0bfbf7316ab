//! Laws of the assembler.

use crate::assembler::{
    assemble_model, duplicate_at, encoding, first_duplicate, first_fault, lemma_encoding_is_word,
    operand_fault, AssembleErrorModel,
};
use crate::statement::{label_address, lemma_definition_from, OperandModel, StatementModel};
use vstd::prelude::*;

verus! {

/// Where no label is defined again from `from` on, no statement from there on
/// is a second definition.
pub proof fn lemma_no_duplicate_at(program: Seq<StatementModel>, from: int, at: int)
    requires
        0 <= from <= at < program.len(),
        first_duplicate(program, from) is None,
    ensures
        !duplicate_at(program, at),
    decreases at - from,
{
    if from < at {
        lemma_no_duplicate_at(program, from + 1, at);
    }
}

/// The search for a fault finds the fault of the first statement that has
/// one.
pub proof fn lemma_first_fault(program: Seq<StatementModel>, from: int, at: int)
    requires
        0 <= from <= at < program.len(),
        forall|i: int| from <= i < at ==> #[trigger] operand_fault(program, i) is None,
        operand_fault(program, at) is Some,
    ensures
        first_fault(program, from) == operand_fault(program, at),
    decreases at - from,
{
    if from < at {
        lemma_first_fault(program, from + 1, at);
    }
}

/// A search for a fault that finds none means no statement searched has one.
pub proof fn lemma_fault_free(program: Seq<StatementModel>, from: int, at: int)
    requires
        0 <= from <= at < program.len(),
        first_fault(program, from) is None,
    ensures
        operand_fault(program, at) is None,
    decreases at - from,
{
    if from < at {
        lemma_fault_free(program, from + 1, at);
    }
}

/// A program assembles exactly when it fits the memory, defines no label
/// twice and has no operand at fault; its image has one word per
/// statement, each the encoding of its statement.
pub proof fn law_assembly_succeeds_iff_valid(program: Seq<StatementModel>)
    ensures
        assemble_model(program) is Ok <==> {
            &&& program.len() <= 100
            &&& forall|i: int| 0 <= i < program.len() ==> !#[trigger] duplicate_at(program, i)
            &&& forall|i: int|
                0 <= i < program.len() ==> #[trigger] operand_fault(program, i) is None
        },
        assemble_model(program) matches Ok(image) ==> {
            &&& image.len() == program.len()
            &&& forall|i: int| 0 <= i < image.len() ==> #[trigger] image[i] == encoding(program, i)
        },
{
    if program.len() <= 100 {
        if first_duplicate(program, 0) is None {
            assert forall|i: int| 0 <= i < program.len() implies !#[trigger] duplicate_at(
                program,
                i,
            ) by {
                lemma_no_duplicate_at(program, 0, i);
            }
            if first_fault(program, 0) is None {
                assert forall|i: int| 0 <= i < program.len() implies #[trigger] operand_fault(
                    program,
                    i,
                ) is None by {
                    lemma_fault_free(program, 0, i);
                }
                let image = assemble_model(program)->Ok_0;
                assert forall|i: int| 0 <= i < image.len() implies #[trigger] image[i] == encoding(
                    program,
                    i,
                ) by {
                    lemma_encoding_is_word(program, i);
                }
            } else {
                lemma_some_fault(program, 0);
            }
        } else {
            lemma_some_duplicate(program, 0);
        }
    }
}

/// A search that finds a second definition means some statement is one.
pub proof fn lemma_some_duplicate(program: Seq<StatementModel>, from: int)
    requires
        0 <= from,
        first_duplicate(program, from) is Some,
    ensures
        exists|i: int| from <= i < program.len() && #[trigger] duplicate_at(program, i),
    decreases program.len() - from,
{
    if !duplicate_at(program, from) {
        lemma_some_duplicate(program, from + 1);
    }
}

/// A search that finds a fault means some statement has one.
pub proof fn lemma_some_fault(program: Seq<StatementModel>, from: int)
    requires
        0 <= from,
        first_fault(program, from) is Some,
    ensures
        exists|i: int| from <= i < program.len() && #[trigger] operand_fault(program, i) is Some,
    decreases program.len() - from,
{
    if operand_fault(program, from) is None {
        lemma_some_fault(program, from + 1);
    }
}

/// The number a statement without label operand contributes: its numeric
/// operand, or 0.
pub open spec fn numeric_operand(statement: StatementModel) -> int {
    match statement.operand {
        Some(OperandModel::Value(value)) if statement.mnemonic.operand_allowed() => value as int,
        _ => 0,
    }
}

/// A program without labels, whose numbers are addresses where an address is
/// due and words for `DAT`, assembles to one word per statement: the base
/// word of the mnemonic plus the number.
pub proof fn law_label_free_program_encodes_in_place(program: Seq<StatementModel>)
    requires
        program.len() <= 100,
        forall|i: int|
            0 <= i < program.len() ==> {
                &&& (#[trigger] program[i]).wf()
                &&& program[i].label is None
                &&& !(program[i].operand matches Some(OperandModel::Label(_)))
                &&& operand_fault(program, i) is None
            },
    ensures
        assemble_model(program) matches Ok(image) && image.len() == program.len() && forall|i: int|
            0 <= i < program.len() ==> #[trigger] image[i] == program[i].mnemonic.base_word()
                + numeric_operand(program[i]),
{
    assert forall|i: int| 0 <= i < program.len() implies !#[trigger] duplicate_at(program, i) by {
        assert(program[i].label is None);
    }
    assert forall|i: int| 0 <= i < program.len() implies #[trigger] operand_fault(
        program,
        i,
    ) is None by {
        assert(program[i].wf());
    }
    law_assembly_succeeds_iff_valid(program);
    let image = assemble_model(program)->Ok_0;
    assert forall|i: int| 0 <= i < program.len() implies #[trigger] image[i]
        == program[i].mnemonic.base_word() + numeric_operand(program[i]) by {
        assert(program[i].wf());
    }
}

/// A label may be used before the statement that defines it: where `user`
/// refers to the label that the later statement `definer` defines, and the
/// program is otherwise valid, it assembles, and the word of `user` holds the
/// position of `definer`.
pub proof fn law_forward_reference_resolves(
    program: Seq<StatementModel>,
    user: int,
    definer: int,
    name: Seq<char>,
)
    requires
        program.len() <= 100,
        0 <= user < definer < program.len(),
        program[user].mnemonic.operand_allowed(),
        program[user].operand == Some(OperandModel::Label(name)),
        program[definer].label == Some(name),
        forall|i: int| 0 <= i < program.len() ==> !#[trigger] duplicate_at(program, i),
        forall|i: int|
            0 <= i < program.len() && i != user ==> #[trigger] operand_fault(program, i) is None,
    ensures
        assemble_model(program) matches Ok(image) && image[user]
            == program[user].mnemonic.base_word() + definer,
{
    assert(!duplicate_at(program, definer));
    assert(label_address(program, name) == Some(definer));
    assert forall|i: int| 0 <= i < program.len() implies #[trigger] operand_fault(
        program,
        i,
    ) is None by {
        if i != user {
            assert(operand_fault(program, i) is None);
        }
    }
    law_assembly_succeeds_iff_valid(program);
}

/// A program that refers to a label no statement defines does not assemble.
/// Where it fits the memory, defines no label twice and the reference is its
/// first fault, the error is the undefined label, by name, with the line of
/// the statement that refers to it.
pub proof fn law_undefined_label_is_reported(program: Seq<StatementModel>, user: int, name: Seq<char>)
    requires
        0 <= user < program.len(),
        program[user].mnemonic.operand_allowed(),
        program[user].operand == Some(OperandModel::Label(name)),
        forall|i: int| 0 <= i < program.len() ==> (#[trigger] program[i]).label != Some(name),
    ensures
        assemble_model(program) is Err,
        program.len() <= 100 && (forall|i: int|
            0 <= i < program.len() ==> !#[trigger] duplicate_at(program, i)) && (forall|i: int|
            0 <= i < user ==> #[trigger] operand_fault(program, i) is None) ==> assemble_model(program)
            == Err::<Seq<i16>, AssembleErrorModel>(
            AssembleErrorModel::UndefinedLabel { label: name, line: program[user].line },
        ),
{
    lemma_definition_from(program, name, 0);
    assert(operand_fault(program, user) == Some(
        AssembleErrorModel::UndefinedLabel { label: name, line: program[user].line },
    ));
    law_assembly_succeeds_iff_valid(program);
    if program.len() <= 100 && (forall|i: int|
        0 <= i < program.len() ==> !#[trigger] duplicate_at(program, i)) && (forall|i: int|
        0 <= i < user ==> #[trigger] operand_fault(program, i) is None) {
        if first_duplicate(program, 0) is Some {
            lemma_some_duplicate(program, 0);
        }
        lemma_first_fault(program, 0, user);
    }
}

} // verus!
