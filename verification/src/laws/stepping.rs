//! Laws of the step transition.

use crate::instruction::{decode_model, Instruction};
use crate::io::{IoHandler, IoModel, OutputRecord};
use crate::machine::{
    lemma_engine_keeps_invariant, step_model, ExecutionError, MachineModel, MachineState,
    StepStatus,
};
use crate::word::{is_address, is_word, wrap_word};
use vstd::prelude::*;

verus! {

/// An input instruction with nothing pending pauses the machine: the step
/// reports that input is unavailable and leaves the machine as it was, the
/// accumulator and the program counter included. Stepping the same machine
/// with one word pending executes the instruction: the accumulator takes the
/// word and the program counter advances by 1.
pub proof fn law_input_pauses_until_supplied(machine: MachineModel, io: IoModel, value: i16)
    requires
        machine.wf(),
        is_address(machine.pc as int),
        machine.ram[machine.pc as int] == 901,
        io.input.len() == 0,
        is_word(value as int),
    ensures
        step_model(machine, io).result == Ok::<StepStatus, ExecutionError>(
            StepStatus::InputUnavailable,
        ),
        step_model(machine, io).machine == machine,
        step_model(machine, io).io.input_success == Some(false),
        step_model(machine, io).io.output == io.output,
        ({
            let supplied = IoModel { input: seq![value], ..step_model(machine, io).io };
            let resumed = step_model(machine, supplied);
            &&& resumed.result == Ok::<StepStatus, ExecutionError>(StepStatus::Executed)
            &&& resumed.machine.acc == value
            &&& resumed.machine.pc == machine.pc + 1
            &&& resumed.machine.ram == machine.ram
            &&& resumed.io.input.len() == 0
            &&& resumed.io.input_success == Some(true)
            &&& resumed.io.output == io.output
        }),
{
    let supplied = IoModel { input: seq![value], ..step_model(machine, io).io };
    assert(supplied.input.last() == value);
    assert(supplied.input.drop_last().len() == 0);
}

/// An output instruction appends the accumulator, as a number, to the
/// records emitted and advances the program counter by 1; nothing else of
/// accumulator, memory or pending input changes.
pub proof fn law_output_emits_accumulator(machine: MachineModel, io: IoModel)
    requires
        machine.wf(),
        is_address(machine.pc as int),
        machine.ram[machine.pc as int] == 902,
    ensures
        step_model(machine, io).result == Ok::<StepStatus, ExecutionError>(StepStatus::Executed),
        step_model(machine, io).io.output == io.output.push(OutputRecord::Int(machine.acc)),
        step_model(machine, io).io.input == io.input,
        step_model(machine, io).machine.pc == machine.pc + 1,
        step_model(machine, io).machine.acc == machine.acc,
        step_model(machine, io).machine.ram == machine.ram,
{
}

/// A branch-if-zero sets the program counter to its operand where the
/// accumulator is 0 and to the next mailbox where it is not; accumulator,
/// memory and capability stay as they were.
pub proof fn law_branch_if_zero(machine: MachineModel, io: IoModel, target: i16)
    requires
        machine.wf(),
        is_address(machine.pc as int),
        is_address(target as int),
        machine.ram[machine.pc as int] == 700 + target,
    ensures
        step_model(machine, io).result == Ok::<StepStatus, ExecutionError>(StepStatus::Executed),
        step_model(machine, io).machine.pc == if machine.acc == 0 {
            target as int
        } else {
            machine.pc + 1
        },
        step_model(machine, io).machine.acc == machine.acc,
        step_model(machine, io).machine.ram == machine.ram,
        step_model(machine, io).io == io,
{
}

/// The wrap rule is arithmetic modulo 1999 into `[-999, 999]`: every sum or
/// difference of two words wraps to a word that differs from it by a multiple
/// of 1999, and a word wraps to itself. One past the upper bound is the lower
/// bound, one before the lower bound is the upper.
pub proof fn law_wrap_is_modular(value: int)
    requires
        -1998 <= value <= 1998,
    ensures
        is_word(wrap_word(value)),
        (wrap_word(value) - value) % 1999 == 0,
        is_word(value) ==> wrap_word(value) == value,
        wrap_word(1000) == -999,
        wrap_word(-1000) == 999,
{
}

/// An addition leaves in the accumulator the sum of accumulator and mailbox,
/// wrapped: a sum above 999 comes out 1999 lower, a sum below -999 comes out
/// 1999 higher, so the accumulator always holds a word. The program counter
/// advances by 1.
pub proof fn law_add_wraps(machine: MachineModel, io: IoModel, address: i16)
    requires
        machine.wf(),
        is_address(machine.pc as int),
        is_address(address as int),
        machine.ram[machine.pc as int] == 100 + address,
    ensures
        step_model(machine, io).result == Ok::<StepStatus, ExecutionError>(StepStatus::Executed),
        step_model(machine, io).machine.pc == machine.pc + 1,
        ({
            let sum = machine.acc + machine.ram[address as int];
            let acc = step_model(machine, io).machine.acc;
            &&& acc == wrap_word(sum)
            &&& is_word(acc as int)
            &&& sum > 999 ==> acc == sum - 1999
            &&& sum < -999 ==> acc == sum + 1999
            &&& is_word(sum) ==> acc == sum
        }),
        step_model(machine, io).machine.mar == address,
        step_model(machine, io).machine.mdr == machine.ram[address as int],
        step_model(machine, io).machine.ram == machine.ram,
        step_model(machine, io).io == io,
{
    assert(is_word(machine.ram[address as int] as int));
    assert(is_word(machine.ram[machine.pc as int] as int));
}

/// A subtraction leaves in the accumulator the difference of accumulator and
/// mailbox, wrapped as a sum is.
pub proof fn law_subtract_wraps(machine: MachineModel, io: IoModel, address: i16)
    requires
        machine.wf(),
        is_address(machine.pc as int),
        is_address(address as int),
        machine.ram[machine.pc as int] == 200 + address,
    ensures
        step_model(machine, io).result == Ok::<StepStatus, ExecutionError>(StepStatus::Executed),
        step_model(machine, io).machine.pc == machine.pc + 1,
        ({
            let difference = machine.acc - machine.ram[address as int];
            let acc = step_model(machine, io).machine.acc;
            &&& acc == wrap_word(difference)
            &&& is_word(acc as int)
            &&& difference > 999 ==> acc == difference - 1999
            &&& difference < -999 ==> acc == difference + 1999
            &&& is_word(difference) ==> acc == difference
        }),
        step_model(machine, io).machine.mar == address,
        step_model(machine, io).machine.mdr == machine.ram[address as int],
        step_model(machine, io).machine.ram == machine.ram,
        step_model(machine, io).io == io,
{
    assert(is_word(machine.ram[address as int] as int));
    assert(is_word(machine.ram[machine.pc as int] as int));
}

/// A halt performs the fetch and nothing else: the program counter stays on
/// the halt, so that another step finds the halt again and changes nothing
/// more.
pub proof fn law_halt_is_stable(machine: MachineModel, io: IoModel)
    requires
        machine.wf(),
        is_address(machine.pc as int),
        machine.ram[machine.pc as int] == 0,
    ensures
        step_model(machine, io).result == Ok::<StepStatus, ExecutionError>(StepStatus::Executed),
        step_model(machine, io).machine == machine.fetched(),
        step_model(machine, io).machine.pc == machine.pc,
        step_model(machine, io).machine.acc == machine.acc,
        step_model(machine, io).io == io,
        step_model(step_model(machine, io).machine, io) == step_model(machine, io),
{
}

/// A step that fails changes neither the machine nor the capability, and it
/// fails exactly where the program counter addresses no mailbox, the word
/// there is no instruction, or an input instruction finds a pending value
/// that is no word.
pub proof fn law_failed_step_changes_nothing(machine: MachineModel, io: IoModel)
    ensures
        step_model(machine, io).result is Err ==> step_model(machine, io).machine == machine
            && step_model(machine, io).io == io,
        step_model(machine, io).result is Err <==> {
            ||| !is_address(machine.pc as int)
            ||| decode_model(machine.ram[machine.pc as int] as int) is None
            ||| (machine.ram[machine.pc as int] == 901 && io.input.len() > 0 && !is_word(
                io.input.last() as int,
            ))
        },
{
}

/// The machine and the capability after `count` steps in a row.
pub open spec fn after_steps(machine: MachineModel, io: IoModel, count: nat) -> (
    MachineModel,
    IoModel,
)
    decreases count,
{
    if count == 0 {
        (machine, io)
    } else {
        let outcome = step_model(machine, io);
        after_steps(outcome.machine, outcome.io, (count - 1) as nat)
    }
}

/// A machine is self-contained: stepping on from the state reached after
/// `first` steps gives what uninterrupted stepping gives, whoever held the
/// state in between.
pub proof fn law_resumed_run_equals_uninterrupted(
    machine: MachineModel,
    io: IoModel,
    first: nat,
    rest: nat,
)
    ensures
        after_steps(machine, io, first + rest) == after_steps(
            after_steps(machine, io, first).0,
            after_steps(machine, io, first).1,
            rest,
        ),
    decreases first,
{
    if first > 0 {
        let outcome = step_model(machine, io);
        law_resumed_run_equals_uninterrupted(outcome.machine, outcome.io, (first - 1) as nat, rest);
        assert((first + rest - 1) as nat == (first - 1) as nat + rest);
    }
}

/// Two machines with the same registers and memory, stepped with capabilities
/// of the same content, give the same result and end in the same content.
pub proof fn law_equal_content_steps_equally(
    one: MachineState,
    other: MachineState,
    one_io: IoHandler,
    other_io: IoHandler,
)
    requires
        one@ == other@,
        one_io@ == other_io@,
    ensures
        step_model(one@, one_io@) == step_model(other@, other_io@),
{
}

/// Stepping keeps the machine invariant, whatever the step does.
pub proof fn law_step_keeps_invariant(machine: MachineModel, io: IoModel)
    requires
        machine.wf(),
    ensures
        step_model(machine, io).machine.wf(),
{
    if is_address(machine.pc as int) {
        assert(is_word(machine.ram[machine.pc as int] as int));
        match decode_model(machine.ram[machine.pc as int] as int) {
            Some(Instruction::Halt) => {
                assert(step_model(machine, io).machine.ram == machine.ram);
            },
            Some(Instruction::Input) => {
                if io.input.len() > 0 && is_word(io.input.last() as int) {
                    lemma_engine_keeps_invariant(machine, io);
                }
            },
            Some(_) => {
                lemma_engine_keeps_invariant(machine, io);
            },
            None => {},
        }
    }
}

} // verus!
