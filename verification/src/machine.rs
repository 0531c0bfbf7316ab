//! Machine state and the single-step transition.

use crate::instruction::{decode, decode_model, Instruction};
use crate::io::{IoHandler, IoModel, OutputRecord};
use crate::text::{append_signed, signed_decimal};
use crate::word::{char_of_word, is_address, is_word, word_in_range, wrap_word};
use vstd::prelude::*;

verus! {

/// The mathematical content of a [`MachineState`].
pub struct MachineModel {
    pub pc: i16,
    pub acc: i16,
    pub cir: i16,
    pub mar: i16,
    pub mdr: i16,
    pub ram: Seq<i16>,
}

impl MachineModel {
    /// The invariant of a machine: exactly 100 mailboxes, each holding a
    /// word, and a word in the accumulator.
    pub open spec fn wf(self) -> bool {
        &&& self.ram.len() == 100
        &&& is_word(self.acc as int)
        &&& forall|i: int| 0 <= i < 100 ==> is_word(#[trigger] self.ram[i] as int)
    }

    /// The state after fetching the word at the program counter: the address
    /// register holds the counter, both data registers hold the word.
    pub open spec fn fetched(self) -> MachineModel {
        MachineModel {
            cir: self.ram[self.pc as int],
            mar: self.pc,
            mdr: self.ram[self.pc as int],
            ..self
        }
    }
}

/// The registers and memory of one machine. The caller owns the whole value
/// between steps.
#[derive(Debug, Clone, PartialEq, Eq)]
pub struct MachineState {
    pub pc: i16,
    pub acc: i16,
    pub cir: i16,
    pub mar: i16,
    pub mdr: i16,
    pub ram: Vec<i16>,
}

impl View for MachineState {
    type V = MachineModel;

    open spec fn view(&self) -> MachineModel {
        MachineModel {
            pc: self.pc,
            acc: self.acc,
            cir: self.cir,
            mar: self.mar,
            mdr: self.mdr,
            ram: self.ram@,
        }
    }
}

/// One cycle of the engine on a ready machine: the word at the program
/// counter is fetched, the counter moves to the next mailbox, and the word is
/// executed. A halt leaves the counter at -1.
pub open spec fn engine_model(machine: MachineModel, io: IoModel) -> (MachineModel, IoModel) {
    let fetched = MachineModel { pc: (machine.pc + 1) as i16, ..machine.fetched() };
    match decode_model(fetched.cir as int) {
        Some(Instruction::Halt) => (MachineModel { pc: -1i16, ..fetched }, io),
        Some(Instruction::Input) => (
            MachineModel { acc: io.requested_value(), ..fetched },
            io.after_request(),
        ),
        Some(Instruction::Output) => (fetched, io.after_emit(OutputRecord::Int(fetched.acc))),
        Some(Instruction::OutputChar) => (
            fetched,
            io.after_emit(OutputRecord::Char(char_of_word(fetched.acc as int))),
        ),
        Some(Instruction::Add(a)) => (
            MachineModel {
                mar: a,
                acc: wrap_word(fetched.acc + fetched.ram[a as int]) as i16,
                ..fetched
            },
            io,
        ),
        Some(Instruction::Subtract(a)) => (
            MachineModel {
                mar: a,
                acc: wrap_word(fetched.acc - fetched.ram[a as int]) as i16,
                ..fetched
            },
            io,
        ),
        Some(Instruction::Store(a)) => (
            MachineModel { mar: a, ram: fetched.ram.update(a as int, fetched.acc), ..fetched },
            io,
        ),
        Some(Instruction::Load(a)) => (
            MachineModel { mar: a, acc: fetched.ram[a as int], ..fetched },
            io,
        ),
        Some(Instruction::Branch(a)) => (MachineModel { mar: a, pc: a, ..fetched }, io),
        Some(Instruction::BranchIfZero(a)) => (
            MachineModel { mar: a, pc: if fetched.acc == 0 { a } else { fetched.pc }, ..fetched },
            io,
        ),
        Some(Instruction::BranchIfPositive(a)) => (
            MachineModel { mar: a, pc: if fetched.acc >= 0 { a } else { fetched.pc }, ..fetched },
            io,
        ),
        None => (fetched, io),
    }
}

/// Whether the engine can execute the instruction at the program counter:
/// the counter addresses a mailbox, the word there decodes, and an input
/// instruction finds a queued value that is a word.
pub open spec fn engine_ready(machine: MachineModel, io: IoModel) -> bool {
    &&& machine.wf()
    &&& is_address(machine.pc as int)
    &&& decode_model(machine.ram[machine.pc as int] as int) is Some
    &&& decode_model(machine.ram[machine.pc as int] as int) == Some(Instruction::Input) ==> {
        &&& io.input.len() > 0
        &&& is_word(io.input.last() as int)
    }
}

/// Runs `lmc_assembly::ExecutionState::step` on a copy of the registers and
/// memory and writes the result back. Trusted: on a ready machine the engine
/// returns `Ok`, fetches the word at the counter, advances the counter, and
/// executes the word as `engine_model` says, reaching the capability through
/// `request_input` and `emit_output` only.
#[verifier::external_body]
fn engine_step(state: &mut MachineState, io: &mut IoHandler) -> (r: Result<(), String>)
    requires
        engine_ready(old(state)@, old(io)@),
    ensures
        r is Ok,
        final(state)@ == engine_model(old(state)@, old(io)@).0,
        final(io)@ == engine_model(old(state)@, old(io)@).1,
{
    let ram = state.ram.as_slice().try_into().unwrap();
    let mut engine = lmc_assembly::ExecutionState {
        pc: state.pc, cir: state.cir, mar: state.mar, mdr: state.mdr, acc: state.acc, ram,
    };
    let result = engine.step(io);
    *state = MachineState {
        pc: engine.pc, cir: engine.cir, mar: engine.mar, mdr: engine.mdr, acc: engine.acc,
        ram: engine.ram.to_vec(),
    };
    result
}

/// How a step that did not fail ended.
#[derive(Debug, Clone, Copy, PartialEq, Eq, Structural)]
pub enum StepStatus {
    /// The instruction at the program counter was executed.
    Executed,
    /// The instruction asks for input and none is pending. The machine is
    /// unchanged; the caller supplies a value and steps again.
    InputUnavailable,
}

/// Why a step failed. A failed step changes neither machine nor capability.
#[derive(Debug, Clone, Copy, PartialEq, Eq, Structural)]
pub enum ExecutionError {
    /// The program counter addresses no mailbox.
    PcOutOfBounds { pc: i16 },
    /// The word at the program counter is no instruction.
    BadInstruction { address: i16, word: i16 },
    /// The pending input value is not a machine word.
    InputOutOfRange { value: i16 },
}

impl ExecutionError {
    /// The error as text.
    pub open spec fn text(self) -> Seq<char> {
        match self {
            ExecutionError::PcOutOfBounds { pc } => "program counter "@ + signed_decimal(pc as int)
                + " is out of bounds"@,
            ExecutionError::BadInstruction { address, word } => "invalid instruction "@
                + signed_decimal(word as int) + " at address "@ + signed_decimal(address as int),
            ExecutionError::InputOutOfRange { value } => "input "@ + signed_decimal(value as int)
                + " is out of range"@,
        }
    }

    /// The error as human-readable text.
    pub fn message(&self) -> (r: String)
        ensures
            r@ == self.text(),
    {
        match self {
            ExecutionError::PcOutOfBounds { pc } => {
                let mut out = String::from_str("program counter ");
                append_signed(&mut out, *pc);
                out.append(" is out of bounds");
                out
            },
            ExecutionError::BadInstruction { address, word } => {
                let mut out = String::from_str("invalid instruction ");
                append_signed(&mut out, *word);
                out.append(" at address ");
                append_signed(&mut out, *address);
                out
            },
            ExecutionError::InputOutOfRange { value } => {
                let mut out = String::from_str("input ");
                append_signed(&mut out, *value);
                out.append(" is out of range");
                out
            },
        }
    }
}

/// Everything a step produces: its result, the machine and the capability
/// after it.
pub struct StepOutcome {
    pub result: Result<StepStatus, ExecutionError>,
    pub machine: MachineModel,
    pub io: IoModel,
}

/// The step transition. In order: a program counter outside `[0, 99]` and a
/// word that decodes to nothing are errors; an input instruction with nothing
/// pending pauses, recording only that input was unavailable; an input
/// instruction whose pending value is no word is an error; a halt performs the
/// fetch and keeps the program counter where it is; every other instruction
/// runs one engine cycle, after which an addition or subtraction leaves in
/// the data register the value it read from its mailbox.
pub open spec fn step_model(machine: MachineModel, io: IoModel) -> StepOutcome {
    if !is_address(machine.pc as int) {
        StepOutcome { result: Err(ExecutionError::PcOutOfBounds { pc: machine.pc }), machine, io }
    } else {
        let word = machine.ram[machine.pc as int];
        match decode_model(word as int) {
            None => StepOutcome {
                result: Err(ExecutionError::BadInstruction { address: machine.pc, word }),
                machine,
                io,
            },
            Some(Instruction::Input) => if io.input.len() == 0 {
                StepOutcome {
                    result: Ok(StepStatus::InputUnavailable),
                    machine,
                    io: io.after_request(),
                }
            } else if !is_word(io.input.last() as int) {
                StepOutcome {
                    result: Err(ExecutionError::InputOutOfRange { value: io.input.last() }),
                    machine,
                    io,
                }
            } else {
                StepOutcome {
                    result: Ok(StepStatus::Executed),
                    machine: engine_model(machine, io).0,
                    io: engine_model(machine, io).1,
                }
            },
            Some(Instruction::Halt) => StepOutcome {
                result: Ok(StepStatus::Executed),
                machine: machine.fetched(),
                io,
            },
            Some(Instruction::Add(a)) | Some(Instruction::Subtract(a)) => StepOutcome {
                result: Ok(StepStatus::Executed),
                machine: MachineModel { mdr: machine.ram[a as int], ..engine_model(machine, io).0 },
                io,
            },
            Some(_) => StepOutcome {
                result: Ok(StepStatus::Executed),
                machine: engine_model(machine, io).0,
                io: engine_model(machine, io).1,
            },
        }
    }
}

/// The machine a memory image starts as: every register 0, the image in the
/// first mailboxes and 0 in every mailbox after them.
pub open spec fn loaded(image: Seq<i16>) -> MachineModel {
    MachineModel {
        pc: 0,
        acc: 0,
        cir: 0,
        mar: 0,
        mdr: 0,
        ram: Seq::new(100, |i: int| if i < image.len() { image[i] } else { 0i16 }),
    }
}

/// Whether a sequence of values is a memory image: at most 100 values, each
/// a word.
pub open spec fn is_image(image: Seq<i16>) -> bool {
    &&& image.len() <= 100
    &&& forall|i: int| 0 <= i < image.len() ==> is_word(#[trigger] image[i] as int)
}

impl MachineState {
    /// The machine that starts on a memory image.
    pub fn boot(image: &Vec<i16>) -> (r: MachineState)
        requires
            is_image(image@),
        ensures
            r@ == loaded(image@),
            r@.wf(),
    {
        let mut ram: Vec<i16> = Vec::new();
        let mut i: usize = 0;
        while i < 100
            invariant
                i <= 100,
                ram@.len() == i,
                forall|j: int| 0 <= j < i ==> #[trigger] ram@[j] == loaded(image@).ram[j],
            decreases 100 - i,
        {
            let word: i16 = if i < image.len() {
                image[i]
            } else {
                0
            };
            ram.push(word);
            i += 1;
        }
        assert(ram@ =~= loaded(image@).ram);
        MachineState { pc: 0, acc: 0, cir: 0, mar: 0, mdr: 0, ram }
    }

    /// The machine that starts on the given values, if they are a memory
    /// image.
    pub fn load(image: &Vec<i16>) -> (r: Option<MachineState>)
        ensures
            match r {
                Some(machine) => is_image(image@) && machine@ == loaded(image@) && machine@.wf(),
                None => !is_image(image@),
            },
    {
        if image.len() > 100 {
            return None;
        }
        let mut i: usize = 0;
        while i < image.len()
            invariant
                i <= image@.len() <= 100,
                forall|j: int| 0 <= j < i ==> is_word(#[trigger] image@[j] as int),
            decreases image@.len() - i,
        {
            if !word_in_range(image[i]) {
                return None;
            }
            i += 1;
        }
        Some(MachineState::boot(image))
    }

    /// A second machine with the same registers and memory.
    pub fn duplicate(&self) -> (r: MachineState)
        ensures
            r@ == self@,
    {
        let mut ram: Vec<i16> = Vec::new();
        let mut i: usize = 0;
        while i < self.ram.len()
            invariant
                i <= self.ram@.len(),
                ram@ == self.ram@.take(i as int),
            decreases self.ram@.len() - i,
        {
            ram.push(self.ram[i]);
            assert(ram@ =~= self.ram@.take(i + 1));
            i += 1;
        }
        assert(ram@ =~= self.ram@);
        MachineState {
            pc: self.pc,
            acc: self.acc,
            cir: self.cir,
            mar: self.mar,
            mdr: self.mdr,
            ram,
        }
    }

    /// Tests the machine invariant.
    pub fn is_valid(&self) -> (r: bool)
        ensures
            r == self@.wf(),
    {
        if self.ram.len() != 100 || !word_in_range(self.acc) {
            return false;
        }
        let mut i: usize = 0;
        while i < 100
            invariant
                i <= 100,
                self.ram@.len() == 100,
                forall|j: int| 0 <= j < i ==> is_word(#[trigger] self.ram@[j] as int),
            decreases 100 - i,
        {
            if !word_in_range(self.ram[i]) {
                return false;
            }
            i += 1;
        }
        true
    }

    /// Executes exactly one fetch-decode-execute cycle, reading input from and
    /// writing output to `io`.
    pub fn step(&mut self, io: &mut IoHandler) -> (r: Result<StepStatus, ExecutionError>)
        requires
            old(self)@.wf(),
        ensures
            r == step_model(old(self)@, old(io)@).result,
            final(self)@ == step_model(old(self)@, old(io)@).machine,
            final(io)@ == step_model(old(self)@, old(io)@).io,
            final(self)@.wf(),
    {
        if self.pc < 0 || self.pc >= 100 {
            return Err(ExecutionError::PcOutOfBounds { pc: self.pc });
        }
        let pc: i16 = self.pc;
        let word: i16 = self.ram[pc as usize];
        let instruction = match decode(word) {
            Some(instruction) => instruction,
            None => {
                return Err(ExecutionError::BadInstruction { address: pc, word });
            },
        };
        if instruction == Instruction::Input {
            let pending: usize = io.input.len();
            if pending == 0 {
                let _ = io.request_input();
                return Ok(StepStatus::InputUnavailable);
            }
            let value: i16 = io.input[pending - 1];
            if !word_in_range(value) {
                return Err(ExecutionError::InputOutOfRange { value });
            }
        }
        let _ = engine_step(self, io);
        match instruction {
            Instruction::Halt => {
                self.pc = pc;
            },
            Instruction::Add(address) | Instruction::Subtract(address) => {
                self.mdr = self.ram[address as usize];
            },
            _ => {},
        }
        proof {
            lemma_engine_keeps_invariant(old(self)@, old(io)@);
        }
        Ok(StepStatus::Executed)
    }
}

/// One engine cycle on a ready machine leaves a machine that satisfies the
/// invariant.
pub proof fn lemma_engine_keeps_invariant(machine: MachineModel, io: IoModel)
    requires
        engine_ready(machine, io),
    ensures
        engine_model(machine, io).0.wf(),
{
    let after = engine_model(machine, io).0;
    assert(is_word(machine.ram[machine.pc as int] as int));
    match decode_model(machine.ram[machine.pc as int] as int) {
        Some(Instruction::Add(a)) => {
            assert(is_word(machine.ram[a as int] as int));
        },
        Some(Instruction::Subtract(a)) => {
            assert(is_word(machine.ram[a as int] as int));
        },
        Some(Instruction::Load(a)) => {
            assert(is_word(machine.ram[a as int] as int));
        },
        Some(Instruction::Store(a)) => {
            assert forall|i: int| 0 <= i < 100 implies is_word(#[trigger] after.ram[i] as int) by {
                if i != a {
                    assert(is_word(machine.ram[i] as int));
                }
            }
        },
        _ => {},
    }
}

} // verus!
