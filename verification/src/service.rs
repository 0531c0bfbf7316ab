//! The request-level operations a front end drives: one reply per
//! step request, built from plain values.

use crate::assembler::{assemble, assemble_model, AssembleError, AssembleErrorModel};
use crate::io::{IoHandler, IoModel, OutputRecord};
use crate::machine::{loaded, step_model, ExecutionError, MachineModel, MachineState};
use crate::parser::{parse, parse_model, ParseError, ParseErrorModel};
use crate::word::is_address;
use vstd::prelude::*;

verus! {

/// One step request: the machine to advance and the input values the caller
/// has pending, of which the last is served first.
#[derive(Debug)]
pub struct ExecutionRequest {
    pub state: MachineState,
    pub input: Vec<i16>,
}

/// The mathematical content of an [`ExecutionResponse`].
pub struct ResponseModel {
    pub state: MachineModel,
    pub output: Seq<OutputRecord>,
    pub input_success: Option<bool>,
    pub next_requires_input: bool,
}

/// What the caller gets back from a request: the machine, the records
/// emitted, whether an input request was served (`None` when none was made),
/// and whether the instruction now at the program counter asks for input.
#[derive(Debug)]
pub struct ExecutionResponse {
    pub state: MachineState,
    pub output: Vec<OutputRecord>,
    pub input_success: Option<bool>,
    pub next_requires_input: bool,
}

impl View for ExecutionResponse {
    type V = ResponseModel;

    open spec fn view(&self) -> ResponseModel {
        ResponseModel {
            state: self.state@,
            output: self.output@,
            input_success: self.input_success,
            next_requires_input: self.next_requires_input,
        }
    }
}

/// The mathematical content of an [`AssemblyFailure`].
pub enum AssemblyFailureModel {
    Parse(ParseErrorModel),
    Assemble(AssembleErrorModel),
}

/// Why a source text yields no machine.
#[derive(Debug, Clone, PartialEq, Eq)]
pub enum AssemblyFailure {
    /// The text is no program.
    Parse(ParseError),
    /// The program has no memory image.
    Assemble(AssembleError),
}

impl View for AssemblyFailure {
    type V = AssemblyFailureModel;

    open spec fn view(&self) -> AssemblyFailureModel {
        match self {
            AssemblyFailure::Parse(error) => AssemblyFailureModel::Parse(error@),
            AssemblyFailure::Assemble(error) => AssemblyFailureModel::Assemble(error@),
        }
    }
}

impl AssemblyFailureModel {
    /// The failure as text: the text of the error it holds.
    pub open spec fn text(self) -> Seq<char> {
        match self {
            AssemblyFailureModel::Parse(error) => error.text(),
            AssemblyFailureModel::Assemble(error) => error.text(),
        }
    }
}

impl AssemblyFailure {
    /// The failure as human-readable text.
    pub fn message(&self) -> (r: String)
        ensures
            r@ == self@.text(),
    {
        match self {
            AssemblyFailure::Parse(error) => error.message(),
            AssemblyFailure::Assemble(error) => error.message(),
        }
    }
}

/// The reply owed to a source text: the failure of parsing or of assembling
/// it, or else a fresh machine on its image, with no output, no input request
/// made and no input announced.
pub open spec fn assembly_reply_model(source: Seq<char>) -> Result<
    ResponseModel,
    AssemblyFailureModel,
> {
    match parse_model(source, false) {
        Err(error) => Err(AssemblyFailureModel::Parse(error)),
        Ok(program) => match assemble_model(program) {
            Err(error) => Err(AssemblyFailureModel::Assemble(error)),
            Ok(image) => Ok(
                ResponseModel {
                    state: loaded(image),
                    output: Seq::empty(),
                    input_success: None,
                    next_requires_input: false,
                },
            ),
        },
    }
}

/// Parses and assembles a source text and builds the reply: a machine ready
/// to run the program from mailbox 0.
pub fn assemble_source(source: &str) -> (r: Result<ExecutionResponse, AssemblyFailure>)
    ensures
        match r {
            Ok(response) => assembly_reply_model(source@) == Ok::<
                ResponseModel,
                AssemblyFailureModel,
            >(response@),
            Err(failure) => assembly_reply_model(source@) == Err::<
                ResponseModel,
                AssemblyFailureModel,
            >(failure@),
        },
{
    let program = match parse(source, false) {
        Ok(program) => program,
        Err(error) => {
            return Err(AssemblyFailure::Parse(error));
        },
    };
    let image = match assemble(&program) {
        Ok(image) => image,
        Err(error) => {
            return Err(AssemblyFailure::Assemble(error));
        },
    };
    let state = MachineState::boot(&image);
    Ok(
        ExecutionResponse {
            state,
            output: Vec::new(),
            input_success: None,
            next_requires_input: false,
        },
    )
}

/// Why a step request was refused outright.
#[derive(Debug, Clone, Copy, PartialEq, Eq, Structural)]
pub enum StepFailure {
    /// The submitted machine breaks the machine invariant.
    InvalidState,
    /// The step itself failed.
    Engine(ExecutionError),
}

impl StepFailure {
    /// The failure as text.
    pub open spec fn text(self) -> Seq<char> {
        match self {
            StepFailure::InvalidState => "invalid machine state"@,
            StepFailure::Engine(error) => error.text(),
        }
    }

    /// The failure as human-readable text.
    pub fn message(&self) -> (r: String)
        ensures
            r@ == self.text(),
    {
        match self {
            StepFailure::InvalidState => String::from_str("invalid machine state"),
            StepFailure::Engine(error) => error.message(),
        }
    }
}

/// The mathematical content of a [`StepReply`].
pub enum StepReplyModel {
    Completed(ResponseModel),
    InputMissing(ResponseModel),
    Failed(StepFailure),
}

/// The reply to a step request.
#[derive(Debug)]
pub enum StepReply {
    /// The step ran; the response carries the new machine and its output.
    Completed(ExecutionResponse),
    /// The step paused for want of input; the response carries the machine
    /// as submitted and no output.
    InputMissing(ExecutionResponse),
    /// The request was refused.
    Failed(StepFailure),
}

impl View for StepReply {
    type V = StepReplyModel;

    open spec fn view(&self) -> StepReplyModel {
        match self {
            StepReply::Completed(response) => StepReplyModel::Completed(response@),
            StepReply::InputMissing(response) => StepReplyModel::InputMissing(response@),
            StepReply::Failed(failure) => StepReplyModel::Failed(*failure),
        }
    }
}

/// Whether the instruction at the program counter is an input instruction.
/// A counter that addresses no mailbox asks for nothing.
pub open spec fn awaits_input(machine: MachineModel) -> bool {
    &&& is_address(machine.pc as int)
    &&& machine.pc < machine.ram.len()
    &&& machine.ram[machine.pc as int] == 901
}

/// The reply owed to a request: a machine that breaks the invariant and a
/// failed step are refused; a paused step returns the machine with no output
/// and `input_success` false; a completed step returns the new machine, the
/// records it emitted and the outcome of its input request, if it made one.
pub open spec fn step_reply_model(state: MachineModel, input: Seq<i16>) -> StepReplyModel {
    if !state.wf() {
        StepReplyModel::Failed(StepFailure::InvalidState)
    } else {
        let outcome = step_model(
            state,
            IoModel { input, input_success: None, output: Seq::empty() },
        );
        match outcome.result {
            Err(error) => StepReplyModel::Failed(StepFailure::Engine(error)),
            Ok(_) => {
                let next_requires_input = awaits_input(outcome.machine);
                match outcome.io.input_success {
                    Some(false) => StepReplyModel::InputMissing(
                        ResponseModel {
                            state: outcome.machine,
                            output: Seq::empty(),
                            input_success: Some(false),
                            next_requires_input,
                        },
                    ),
                    served => StepReplyModel::Completed(
                        ResponseModel {
                            state: outcome.machine,
                            output: outcome.io.output,
                            input_success: served,
                            next_requires_input,
                        },
                    ),
                }
            },
        }
    }
}

/// Tests whether the instruction at the program counter is an input
/// instruction.
pub fn next_requires_input(state: &MachineState) -> (r: bool)
    ensures
        r == awaits_input(state@),
{
    if state.pc < 0 || state.pc >= 100 {
        return false;
    }
    let at: usize = state.pc as usize;
    at < state.ram.len() && state.ram[at] == 901
}

/// Advances the submitted machine by one step, serving input from the
/// request's pending values, and builds the reply.
pub fn step_execution(request: ExecutionRequest) -> (reply: StepReply)
    ensures
        reply@ == step_reply_model(request.state@, request.input@),
{
    let mut state = request.state;
    if !state.is_valid() {
        return StepReply::Failed(StepFailure::InvalidState);
    }
    let mut io = IoHandler::new(request.input);
    match state.step(&mut io) {
        Ok(_) => {},
        Err(error) => {
            return StepReply::Failed(StepFailure::Engine(error));
        },
    }
    let next_requires_input = next_requires_input(&state);
    match io.input_success {
        Some(true) => StepReply::Completed(
            ExecutionResponse {
                state,
                output: io.output,
                input_success: Some(true),
                next_requires_input,
            },
        ),
        Some(false) => StepReply::InputMissing(
            ExecutionResponse {
                state,
                output: Vec::new(),
                input_success: Some(false),
                next_requires_input,
            },
        ),
        None => StepReply::Completed(
            ExecutionResponse {
                state,
                output: io.output,
                input_success: None,
                next_requires_input,
            },
        ),
    }
}

} // verus!
