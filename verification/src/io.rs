//! The input and output capability a step works through.

use vstd::prelude::*;

verus! {

/// The value emitted by one output instruction, with its display kind.
#[derive(Debug, Clone, Copy, PartialEq, Eq, Structural)]
pub enum OutputRecord {
    Int(i16),
    Char(char),
}

/// The mathematical content of an [`IoHandler`].
pub struct IoModel {
    pub input: Seq<i16>,
    pub input_success: Option<bool>,
    pub output: Seq<OutputRecord>,
}

impl IoModel {
    /// The value an input request yields: the most recently queued value, or
    /// 0 when nothing is queued.
    pub open spec fn requested_value(self) -> i16 {
        if self.input.len() > 0 {
            self.input.last()
        } else {
            0
        }
    }

    /// The capability after an input request: the most recently queued value
    /// is consumed and availability recorded.
    pub open spec fn after_request(self) -> IoModel {
        if self.input.len() > 0 {
            IoModel { input: self.input.drop_last(), input_success: Some(true), ..self }
        } else {
            IoModel { input_success: Some(false), ..self }
        }
    }

    /// The capability after emitting one record.
    pub open spec fn after_emit(self, record: OutputRecord) -> IoModel {
        IoModel { output: self.output.push(record), ..self }
    }
}

/// The interactive input and output capability handed to a step: a queue of
/// pending input values, of which the last is served first, the outcome of the
/// latest input request, and the records emitted so far.
#[derive(Debug)]
pub struct IoHandler {
    pub input: Vec<i16>,
    pub input_success: Option<bool>,
    pub output: Vec<OutputRecord>,
}

impl View for IoHandler {
    type V = IoModel;

    open spec fn view(&self) -> IoModel {
        IoModel { input: self.input@, input_success: self.input_success, output: self.output@ }
    }
}

impl IoHandler {
    /// A capability holding the given pending input, with no request made and
    /// nothing emitted yet.
    pub fn new(input: Vec<i16>) -> (r: IoHandler)
        ensures
            r@ == (IoModel { input: input@, input_success: None, output: Seq::empty() }),
    {
        IoHandler { input, input_success: None, output: Vec::new() }
    }

    /// Requests one input value. Never blocks: when nothing is queued the
    /// request yields 0 and records that input was unavailable.
    pub fn request_input(&mut self) -> (value: i16)
        ensures
            value == old(self)@.requested_value(),
            final(self)@ == old(self)@.after_request(),
    {
        match self.input.pop() {
            Some(value) => {
                self.input_success = Some(true);
                value
            },
            None => {
                self.input_success = Some(false);
                0
            },
        }
    }

    /// Records one emitted value.
    pub fn emit_output(&mut self, record: OutputRecord)
        ensures
            final(self)@ == old(self)@.after_emit(record),
    {
        self.output.push(record);
    }
}

/// The engine's own output value, carried from the engine to
/// [`record_of`] and not looked into by verified code.
#[verifier::external_type_specification]
#[verifier::external_body]
pub struct ExEngineOutput(lmc_assembly::Output);

/// Turns an `lmc_assembly::Output` into a record, variant for variant. Nothing
/// is claimed of the result here; what the engine emits is stated where the
/// engine is called.
#[verifier::external_body]
fn record_of(value: lmc_assembly::Output) -> OutputRecord {
    match value {
        lmc_assembly::Output::Int(number) => OutputRecord::Int(number),
        lmc_assembly::Output::Char(character) => OutputRecord::Char(character),
    }
}

/// The engine reaches the capability through its own interface; both
/// operations forward to the methods above.
impl lmc_assembly::LMCIO for IoHandler {
    /// Serves the engine's input request as [`IoHandler::request_input`]
    /// does: the most recently queued value is handed over and consumed, or 0
    /// where nothing is queued, and availability is recorded.
    fn get_input(&mut self) -> (value: i16)
        ensures
            value == old(self)@.requested_value(),
            final(self)@ == old(self)@.after_request(),
    {
        self.request_input()
    }

    /// Records the value the engine emits: exactly one record is appended,
    /// the one the value converts to; earlier records, the pending input and
    /// the outcome of the latest input request stay as they were.
    fn print_output(&mut self, val: lmc_assembly::Output)
        ensures
            final(self)@.output.len() == old(self)@.output.len() + 1,
            final(self)@ == old(self)@.after_emit(final(self)@.output.last()),
    {
        self.emit_output(record_of(val))
    }
}

} // verus!
