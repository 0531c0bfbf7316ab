//! Instruction words and their decoding.

use crate::word::is_address;
use vstd::prelude::*;

verus! {

/// One decoded instruction word. Address-taking instructions carry their
/// two-digit operand.
#[derive(Debug, Clone, Copy, PartialEq, Eq, Structural)]
pub enum Instruction {
    Halt,
    Add(i16),
    Subtract(i16),
    Store(i16),
    Load(i16),
    Branch(i16),
    BranchIfZero(i16),
    BranchIfPositive(i16),
    Input,
    Output,
    OutputChar,
}

/// The instruction a word stands for: `000` halts, `1xx` adds, `2xx`
/// subtracts, `3xx` stores, `5xx` loads, `6xx` branches, `7xx` branches on
/// zero, `8xx` branches on zero or positive, `901` reads input, `902` writes
/// the accumulator as a number and `922` as a character. Every other word
/// decodes to nothing.
pub open spec fn decode_model(word: int) -> Option<Instruction> {
    if word == 0 {
        Some(Instruction::Halt)
    } else if 100 <= word <= 199 {
        Some(Instruction::Add((word - 100) as i16))
    } else if 200 <= word <= 299 {
        Some(Instruction::Subtract((word - 200) as i16))
    } else if 300 <= word <= 399 {
        Some(Instruction::Store((word - 300) as i16))
    } else if 500 <= word <= 599 {
        Some(Instruction::Load((word - 500) as i16))
    } else if 600 <= word <= 699 {
        Some(Instruction::Branch((word - 600) as i16))
    } else if 700 <= word <= 799 {
        Some(Instruction::BranchIfZero((word - 700) as i16))
    } else if 800 <= word <= 899 {
        Some(Instruction::BranchIfPositive((word - 800) as i16))
    } else if word == 901 {
        Some(Instruction::Input)
    } else if word == 902 {
        Some(Instruction::Output)
    } else if word == 922 {
        Some(Instruction::OutputChar)
    } else {
        None
    }
}

impl Instruction {
    /// The mailbox address an instruction refers to, or 0 when it has none.
    pub open spec fn operand(self) -> int {
        match self {
            Instruction::Add(a) => a as int,
            Instruction::Subtract(a) => a as int,
            Instruction::Store(a) => a as int,
            Instruction::Load(a) => a as int,
            Instruction::Branch(a) => a as int,
            Instruction::BranchIfZero(a) => a as int,
            Instruction::BranchIfPositive(a) => a as int,
            _ => 0,
        }
    }
}

/// Decodes an instruction word.
pub fn decode(word: i16) -> (r: Option<Instruction>)
    ensures
        r == decode_model(word as int),
        r matches Some(i) ==> is_address(i.operand()),
{
    if word == 0 {
        Some(Instruction::Halt)
    } else if 100 <= word && word <= 199 {
        Some(Instruction::Add(word - 100))
    } else if 200 <= word && word <= 299 {
        Some(Instruction::Subtract(word - 200))
    } else if 300 <= word && word <= 399 {
        Some(Instruction::Store(word - 300))
    } else if 500 <= word && word <= 599 {
        Some(Instruction::Load(word - 500))
    } else if 600 <= word && word <= 699 {
        Some(Instruction::Branch(word - 600))
    } else if 700 <= word && word <= 799 {
        Some(Instruction::BranchIfZero(word - 700))
    } else if 800 <= word && word <= 899 {
        Some(Instruction::BranchIfPositive(word - 800))
    } else if word == 901 {
        Some(Instruction::Input)
    } else if word == 902 {
        Some(Instruction::Output)
    } else if word == 922 {
        Some(Instruction::OutputChar)
    } else {
        None
    }
}

} // verus!
