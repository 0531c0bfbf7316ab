//! Statements: what one source line says, after parsing and before assembly.

use vstd::prelude::*;

verus! {

/// The operations a statement can name.
#[derive(Debug, Clone, Copy, PartialEq, Eq, Structural)]
pub enum Mnemonic {
    Lda,
    Sta,
    Add,
    Sub,
    Inp,
    Out,
    Otc,
    Hlt,
    Brz,
    Brp,
    Bra,
    Dat,
}

impl Mnemonic {
    /// Whether a statement with this mnemonic may carry an operand. `INP`,
    /// `OUT`, `OTC` and `HLT` take none.
    pub open spec fn operand_allowed(self) -> bool {
        !(self == Mnemonic::Inp || self == Mnemonic::Out || self == Mnemonic::Otc || self
            == Mnemonic::Hlt)
    }

    /// Whether a statement with this mnemonic must carry an operand: every
    /// mnemonic that may, except `DAT`.
    pub open spec fn operand_required(self) -> bool {
        self.operand_allowed() && self != Mnemonic::Dat
    }

    /// Whether the operand is a mailbox address rather than a datum.
    pub open spec fn takes_address(self) -> bool {
        self.operand_required()
    }

    /// The instruction word of the mnemonic with operand 0.
    pub open spec fn base_word(self) -> int {
        match self {
            Mnemonic::Lda => 500,
            Mnemonic::Sta => 300,
            Mnemonic::Add => 100,
            Mnemonic::Sub => 200,
            Mnemonic::Inp => 901,
            Mnemonic::Out => 902,
            Mnemonic::Otc => 922,
            Mnemonic::Hlt => 0,
            Mnemonic::Brz => 700,
            Mnemonic::Brp => 800,
            Mnemonic::Bra => 600,
            Mnemonic::Dat => 0,
        }
    }

    /// The upper-case spelling of the mnemonic.
    pub open spec fn spelling(self) -> Seq<char> {
        match self {
            Mnemonic::Lda => "LDA"@,
            Mnemonic::Sta => "STA"@,
            Mnemonic::Add => "ADD"@,
            Mnemonic::Sub => "SUB"@,
            Mnemonic::Inp => "INP"@,
            Mnemonic::Out => "OUT"@,
            Mnemonic::Otc => "OTC"@,
            Mnemonic::Hlt => "HLT"@,
            Mnemonic::Brz => "BRZ"@,
            Mnemonic::Brp => "BRP"@,
            Mnemonic::Bra => "BRA"@,
            Mnemonic::Dat => "DAT"@,
        }
    }

    /// Tests whether the mnemonic may carry an operand.
    pub fn allows_operand(self) -> (r: bool)
        ensures
            r == self.operand_allowed(),
    {
        match self {
            Mnemonic::Inp | Mnemonic::Out | Mnemonic::Otc | Mnemonic::Hlt => false,
            _ => true,
        }
    }

    /// Tests whether the mnemonic must carry an operand.
    pub fn requires_operand(self) -> (r: bool)
        ensures
            r == self.operand_required(),
    {
        match self {
            Mnemonic::Inp | Mnemonic::Out | Mnemonic::Otc | Mnemonic::Hlt | Mnemonic::Dat => false,
            _ => true,
        }
    }

    /// The instruction word of the mnemonic with operand 0.
    pub fn base(self) -> (r: i16)
        ensures
            r == self.base_word(),
    {
        match self {
            Mnemonic::Lda => 500,
            Mnemonic::Sta => 300,
            Mnemonic::Add => 100,
            Mnemonic::Sub => 200,
            Mnemonic::Inp => 901,
            Mnemonic::Out => 902,
            Mnemonic::Otc => 922,
            Mnemonic::Hlt => 0,
            Mnemonic::Brz => 700,
            Mnemonic::Brp => 800,
            Mnemonic::Bra => 600,
            Mnemonic::Dat => 0,
        }
    }

    /// The upper-case spelling of the mnemonic.
    pub fn name(self) -> (r: &'static str)
        ensures
            r@ == self.spelling(),
    {
        match self {
            Mnemonic::Lda => "LDA",
            Mnemonic::Sta => "STA",
            Mnemonic::Add => "ADD",
            Mnemonic::Sub => "SUB",
            Mnemonic::Inp => "INP",
            Mnemonic::Out => "OUT",
            Mnemonic::Otc => "OTC",
            Mnemonic::Hlt => "HLT",
            Mnemonic::Brz => "BRZ",
            Mnemonic::Brp => "BRP",
            Mnemonic::Bra => "BRA",
            Mnemonic::Dat => "DAT",
        }
    }
}

/// The mathematical content of an [`Operand`].
pub enum OperandModel {
    Value(i16),
    Label(Seq<char>),
}

/// What a statement operates on: a number, or the address a label stands for.
#[derive(Debug, Clone, PartialEq, Eq)]
pub enum Operand {
    Value(i16),
    Label(String),
}

impl View for Operand {
    type V = OperandModel;

    open spec fn view(&self) -> OperandModel {
        match self {
            Operand::Value(value) => OperandModel::Value(*value),
            Operand::Label(name) => OperandModel::Label(name@),
        }
    }
}

/// The mathematical content of a [`Statement`].
pub struct StatementModel {
    pub label: Option<Seq<char>>,
    pub mnemonic: Mnemonic,
    pub operand: Option<OperandModel>,
    pub line: usize,
}

impl StatementModel {
    /// The arity rule: an operand is present where the mnemonic requires one
    /// and absent where it allows none.
    pub open spec fn wf(self) -> bool {
        &&& self.mnemonic.operand_required() ==> self.operand is Some
        &&& !self.mnemonic.operand_allowed() ==> self.operand is None
    }
}

/// One statement of a program, with the 1-based number of the source line it
/// was read from.
#[derive(Debug, Clone, PartialEq, Eq)]
pub struct Statement {
    pub label: Option<String>,
    pub mnemonic: Mnemonic,
    pub operand: Option<Operand>,
    pub line: usize,
}

impl View for Statement {
    type V = StatementModel;

    open spec fn view(&self) -> StatementModel {
        StatementModel {
            label: match self.label {
                Some(name) => Some(name@),
                None => None,
            },
            mnemonic: self.mnemonic,
            operand: match self.operand {
                Some(operand) => Some(operand@),
                None => None,
            },
            line: self.line,
        }
    }
}

impl Statement {
    /// Tests the arity rule.
    pub fn is_well_formed(&self) -> (r: bool)
        ensures
            r == self@.wf(),
    {
        if self.mnemonic.requires_operand() {
            self.operand.is_some()
        } else if !self.mnemonic.allows_operand() {
            self.operand.is_none()
        } else {
            true
        }
    }
}

/// The contents of a sequence of statements, in order.
pub open spec fn models(statements: Seq<Statement>) -> Seq<StatementModel> {
    statements.map_values(|s: Statement| s@)
}

/// The position of the first statement at or after `from` that defines the
/// label `name`, if there is one.
pub open spec fn definition_from(program: Seq<StatementModel>, name: Seq<char>, from: int) -> Option<
    int,
>
    decreases program.len() - from,
{
    if from < 0 || from >= program.len() {
        None
    } else if program[from].label == Some(name) {
        Some(from)
    } else {
        definition_from(program, name, from + 1)
    }
}

/// The address a label stands for: the position of the first statement that
/// defines it.
pub open spec fn label_address(program: Seq<StatementModel>, name: Seq<char>) -> Option<int> {
    definition_from(program, name, 0)
}

/// What a search for a definition finds: the first statement from `from` on
/// that carries the label, or nothing when none does.
pub proof fn lemma_definition_from(program: Seq<StatementModel>, name: Seq<char>, from: int)
    requires
        0 <= from,
    ensures
        match definition_from(program, name, from) {
            Some(at) => {
                &&& from <= at < program.len()
                &&& program[at].label == Some(name)
                &&& forall|j: int| from <= j < at ==> (#[trigger] program[j]).label != Some(name)
            },
            None => forall|j: int|
                from <= j < program.len() ==> (#[trigger] program[j]).label != Some(name),
        },
    decreases program.len() - from,
{
    if from < program.len() && program[from].label != Some(name) {
        lemma_definition_from(program, name, from + 1);
    }
}

/// Finds the first statement that defines a label.
pub fn find_label(statements: &Vec<Statement>, name: &String) -> (r: Option<usize>)
    ensures
        match r {
            Some(at) => label_address(models(statements@), name@) == Some(at as int),
            None => label_address(models(statements@), name@) is None,
        },
{
    let mut i: usize = 0;
    while i < statements.len()
        invariant
            i <= statements@.len(),
            label_address(models(statements@), name@) == definition_from(
                models(statements@),
                name@,
                i as int,
            ),
        decreases statements@.len() - i,
    {
        let found = match &statements[i].label {
            Some(label) => *label == *name,
            None => false,
        };
        if found {
            return Some(i);
        }
        i += 1;
    }
    None
}

} // verus!
