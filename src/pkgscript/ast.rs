//! Instructions of the install script, and their mathematical views.

use vstd::prelude::*;

verus! {

/// A parsed install script: its instructions in source order.
#[derive(Debug)]
pub struct Script {
    pub body: Vec<Instruction>,
}

/// One instruction of the install script.
#[derive(Debug)]
pub enum Instruction {
    /// Package the file at `source`, under the name `target` if given.
    Package { source: String, target: Option<String> },
    /// Expose the packaged file named `target` in the root's `bin/`.
    Publish { target: String },
}

/// An instruction with its paths as character sequences.
pub enum InstructionView {
    Package { source: Seq<char>, target: Option<Seq<char>> },
    Publish { target: Seq<char> },
}

/// The ways a script can be malformed.
#[derive(Debug)]
pub enum ScriptError {
    /// A word stands where an instruction keyword is expected.
    UnknownInstruction { name: String },
    /// The script ends where a path should follow the keyword `after`.
    MissingPath { after: String },
}

pub enum ScriptErrorView {
    UnknownInstruction { name: Seq<char> },
    MissingPath { after: Seq<char> },
}

pub open spec fn opt_view(o: Option<String>) -> Option<Seq<char>> {
    match o {
        Some(s) => Some(s@),
        None => None,
    }
}

impl View for Instruction {
    type V = InstructionView;

    open spec fn view(&self) -> InstructionView {
        match self {
            Instruction::Package { source, target } => InstructionView::Package {
                source: source@,
                target: opt_view(*target),
            },
            Instruction::Publish { target } => InstructionView::Publish { target: target@ },
        }
    }
}

impl View for ScriptError {
    type V = ScriptErrorView;

    open spec fn view(&self) -> ScriptErrorView {
        match self {
            ScriptError::UnknownInstruction { name } => ScriptErrorView::UnknownInstruction {
                name: name@,
            },
            ScriptError::MissingPath { after } => ScriptErrorView::MissingPath { after: after@ },
        }
    }
}

impl View for Script {
    type V = Seq<InstructionView>;

    open spec fn view(&self) -> Seq<InstructionView> {
        self.body@.map_values(|i: Instruction| i@)
    }
}

/// How an instruction is shown to the user.
pub open spec fn describe_view(i: InstructionView) -> Seq<char> {
    match i {
        InstructionView::Package { source, target } => match target {
            Some(t) => "PACKAGE '"@ + source + "' AS '"@ + t + "'"@,
            None => "PACKAGE '"@ + source + "'"@,
        },
        InstructionView::Publish { target } => "PUBLISH '"@ + target + "'"@,
    }
}

impl Instruction {
    /// The instruction as a line of text, its paths quoted.
    pub fn describe(&self) -> (r: String)
        ensures
            r@ == describe_view(self@),
    {
        match self {
            Instruction::Package { source, target } => {
                let s = String::from_str("PACKAGE '").concat(source.as_str());
                match target {
                    Some(t) => s.concat("' AS '").concat(t.as_str()).concat("'"),
                    None => s.concat("'"),
                }
            },
            Instruction::Publish { target } => {
                String::from_str("PUBLISH '").concat(target.as_str()).concat("'")
            },
        }
    }
}

} // verus!
