use vstd::prelude::*;

verus! {

/// The eight instructions of the language, one per source character.
#[derive(Clone, Copy, Debug, PartialEq, Eq, Structural)]
pub enum RawInstruction {
    /// `>`
    IncrementPointer,
    /// `<`
    DecrementPointer,
    /// `+`
    IncrementByte,
    /// `-`
    DecrementByte,
    /// `.`
    OutputByte,
    /// `,`
    InputByte,
    /// `[`
    ConditionalForward,
    /// `]`
    ConditionalBackward,
}

/// The instruction that `c` stands for, if any.
pub open spec fn instruction_of(c: char) -> Option<RawInstruction> {
    if c == '>' {
        Some(RawInstruction::IncrementPointer)
    } else if c == '<' {
        Some(RawInstruction::DecrementPointer)
    } else if c == '+' {
        Some(RawInstruction::IncrementByte)
    } else if c == '-' {
        Some(RawInstruction::DecrementByte)
    } else if c == '.' {
        Some(RawInstruction::OutputByte)
    } else if c == ',' {
        Some(RawInstruction::InputByte)
    } else if c == '[' {
        Some(RawInstruction::ConditionalForward)
    } else if c == ']' {
        Some(RawInstruction::ConditionalBackward)
    } else {
        None
    }
}

/// Whether `c` is one of the eight characters of the language.
pub open spec fn is_instruction_char(c: char) -> bool {
    instruction_of(c) is Some
}

/// The fixed human-readable label of an instruction: its name and its
/// character.
pub open spec fn label_of(i: RawInstruction) -> Seq<char> {
    match i {
        RawInstruction::IncrementPointer => "Increment Pointer (>)"@,
        RawInstruction::DecrementPointer => "Decrement Pointer (<)"@,
        RawInstruction::IncrementByte => "Increment Byte (+)"@,
        RawInstruction::DecrementByte => "Decrement Byte (-)"@,
        RawInstruction::OutputByte => "Output Byte (.)"@,
        RawInstruction::InputByte => "Input Byte (,)"@,
        RawInstruction::ConditionalForward => "Conditional Forward ([)"@,
        RawInstruction::ConditionalBackward => "Conditional Backward (])"@,
    }
}

impl RawInstruction {
    /// Classifies one character: `Some` for the eight characters of the
    /// language, `None` for every other one.
    pub fn from_char(c: &char) -> (r: Option<RawInstruction>)
        ensures
            r == instruction_of(*c),
    {
        match c {
            '>' => Some(RawInstruction::IncrementPointer),
            '<' => Some(RawInstruction::DecrementPointer),
            '+' => Some(RawInstruction::IncrementByte),
            '-' => Some(RawInstruction::DecrementByte),
            '.' => Some(RawInstruction::OutputByte),
            ',' => Some(RawInstruction::InputByte),
            '[' => Some(RawInstruction::ConditionalForward),
            ']' => Some(RawInstruction::ConditionalBackward),
            _ => None,
        }
    }

    /// The label shown for this instruction, such as
    /// `Increment Pointer (>)`.
    pub fn label(&self) -> (r: &'static str)
        ensures
            r@ == label_of(*self),
    {
        match self {
            RawInstruction::IncrementPointer => "Increment Pointer (>)",
            RawInstruction::DecrementPointer => "Decrement Pointer (<)",
            RawInstruction::IncrementByte => "Increment Byte (+)",
            RawInstruction::DecrementByte => "Decrement Byte (-)",
            RawInstruction::OutputByte => "Output Byte (.)",
            RawInstruction::InputByte => "Input Byte (,)",
            RawInstruction::ConditionalForward => "Conditional Forward ([)",
            RawInstruction::ConditionalBackward => "Conditional Backward (])",
        }
    }
}

} // verus!
