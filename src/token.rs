use vstd::prelude::*;

use crate::instruction::{label_of, RawInstruction};

verus! {

/// The character of a decimal digit `d < 10`.
pub open spec fn digit_char(d: nat) -> char {
    if d == 0 {
        '0'
    } else if d == 1 {
        '1'
    } else if d == 2 {
        '2'
    } else if d == 3 {
        '3'
    } else if d == 4 {
        '4'
    } else if d == 5 {
        '5'
    } else if d == 6 {
        '6'
    } else if d == 7 {
        '7'
    } else if d == 8 {
        '8'
    } else {
        '9'
    }
}

/// `n` written in decimal, without leading zeros.
pub open spec fn decimal(n: nat) -> Seq<char>
    decreases n,
{
    if n < 10 {
        seq![digit_char(n)]
    } else {
        decimal(n / 10).push(digit_char(n % 10))
    }
}

/// How a token is shown for the source named `source`:
/// `[<source>:<line>:<column>] <label>`.
pub open spec fn rendered(t: HumanReadableInstruction, source: Seq<char>) -> Seq<char> {
    "["@ + source + ":"@ + decimal(t.line as nat) + ":"@ + decimal(t.column as nat) + "] "@
        + label_of(t.instruction)
}

fn digit_text(d: usize) -> (r: &'static str)
    requires
        d < 10,
    ensures
        r@ == seq![digit_char(d as nat)],
{
    if d == 0 {
        proof { reveal_strlit("0"); }
        "0"
    } else if d == 1 {
        proof { reveal_strlit("1"); }
        "1"
    } else if d == 2 {
        proof { reveal_strlit("2"); }
        "2"
    } else if d == 3 {
        proof { reveal_strlit("3"); }
        "3"
    } else if d == 4 {
        proof { reveal_strlit("4"); }
        "4"
    } else if d == 5 {
        proof { reveal_strlit("5"); }
        "5"
    } else if d == 6 {
        proof { reveal_strlit("6"); }
        "6"
    } else if d == 7 {
        proof { reveal_strlit("7"); }
        "7"
    } else if d == 8 {
        proof { reveal_strlit("8"); }
        "8"
    } else {
        proof { reveal_strlit("9"); }
        "9"
    }
}

/// Writes `n` in decimal.
pub fn decimal_text(n: usize) -> (r: String)
    ensures
        r@ == decimal(n as nat),
    decreases n,
{
    if n < 10 {
        String::from_str(digit_text(n))
    } else {
        let mut s = decimal_text(n / 10);
        s.append(digit_text(n % 10));
        s
    }
}

/// An instruction together with the 1-based line and column of the
/// character it came from.
#[derive(Clone, Copy, Debug, PartialEq, Eq, Structural)]
pub struct HumanReadableInstruction {
    pub instruction: RawInstruction,
    pub line: usize,
    pub column: usize,
}

impl HumanReadableInstruction {
    /// A token for `instruction` found at `line`, `column`.
    pub fn new(instruction: RawInstruction, line: usize, column: usize) -> (r: Self)
        ensures
            r.instruction == instruction,
            r.line == line,
            r.column == column,
    {
        HumanReadableInstruction { instruction, line, column }
    }

    /// The line shown for this token when it comes from the source named
    /// `source`, such as `[prog.bf:1:3] Increment Byte (+)`.
    pub fn render(&self, source: &str) -> (r: String)
        ensures
            r@ == rendered(*self, source@),
    {
        let mut s = String::from_str("[");
        s.append(source);
        s.append(":");
        let line = decimal_text(self.line);
        s.append(line.as_str());
        s.append(":");
        let column = decimal_text(self.column);
        s.append(column.as_str());
        s.append("] ");
        s.append(self.instruction.label());
        s
    }
}

} // verus!
