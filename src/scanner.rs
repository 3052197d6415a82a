use vstd::prelude::*;

use crate::instruction::{instruction_of, is_instruction_char, RawInstruction};
use crate::token::HumanReadableInstruction;

verus! {

/// The tokens of one line, numbered `line_no`, in column order.
pub open spec fn line_tokens(line: Seq<char>, line_no: nat) -> Seq<HumanReadableInstruction>
    decreases line.len(),
{
    if line.len() == 0 {
        Seq::empty()
    } else {
        let before = line_tokens(line.drop_last(), line_no);
        match instruction_of(line.last()) {
            Some(instruction) => before.push(
                HumanReadableInstruction {
                    instruction,
                    line: line_no as usize,
                    column: line.len() as usize,
                },
            ),
            None => before,
        }
    }
}

/// The tokens of a whole input, line after line.
pub open spec fn scan(lines: Seq<Seq<char>>) -> Seq<HumanReadableInstruction>
    decreases lines.len(),
{
    if lines.len() == 0 {
        Seq::empty()
    } else {
        scan(lines.drop_last()) + line_tokens(lines.last(), lines.len())
    }
}

/// The characters of each line.
pub open spec fn lines_view(lines: Seq<String>) -> Seq<Seq<char>> {
    lines.map_values(|s: String| s@)
}

/// The number of characters of `line` that belong to the language.
pub open spec fn recognized_count(line: Seq<char>) -> nat {
    line.filter(|c: char| is_instruction_char(c)).len()
}

/// The number of characters of all `lines` that belong to the language.
pub open spec fn total_recognized(lines: Seq<Seq<char>>) -> nat
    decreases lines.len(),
{
    if lines.len() == 0 {
        0
    } else {
        total_recognized(lines.drop_last()) + recognized_count(lines.last())
    }
}

/// Every line, and the number of lines, can be counted in a `usize`.
pub open spec fn positions_fit(lines: Seq<Seq<char>>) -> bool {
    &&& lines.len() <= usize::MAX
    &&& forall|l: int| 0 <= l < lines.len() ==> #[trigger] lines[l].len() <= usize::MAX
}

/// `t` names a character of `lines` by its 1-based line and column, and
/// that character stands for `t`'s instruction.
pub open spec fn produced_at(lines: Seq<Seq<char>>, t: HumanReadableInstruction) -> bool {
    &&& 1 <= t.line <= lines.len()
    &&& 1 <= t.column <= lines[t.line - 1].len()
    &&& instruction_of(lines[t.line - 1][t.column - 1]) == Some(t.instruction)
}

/// `a` comes before `b` in line-major, then column-major order.
pub open spec fn precedes(a: HumanReadableInstruction, b: HumanReadableInstruction) -> bool {
    a.line < b.line || (a.line == b.line && a.column < b.column)
}

proof fn lemma_line_tokens(line: Seq<char>, line_no: nat)
    requires
        line.len() <= usize::MAX,
        1 <= line_no <= usize::MAX,
    ensures
        line_tokens(line, line_no).len() == recognized_count(line),
        forall|k: int|
            0 <= k < line_tokens(line, line_no).len() ==> {
                let t = #[trigger] line_tokens(line, line_no)[k];
                &&& t.line == line_no
                &&& 1 <= t.column <= line.len()
                &&& instruction_of(line[t.column - 1]) == Some(t.instruction)
            },
        forall|j: int, k: int|
            0 <= j < k < line_tokens(line, line_no).len() ==> #[trigger] line_tokens(
                line,
                line_no,
            )[j].column < #[trigger] line_tokens(line, line_no)[k].column,
        forall|c: int|
            0 <= c < line.len() && is_instruction_char(#[trigger] line[c]) ==> exists|k: int|
                0 <= k < line_tokens(line, line_no).len() && #[trigger] line_tokens(
                    line,
                    line_no,
                )[k].column == c + 1,
    decreases line.len(),
{
    reveal(Seq::filter);
    if line.len() > 0 {
        let prefix = line.drop_last();
        lemma_line_tokens(prefix, line_no);
        let before = line_tokens(prefix, line_no);
        let after = line_tokens(line, line_no);
        assert(line.filter(|c: char| is_instruction_char(c)) == if is_instruction_char(
            line.last(),
        ) {
            prefix.filter(|c: char| is_instruction_char(c)).push(line.last())
        } else {
            prefix.filter(|c: char| is_instruction_char(c))
        });
        assert forall|c: int| 0 <= c < line.len() && is_instruction_char(#[trigger] line[c]) implies exists|k: int|
            0 <= k < after.len() && #[trigger] after[k].column == c + 1 by {
            if c < prefix.len() {
                assert(prefix[c] == line[c]);
                let k = choose|k: int| 0 <= k < before.len() && #[trigger] before[k].column == c + 1;
                assert(after[k] == before[k]);
            } else {
                assert(after[after.len() - 1].column == c + 1);
            }
        }
    }
}

proof fn lemma_scan(lines: Seq<Seq<char>>)
    requires
        positions_fit(lines),
    ensures
        scan(lines).len() == total_recognized(lines),
        forall|k: int| 0 <= k < scan(lines).len() ==> produced_at(lines, #[trigger] scan(lines)[k]),
        forall|j: int, k: int|
            0 <= j < k < scan(lines).len() ==> precedes(
                #[trigger] scan(lines)[j],
                #[trigger] scan(lines)[k],
            ),
        forall|l: int, c: int|
            0 <= l < lines.len() && 0 <= c < lines[l].len() && is_instruction_char(
                #[trigger] lines[l][c],
            ) ==> exists|k: int|
                0 <= k < scan(lines).len() && #[trigger] scan(lines)[k].line == l + 1
                    && scan(lines)[k].column == c + 1,
    decreases lines.len(),
{
    if lines.len() > 0 {
        let prefix = lines.drop_last();
        let n = lines.len();
        assert forall|l: int| 0 <= l < prefix.len() implies #[trigger] prefix[l].len()
            <= usize::MAX by {
            assert(prefix[l] == lines[l]);
        }
        lemma_scan(prefix);
        lemma_line_tokens(lines.last(), n);
        let before = scan(prefix);
        let last = line_tokens(lines.last(), n);
        let all = scan(lines);
        assert(all == before + last);
        assert forall|k: int| 0 <= k < all.len() implies produced_at(lines, #[trigger] all[k]) by {
            if k < before.len() {
                assert(all[k] == before[k]);
                assert(produced_at(prefix, before[k]));
                assert(lines[before[k].line - 1] == prefix[before[k].line - 1]);
            } else {
                assert(all[k] == last[k - before.len()]);
            }
        }
        assert forall|j: int, k: int| 0 <= j < k < all.len() implies precedes(
            #[trigger] all[j],
            #[trigger] all[k],
        ) by {
            if k < before.len() {
                assert(all[j] == before[j]);
                assert(all[k] == before[k]);
            } else if j < before.len() {
                assert(all[j] == before[j]);
                assert(produced_at(prefix, before[j]));
                assert(all[k] == last[k - before.len()]);
            } else {
                assert(all[j] == last[j - before.len()]);
                assert(all[k] == last[k - before.len()]);
            }
        }
        assert forall|l: int, c: int|
            0 <= l < lines.len() && 0 <= c < lines[l].len() && is_instruction_char(
                #[trigger] lines[l][c],
            ) implies exists|k: int|
            0 <= k < all.len() && #[trigger] all[k].line == l + 1 && all[k].column == c + 1 by {
            if l < prefix.len() {
                assert(prefix[l] == lines[l]);
                assert(prefix[l][c] == lines[l][c]);
                let k = choose|k: int|
                    0 <= k < before.len() && #[trigger] before[k].line == l + 1 && before[k].column
                        == c + 1;
                assert(all[k] == before[k]);
            } else {
                assert(lines.last()[c] == lines[l][c]);
                let k = choose|k: int| 0 <= k < last.len() && #[trigger] last[k].column == c + 1;
                assert(all[before.len() + k] == last[k]);
            }
        }
    }
}

/// Appends the tokens of `line`, numbered `line_no`, to `out`.
fn push_line_tokens(out: &mut Vec<HumanReadableInstruction>, line: &str, line_no: usize)
    ensures
        final(out)@ == old(out)@ + line_tokens(line@, line_no as nat),
        line@.len() <= usize::MAX,
{
    // Counting the characters once bounds every column by `usize::MAX`.
    let len = line.unicode_len();
    let ghost start = out@;
    let mut column: usize = 0;
    for c in it: line.chars()
        invariant
            it.seq() == line@,
            len == line@.len(),
            column == it.index(),
            out@ == start + line_tokens(line@.take(column as int), line_no as nat),
    {
        assert(line@.take(column + 1).drop_last() == line@.take(column as int));
        column = column + 1;
        match RawInstruction::from_char(&c) {
            Some(instruction) => {
                out.push(HumanReadableInstruction::new(instruction, line_no, column));
            },
            None => {},
        }
    }
    assert(line@.take(column as int) == line@);
}

/// Scans `lines` in order and returns the token of every recognised
/// character; all other characters are skipped.
pub fn scan_lines(lines: &Vec<String>) -> (r: Vec<HumanReadableInstruction>)
    ensures
        r@ == scan(lines_view(lines@)),
        r@.len() == total_recognized(lines_view(lines@)),
        forall|k: int| 0 <= k < r@.len() ==> produced_at(lines_view(lines@), #[trigger] r@[k]),
        forall|j: int, k: int|
            0 <= j < k < r@.len() ==> precedes(#[trigger] r@[j], #[trigger] r@[k]),
        forall|l: int, c: int|
            0 <= l < lines@.len() && 0 <= c < lines@[l]@.len() && is_instruction_char(
                #[trigger] lines@[l]@[c],
            ) ==> exists|k: int|
                0 <= k < r@.len() && #[trigger] r@[k].line == l + 1 && r@[k].column == c + 1,
{
    let mut out: Vec<HumanReadableInstruction> = Vec::new();
    for i in 0..lines.len()
        invariant
            out@ == scan(lines_view(lines@).take(i as int)),
            forall|l: int| 0 <= l < i ==> #[trigger] lines@[l]@.len() <= usize::MAX,
    {
        assert(lines_view(lines@).take(i + 1).drop_last() == lines_view(lines@).take(i as int));
        push_line_tokens(&mut out, lines[i].as_str(), i + 1);
    }
    let ghost view = lines_view(lines@);
    assert(view.take(lines.len() as int) == view);
    proof {
        assert forall|l: int| 0 <= l < view.len() implies #[trigger] view[l].len()
            <= usize::MAX by {
            assert(view[l] == lines@[l]@);
        }
        lemma_scan(view);
        assert forall|l: int, c: int|
            0 <= l < lines@.len() && 0 <= c < lines@[l]@.len() && is_instruction_char(
                #[trigger] lines@[l]@[c],
            ) implies exists|k: int|
            0 <= k < out@.len() && #[trigger] out@[k].line == l + 1 && out@[k].column == c
                + 1 by {
            assert(view[l] == lines@[l]@);
            assert(view[l][c] == lines@[l]@[c]);
        }
    }
    out
}

/// A scan keeps no state between runs: scanning the same lines twice gives
/// the same tokens.
pub proof fn lemma_scan_repeatable(
    first_input: Seq<Seq<char>>,
    second_input: Seq<Seq<char>>,
    first: Seq<HumanReadableInstruction>,
    second: Seq<HumanReadableInstruction>,
)
    requires
        first_input == second_input,
        first == scan(first_input),
        second == scan(second_input),
    ensures
        first == second,
{
}

/// An input with no lines, or with only empty lines, gives no tokens.
pub proof fn lemma_scan_blank(lines: Seq<Seq<char>>)
    requires
        forall|l: int| 0 <= l < lines.len() ==> #[trigger] lines[l].len() == 0,
    ensures
        scan(lines) == Seq::<HumanReadableInstruction>::empty(),
    decreases lines.len(),
{
    if lines.len() > 0 {
        let prefix = lines.drop_last();
        assert forall|l: int| 0 <= l < prefix.len() implies #[trigger] prefix[l].len() == 0 by {
            assert(prefix[l] == lines[l]);
        }
        lemma_scan_blank(prefix);
        assert(lines.last().len() == 0);
        assert(scan(lines) == scan(prefix) + line_tokens(lines.last(), lines.len()));
    }
}

} // verus!
