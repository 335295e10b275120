//! The text that is shown beside a query field.

use vstd::prelude::*;
use vstd::string::*;

verus! {

/// The line that the engine's messages leave empty between two lines of a
/// quoted query: two blanks, a bar, a line break.
pub open spec fn empty_line() -> Seq<char> {
    seq![' ', ' ', '|', '\n']
}

/// `text` without the empty lines of the engine's messages, read from the
/// left: where an empty line begins it is left out and reading goes on behind
/// it; every other character stays.
pub open spec fn compacted(text: Seq<char>) -> Seq<char>
    decreases text.len(),
{
    if text.len() == 0 {
        text
    } else if text.len() >= 4 && text.take(4) == empty_line() {
        compacted(text.skip(4))
    } else {
        seq![text[0]] + compacted(text.skip(1))
    }
}

/// Removes the empty lines from a message of the engine, so that it takes
/// less room beside the field.
pub fn compact_message(text: &str) -> (compact: String)
    ensures
        compact@ == compacted(text@),
{
    let len: usize = text.unicode_len();
    let mut compact = String::new();
    let mut i: usize = 0;
    assert(text@.skip(0) =~= text@);
    while i < len
        invariant
            i <= len,
            len == text@.len(),
            compact@ + compacted(text@.skip(i as int)) == compacted(text@),
        decreases len - i,
    {
        let ghost rest = text@.skip(i as int);
        if len - i >= 4 && text.get_char(i) == ' ' && text.get_char(i + 1) == ' ' && text.get_char(
            i + 2,
        ) == '|' && text.get_char(i + 3) == '\n' {
            assert(rest.take(4) =~= empty_line());
            assert(rest.skip(4) =~= text@.skip(i + 4));
            i += 4;
        } else {
            assert(!(rest.len() >= 4 && rest.take(4) == empty_line())) by {
                if rest.len() >= 4 && rest.take(4) == empty_line() {
                    assert(rest.take(4)[0] == ' ');
                    assert(rest.take(4)[1] == ' ');
                    assert(rest.take(4)[2] == '|');
                    assert(rest.take(4)[3] == '\n');
                }
            }
            let one = text.substring_char(i, i + 1);
            assert(one@ =~= seq![rest[0]]);
            assert(rest.skip(1) =~= text@.skip(i + 1));
            let ghost before = compact@;
            compact.append(one);
            assert(compact@ + compacted(text@.skip(i + 1)) =~= before + (seq![rest[0]] + compacted(
                rest.skip(1),
            )));
            i += 1;
        }
    }
    assert(compact@ + Seq::<char>::empty() =~= compact@);
    compact
}

} // verus!
