//! Small helpers for the programs around the board.

use vstd::prelude::*;
use vstd::string::StrSliceExecFns;

verus! {

/// Whether `c` is white space, as Unicode defines it.
pub open spec fn is_blank(c: char) -> bool {
    let n = c as u32;
    ||| 0x09 <= n <= 0x0d
    ||| n == 0x20
    ||| n == 0x85
    ||| n == 0xa0
    ||| n == 0x1680
    ||| 0x2000 <= n <= 0x200a
    ||| n == 0x2028
    ||| n == 0x2029
    ||| n == 0x202f
    ||| n == 0x205f
    ||| n == 0x3000
}

/// Whether `line` is the letter `lower` or `upper` at place `i`, and white
/// space everywhere else.
pub open spec fn is_lone_letter(line: Seq<char>, i: int, lower: char, upper: char) -> bool {
    &&& 0 <= i < line.len()
    &&& (line[i] == lower || line[i] == upper)
    &&& forall|j: int| 0 <= j < line.len() && j != i ==> is_blank(#[trigger] line[j])
}

/// The answer that a line gives to a question of yes or no: yes for a
/// single `y`, no for a single `n`, in either case and with any white space
/// around it; no answer for anything else.
pub open spec fn y_n_of(line: Seq<char>) -> Option<bool> {
    if exists|i: int| is_lone_letter(line, i, 'y', 'Y') {
        Some(true)
    } else if exists|i: int| is_lone_letter(line, i, 'n', 'N') {
        Some(false)
    } else {
        None
    }
}

/// Whether `c` is white space.
pub fn char_is_blank(c: char) -> (blank: bool)
    ensures
        blank == is_blank(c),
{
    let n = c as u32;
    (0x09 <= n && n <= 0x0d) || n == 0x20 || n == 0x85 || n == 0xa0 || n == 0x1680 || (0x2000 <= n
        && n <= 0x200a) || n == 0x2028 || n == 0x2029 || n == 0x202f || n == 0x205f || n
        == 0x3000
}

/// Where something other than white space stands at `at`, the line can
/// be a lone letter at `at` only.
proof fn lemma_letter_only_at(line: Seq<char>, at: int, lower: char, upper: char)
    requires
        0 <= at < line.len(),
        !is_blank(line[at]),
    ensures
        forall|k: int| k != at ==> !is_lone_letter(line, k, lower, upper),
{
}

/// Reads a line as an answer to a question of yes or no.
pub fn y_n_answer(line: &str) -> (answer: Option<bool>)
    ensures
        answer == y_n_of(line@),
{
    let len = line.unicode_len();
    let mut letter: Option<(usize, char)> = None;
    let mut i: usize = 0;
    while i < len
        invariant
            i <= len,
            len == line@.len(),
            match letter {
                Some((at, c)) => at < i && c == line@[at as int] && !is_blank(c) && forall|j: int|
                    0 <= j < i && j != at ==> is_blank(#[trigger] line@[j]),
                None => forall|j: int| 0 <= j < i ==> is_blank(#[trigger] line@[j]),
            },
        decreases len - i,
    {
        let c = line.get_char(i);
        if !char_is_blank(c) {
            if let Some((at, _)) = letter {
                proof {
                    lemma_letter_only_at(line@, at as int, 'y', 'Y');
                    lemma_letter_only_at(line@, at as int, 'n', 'N');
                    lemma_letter_only_at(line@, i as int, 'y', 'Y');
                    lemma_letter_only_at(line@, i as int, 'n', 'N');
                }
                return None;
            }
            letter = Some((i, c));
        }
        i += 1;
    }
    match letter {
        Some((at, c)) => {
            proof {
                lemma_letter_only_at(line@, at as int, 'y', 'Y');
                lemma_letter_only_at(line@, at as int, 'n', 'N');
            }
            if c == 'y' || c == 'Y' {
                assert(is_lone_letter(line@, at as int, 'y', 'Y'));
                Some(true)
            } else if c == 'n' || c == 'N' {
                assert(is_lone_letter(line@, at as int, 'n', 'N'));
                Some(false)
            } else {
                None
            }
        },
        None => None,
    }
}

} // verus!
