//! Character classes and low-level pattern primitives over sequences of
//! characters.
//!
//! All rule patterns in this crate are built from a handful of primitives:
//! matching a fixed word at a position, skipping runs of whitespace, and
//! locating a word after a mandatory run of whitespace. Each executable
//! function carries an exact (if-and-only-if) contract over the view of its
//! input.

use vstd::prelude::*;

verus! {

/// Whitespace for the purpose of line classification: space, tab, carriage
/// return and line feed.
pub open spec fn is_space(c: char) -> bool {
    c == ' ' || c == '\t' || c == '\r' || c == '\n'
}

/// Word characters: ASCII letters, digits and underscore. Word boundaries of
/// the rule patterns are defined against this class.
pub open spec fn is_word_char(c: char) -> bool {
    let u = c as u32;
    (97 <= u && u <= 122) || (65 <= u && u <= 90) || (48 <= u && u <= 57) || u == 95
}

/// ASCII decimal digits.
pub open spec fn is_digit(c: char) -> bool {
    let u = c as u32;
    48 <= u && u <= 57
}

/// The word `w` occurs in `s` starting exactly at index `i`.
pub open spec fn word_at(s: Seq<char>, i: int, w: Seq<char>) -> bool {
    0 <= i && i + w.len() <= s.len() && (forall|m: int| 0 <= m < w.len() ==> s[i + m] == w[m])
}

/// Position `i` is preceded by a word boundary: the start of the line or a
/// non-word character.
pub open spec fn boundary_before(s: Seq<char>, i: int) -> bool {
    i == 0 || (0 < i <= s.len() && !is_word_char(s[i - 1]))
}

/// Position `i` is followed by a word boundary: the end of the line or a
/// non-word character at `i` itself.
pub open spec fn boundary_after(s: Seq<char>, i: int) -> bool {
    i == s.len() || (0 <= i < s.len() && !is_word_char(s[i]))
}

/// Indices `start <= k < j` of `s` all hold whitespace, and there is at least
/// one of them.
pub open spec fn spaces_between(s: Seq<char>, start: int, j: int) -> bool {
    start < j <= s.len() && (forall|k: int| start <= k < j ==> is_space(s[k]))
}

/// The word `w` occurs somewhere in `s`.
pub open spec fn contains_word(s: Seq<char>, w: Seq<char>) -> bool {
    exists|i: int| word_at(s, i, w)
}

pub fn space_char(c: char) -> (r: bool)
    ensures
        r == is_space(c),
{
    c == ' ' || c == '\t' || c == '\r' || c == '\n'
}

pub fn word_char(c: char) -> (r: bool)
    ensures
        r == is_word_char(c),
{
    let u = c as u32;
    (97 <= u && u <= 122) || (65 <= u && u <= 90) || (48 <= u && u <= 57) || u == 95
}

pub fn digit_char(c: char) -> (r: bool)
    ensures
        r == is_digit(c),
{
    let u = c as u32;
    48 <= u && u <= 57
}

/// Does the word `w` occur in `s` starting exactly at `i`?
pub fn is_word_at(s: &Vec<char>, i: usize, w: &Vec<char>) -> (r: bool)
    ensures
        r == word_at(s@, i as int, w@),
{
    let n = s.len();
    if i > n || n - i < w.len() {
        return false;
    }
    let mut k: usize = 0;
    while k < w.len()
        invariant
            k <= w@.len(),
            i + w@.len() <= n,
            n == s@.len(),
            forall|m: int| 0 <= m < k ==> s@[i + m] == w@[m],
        decreases w@.len() - k,
    {
        if s[i + k] != w[k] {
            return false;
        }
        k += 1;
    }
    true
}

/// The index of the first non-whitespace character at or after `start`, or the
/// length of `s` if there is none.
pub fn skip_spaces(s: &Vec<char>, start: usize) -> (p: usize)
    requires
        start <= s@.len(),
    ensures
        start <= p <= s@.len(),
        forall|k: int| start <= k < p ==> is_space(s@[k]),
        p < s@.len() ==> !is_space(s@[p as int]),
{
    let mut p = start;
    while p < s.len() && space_char(s[p])
        invariant
            start <= p <= s@.len(),
            forall|k: int| start <= k < p ==> is_space(s@[k]),
        decreases s@.len() - p,
    {
        p += 1;
    }
    p
}

/// Look for `w` immediately after a mandatory run of whitespace that begins at
/// `start`. Because `w` starts with a non-whitespace character, at most one
/// position can carry such a match; the result pins it exactly: `Some(e)`
/// means `w` ends at `e`, and `None` means no position matches.
pub fn word_after_spaces(s: &Vec<char>, start: usize, w: &Vec<char>) -> (r: Option<usize>)
    requires
        start <= s@.len(),
        w@.len() > 0,
        !is_space(w@[0]),
    ensures
        (r matches Some(e) ==> w@.len() <= e <= s@.len() && spaces_between(
            s@,
            start as int,
            e - w@.len(),
        ) && word_at(s@, e - w@.len(), w@)),
        forall|j: int|
            spaces_between(s@, start as int, j) && word_at(s@, j, w@) ==> r == Some(
                (j + w@.len()) as usize,
            ),
{
    let n = s.len();
    let p = skip_spaces(s, start);
    if p > start && is_word_at(s, p, w) {
        proof {
            assert(p + w@.len() <= n);
            assert forall|j: int| spaces_between(s@, start as int, j) && word_at(s@, j, w@) implies j
                == p as int by {
                assert(s@[j] == w@[0]);
            }
        }
        Some(p + w.len())
    } else {
        proof {
            assert forall|j: int|
                spaces_between(s@, start as int, j) && word_at(s@, j, w@) implies false by {
                assert(s@[j] == w@[0]);
                assert(!is_space(s@[j]));
                assert(j + w@.len() <= s@.len() && w@.len() > 0);
                assert(j < s@.len());
                assert(j == p as int);
            }
        }
        None
    }
}

/// Does the word `w` occur anywhere in `s`?
pub fn find_word(s: &Vec<char>, w: &Vec<char>) -> (r: bool)
    requires
        w@.len() > 0,
    ensures
        r == contains_word(s@, w@),
{
    let mut i: usize = 0;
    while i < s.len()
        invariant
            i <= s@.len(),
            w@.len() > 0,
            forall|i2: int| 0 <= i2 < i ==> !word_at(s@, i2, w@),
        decreases s@.len() - i,
    {
        if is_word_at(s, i, w) {
            return true;
        }
        i += 1;
    }
    proof {
        assert forall|i2: int| !word_at(s@, i2, w@) by {
            if word_at(s@, i2, w@) {
                assert(0 <= i2 && i2 + w@.len() <= s@.len() && w@.len() > 0);
                assert(i2 < s@.len());
            }
        }
    }
    false
}

/// Does the word `w` occur in `s` with a word boundary on each side?
pub open spec fn whole_word(s: Seq<char>, w: Seq<char>) -> bool {
    exists|i: int|
        word_at(s, i, w) && boundary_before(s, i) && #[trigger] boundary_after(s, i + w.len())
}

pub fn find_whole_word(s: &Vec<char>, w: &Vec<char>) -> (r: bool)
    requires
        w@.len() > 0,
    ensures
        r == whole_word(s@, w@),
{
    let mut i: usize = 0;
    while i < s.len()
        invariant
            i <= s@.len(),
            w@.len() > 0,
            forall|i2: int|
                0 <= i2 < i ==> !(word_at(s@, i2, w@) && boundary_before(s@, i2)
                    && #[trigger] boundary_after(s@, i2 + w@.len())),
        decreases s@.len() - i,
    {
        let before_ok = i == 0 || !word_char(s[i - 1]);
        if before_ok && is_word_at(s, i, w) {
            let e = i + w.len();
            if e == s.len() || !word_char(s[e]) {
                proof {
                    assert(word_at(s@, i as int, w@) && boundary_before(s@, i as int)
                        && boundary_after(s@, i as int + w@.len()));
                }
                return true;
            }
        }
        i += 1;
    }
    proof {
        assert forall|i2: int|
            !(word_at(s@, i2, w@) && boundary_before(s@, i2) && #[trigger] boundary_after(
                s@,
                i2 + w@.len(),
            )) by {
            if word_at(s@, i2, w@) {
                assert(i2 < s@.len());
            }
        }
    }
    false
}

/// Position `k` ends a command: the end of the line, a comment or pipe or
/// statement separator, or the two-character `&&` chain operator.
pub open spec fn terminator_at(s: Seq<char>, k: int) -> bool {
    k == s.len() || (0 <= k < s.len() && (s[k] == '#' || s[k] == ';' || s[k] == '|')) || (0 <= k && k
        + 1 < s.len() && s[k] == '&' && s[k + 1] == '&')
}

/// From `e` on, the line holds only whitespace up to a command terminator.
pub open spec fn chain_end_after(s: Seq<char>, e: int) -> bool {
    exists|k: int|
        e <= k <= s.len() && (forall|m: int| e <= m < k ==> is_space(s[m])) && #[trigger] terminator_at(
            s,
            k,
        )
}

/// Does the line, from `e` on, hold only whitespace followed by a command
/// terminator (or the end of the line)?
pub fn has_chain_end(s: &Vec<char>, e: usize) -> (r: bool)
    requires
        e <= s@.len(),
    ensures
        r == chain_end_after(s@, e as int),
{
    let n = s.len();
    let p = skip_spaces(s, e);
    if p == n {
        proof {
            assert(terminator_at(s@, p as int));
        }
        return true;
    }
    let c = s[p];
    if c == '#' || c == ';' || c == '|' || (c == '&' && p + 1 < n && s[p + 1] == '&') {
        proof {
            assert(terminator_at(s@, p as int));
        }
        true
    } else {
        proof {
            assert forall|k: int|
                e <= k <= s@.len() && (forall|m: int| e <= m < k ==> is_space(s@[m]))
                    && #[trigger] terminator_at(s@, k) implies false by {
                assert(!is_space('#') && !is_space(';') && !is_space('|') && !is_space('&'));
                if k < p {
                    assert(is_space(s@[k]));
                } else if k > p {
                    assert(is_space(s@[p as int]));
                }
            }
        }
        false
    }
}

/// A version pin of the form `@` digits `.` digits occurs in `s` with the `@`
/// at `i` and the dot at `j`.
pub open spec fn pin_at(s: Seq<char>, i: int, j: int) -> bool {
    0 <= i && i + 2 <= j && j + 1 < s.len() && s[i] == '@' && (forall|k: int|
        i < k < j ==> is_digit(s[k])) && s[j] == '.' && is_digit(s[j + 1])
}

/// The line carries a version pin (`@` followed by at least `major.minor`
/// digit groups) somewhere.
pub open spec fn has_version_pin(s: Seq<char>) -> bool {
    exists|i: int, j: int| pin_at(s, i, j)
}

/// Does the line carry a version pin anywhere?
pub fn find_version_pin(s: &Vec<char>) -> (r: bool)
    ensures
        r == has_version_pin(s@),
{
    let n = s.len();
    let mut i: usize = 0;
    while i < n
        invariant
            i <= n,
            n == s@.len(),
            forall|i2: int, j: int| 0 <= i2 < i ==> !pin_at(s@, i2, j),
        decreases n - i,
    {
        if s[i] == '@' {
            let mut p = i + 1;
            while p < n && digit_char(s[p])
                invariant
                    i + 1 <= p <= n,
                    n == s@.len(),
                    forall|k: int| i < k < p ==> is_digit(s@[k]),
                decreases n - p,
            {
                p += 1;
            }
            if p > i + 1 && p < n && s[p] == '.' && p + 1 < n && digit_char(s[p + 1]) {
                proof {
                    assert(pin_at(s@, i as int, p as int));
                }
                return true;
            }
            proof {
                assert forall|j: int| !pin_at(s@, i as int, j) by {
                    if pin_at(s@, i as int, j) {
                        assert(!is_digit('.'));
                        if j < p {
                            assert(is_digit(s@[j]));
                        } else if j > p {
                            assert(is_digit(s@[p as int]));
                        }
                    }
                }
            }
        } else {
            proof {
                assert forall|j: int| !pin_at(s@, i as int, j) by {
                    if pin_at(s@, i as int, j) {
                        assert(s@[i as int] == '@');
                    }
                }
            }
        }
        i += 1;
    }
    proof {
        assert forall|i2: int, j: int| !pin_at(s@, i2, j) by {
            if pin_at(s@, i2, j) {
                assert(i2 + 2 <= j && j + 1 < s@.len());
            }
        }
    }
    false
}

/// After skipping leading whitespace, the line starts with character `c`.
pub open spec fn trimmed_starts_with(s: Seq<char>, c: char) -> bool {
    exists|i: int|
        0 <= i < s.len() && #[trigger] s[i] == c && (forall|k: int| 0 <= k < i ==> is_space(s[k]))
}

/// Does the line, with leading whitespace skipped, start with `c`? `c` must
/// not itself be whitespace.
pub fn starts_trimmed_with(s: &Vec<char>, c: char) -> (r: bool)
    requires
        !is_space(c),
    ensures
        r == trimmed_starts_with(s@, c),
{
    let n = s.len();
    let p = skip_spaces(s, 0);
    if p < n && s[p] == c {
        true
    } else {
        proof {
            assert forall|i: int|
                0 <= i < s@.len() && #[trigger] s@[i] == c && (forall|k: int|
                    0 <= k < i ==> is_space(s@[k])) implies false by {
                if i < p {
                    assert(is_space(s@[i]));
                } else if i > p {
                    assert(is_space(s@[p as int]));
                }
            }
        }
        false
    }
}

/// After skipping leading whitespace, the line starts with the word `w`,
/// whose first character must not be whitespace.
pub open spec fn trimmed_starts_with_word(s: Seq<char>, w: Seq<char>) -> bool {
    exists|i: int|
        0 <= i && #[trigger] word_at(s, i, w) && (forall|k: int| 0 <= k < i ==> is_space(s[k]))
}

/// Does the line, with leading whitespace skipped, start with the word `w`?
pub fn starts_trimmed_with_word(s: &Vec<char>, w: &Vec<char>) -> (r: bool)
    requires
        w@.len() > 0,
        !is_space(w@[0]),
    ensures
        r == trimmed_starts_with_word(s@, w@),
{
    let p = skip_spaces(s, 0);
    if is_word_at(s, p, w) {
        true
    } else {
        proof {
            assert forall|i: int|
                0 <= i && #[trigger] word_at(s@, i, w@) && (forall|k: int|
                    0 <= k < i ==> is_space(s@[k])) implies false by {
                assert(s@[i] == w@[0]);
                assert(i + w@.len() <= s@.len() && w@.len() > 0);
                if i < p {
                    assert(is_space(s@[i]));
                } else if i > p {
                    assert(is_space(s@[p as int]));
                }
            }
        }
        false
    }
}

/// How a recognized command invocation must end.
#[derive(Clone, Copy, Debug)]
pub enum CmdEnd {
    /// The end of the line or a non-word character.
    WordBoundary,
    /// Exactly one further whitespace character (an argument follows).
    OneSpace,
    /// A whitespace character or the end of the line.
    SpaceOrEnd,
    /// Only whitespace up to a command terminator or the end of the line.
    ChainEnd,
}

/// Does position `e` end a command invocation in the way `t` demands?
pub open spec fn cmd_end_holds(s: Seq<char>, e: int, t: CmdEnd) -> bool {
    match t {
        CmdEnd::WordBoundary => boundary_after(s, e),
        CmdEnd::OneSpace => 0 <= e < s.len() && is_space(s[e]),
        CmdEnd::SpaceOrEnd => e == s.len() || (0 <= e < s.len() && is_space(s[e])),
        CmdEnd::ChainEnd => chain_end_after(s, e),
    }
}

pub fn cmd_end_check(s: &Vec<char>, e: usize, t: CmdEnd) -> (r: bool)
    requires
        e <= s@.len(),
    ensures
        r == cmd_end_holds(s@, e as int, t),
{
    match t {
        CmdEnd::WordBoundary => e == s.len() || !word_char(s[e]),
        CmdEnd::OneSpace => e < s.len() && space_char(s[e]),
        CmdEnd::SpaceOrEnd => e == s.len() || space_char(s[e]),
        CmdEnd::ChainEnd => has_chain_end(s, e),
    }
}

/// A two-word command: `w1` at a word boundary at `i`, whitespace, then `w2`
/// at `j`, ending as `t` demands.
pub open spec fn cmd_at(s: Seq<char>, w1: Seq<char>, w2: Seq<char>, t: CmdEnd, i: int, j: int) -> bool {
    boundary_before(s, i) && word_at(s, i, w1) && spaces_between(s, i + w1.len(), j) && word_at(
        s,
        j,
        w2,
    ) && cmd_end_holds(s, j + w2.len(), t)
}

/// The line holds the two-word command somewhere.
pub open spec fn has_cmd(s: Seq<char>, w1: Seq<char>, w2: Seq<char>, t: CmdEnd) -> bool {
    exists|i: int, j: int| #[trigger] cmd_at(s, w1, w2, t, i, j)
}

/// Does the line hold the two-word command `w1 w2`, ending as `t` demands?
pub fn find_cmd(s: &Vec<char>, w1: &Vec<char>, w2: &Vec<char>, t: CmdEnd) -> (r: bool)
    requires
        w1@.len() > 0,
        w2@.len() > 0,
        !is_space(w2@[0]),
    ensures
        r == has_cmd(s@, w1@, w2@, t),
{
    let n = s.len();
    let mut i: usize = 0;
    while i < n
        invariant
            i <= n,
            n == s@.len(),
            w1@.len() > 0,
            w2@.len() > 0,
            !is_space(w2@[0]),
            forall|i2: int, j: int| 0 <= i2 < i ==> !cmd_at(s@, w1@, w2@, t, i2, j),
        decreases n - i,
    {
        let before_ok = i == 0 || !word_char(s[i - 1]);
        if before_ok && is_word_at(s, i, w1) {
            match word_after_spaces(s, i + w1.len(), w2) {
                Some(e) => {
                    if cmd_end_check(s, e, t) {
                        proof {
                            assert(cmd_at(s@, w1@, w2@, t, i as int, e - w2@.len()));
                        }
                        return true;
                    }
                    proof {
                        assert forall|j: int| !cmd_at(s@, w1@, w2@, t, i as int, j) by {
                            if cmd_at(s@, w1@, w2@, t, i as int, j) {
                                assert(j == e - w2@.len());
                            }
                        }
                    }
                },
                None => {
                    proof {
                        assert forall|j: int| !cmd_at(s@, w1@, w2@, t, i as int, j) by {}
                    }
                },
            }
        } else {
            proof {
                assert forall|j: int| !cmd_at(s@, w1@, w2@, t, i as int, j) by {}
            }
        }
        i += 1;
    }
    proof {
        assert forall|i2: int, j: int| !cmd_at(s@, w1@, w2@, t, i2, j) by {
            if cmd_at(s@, w1@, w2@, t, i2, j) {
                assert(i2 + w1@.len() <= s@.len() && w1@.len() > 0);
            }
        }
    }
    false
}

/// A three-word command: `w1` at a word boundary, whitespace, `w2`,
/// whitespace, then `w3`, ending as `t` demands.
pub open spec fn cmd3_at(
    s: Seq<char>,
    w1: Seq<char>,
    w2: Seq<char>,
    w3: Seq<char>,
    t: CmdEnd,
    i: int,
    j: int,
    j2: int,
) -> bool {
    boundary_before(s, i) && word_at(s, i, w1) && spaces_between(s, i + w1.len(), j) && word_at(
        s,
        j,
        w2,
    ) && spaces_between(s, j + w2.len(), j2) && word_at(s, j2, w3) && cmd_end_holds(
        s,
        j2 + w3.len(),
        t,
    )
}

/// The line holds the three-word command somewhere.
pub open spec fn has_cmd3(s: Seq<char>, w1: Seq<char>, w2: Seq<char>, w3: Seq<char>, t: CmdEnd) -> bool {
    exists|i: int, j: int, j2: int| #[trigger] cmd3_at(s, w1, w2, w3, t, i, j, j2)
}

/// Does the line hold the three-word command `w1 w2 w3`, ending as `t`
/// demands?
pub fn find_cmd3(s: &Vec<char>, w1: &Vec<char>, w2: &Vec<char>, w3: &Vec<char>, t: CmdEnd) -> (r:
    bool)
    requires
        w1@.len() > 0,
        w2@.len() > 0,
        w3@.len() > 0,
        !is_space(w2@[0]),
        !is_space(w3@[0]),
    ensures
        r == has_cmd3(s@, w1@, w2@, w3@, t),
{
    let n = s.len();
    let mut i: usize = 0;
    while i < n
        invariant
            i <= n,
            n == s@.len(),
            w1@.len() > 0,
            w2@.len() > 0,
            w3@.len() > 0,
            !is_space(w2@[0]),
            !is_space(w3@[0]),
            forall|i2: int, j: int, j2: int| 0 <= i2 < i ==> !cmd3_at(s@, w1@, w2@, w3@, t, i2, j, j2),
        decreases n - i,
    {
        let before_ok = i == 0 || !word_char(s[i - 1]);
        if before_ok && is_word_at(s, i, w1) {
            match word_after_spaces(s, i + w1.len(), w2) {
                Some(e) => {
                    match word_after_spaces(s, e, w3) {
                        Some(e2) => {
                            if cmd_end_check(s, e2, t) {
                                proof {
                                    assert(cmd3_at(
                                        s@,
                                        w1@,
                                        w2@,
                                        w3@,
                                        t,
                                        i as int,
                                        e - w2@.len(),
                                        e2 - w3@.len(),
                                    ));
                                }
                                return true;
                            }
                            proof {
                                assert forall|j: int, j2: int|
                                    !cmd3_at(s@, w1@, w2@, w3@, t, i as int, j, j2) by {
                                    if cmd3_at(s@, w1@, w2@, w3@, t, i as int, j, j2) {
                                        assert(j == e - w2@.len());
                                        assert(j2 == e2 - w3@.len());
                                    }
                                }
                            }
                        },
                        None => {
                            proof {
                                assert forall|j: int, j2: int|
                                    !cmd3_at(s@, w1@, w2@, w3@, t, i as int, j, j2) by {
                                    if cmd3_at(s@, w1@, w2@, w3@, t, i as int, j, j2) {
                                        assert(j == e - w2@.len());
                                    }
                                }
                            }
                        },
                    }
                },
                None => {
                    proof {
                        assert forall|j: int, j2: int|
                            !cmd3_at(s@, w1@, w2@, w3@, t, i as int, j, j2) by {}
                    }
                },
            }
        } else {
            proof {
                assert forall|j: int, j2: int| !cmd3_at(s@, w1@, w2@, w3@, t, i as int, j, j2) by {}
            }
        }
        i += 1;
    }
    proof {
        assert forall|i2: int, j: int, j2: int| !cmd3_at(s@, w1@, w2@, w3@, t, i2, j, j2) by {
            if cmd3_at(s@, w1@, w2@, w3@, t, i2, j, j2) {
                assert(i2 + w1@.len() <= s@.len() && w1@.len() > 0);
            }
        }
    }
    false
}

/// `s` with leading whitespace removed.
pub open spec fn trim_front(s: Seq<char>) -> Seq<char>
    decreases s.len(),
{
    if s.len() > 0 && is_space(s[0]) {
        trim_front(s.drop_first())
    } else {
        s
    }
}

/// `s` with trailing whitespace removed.
pub open spec fn trim_back(s: Seq<char>) -> Seq<char>
    decreases s.len(),
{
    if s.len() > 0 && is_space(s.last()) {
        trim_back(s.drop_last())
    } else {
        s
    }
}

/// `s` with leading and trailing whitespace removed.
pub open spec fn trimmed(s: Seq<char>) -> Seq<char> {
    trim_back(trim_front(s))
}

/// `trim_front(s)` is the suffix of `s` that starts at its first
/// non-whitespace character.
pub proof fn lemma_trim_front_shape(s: Seq<char>)
    ensures
        trim_front(s).len() <= s.len(),
        trim_front(s) == s.subrange(s.len() - trim_front(s).len(), s.len() as int),
        forall|k: int| 0 <= k < s.len() - trim_front(s).len() ==> is_space(s[k]),
        trim_front(s).len() > 0 ==> !is_space(s[s.len() - trim_front(s).len()]),
    decreases s.len(),
{
    if s.len() > 0 && is_space(s[0]) {
        let s2 = s.drop_first();
        lemma_trim_front_shape(s2);
        let l = trim_front(s).len();
        assert(s.subrange(s.len() - l, s.len() as int) =~= s2.subrange(
            s2.len() - l,
            s2.len() as int,
        ));
        assert forall|k: int| 0 <= k < s.len() - l implies is_space(s[k]) by {
            if k > 0 {
                assert(s2[k - 1] == s[k]);
                assert(is_space(s2[k - 1]));
            }
        }
        if l > 0 {
            assert(s2[s2.len() - l] == s[s.len() - l]);
        }
    } else {
        assert(s.subrange(0, s.len() as int) =~= s);
    }
}

/// `trim_back(s)` is the prefix of `s` that ends at its last non-whitespace
/// character.
pub proof fn lemma_trim_back_shape(s: Seq<char>)
    ensures
        trim_back(s).len() <= s.len(),
        trim_back(s) == s.subrange(0, trim_back(s).len() as int),
        forall|k: int| trim_back(s).len() <= k < s.len() ==> is_space(s[k]),
        trim_back(s).len() > 0 ==> !is_space(s[trim_back(s).len() - 1]),
    decreases s.len(),
{
    if s.len() > 0 && is_space(s.last()) {
        let s2 = s.drop_last();
        lemma_trim_back_shape(s2);
        let l = trim_back(s).len();
        assert(s.subrange(0, l as int) =~= s2.subrange(0, l as int));
        assert forall|k: int| l <= k < s.len() implies is_space(s[k]) by {
            if k < s.len() - 1 {
                assert(s2[k] == s[k]);
                assert(is_space(s2[k]));
            }
        }
        if l > 0 {
            assert(s2[l - 1] == s[l - 1]);
        }
    } else {
        assert(s.subrange(0, s.len() as int) =~= s);
    }
}

/// `trimmed(s)` occurs in `s` at offset `a`, with nothing but whitespace
/// before and after it.
pub open spec fn trim_split_at(s: Seq<char>, a: int) -> bool {
    0 <= a && a + trimmed(s).len() <= s.len() && trimmed(s) == s.subrange(
        a,
        a + trimmed(s).len(),
    ) && (forall|k: int| 0 <= k < a ==> is_space(s[k])) && (forall|k: int|
        a + trimmed(s).len() <= k < s.len() ==> is_space(s[k])) && (trimmed(s).len() > 0
        ==> !is_space(s[a]) && !is_space(s[a + trimmed(s).len() - 1]))
}

/// The trimmed line is a contiguous piece of the raw line, surrounded by
/// whitespace only.
pub proof fn lemma_trimmed_shape(s: Seq<char>)
    ensures
        exists|a: int| #[trigger] trim_split_at(s, a),
{
    lemma_trim_front_shape(s);
    let sf = trim_front(s);
    let lo = s.len() - sf.len();
    lemma_trim_back_shape(sf);
    let l = trim_back(sf).len();
    assert(trimmed(s) =~= s.subrange(lo, lo + l)) by {
        assert(trim_back(sf) == sf.subrange(0, l as int));
        assert(sf == s.subrange(lo, s.len() as int));
        assert(sf.subrange(0, l as int) =~= s.subrange(lo, lo + l));
    }
    assert forall|k: int| lo + l <= k < s.len() implies is_space(s[k]) by {
        assert(sf[k - lo] == s[k]);
    }
    if l > 0 {
        assert(!is_space(sf[0]) ==> !is_space(s[lo]));
        assert(sf[l - 1] == s[lo + l - 1]);
    }
    assert(trim_split_at(s, lo));
}

/// The characters of `s` with leading and trailing whitespace removed.
pub fn trim_chars(s: &Vec<char>) -> (t: Vec<char>)
    ensures
        t@ == trimmed(s@),
{
    let n = s.len();
    let lo = skip_spaces(s, 0);
    let mut hi = n;
    while hi > lo && space_char(s[hi - 1])
        invariant
            lo <= hi <= n,
            n == s@.len(),
            forall|k: int| hi <= k < n ==> is_space(s@[k]),
        decreases hi,
    {
        hi -= 1;
    }
    let mut t: Vec<char> = Vec::new();
    let mut k = lo;
    while k < hi
        invariant
            lo <= k <= hi <= n,
            n == s@.len(),
            t@ =~= s@.subrange(lo as int, k as int),
        decreases hi - k,
    {
        t.push(s[k]);
        k += 1;
    }
    proof {
        lemma_trim_front_shape(s@);
        let sf = trim_front(s@);
        let lo0 = s@.len() - sf.len();
        if lo < lo0 {
            assert(is_space(s@[lo as int]));
        } else if lo > lo0 {
            assert(sf.len() > 0);
            assert(is_space(s@[lo0]));
        }
        assert(lo == lo0);
        lemma_trim_back_shape(sf);
        let l = trim_back(sf).len();
        assert forall|m: int| 0 <= m < sf.len() implies sf[m] == s@[lo + m] by {}
        if hi - lo < l {
            assert(l > 0);
            assert(is_space(s@[lo + l - 1]));
            assert(!is_space(sf[l - 1]));
        } else if hi - lo > l {
            assert(hi > lo);
            assert(is_space(sf[hi - lo - 1]));
            assert(!is_space(s@[hi - 1]));
        }
        assert(hi - lo == l);
        assert(t@ =~= trimmed(s@)) by {
            assert(trim_back(sf) == sf.subrange(0, l as int));
        }
    }
    t
}

/// Relies on `String::push` from std: appends the given character to the end
/// of the string.
#[verifier::external_body]
fn push_char(s: &mut String, c: char)
    ensures
        final(s)@ == old(s)@.push(c),
{
    s.push(c)
}

/// Build a `String` from a vector of characters.
pub fn chars_to_string(v: &Vec<char>) -> (r: String)
    ensures
        r@ == v@,
{
    let mut r = String::new();
    let mut i: usize = 0;
    while i < v.len()
        invariant
            i <= v@.len(),
            r@ =~= v@.subrange(0, i as int),
        decreases v@.len() - i,
    {
        push_char(&mut r, v[i]);
        i += 1;
    }
    proof {
        assert(r@ =~= v@);
    }
    r
}

/// Turn a string slice into the vector of its characters.
pub fn str_to_chars(s: &str) -> (v: Vec<char>)
    ensures
        v@ == s@,
{
    let n = s.unicode_len();
    let mut v: Vec<char> = Vec::new();
    let mut i: usize = 0;
    while i < n
        invariant
            i <= n,
            n == s@.len(),
            v@ =~= s@.subrange(0, i as int),
        decreases n - i,
    {
        v.push(s.get_char(i));
        i += 1;
    }
    proof {
        assert(v@ =~= s@);
    }
    v
}

} // verus!
