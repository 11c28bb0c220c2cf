//! The per-file scanner.
//!
//! Content is split into lines; a single-bit state machine tracks fenced code
//! regions; exempt lines (comments, placeholders, quoted examples) are
//! skipped; every remaining line is dispatched to the four rule modules in a
//! fixed order (npm, pnpm, yarn, bun). Violations carry the 1-based line
//! number and the trimmed text of the offending line.

use vstd::prelude::*;

use crate::rules::{
    check_bun, check_npm, check_pnpm, check_yarn, line_violations, vio_views, VioModel, Violation,
};
use crate::text::{
    chars_to_string, contains_word, find_word, starts_trimmed_with, starts_trimmed_with_word,
    str_to_chars, trimmed_starts_with, trimmed_starts_with_word,
};

verus! {

/// A line whose first non-whitespace characters are the three-backtick fence
/// marker. Such a line toggles the fence state and is itself never evaluated.
pub open spec fn fence_line(s: Seq<char>) -> bool {
    trimmed_starts_with_word(s, "```"@)
}

/// A line that is exempt from rule evaluation: after trimming it begins with
/// `#` (comment), a backtick (inline code), `>` (blockquote) or `-` (list
/// item), or it carries a `<package>` / `<version>` documentation
/// placeholder.
pub open spec fn exempt_line(s: Seq<char>) -> bool {
    trimmed_starts_with(s, '#') || contains_word(s, "<package>"@) || contains_word(s, "<version>"@)
        || trimmed_starts_with(s, '`') || trimmed_starts_with(s, '>') || trimmed_starts_with(s, '-')
}

/// Is the line a comment, quoted example or placeholder, and therefore exempt
/// from rule evaluation?
pub fn is_comment_or_placeholder(line: &str) -> (r: bool)
    ensures
        r == exempt_line(line@),
{
    let s = str_to_chars(line);
    exempt_chars(&s)
}

/// `is_comment_or_placeholder` over an already-split vector of characters.
fn exempt_chars(s: &Vec<char>) -> (r: bool)
    ensures
        r == exempt_line(s@),
{
    proof {
        reveal_strlit("<package>");
        reveal_strlit("<version>");
    }
    let w_package = str_to_chars("<package>");
    let w_version = str_to_chars("<version>");
    starts_trimmed_with(s, '#') || find_word(s, &w_package) || find_word(s, &w_version)
        || starts_trimmed_with(s, '`') || starts_trimmed_with(s, '>') || starts_trimmed_with(
        s,
        '-',
    )
}

/// Is the line a fence marker?
fn fence_chars(s: &Vec<char>) -> (r: bool)
    ensures
        r == fence_line(s@),
{
    proof {
        reveal_strlit("```");
    }
    let w = str_to_chars("```");
    starts_trimmed_with_word(s, &w)
}

/// Remove one trailing carriage return, as the line splitter does at a line
/// feed.
pub open spec fn strip_cr(c: Seq<char>) -> Seq<char> {
    if c.len() > 0 && c.last() == '\r' {
        c.drop_last()
    } else {
        c
    }
}

/// Split `s` into lines at `\n`, removing one `\r` before each `\n` and
/// dropping a final empty fragment; `cur` is the pending, partially read
/// line.
pub open spec fn split_lines_rec(s: Seq<char>, cur: Seq<char>) -> Seq<Seq<char>>
    decreases s.len(),
{
    if s.len() == 0 {
        if cur.len() == 0 {
            Seq::<Seq<char>>::empty()
        } else {
            seq![cur]
        }
    } else if s[0] == '\n' {
        seq![strip_cr(cur)] + split_lines_rec(s.drop_first(), Seq::<char>::empty())
    } else {
        split_lines_rec(s.drop_first(), cur.push(s[0]))
    }
}

/// The lines of `s`.
pub open spec fn split_lines(s: Seq<char>) -> Seq<Seq<char>> {
    split_lines_rec(s, Seq::<char>::empty())
}

/// The views of a vector of character vectors.
pub open spec fn line_views(ls: Seq<Vec<char>>) -> Seq<Seq<char>> {
    ls.map_values(|l: Vec<char>| l@)
}

/// Split content into its lines.
fn split_lines_exec(content: &Vec<char>) -> (lines: Vec<Vec<char>>)
    ensures
        line_views(lines@) == split_lines(content@),
{
    let n = content.len();
    let mut lines: Vec<Vec<char>> = Vec::new();
    let mut cur: Vec<char> = Vec::new();
    let mut i: usize = 0;
    proof {
        assert(content@.skip(0) =~= content@);
        assert(line_views(lines@) + split_lines_rec(content@, cur@) =~= split_lines(content@));
    }
    while i < n
        invariant
            i <= n,
            n == content@.len(),
            split_lines(content@) =~= line_views(lines@) + split_lines_rec(
                content@.skip(i as int),
                cur@,
            ),
        decreases n - i,
    {
        let ghost pre = content@.skip(i as int);
        proof {
            assert(pre[0] == content@[i as int]);
            assert(pre.drop_first() =~= content@.skip(i as int + 1));
        }
        let c = content[i];
        if c == '\n' {
            let ghost cur0 = cur@;
            if cur.len() > 0 && cur[cur.len() - 1] == '\r' {
                let _ = cur.pop();
            }
            proof {
                assert(cur@ =~= strip_cr(cur0));
            }
            lines.push(cur);
            cur = Vec::new();
        } else {
            cur.push(c);
        }
        i += 1;
        proof {
            assert(split_lines(content@) =~= line_views(lines@) + split_lines_rec(
                content@.skip(i as int),
                cur@,
            ));
        }
    }
    if cur.len() > 0 {
        lines.push(cur);
    }
    proof {
        assert(content@.skip(n as int) =~= Seq::<char>::empty());
        assert(line_views(lines@) =~= split_lines(content@));
    }
    lines
}

/// The violations of all lines from `idx` on, given the fence state reached
/// before line `idx`. Line numbers are 1-based: line `idx` is reported as
/// `idx + 1`.
pub open spec fn scan_from(lines: Seq<Seq<char>>, idx: int, fence: bool) -> Seq<VioModel>
    decreases lines.len() - idx,
{
    if idx < 0 || idx >= lines.len() {
        Seq::<VioModel>::empty()
    } else {
        let l = lines[idx];
        if fence_line(l) {
            scan_from(lines, idx + 1, !fence)
        } else if fence {
            scan_from(lines, idx + 1, fence)
        } else if exempt_line(l) {
            scan_from(lines, idx + 1, fence)
        } else {
            line_violations(l, idx + 1) + scan_from(lines, idx + 1, fence)
        }
    }
}

/// All violations of one file's content, in line order, with each line's
/// violations in the fixed rule order npm, pnpm, yarn, bun.
pub open spec fn scan_content(s: Seq<char>) -> Seq<VioModel> {
    scan_from(split_lines(s), 0, false)
}

/// Scan the full text content of one file and produce the ordered sequence
/// of all violations.
pub fn check_file(content: &str) -> (r: Vec<Violation>)
    ensures
        vio_views(r@) == scan_content(content@),
{
    let chars = str_to_chars(content);
    let lines = split_lines_exec(&chars);
    let mut r: Vec<Violation> = Vec::new();
    let mut fence = false;
    let mut idx: usize = 0;
    while idx < lines.len()
        invariant
            idx <= lines@.len(),
            line_views(lines@) == split_lines(content@),
            scan_content(content@) =~= vio_views(r@) + scan_from(
                line_views(lines@),
                idx as int,
                fence,
            ),
        decreases lines@.len() - idx,
    {
        let line = &lines[idx];
        proof {
            assert(line_views(lines@)[idx as int] == line@);
        }
        if fence_chars(line) {
            fence = !fence;
        } else if fence {
        } else if exempt_chars(line) {
        } else {
            let lstr = chars_to_string(line);
            let num = idx + 1;
            let mut vs = check_npm(lstr.as_str(), num);
            let mut vs2 = check_pnpm(lstr.as_str(), num);
            let mut vs3 = check_yarn(lstr.as_str(), num);
            let mut vs4 = check_bun(lstr.as_str(), num);
            let ghost r0 = r@;
            vs.append(&mut vs2);
            vs.append(&mut vs3);
            vs.append(&mut vs4);
            proof {
                assert(vio_views(vs@) =~= line_violations(line@, num as int));
            }
            r.append(&mut vs);
            proof {
                assert(vio_views(r@) =~= vio_views(r0) + vio_views(r@.subrange(
                    r0.len() as int,
                    r@.len() as int,
                )));
            }
        }
        idx += 1;
        proof {
            assert(scan_content(content@) =~= vio_views(r@) + scan_from(
                line_views(lines@),
                idx as int,
                fence,
            ));
        }
    }
    proof {
        assert(scan_content(content@) =~= vio_views(r@));
    }
    r
}

} // verus!
