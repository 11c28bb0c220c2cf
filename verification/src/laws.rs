//! Laws of the rule set and of the scanner.
//!
//! Each proof function here states a property that holds of all inputs:
//! which lines a rule lets pass, the exact shape of what a rule reports,
//! determinism of the scan, and that violations only ever arise from lines
//! that are neither fenced, nor fence markers, nor exempt.

use vstd::prelude::*;

use crate::rules::{
    bun_add_invocation, bun_install_invocation, bun_violations, line_violations, msg_bun_frozen,
    msg_bun_no_pin, msg_npm_no_pin, msg_npm_use_ci, msg_pnpm_frozen, msg_pnpm_no_pin,
    msg_yarn_frozen, msg_yarn_no_pin, npm_bare_invocation, npm_ci_invocation,
    npm_install_invocation, npm_violations, other_manager_mentioned, pnpm_add_invocation,
    pnpm_install_invocation, pnpm_violations, yarn_add_invocation, yarn_install_at,
    yarn_install_invocation, yarn_lockfile_flag, yarn_violations, VioModel,
};
use crate::scanner::{exempt_line, fence_line, scan_content, scan_from};
use crate::text::{
    boundary_before, chain_end_after, cmd_at, cmd_end_holds, contains_word, has_version_pin,
    is_space, is_word_char, spaces_between, terminator_at, trim_split_at, trimmed, whole_word,
    word_at, CmdEnd,
};
use crate::text::lemma_trimmed_shape;

verus! {

/// Whitespace characters are not word characters.
proof fn lemma_space_not_word(c: char)
    requires
        is_space(c),
    ensures
        !is_word_char(c),
{
}

/// A line that invokes `npm ci` is never flagged by the npm rule.
pub proof fn lemma_npm_ci_allowed(s: Seq<char>, n: int)
    requires
        npm_ci_invocation(s),
    ensures
        npm_violations(s, n) == Seq::<VioModel>::empty(),
{
}

/// A line whose trimmed text is exactly `npm ci` is never flagged by the npm
/// rule, whatever whitespace surrounds it.
pub proof fn lemma_trimmed_npm_ci_allowed(s: Seq<char>, n: int)
    requires
        trimmed(s) == "npm ci"@,
    ensures
        npm_violations(s, n) == Seq::<VioModel>::empty(),
{
    reveal_strlit("npm ci");
    reveal_strlit("npm");
    reveal_strlit("ci");
    lemma_trimmed_shape(s);
    let a = choose|a: int| #[trigger] trim_split_at(s, a);
    let t = s.subrange(a, a + 6);
    assert(s[a] == t[0] && s[a + 1] == t[1] && s[a + 2] == t[2] && s[a + 3] == t[3] && s[a + 4]
        == t[4] && s[a + 5] == t[5]);
    assert(s[a] == 'n' && s[a + 1] == 'p' && s[a + 2] == 'm' && s[a + 3] == ' ' && s[a + 4] == 'c'
        && s[a + 5] == 'i');
    assert(word_at(s, a, "npm"@)) by {
        assert forall|m: int| 0 <= m < 3 implies s[a + m] == "npm"@[m] by {
            assert(m == 0 || m == 1 || m == 2);
        }
    }
    assert(word_at(s, a + 4, "ci"@)) by {
        assert forall|m: int| 0 <= m < 2 implies s[a + 4 + m] == "ci"@[m] by {
            assert(m == 0 || m == 1);
        }
    }
    assert(boundary_before(s, a)) by {
        if a > 0 {
            assert(is_space(s[a - 1]));
            lemma_space_not_word(s[a - 1]);
        }
    }
    assert(spaces_between(s, a + 3, a + 4)) by {
        assert(s[a + 3] == ' ');
    }
    assert(cmd_end_holds(s, a + 6, CmdEnd::WordBoundary)) by {
        if a + 6 < s.len() {
            assert(is_space(s[a + 6]));
            lemma_space_not_word(s[a + 6]);
        }
    }
    assert(cmd_at(s, "npm"@, "ci"@, CmdEnd::WordBoundary, a, a + 4));
    assert(npm_ci_invocation(s));
}

/// The npm rule, exactly: it reports nothing when the line mentions another
/// manager, invokes `npm ci`, does not invoke an install at all, or carries a
/// version pin; otherwise it reports one violation, telling bare installs to
/// use `npm ci` and unpinned installs to pin a version.
pub proof fn lemma_npm_rule_shape(s: Seq<char>, n: int)
    ensures
        (other_manager_mentioned(s) || npm_ci_invocation(s) || !npm_install_invocation(s)
            || has_version_pin(s)) ==> npm_violations(s, n) == Seq::<VioModel>::empty(),
        (!other_manager_mentioned(s) && !npm_ci_invocation(s) && npm_install_invocation(s)
            && !has_version_pin(s)) ==> npm_violations(s, n) == seq![
            (VioModel {
                line_num: n,
                message: if npm_bare_invocation(s) {
                    msg_npm_use_ci()
                } else {
                    msg_npm_no_pin()
                },
                line_content: trimmed(s),
            }),
        ],
{
}

/// The pnpm rule, exactly: one violation for `pnpm install` without
/// `--frozen-lockfile`, one for `pnpm add` without a version pin, in that
/// order, and nothing else.
pub proof fn lemma_pnpm_rule_shape(s: Seq<char>, n: int)
    ensures
        pnpm_violations(s, n).len() == (if pnpm_install_invocation(s) && !contains_word(
            s,
            "--frozen-lockfile"@,
        ) {
            1 as int
        } else {
            0
        }) + (if pnpm_add_invocation(s) && !has_version_pin(s) {
            1 as int
        } else {
            0
        }),
        pnpm_install_invocation(s) && !contains_word(s, "--frozen-lockfile"@) ==> pnpm_violations(
            s,
            n,
        )[0] == (VioModel { line_num: n, message: msg_pnpm_frozen(), line_content: trimmed(s) }),
        pnpm_add_invocation(s) && !has_version_pin(s) ==> pnpm_violations(s, n).last() == (VioModel {
            line_num: n,
            message: msg_pnpm_no_pin(),
            line_content: trimmed(s),
        }),
{
}

/// The yarn rule, exactly: one violation for bare `yarn` / `yarn install`
/// without `--frozen-lockfile` or `--immutable`, one for `yarn add` /
/// `yarn global add` without a version pin, in that order, and nothing else.
pub proof fn lemma_yarn_rule_shape(s: Seq<char>, n: int)
    ensures
        yarn_violations(s, n).len() == (if yarn_install_invocation(s) && !yarn_lockfile_flag(s) {
            1 as int
        } else {
            0
        }) + (if yarn_add_invocation(s) && !has_version_pin(s) {
            1 as int
        } else {
            0
        }),
        yarn_install_invocation(s) && !yarn_lockfile_flag(s) ==> yarn_violations(s, n)[0]
            == (VioModel { line_num: n, message: msg_yarn_frozen(), line_content: trimmed(s) }),
        yarn_add_invocation(s) && !has_version_pin(s) ==> yarn_violations(s, n).last() == (VioModel {
            line_num: n,
            message: msg_yarn_no_pin(),
            line_content: trimmed(s),
        }),
{
}

/// The bun rule, exactly: one violation for `bun install` without
/// `--frozen-lockfile`, one for `bun add` without a version pin, in that
/// order, and nothing else.
pub proof fn lemma_bun_rule_shape(s: Seq<char>, n: int)
    ensures
        bun_violations(s, n).len() == (if bun_install_invocation(s) && !contains_word(
            s,
            "--frozen-lockfile"@,
        ) {
            1 as int
        } else {
            0
        }) + (if bun_add_invocation(s) && !has_version_pin(s) {
            1 as int
        } else {
            0
        }),
        bun_install_invocation(s) && !contains_word(s, "--frozen-lockfile"@) ==> bun_violations(
            s,
            n,
        )[0] == (VioModel { line_num: n, message: msg_bun_frozen(), line_content: trimmed(s) }),
        bun_add_invocation(s) && !has_version_pin(s) ==> bun_violations(s, n).last() == (VioModel {
            line_num: n,
            message: msg_bun_no_pin(),
            line_content: trimmed(s),
        }),
{
}

/// A line whose trimmed text is exactly `yarn` is a bare yarn invocation.
pub proof fn lemma_trimmed_bare_yarn(s: Seq<char>)
    requires
        trimmed(s) == "yarn"@,
    ensures
        yarn_install_invocation(s),
{
    reveal_strlit("yarn");
    lemma_trimmed_shape(s);
    let a = choose|a: int| #[trigger] trim_split_at(s, a);
    let t = s.subrange(a, a + 4);
    assert(s[a] == t[0] && s[a + 1] == t[1] && s[a + 2] == t[2] && s[a + 3] == t[3]);
    assert(word_at(s, a, "yarn"@)) by {
        assert forall|m: int| 0 <= m < 4 implies s[a + m] == "yarn"@[m] by {
            assert(m == 0 || m == 1 || m == 2 || m == 3);
        }
    }
    assert(boundary_before(s, a)) by {
        if a > 0 {
            assert(is_space(s[a - 1]));
            lemma_space_not_word(s[a - 1]);
        }
    }
    assert(chain_end_after(s, a + 4)) by {
        assert(terminator_at(s, s.len() as int));
        assert forall|m: int| a + 4 <= m < s.len() implies is_space(s[m]) by {}
    }
    assert(yarn_install_at(s, a));
}

/// A line whose trimmed text is exactly `yarn install` is a bare yarn
/// install invocation.
pub proof fn lemma_trimmed_yarn_install(s: Seq<char>)
    requires
        trimmed(s) == "yarn install"@,
    ensures
        yarn_install_invocation(s),
{
    reveal_strlit("yarn install");
    reveal_strlit("yarn");
    reveal_strlit("install");
    lemma_trimmed_shape(s);
    let a = choose|a: int| #[trigger] trim_split_at(s, a);
    let t = s.subrange(a, a + 12);
    assert(s[a] == t[0] && s[a + 1] == t[1] && s[a + 2] == t[2] && s[a + 3] == t[3] && s[a + 4]
        == t[4] && s[a + 5] == t[5] && s[a + 6] == t[6] && s[a + 7] == t[7] && s[a + 8] == t[8]
        && s[a + 9] == t[9] && s[a + 10] == t[10] && s[a + 11] == t[11]);
    assert(s[a] == 'y' && s[a + 1] == 'a' && s[a + 2] == 'r' && s[a + 3] == 'n' && s[a + 4] == ' '
        && s[a + 5] == 'i' && s[a + 6] == 'n' && s[a + 7] == 's' && s[a + 8] == 't' && s[a + 9]
        == 'a' && s[a + 10] == 'l' && s[a + 11] == 'l');
    assert(word_at(s, a, "yarn"@)) by {
        assert forall|m: int| 0 <= m < 4 implies s[a + m] == "yarn"@[m] by {
            assert(m == 0 || m == 1 || m == 2 || m == 3);
        }
    }
    assert(word_at(s, a + 5, "install"@)) by {
        assert forall|m: int| 0 <= m < 7 implies s[a + 5 + m] == "install"@[m] by {
            assert(m == 0 || m == 1 || m == 2 || m == 3 || m == 4 || m == 5 || m == 6);
        }
    }
    assert(boundary_before(s, a)) by {
        if a > 0 {
            assert(is_space(s[a - 1]));
            lemma_space_not_word(s[a - 1]);
        }
    }
    assert(spaces_between(s, a + 4, a + 5)) by {
        assert(s[a + 4] == ' ');
    }
    assert(chain_end_after(s, a + 12)) by {
        assert(terminator_at(s, s.len() as int));
        assert forall|m: int| a + 12 <= m < s.len() implies is_space(s[m]) by {}
    }
    assert(yarn_install_at(s, a));
}

/// Scanning is a pure function of the content: the same content always
/// yields the same violation sequence, so a second scan repeats the first.
pub proof fn lemma_scan_deterministic(s1: Seq<char>, s2: Seq<char>)
    requires
        s1 == s2,
    ensures
        scan_content(s1) == scan_content(s2),
{
}

/// A fence-marker line is consumed: it only toggles the fence state and is
/// itself never evaluated by the rules.
pub proof fn lemma_fence_marker_consumed(lines: Seq<Seq<char>>, idx: int, fence: bool)
    requires
        0 <= idx < lines.len(),
        fence_line(lines[idx]),
    ensures
        scan_from(lines, idx, fence) == scan_from(lines, idx + 1, !fence),
{
}

/// While the fence state is set, a non-marker line is skipped entirely,
/// whatever its content.
pub proof fn lemma_fenced_line_skipped(lines: Seq<Seq<char>>, idx: int)
    requires
        0 <= idx < lines.len(),
        !fence_line(lines[idx]),
    ensures
        scan_from(lines, idx, true) == scan_from(lines, idx + 1, true),
{
}

/// Every violation of one line carries that line's number.
proof fn lemma_line_violations_num(s: Seq<char>, n: int)
    ensures
        forall|k: int|
            0 <= k < line_violations(s, n).len() ==> #[trigger] line_violations(s, n)[k].line_num
                == n,
{
    assert forall|k: int|
        0 <= k < line_violations(s, n).len() implies #[trigger] line_violations(s, n)[k].line_num
        == n by {
        let a = npm_violations(s, n);
        let b = pnpm_violations(s, n);
        let c = yarn_violations(s, n);
        let d = bun_violations(s, n);
        assert(line_violations(s, n) == a + b + c + d);
        if k < a.len() {
            assert((a + b + c + d)[k] == a[k]);
        } else if k < a.len() + b.len() {
            assert((a + b + c + d)[k] == b[k - a.len()]);
        } else if k < a.len() + b.len() + c.len() {
            assert((a + b + c + d)[k] == c[k - a.len() - b.len()]);
        } else {
            assert((a + b + c + d)[k] == d[k - a.len() - b.len() - c.len()]);
        }
    }
}

/// Every violation the scanner reports comes from an eligible line: one that
/// is not a fence marker, is not inside a fenced region, and is not exempt;
/// and it is exactly one of that line's rule violations, numbered with the
/// line's 1-based position.
pub proof fn lemma_violation_provenance(lines: Seq<Seq<char>>, idx: int, fence: bool, v: VioModel)
    requires
        scan_from(lines, idx, fence).contains(v),
    ensures
        exists|i: int|
            idx <= i < lines.len() && v.line_num == i + 1 && !fence_line(lines[i]) && !exempt_line(
                lines[i],
            ) && #[trigger] line_violations(lines[i], i + 1).contains(v),
    decreases lines.len() - idx,
{
    if idx < 0 || idx >= lines.len() {
        assert(false);
    } else {
        let l = lines[idx];
        if fence_line(l) {
            lemma_violation_provenance(lines, idx + 1, !fence, v);
        } else if fence {
            lemma_violation_provenance(lines, idx + 1, fence, v);
        } else if exempt_line(l) {
            lemma_violation_provenance(lines, idx + 1, fence, v);
        } else {
            let own = line_violations(l, idx + 1);
            let rest = scan_from(lines, idx + 1, fence);
            assert(scan_from(lines, idx, fence) == own + rest);
            let k = choose|k: int|
                0 <= k < (own + rest).len() && (own + rest)[k] == v;
            if k < own.len() {
                assert(own[k] == v);
                lemma_line_violations_num(l, idx + 1);
                assert(v.line_num == idx + 1);
                assert(line_violations(lines[idx], idx + 1).contains(v));
            } else {
                assert(rest[k - own.len()] == v);
                assert(rest.contains(v));
                lemma_violation_provenance(lines, idx + 1, fence, v);
            }
        }
    }
}

/// An exempt line produces no violation at all: no reported violation
/// carries its line number.
pub proof fn lemma_exempt_line_silent(lines: Seq<Seq<char>>, i: int, v: VioModel)
    requires
        0 <= i < lines.len(),
        exempt_line(lines[i]),
        scan_from(lines, 0, false).contains(v),
    ensures
        v.line_num != i + 1,
{
    lemma_violation_provenance(lines, 0, false, v);
    let i2 = choose|i2: int|
        0 <= i2 < lines.len() && v.line_num == i2 + 1 && !fence_line(lines[i2]) && !exempt_line(
            lines[i2],
        ) && #[trigger] line_violations(lines[i2], i2 + 1).contains(v);
    if i2 == i {
        assert(false);
    }
}

/// A fence-marker line produces no violation at all: no reported violation
/// carries its line number.
pub proof fn lemma_fence_marker_silent(lines: Seq<Seq<char>>, i: int, v: VioModel)
    requires
        0 <= i < lines.len(),
        fence_line(lines[i]),
        scan_from(lines, 0, false).contains(v),
    ensures
        v.line_num != i + 1,
{
    lemma_violation_provenance(lines, 0, false, v);
    let i2 = choose|i2: int|
        0 <= i2 < lines.len() && v.line_num == i2 + 1 && !fence_line(lines[i2]) && !exempt_line(
            lines[i2],
        ) && #[trigger] line_violations(lines[i2], i2 + 1).contains(v);
    if i2 == i {
        assert(false);
    }
}

/// A line that mentions `pnpm` as a whole word is never scored by the npm
/// rule, even if it also contains the substring `npm`.
pub proof fn lemma_pnpm_word_blocks_npm(s: Seq<char>, n: int)
    requires
        whole_word(s, "pnpm"@),
    ensures
        npm_violations(s, n) == Seq::<VioModel>::empty(),
{
}

} // verus!
