//! The four package-manager rule modules.
//!
//! Each rule inspects one line of text and produces zero, one or two
//! violations. A rule has two independent failure classes: an unsafe bulk
//! install (one that does not respect the lockfile) and a package-add
//! invocation without a version pin. The exact pattern each rule recognizes
//! is stated as a spec function, and each `check_*` function returns exactly
//! the violations that its spec prescribes.

use vstd::prelude::*;

use crate::text::{
    boundary_before, chain_end_after, chars_to_string, contains_word, find_cmd, find_cmd3,
    find_version_pin, find_whole_word, find_word, has_chain_end, has_version_pin, is_word_at,
    spaces_between, str_to_chars, trim_chars, trimmed, whole_word, word_after_spaces, word_at,
    word_char, CmdEnd,
};

verus! {

/// One detected policy breach: the 1-based line number, a human-readable
/// remediation message, and the trimmed text of the offending line.
#[derive(Debug)]
pub struct Violation {
    pub line_num: usize,
    pub message: String,
    pub line_content: String,
}

/// The mathematical model of a violation.
pub ghost struct VioModel {
    pub line_num: int,
    pub message: Seq<char>,
    pub line_content: Seq<char>,
}

impl View for Violation {
    type V = VioModel;

    open spec fn view(&self) -> VioModel {
        VioModel {
            line_num: self.line_num as int,
            message: self.message@,
            line_content: self.line_content@,
        }
    }
}

/// The models of a sequence of violations.
pub open spec fn vio_views(vs: Seq<Violation>) -> Seq<VioModel> {
    vs.map_values(|v: Violation| v@)
}

pub open spec fn msg_npm_use_ci() -> Seq<char> {
    "Use 'npm ci' instead of 'npm install' for lockfile-based installations"@
}

pub open spec fn msg_npm_no_pin() -> Seq<char> {
    "npm package installation without version pin (use 'npm i package@version')"@
}

pub open spec fn msg_pnpm_frozen() -> Seq<char> {
    "Use 'pnpm install --frozen-lockfile' to respect lockfile"@
}

pub open spec fn msg_pnpm_no_pin() -> Seq<char> {
    "pnpm package installation without version pin (use 'pnpm add package@version')"@
}

pub open spec fn msg_yarn_frozen() -> Seq<char> {
    "Use 'yarn install --frozen-lockfile' to respect lockfile"@
}

pub open spec fn msg_yarn_no_pin() -> Seq<char> {
    "yarn package installation without version pin (use 'yarn add package@version')"@
}

pub open spec fn msg_bun_frozen() -> Seq<char> {
    "Use 'bun install --frozen-lockfile' to respect lockfile"@
}

pub open spec fn msg_bun_no_pin() -> Seq<char> {
    "bun package installation without version pin (use 'bun add package@version')"@
}

/// The line mentions `pnpm`, `yarn` or `bun` as a whole word; such a line is
/// never scored by the npm rule.
pub open spec fn other_manager_mentioned(s: Seq<char>) -> bool {
    whole_word(s, "pnpm"@) || whole_word(s, "yarn"@) || whole_word(s, "bun"@)
}

/// The line invokes `npm ci` (always allowed).
pub open spec fn npm_ci_invocation(s: Seq<char>) -> bool {
    crate::text::has_cmd(s, "npm"@, "ci"@, CmdEnd::WordBoundary)
}

/// The line invokes `npm install` or `npm i`, followed by whitespace or the
/// end of the line.
pub open spec fn npm_install_invocation(s: Seq<char>) -> bool {
    crate::text::has_cmd(s, "npm"@, "install"@, CmdEnd::SpaceOrEnd) || crate::text::has_cmd(
        s,
        "npm"@,
        "i"@,
        CmdEnd::SpaceOrEnd,
    )
}

/// The line invokes a bare `npm install` / `npm i`: nothing but whitespace
/// and a command terminator follows the verb.
pub open spec fn npm_bare_invocation(s: Seq<char>) -> bool {
    crate::text::has_cmd(s, "npm"@, "install"@, CmdEnd::ChainEnd) || crate::text::has_cmd(
        s,
        "npm"@,
        "i"@,
        CmdEnd::ChainEnd,
    )
}

/// The violations the npm rule produces for one line.
pub open spec fn npm_violations(s: Seq<char>, n: int) -> Seq<VioModel> {
    if other_manager_mentioned(s) || npm_ci_invocation(s) {
        Seq::<VioModel>::empty()
    } else if npm_install_invocation(s) {
        if has_version_pin(s) {
            Seq::<VioModel>::empty()
        } else if npm_bare_invocation(s) {
            seq![(VioModel { line_num: n, message: msg_npm_use_ci(), line_content: trimmed(s) })]
        } else {
            seq![(VioModel { line_num: n, message: msg_npm_no_pin(), line_content: trimmed(s) })]
        }
    } else {
        Seq::<VioModel>::empty()
    }
}

/// The line invokes `pnpm install`.
pub open spec fn pnpm_install_invocation(s: Seq<char>) -> bool {
    crate::text::has_cmd(s, "pnpm"@, "install"@, CmdEnd::WordBoundary)
}

/// The line invokes `pnpm add` with at least one following argument.
pub open spec fn pnpm_add_invocation(s: Seq<char>) -> bool {
    crate::text::has_cmd(s, "pnpm"@, "add"@, CmdEnd::OneSpace)
}

/// The violations the pnpm rule produces for one line.
pub open spec fn pnpm_violations(s: Seq<char>, n: int) -> Seq<VioModel> {
    (if pnpm_install_invocation(s) && !contains_word(s, "--frozen-lockfile"@) {
        seq![(VioModel { line_num: n, message: msg_pnpm_frozen(), line_content: trimmed(s) })]
    } else {
        Seq::<VioModel>::empty()
    }) + (if pnpm_add_invocation(s) && !has_version_pin(s) {
        seq![(VioModel { line_num: n, message: msg_pnpm_no_pin(), line_content: trimmed(s) })]
    } else {
        Seq::<VioModel>::empty()
    })
}

/// The line invokes bare `yarn` or `yarn install`, followed only by
/// whitespace and a command terminator.
pub open spec fn yarn_install_invocation(s: Seq<char>) -> bool {
    exists|i: int| #[trigger] yarn_install_at(s, i)
}

/// Bare `yarn` or `yarn install` starting at position `i`.
pub open spec fn yarn_install_at(s: Seq<char>, i: int) -> bool {
    boundary_before(s, i) && word_at(s, i, "yarn"@) && (chain_end_after(s, i + "yarn"@.len()) || (
    exists|j: int|
        spaces_between(s, i + "yarn"@.len(), j) && #[trigger] word_at(s, j, "install"@)
            && chain_end_after(s, j + "install"@.len())))
}

/// The line invokes `yarn add` or `yarn global add` with a following
/// argument.
pub open spec fn yarn_add_invocation(s: Seq<char>) -> bool {
    crate::text::has_cmd(s, "yarn"@, "add"@, CmdEnd::OneSpace) || crate::text::has_cmd3(
        s,
        "yarn"@,
        "global"@,
        "add"@,
        CmdEnd::OneSpace,
    )
}

/// The line carries `--frozen-lockfile` or `--immutable`.
pub open spec fn yarn_lockfile_flag(s: Seq<char>) -> bool {
    contains_word(s, "--frozen-lockfile"@) || contains_word(s, "--immutable"@)
}

/// The violations the yarn rule produces for one line.
pub open spec fn yarn_violations(s: Seq<char>, n: int) -> Seq<VioModel> {
    (if yarn_install_invocation(s) && !yarn_lockfile_flag(s) {
        seq![(VioModel { line_num: n, message: msg_yarn_frozen(), line_content: trimmed(s) })]
    } else {
        Seq::<VioModel>::empty()
    }) + (if yarn_add_invocation(s) && !has_version_pin(s) {
        seq![(VioModel { line_num: n, message: msg_yarn_no_pin(), line_content: trimmed(s) })]
    } else {
        Seq::<VioModel>::empty()
    })
}

/// The line invokes `bun install`.
pub open spec fn bun_install_invocation(s: Seq<char>) -> bool {
    crate::text::has_cmd(s, "bun"@, "install"@, CmdEnd::WordBoundary)
}

/// The line invokes `bun add` with at least one following argument.
pub open spec fn bun_add_invocation(s: Seq<char>) -> bool {
    crate::text::has_cmd(s, "bun"@, "add"@, CmdEnd::OneSpace)
}

/// The violations the bun rule produces for one line.
pub open spec fn bun_violations(s: Seq<char>, n: int) -> Seq<VioModel> {
    (if bun_install_invocation(s) && !contains_word(s, "--frozen-lockfile"@) {
        seq![(VioModel { line_num: n, message: msg_bun_frozen(), line_content: trimmed(s) })]
    } else {
        Seq::<VioModel>::empty()
    }) + (if bun_add_invocation(s) && !has_version_pin(s) {
        seq![(VioModel { line_num: n, message: msg_bun_no_pin(), line_content: trimmed(s) })]
    } else {
        Seq::<VioModel>::empty()
    })
}

/// All four rules applied to one line, in the fixed order npm, pnpm, yarn,
/// bun.
pub open spec fn line_violations(s: Seq<char>, n: int) -> Seq<VioModel> {
    npm_violations(s, n) + pnpm_violations(s, n) + yarn_violations(s, n) + bun_violations(s, n)
}

/// Build one violation for the given line.
fn mk_violation(s: &Vec<char>, line_num: usize, msg: &str) -> (v: Violation)
    ensures
        v@ == (VioModel {
            line_num: line_num as int,
            message: msg@,
            line_content: trimmed(s@),
        }),
{
    let t = trim_chars(s);
    Violation { line_num, message: msg.to_owned(), line_content: chars_to_string(&t) }
}

/// Check one line against the npm rule.
pub fn check_npm(line: &str, line_num: usize) -> (r: Vec<Violation>)
    ensures
        vio_views(r@) == npm_violations(line@, line_num as int),
{
    let s = str_to_chars(line);
    proof {
        reveal_strlit("pnpm");
        reveal_strlit("yarn");
        reveal_strlit("bun");
        reveal_strlit("npm");
        reveal_strlit("ci");
        reveal_strlit("install");
        reveal_strlit("i");
    }
    let w_pnpm = str_to_chars("pnpm");
    let w_yarn = str_to_chars("yarn");
    let w_bun = str_to_chars("bun");
    let mut r: Vec<Violation> = Vec::new();
    if find_whole_word(&s, &w_pnpm) || find_whole_word(&s, &w_yarn) || find_whole_word(&s, &w_bun) {
        proof {
            assert(vio_views(r@) =~= npm_violations(line@, line_num as int));
        }
        return r;
    }
    let w_npm = str_to_chars("npm");
    let w_ci = str_to_chars("ci");
    if find_cmd(&s, &w_npm, &w_ci, CmdEnd::WordBoundary) {
        proof {
            assert(vio_views(r@) =~= npm_violations(line@, line_num as int));
        }
        return r;
    }
    let w_install = str_to_chars("install");
    let w_i = str_to_chars("i");
    if find_cmd(&s, &w_npm, &w_install, CmdEnd::SpaceOrEnd) || find_cmd(
        &s,
        &w_npm,
        &w_i,
        CmdEnd::SpaceOrEnd,
    ) {
        if find_version_pin(&s) {
            proof {
                assert(vio_views(r@) =~= npm_violations(line@, line_num as int));
            }
            return r;
        }
        if find_cmd(&s, &w_npm, &w_install, CmdEnd::ChainEnd) || find_cmd(
            &s,
            &w_npm,
            &w_i,
            CmdEnd::ChainEnd,
        ) {
            let v = mk_violation(
                &s,
                line_num,
                "Use 'npm ci' instead of 'npm install' for lockfile-based installations",
            );
            r.push(v);
        } else {
            let v = mk_violation(
                &s,
                line_num,
                "npm package installation without version pin (use 'npm i package@version')",
            );
            r.push(v);
        }
    }
    proof {
        assert(vio_views(r@) =~= npm_violations(line@, line_num as int));
    }
    r
}

/// Check one line against the pnpm rule.
pub fn check_pnpm(line: &str, line_num: usize) -> (r: Vec<Violation>)
    ensures
        vio_views(r@) == pnpm_violations(line@, line_num as int),
{
    let s = str_to_chars(line);
    proof {
        reveal_strlit("pnpm");
        reveal_strlit("install");
        reveal_strlit("add");
        reveal_strlit("--frozen-lockfile");
    }
    let w_pnpm = str_to_chars("pnpm");
    let w_install = str_to_chars("install");
    let w_add = str_to_chars("add");
    let w_frozen = str_to_chars("--frozen-lockfile");
    let mut r: Vec<Violation> = Vec::new();
    if find_cmd(&s, &w_pnpm, &w_install, CmdEnd::WordBoundary) && !find_word(&s, &w_frozen) {
        let v = mk_violation(&s, line_num, "Use 'pnpm install --frozen-lockfile' to respect lockfile");
        r.push(v);
    }
    if find_cmd(&s, &w_pnpm, &w_add, CmdEnd::OneSpace) && !find_version_pin(&s) {
        let v = mk_violation(
            &s,
            line_num,
            "pnpm package installation without version pin (use 'pnpm add package@version')",
        );
        r.push(v);
    }
    proof {
        assert(vio_views(r@) =~= pnpm_violations(line@, line_num as int));
    }
    r
}

/// Look for bare `yarn` or `yarn install` followed only by whitespace and a
/// command terminator.
fn find_yarn_install(s: &Vec<char>, w_yarn: &Vec<char>, w_install: &Vec<char>) -> (r: bool)
    requires
        w_yarn@ == "yarn"@,
        w_install@ == "install"@,
    ensures
        r == yarn_install_invocation(s@),
{
    proof {
        reveal_strlit("yarn");
        reveal_strlit("install");
    }
    let n = s.len();
    let mut i: usize = 0;
    while i < n
        invariant
            i <= n,
            n == s@.len(),
            w_yarn@ == "yarn"@,
            w_install@ == "install"@,
            forall|i2: int| 0 <= i2 < i ==> !yarn_install_at(s@, i2),
        decreases n - i,
    {
        proof {
            reveal_strlit("yarn");
            reveal_strlit("install");
        }
        let before_ok = i == 0 || !word_char(s[i - 1]);
        if before_ok && is_word_at(s, i, w_yarn) {
            if has_chain_end(s, i + 4) {
                proof {
                    assert(yarn_install_at(s@, i as int));
                }
                return true;
            }
            match word_after_spaces(s, i + 4, w_install) {
                Some(e) => {
                    if has_chain_end(s, e) {
                        proof {
                            assert(word_at(s@, e - "install"@.len(), "install"@));
                            assert(yarn_install_at(s@, i as int));
                        }
                        return true;
                    }
                    proof {
                        assert forall|j: int|
                            spaces_between(s@, i + "yarn"@.len(), j) && #[trigger] word_at(
                                s@,
                                j,
                                "install"@,
                            ) implies !chain_end_after(s@, j + "install"@.len()) by {
                            assert(j == e - "install"@.len());
                        }
                        assert(!yarn_install_at(s@, i as int));
                    }
                }
                None => {
                    proof {
                        assert(!yarn_install_at(s@, i as int));
                    }
                }
            }
        } else {
            proof {
                assert(!yarn_install_at(s@, i as int));
            }
        }
        i += 1;
    }
    proof {
        assert forall|i2: int| !yarn_install_at(s@, i2) by {
            if yarn_install_at(s@, i2) {
                assert(word_at(s@, i2, "yarn"@));
                assert(i2 + "yarn"@.len() <= s@.len() && "yarn"@.len() > 0);
            }
        }
    }
    false
}

/// Check one line against the yarn rule.
pub fn check_yarn(line: &str, line_num: usize) -> (r: Vec<Violation>)
    ensures
        vio_views(r@) == yarn_violations(line@, line_num as int),
{
    let s = str_to_chars(line);
    proof {
        reveal_strlit("yarn");
        reveal_strlit("install");
        reveal_strlit("global");
        reveal_strlit("add");
        reveal_strlit("--frozen-lockfile");
        reveal_strlit("--immutable");
    }
    let w_yarn = str_to_chars("yarn");
    let w_install = str_to_chars("install");
    let w_global = str_to_chars("global");
    let w_add = str_to_chars("add");
    let w_frozen = str_to_chars("--frozen-lockfile");
    let w_immutable = str_to_chars("--immutable");
    let mut r: Vec<Violation> = Vec::new();
    if find_yarn_install(&s, &w_yarn, &w_install) && !(find_word(&s, &w_frozen) || find_word(
        &s,
        &w_immutable,
    )) {
        let v = mk_violation(&s, line_num, "Use 'yarn install --frozen-lockfile' to respect lockfile");
        r.push(v);
    }
    if (find_cmd(&s, &w_yarn, &w_add, CmdEnd::OneSpace) || find_cmd3(
        &s,
        &w_yarn,
        &w_global,
        &w_add,
        CmdEnd::OneSpace,
    )) && !find_version_pin(&s) {
        let v = mk_violation(
            &s,
            line_num,
            "yarn package installation without version pin (use 'yarn add package@version')",
        );
        r.push(v);
    }
    proof {
        assert(vio_views(r@) =~= yarn_violations(line@, line_num as int));
    }
    r
}

/// Check one line against the bun rule.
pub fn check_bun(line: &str, line_num: usize) -> (r: Vec<Violation>)
    ensures
        vio_views(r@) == bun_violations(line@, line_num as int),
{
    let s = str_to_chars(line);
    proof {
        reveal_strlit("bun");
        reveal_strlit("install");
        reveal_strlit("add");
        reveal_strlit("--frozen-lockfile");
    }
    let w_bun = str_to_chars("bun");
    let w_install = str_to_chars("install");
    let w_add = str_to_chars("add");
    let w_frozen = str_to_chars("--frozen-lockfile");
    let mut r: Vec<Violation> = Vec::new();
    if find_cmd(&s, &w_bun, &w_install, CmdEnd::WordBoundary) && !find_word(&s, &w_frozen) {
        let v = mk_violation(&s, line_num, "Use 'bun install --frozen-lockfile' to respect lockfile");
        r.push(v);
    }
    if find_cmd(&s, &w_bun, &w_add, CmdEnd::OneSpace) && !find_version_pin(&s) {
        let v = mk_violation(
            &s,
            line_num,
            "bun package installation without version pin (use 'bun add package@version')",
        );
        r.push(v);
    }
    proof {
        assert(vio_views(r@) =~= bun_violations(line@, line_num as int));
    }
    r
}

} // verus!
