//! File selection predicates.
//!
//! The scanner's caller walks a source tree and consults these predicates:
//! `is_excluded` prunes dependency caches, version-control internals and the
//! linter's own script, and `should_check_file` selects the file kinds that
//! are scanned (Dockerfiles, Markdown, shell scripts, and YAML under a CI
//! workflow directory). Paths are handled as plain text, `/`-separated.

use vstd::prelude::*;

use crate::text::{contains_word, find_word, is_word_at, str_to_chars, word_at};

verus! {

/// `s` ends with `w`.
pub open spec fn ends_with(s: Seq<char>, w: Seq<char>) -> bool {
    s.len() >= w.len() && word_at(s, s.len() - w.len(), w)
}

/// Does `s` end with `w`?
fn check_ends_with(s: &Vec<char>, w: &Vec<char>) -> (r: bool)
    ensures
        r == ends_with(s@, w@),
{
    if s.len() >= w.len() {
        is_word_at(s, s.len() - w.len(), w)
    } else {
        false
    }
}

/// A path that the traversal must not descend into or report: dependency
/// caches, version-control internals, and the linter's own script.
pub open spec fn excluded_path(p: Seq<char>) -> bool {
    contains_word(p, "node_modules"@) || contains_word(p, ".git"@) || ends_with(
        p,
        "lint-package-install.sh"@,
    )
}

/// Is the path excluded from traversal?
pub fn is_excluded(path: &str) -> (r: bool)
    ensures
        r == excluded_path(path@),
{
    let p = str_to_chars(path);
    proof {
        reveal_strlit("node_modules");
        reveal_strlit(".git");
        reveal_strlit("lint-package-install.sh");
    }
    let w_modules = str_to_chars("node_modules");
    let w_git = str_to_chars(".git");
    let w_script = str_to_chars("lint-package-install.sh");
    find_word(&p, &w_modules) || find_word(&p, &w_git) || check_ends_with(&p, &w_script)
}

/// The part of a path after its last `/`, the whole path if it has none, and
/// empty for a path that ends with `/`.
pub open spec fn file_name_of(p: Seq<char>) -> Seq<char>
    decreases p.len(),
{
    if p.len() == 0 {
        p
    } else if p.last() == '/' {
        Seq::<char>::empty()
    } else {
        file_name_of(p.drop_last()).push(p.last())
    }
}

/// `file_name_of(p)` is the suffix of `p` that follows its last `/`.
proof fn lemma_file_name_at(p: Seq<char>, q: int)
    requires
        0 <= q <= p.len(),
        forall|k: int| q <= k < p.len() ==> p[k] != '/',
        q > 0 ==> p[q - 1] == '/',
    ensures
        file_name_of(p) == p.subrange(q, p.len() as int),
    decreases p.len() - q,
{
    if q == p.len() {
        if p.len() == 0 {
            assert(p.subrange(0, 0) =~= p);
        } else {
            assert(p.last() == '/');
            assert(file_name_of(p) =~= p.subrange(q, p.len() as int));
        }
    } else {
        assert(p.last() != '/');
        let p2 = p.drop_last();
        lemma_file_name_at(p2, q);
        assert(p2.subrange(q, p2.len() as int).push(p.last()) =~= p.subrange(q, p.len() as int));
    }
}

/// Case-insensitive comparison code of an ASCII character: upper-case
/// letters map onto lower-case ones, all else onto itself.
pub open spec fn lower_code(c: char) -> int {
    let u = c as u32;
    if 65 <= u && u <= 90 {
        u + 32
    } else {
        u as int
    }
}

/// `a` equals `b` up to ASCII case.
pub open spec fn eq_ignore_ascii(a: Seq<char>, b: Seq<char>) -> bool {
    a.len() == b.len() && (forall|i: int| 0 <= i < a.len() ==> lower_code(a[i]) == lower_code(b[i]))
}

/// The file name has an extension (the part after its final `.`, which must
/// not be its first character) equal to `ext` up to ASCII case.
pub open spec fn ext_matches(name: Seq<char>, ext: Seq<char>) -> bool {
    exists|d: int|
        0 < d < name.len() && #[trigger] name[d] == '.' && (forall|k: int|
            d < k < name.len() ==> name[k] != '.') && eq_ignore_ascii(
            name.subrange(d + 1, name.len() as int),
            ext,
        )
}

/// Compare `name` from `from` on against `ext`, up to ASCII case.
fn ext_eq_at(name: &Vec<char>, from: usize, ext: &Vec<char>) -> (r: bool)
    requires
        from <= name@.len(),
    ensures
        r == eq_ignore_ascii(name@.subrange(from as int, name@.len() as int), ext@),
{
    let n = name.len();
    if n - from != ext.len() {
        return false;
    }
    let mut k: usize = 0;
    while k < ext.len()
        invariant
            k <= ext@.len(),
            from + ext@.len() == n,
            n == name@.len(),
            forall|m: int| 0 <= m < k ==> lower_code(name@[from + m]) == lower_code(ext@[m]),
        decreases ext@.len() - k,
    {
        let a = name[from + k] as u32;
        let b = ext[k] as u32;
        let la = if 65 <= a && a <= 90 {
            a + 32
        } else {
            a
        };
        let lb = if 65 <= b && b <= 90 {
            b + 32
        } else {
            b
        };
        if la != lb {
            return false;
        }
        k += 1;
    }
    true
}

/// Does the file name carry the extension `ext`, compared without regard to
/// ASCII case?
fn check_ext(name: &Vec<char>, ext: &Vec<char>) -> (r: bool)
    ensures
        r == ext_matches(name@, ext@),
{
    let n = name.len();
    let mut d = n;
    while d > 0 && name[d - 1] != '.'
        invariant
            d <= n,
            n == name@.len(),
            forall|k: int| d <= k < n ==> name@[k] != '.',
        decreases d,
    {
        d -= 1;
    }
    if d > 1 {
        let r = ext_eq_at(name, d, ext);
        proof {
            assert(name@[d - 1] == '.');
            assert forall|d2: int|
                0 < d2 < name@.len() && #[trigger] name@[d2] == '.' && (forall|k: int|
                    d2 < k < name@.len() ==> name@[k] != '.') implies d2 == d - 1 by {
                if d2 < d - 1 {
                    assert(name@[d - 1] == '.');
                } else if d2 > d - 1 {
                    assert(name@[d2] != '.');
                }
            }
            if r {
                assert(ext_matches(name@, ext@));
            }
        }
        r
    } else {
        proof {
            assert forall|d2: int|
                !(0 < d2 < name@.len() && #[trigger] name@[d2] == '.' && (forall|k: int|
                    d2 < k < name@.len() ==> name@[k] != '.') && eq_ignore_ascii(
                    name@.subrange(d2 + 1, name@.len() as int),
                    ext@,
                )) by {
                if 0 < d2 < name@.len() && name@[d2] == '.' && (forall|k: int|
                    d2 < k < name@.len() ==> name@[k] != '.') {
                    if d == 0 {
                        assert(name@[d2] != '.');
                    } else {
                        assert(name@[d - 1] == '.');
                        if d2 < d - 1 {
                        } else if d2 > d - 1 {
                            assert(name@[d2] != '.');
                        } else {
                            assert(d2 == d - 1 && d <= 1);
                            assert(!(0 < d2));
                        }
                    }
                }
            }
        }
        false
    }
}

/// The file kinds the linter scans: Dockerfiles, Markdown, shell scripts,
/// and YAML files under a CI workflow directory.
pub open spec fn checkable_path(p: Seq<char>) -> bool {
    word_at(file_name_of(p), 0, "Dockerfile"@) || ends_with(file_name_of(p), ".dockerfile"@)
        || ext_matches(file_name_of(p), "md"@) || ext_matches(file_name_of(p), "sh"@) || ((
    ext_matches(file_name_of(p), "yml"@) || ext_matches(file_name_of(p), "yaml"@)) && contains_word(
        p,
        ".github/workflows"@,
    ))
}

/// Should the file at this path be scanned?
pub fn should_check_file(path: &str) -> (r: bool)
    ensures
        r == checkable_path(path@),
{
    let p = str_to_chars(path);
    let n = p.len();
    let mut q = n;
    while q > 0 && p[q - 1] != '/'
        invariant
            q <= n,
            n == p@.len(),
            forall|k: int| q <= k < n ==> p@[k] != '/',
        decreases q,
    {
        q -= 1;
    }
    proof {
        lemma_file_name_at(p@, q as int);
    }
    let mut name: Vec<char> = Vec::new();
    let mut k = q;
    while k < n
        invariant
            q <= k <= n,
            n == p@.len(),
            name@ =~= p@.subrange(q as int, k as int),
        decreases n - k,
    {
        name.push(p[k]);
        k += 1;
    }
    proof {
        assert(name@ =~= file_name_of(p@));
        reveal_strlit("Dockerfile");
        reveal_strlit(".dockerfile");
        reveal_strlit("md");
        reveal_strlit("sh");
        reveal_strlit("yml");
        reveal_strlit("yaml");
        reveal_strlit(".github/workflows");
    }
    let w_docker = str_to_chars("Dockerfile");
    let w_dockerext = str_to_chars(".dockerfile");
    let w_md = str_to_chars("md");
    let w_sh = str_to_chars("sh");
    let w_yml = str_to_chars("yml");
    let w_yaml = str_to_chars("yaml");
    let w_workflows = str_to_chars(".github/workflows");
    is_word_at(&name, 0, &w_docker) || check_ends_with(&name, &w_dockerext) || check_ext(
        &name,
        &w_md,
    ) || check_ext(&name, &w_sh) || ((check_ext(&name, &w_yml) || check_ext(&name, &w_yaml))
        && find_word(&p, &w_workflows))
}

} // verus!
