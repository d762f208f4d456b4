//! Repository-side types: change tracking, file categorization and
//! configuration. Reading the repository itself is the version-control
//! collaborator's work; the logic on what it yields lives here.

pub mod change;
pub mod config;

use crate::repo::config::RepoConfig;
use vstd::prelude::*;

verus! {

/// Type of file in the repository.
#[derive(Debug, Clone, Copy, PartialEq, Eq, Hash, Structural)]
pub enum FileType {
    Code,
    Documentation,
    Config,
    Other,
}

/// Glob matching for a pattern holding at least one star.
///
/// A pattern with `**` matches when the part before it starts the path and
/// the part after it, itself a one-star pattern, matches some suffix of the
/// path. A pattern with single stars matches when the path carries its two
/// parts at its ends.
pub open spec fn glob_star_of(pattern: Seq<char>, path: Seq<char>) -> bool {
    if crate::text::contains_seq(pattern, "**"@) {
        let f = crate::text::find_sub(pattern, "**"@);
        let rest = pattern.subrange(f + "**"@.len(), pattern.len() as int);
        // One `**` only.
        if !crate::text::contains_seq(rest, "**"@) {
            let prefix = crate::text::strip_trailing(pattern.subrange(0, f), '/');
            let suffix = crate::text::strip_leading(rest, '/');
            &&& (prefix.len() == 0 || crate::text::starts_with_seq(path, prefix))
            &&& (suffix.len() == 0 || exists|i: int|
                0 <= i <= path.len() && simple_star_match(suffix, #[trigger] path.subrange(
                    i,
                    path.len() as int,
                )))
        } else {
            false
        }
    } else {
        simple_star_match(pattern, path)
    }
}

/// Glob matching as the repository side uses it: starred patterns match by
/// their pieces; a wildcard-free pattern matches the whole path only.
pub open spec fn glob_match_of(pattern: Seq<char>, path: Seq<char>) -> bool {
    if crate::text::contains_seq(pattern, "*"@) {
        glob_star_of(pattern, path)
    } else {
        path == pattern
    }
}

/// Glob matching as the configuration patterns use it: like the repository
/// side, except that a wildcard-free pattern also matches as a final path
/// component.
pub open spec fn glob_match_simple_of(pattern: Seq<char>, path: Seq<char>) -> bool {
    if crate::text::contains_seq(pattern, "*"@) {
        glob_star_of(pattern, path)
    } else {
        path == pattern || crate::text::ends_with_seq(path, "/"@ + pattern)
    }
}

/// A one-star pattern matches: the path starts with the part before the
/// star and ends with the part after it. A starless pattern matches itself.
pub open spec fn simple_star_match(pattern: Seq<char>, path: Seq<char>) -> bool {
    let pieces = crate::text::split_char_of(pattern, '*');
    if pieces.len() == 2 {
        crate::text::starts_with_seq(path, pieces[0]) && crate::text::ends_with_seq(
            path,
            pieces[1],
        )
    } else {
        path == pattern
    }
}

/// Match a path against a glob pattern: starred patterns by their pieces, a
/// wildcard-free pattern by exact equality only.
pub fn glob_match(pattern: &str, path: &str) -> (r: bool)
    ensures
        r == glob_match_of(pattern@, path@),
{
    if crate::text::contains_str(pattern, "*") {
        glob_star_exec(pattern, path)
    } else {
        crate::text::str_eq(path, pattern)
    }
}

/// Match a path against a glob pattern: starred patterns by their pieces, a
/// wildcard-free pattern as a whole path or as a final component.
pub fn glob_match_simple(pattern: &str, path: &str) -> (r: bool)
    ensures
        r == glob_match_simple_of(pattern@, path@),
{
    if crate::text::contains_str(pattern, "*") {
        return glob_star_exec(pattern, path);
    }
    if crate::text::str_eq(path, pattern) {
        return true;
    }
    let mut whole = String::new();
    whole.append("/");
    whole.append(pattern);
    crate::text::ends_with_str(path, whole.as_str())
}

/// Match a path against a pattern holding at least one star.
fn glob_star_exec(pattern: &str, path: &str) -> (r: bool)
    ensures
        r == glob_star_of(pattern@, path@),
{
    if crate::text::contains_str(pattern, "**") {
        let pn = pattern.unicode_len();
        let f = crate::text::find_sub_str(pattern, "**");
        proof {
            reveal_strlit("**");
            crate::text::lemma_find_sub_bounds(pattern@, "**"@);
        }
        let before = pattern.substring_char(0, f);
        let rest = pattern.substring_char(f + 2, pn);
        if !crate::text::contains_str(rest, "**") {
            let prefix = crate::text::strip_trailing_str(before, '/');
            let suffix = strip_leading_str(rest, '/');
            let pre_ok = prefix.unicode_len() == 0 || crate::text::starts_with_str(
                path,
                prefix.as_str(),
            );
            if !pre_ok {
                return false;
            }
            if suffix.unicode_len() == 0 {
                return true;
            }
            // The part after `**` may match any suffix of the path.
            let n = path.unicode_len();
            let mut i: usize = 0;
            loop
                invariant
                    0 <= i <= n,
                    n == path@.len(),
                    crate::text::contains_seq(pattern@, "**"@),
                    !crate::text::contains_seq(
                        pattern@.subrange(
                            crate::text::find_sub(pattern@, "**"@) + "**"@.len(),
                            pattern@.len() as int,
                        ),
                        "**"@,
                    ),
                    prefix@ == crate::text::strip_trailing(
                        pattern@.subrange(0, crate::text::find_sub(pattern@, "**"@)),
                        '/',
                    ),
                    suffix@ == crate::text::strip_leading(
                        pattern@.subrange(
                            crate::text::find_sub(pattern@, "**"@) + "**"@.len(),
                            pattern@.len() as int,
                        ),
                        '/',
                    ),
                    prefix@.len() == 0 || crate::text::starts_with_seq(path@, prefix@),
                    suffix@.len() > 0,
                    forall|t: int|
                        0 <= t < i ==> !simple_star_match(
                            suffix@,
                            #[trigger] path@.subrange(t, path@.len() as int),
                        ),
                decreases n - i,
            {
                let tail = path.substring_char(i, n);
                if simple_star_match_exec(suffix.as_str(), tail) {
                    proof {
                        assert(tail@ == path@.subrange(i as int, path@.len() as int));
                        assert(exists|t: int|
                            0 <= t <= path@.len() && simple_star_match(
                                suffix@,
                                #[trigger] path@.subrange(t, path@.len() as int),
                            ));
                    }
                    return true;
                }
                proof {
                    assert(!simple_star_match(
                        suffix@,
                        path@.subrange(i as int, path@.len() as int),
                    ));
                }
                if i == n {
                    proof {
                        assert(forall|t: int|
                            0 <= t <= path@.len() ==> !simple_star_match(
                                suffix@,
                                #[trigger] path@.subrange(t, path@.len() as int),
                            ));
                    }
                    return false;
                }
                i = i + 1;
            }
        }
        return false;
    }
    simple_star_match_exec(pattern, path)
}

/// Match a path against a pattern with at most one star.
fn simple_star_match_exec(pattern: &str, path: &str) -> (r: bool)
    ensures
        r == simple_star_match(pattern@, path@),
{
    let pieces = crate::text::split_on_char(pattern, '*');
    if pieces.len() == 2 {
        crate::text::starts_with_str(path, pieces[0].as_str()) && crate::text::ends_with_str(
            path,
            pieces[1].as_str(),
        )
    } else {
        crate::text::str_eq(path, pattern)
    }
}

/// Remove every leading occurrence of `c` from a text.
fn strip_leading_str(s: &str, c: char) -> (r: String)
    ensures
        r@ == crate::text::strip_leading(s@, c),
{
    crate::text::strip_leading_exec(s, c)
}

/// Whether some pattern of the list matches the path as a whole.
pub open spec fn matches_any_exact(patterns: Seq<Seq<char>>, path: Seq<char>) -> bool {
    exists|i: int| 0 <= i < patterns.len() && glob_match_of(#[trigger] patterns[i], path)
}

/// The category a path falls under: the configured documentation patterns
/// first, then the extension, last the well-known documentation file names;
/// letter case of the extension and the file name is ignored.
pub open spec fn categorize_of(doc_patterns: Seq<Seq<char>>, path: Seq<char>) -> FileType {
    if matches_any_exact(doc_patterns, path) {
        FileType::Documentation
    } else {
        let ext = crate::text::ascii_lower(crate::extract::code::path_extension(path));
        if ext == "md"@ || ext == "mdx"@ || ext == "rst"@ || ext == "txt"@ || ext == "adoc"@ {
            FileType::Documentation
        } else if ext == "rs"@ || ext == "py"@ || ext == "js"@ || ext == "ts"@ || ext == "go"@
            || ext == "java"@ || ext == "c"@ || ext == "cpp"@ || ext == "h"@ || ext == "hpp"@ {
            FileType::Code
        } else if ext == "toml"@ || ext == "yaml"@ || ext == "yml"@ || ext == "json"@ {
            FileType::Config
        } else {
            let fname = crate::text::ascii_lower(
                path.subrange(crate::drift::rules::rfind_end_of(path, '/'), path.len() as int),
            );
            if fname == "readme"@ || fname == "changelog"@ || fname == "contributing"@ || fname
                == "license"@ {
                FileType::Documentation
            } else {
                FileType::Other
            }
        }
    }
}

/// Categorize a file from its path alone.
pub fn categorize_file(path: &str, config: &RepoConfig) -> (r: FileType)
    ensures
        r == categorize_of(config.doc_patterns.deep_view(), path@),
{
    let mut p: usize = 0;
    while p < config.doc_patterns.len()
        invariant
            0 <= p <= config.doc_patterns@.len(),
            forall|t: int|
                0 <= t < p ==> !glob_match_of(
                    #[trigger] config.doc_patterns.deep_view()[t],
                    path@,
                ),
        decreases config.doc_patterns@.len() - p,
    {
        if glob_match(config.doc_patterns[p].as_str(), path) {
            proof {
                assert(config.doc_patterns.deep_view()[p as int] == config.doc_patterns@[p as int]@);
            }
            return FileType::Documentation;
        }
        proof {
            assert(config.doc_patterns.deep_view()[p as int] == config.doc_patterns@[p as int]@);
        }
        p = p + 1;
    }
    proof {
        assert(!matches_any_exact(config.doc_patterns.deep_view(), path@));
    }
    let n = path.unicode_len();
    let e = crate::text::rfind_char_end(path, '.');
    proof {
        crate::drift::rules::lemma_rfind_end_unique(path@, '.', e as int);
    }
    let ext = if e > 0 {
        path.substring_char(e, n)
    } else {
        ""
    };
    proof {
        reveal_strlit("");
        assert(ext@ == crate::extract::code::path_extension(path@));
    }
    if crate::text::eq_ignore_ascii_case_str(ext, "md") || crate::text::eq_ignore_ascii_case_str(
        ext,
        "mdx",
    ) || crate::text::eq_ignore_ascii_case_str(ext, "rst")
        || crate::text::eq_ignore_ascii_case_str(ext, "txt")
        || crate::text::eq_ignore_ascii_case_str(ext, "adoc") {
        return FileType::Documentation;
    }
    if crate::text::eq_ignore_ascii_case_str(ext, "rs") || crate::text::eq_ignore_ascii_case_str(
        ext,
        "py",
    ) || crate::text::eq_ignore_ascii_case_str(ext, "js") || crate::text::eq_ignore_ascii_case_str(
        ext,
        "ts",
    ) || crate::text::eq_ignore_ascii_case_str(ext, "go") || crate::text::eq_ignore_ascii_case_str(
        ext,
        "java",
    ) || crate::text::eq_ignore_ascii_case_str(ext, "c") || crate::text::eq_ignore_ascii_case_str(
        ext,
        "cpp",
    ) || crate::text::eq_ignore_ascii_case_str(ext, "h") || crate::text::eq_ignore_ascii_case_str(
        ext,
        "hpp",
    ) {
        return FileType::Code;
    }
    if crate::text::eq_ignore_ascii_case_str(ext, "toml") || crate::text::eq_ignore_ascii_case_str(
        ext,
        "yaml",
    ) || crate::text::eq_ignore_ascii_case_str(ext, "yml")
        || crate::text::eq_ignore_ascii_case_str(ext, "json") {
        return FileType::Config;
    }
    let fe = crate::text::rfind_char_end(path, '/');
    proof {
        crate::drift::rules::lemma_rfind_end_unique(path@, '/', fe as int);
    }
    let filename = path.substring_char(fe, n);
    if crate::text::eq_ignore_ascii_case_str(filename, "readme")
        || crate::text::eq_ignore_ascii_case_str(filename, "changelog")
        || crate::text::eq_ignore_ascii_case_str(filename, "contributing")
        || crate::text::eq_ignore_ascii_case_str(filename, "license") {
        return FileType::Documentation;
    }
    FileType::Other
}

} // verus!
