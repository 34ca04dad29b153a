//! Pattern classification and the exclusion decision.
//!
//! Raw ignore patterns are classified once into a decision table: for each
//! pattern, whether it is glob-based (`*` or `?` occurs) and whether it is
//! path-anchored (a separator occurs, or one ends it). An entry is excluded
//! iff the hidden-file rule triggers or some classified pattern matches it
//! under its own rule.

use vstd::prelude::*;
use crate::text::{str_contains_char, str_eq, str_is_prefix};

verus! {

/// Whether a raw pattern is glob-based: it holds a `*` or `?` metacharacter.
pub open spec fn spec_is_glob(p: Seq<char>) -> bool {
    p.contains('*') || p.contains('?')
}

/// Whether a raw pattern is path-anchored: it holds a separator or ends with one.
pub open spec fn spec_is_path(p: Seq<char>) -> bool {
    p.contains('/') || (p.len() > 0 && p.last() == '/')
}

/// One leading separator is stripped before matching, so `/build` and
/// `build` anchor alike.
pub open spec fn spec_normalize(p: Seq<char>) -> Seq<char> {
    if p.len() > 0 && p[0] == '/' {
        p.subrange(1, p.len() as int)
    } else {
        p
    }
}

/// The pattern with every trailing separator removed, so a directory
/// pattern like `build/` prefixes everything under `build`.
pub open spec fn spec_trim_end_slashes(p: Seq<char>) -> Seq<char>
    decreases p.len(),
{
    if p.len() > 0 && p.last() == '/' {
        spec_trim_end_slashes(p.drop_last())
    } else {
        p
    }
}

/// Whether a glob pattern string compiles. Named, not stated: the outside
/// matcher's grammar is its own; compilation depends on the pattern alone.
pub uninterp spec fn glob_compiles(p: Seq<char>) -> bool;

/// Whether a compiled glob pattern matches a candidate string. Named, not
/// stated: the outcome depends on the pattern and the candidate alone.
pub uninterp spec fn glob_matches(p: Seq<char>, text: Seq<char>) -> bool;

/// Relies on `glob::Pattern::new` and `glob::Pattern::matches`: `new` is a
/// pure function of the pattern string and reports failure through its
/// `Result`; `matches` on the compiled pattern is a pure function of the
/// pattern and candidate strings. The compiled pattern exists only inside
/// this call, so both are taken together here.
#[verifier::external_body]
fn glob_match(pattern: &str, text: &str) -> (r: Option<bool>)
    ensures
        glob_compiles(pattern@) ==> r == Some(glob_matches(pattern@, text@)),
        !glob_compiles(pattern@) ==> r is None,
{
    match glob::Pattern::new(pattern) {
        Ok(p) => Some(p.matches(text)),
        Err(_) => None,
    }
}

/// The match decision of one classified pattern against one traversal entry,
/// given by its path relative to the root and its bare filename.
///
/// Anchored patterns are tested against the relative path: globs by the glob
/// matcher (an uncompilable glob fails open to "no match"), literals by
/// equality or by prefix after trimming trailing separators. Unanchored
/// patterns are tested against the bare filename: globs by the glob matcher,
/// literals by equality.
pub open spec fn spec_pattern_matches(
    p: Seq<char>,
    is_glob: bool,
    is_path: bool,
    rel: Seq<char>,
    name: Seq<char>,
) -> bool {
    let np = spec_normalize(p);
    if is_path {
        if is_glob {
            glob_compiles(np) && glob_matches(np, rel)
        } else {
            rel == np || spec_trim_end_slashes(np).is_prefix_of(rel)
        }
    } else {
        if is_glob {
            glob_compiles(np) && glob_matches(np, name)
        } else {
            name == np
        }
    }
}

/// The hidden-file rule: when enabled, any name that starts with a dot is out.
pub open spec fn spec_hidden(name: Seq<char>, ignore_hidden: bool) -> bool {
    ignore_hidden && name.len() > 0 && name[0] == '.'
}

/// The exclusion predicate over a whole decision table: the hidden-file rule,
/// or any one pattern matching under its own rule.
pub open spec fn spec_excluded(
    table: Seq<(String, bool, bool)>,
    rel: Seq<char>,
    name: Seq<char>,
    ignore_hidden: bool,
) -> bool {
    spec_hidden(name, ignore_hidden) || exists|i: int|
        0 <= i < table.len() && spec_pattern_matches(
            #[trigger] table[i].0@,
            table[i].1,
            table[i].2,
            rel,
            name,
        )
}

/// Classifies raw patterns into the decision table, keeping their order:
/// each pattern is paired with its glob flag and its path-anchored flag.
pub fn classify_patterns(patterns: Vec<String>) -> (r: Vec<(String, bool, bool)>)
    ensures
        r@.len() == patterns@.len(),
        forall|i: int| 0 <= i < r@.len() ==> {
            &&& (#[trigger] r@[i]).0 == patterns@[i]
            &&& r@[i].1 == spec_is_glob(patterns@[i]@)
            &&& r@[i].2 == spec_is_path(patterns@[i]@)
        },
{
    let mut r: Vec<(String, bool, bool)> = Vec::new();
    let mut i: usize = 0;
    while i < patterns.len()
        invariant
            i <= patterns@.len(),
            r@.len() == i,
            forall|j: int| 0 <= j < i ==> {
                &&& (#[trigger] r@[j]).0 == patterns@[j]
                &&& r@[j].1 == spec_is_glob(patterns@[j]@)
                &&& r@[j].2 == spec_is_path(patterns@[j]@)
            },
        decreases patterns@.len() - i,
    {
        let p = &patterns[i];
        let is_glob = str_contains_char(p.as_str(), '*') || str_contains_char(p.as_str(), '?');
        let n = p.as_str().unicode_len();
        let ends_slash = if n > 0 {
            p.as_str().get_char(n - 1) == '/'
        } else {
            false
        };
        let is_path = str_contains_char(p.as_str(), '/') || ends_slash;
        r.push((p.clone(), is_glob, is_path));
        i += 1;
    }
    r
}

/// Strips every trailing separator from a string slice.
pub fn trim_end_slashes<'a>(s: &'a str) -> (r: &'a str)
    ensures
        r@ == spec_trim_end_slashes(s@),
{
    let n = s.unicode_len();
    let mut k: usize = n;
    let mut done = false;
    proof {
        assert(s@.subrange(0, n as int) =~= s@);
    }
    while !done && k > 0
        invariant
            n == s@.len(),
            k <= n,
            spec_trim_end_slashes(s@) == spec_trim_end_slashes(s@.subrange(0, k as int)),
            done ==> spec_trim_end_slashes(s@.subrange(0, k as int)) == s@.subrange(0, k as int),
        decreases (if done { 0int } else { 1int }) + k as int,
    {
        if s.get_char(k - 1) == '/' {
            proof {
                let cur = s@.subrange(0, k as int);
                assert(cur.last() == s@[k as int - 1]);
                assert(cur.drop_last() =~= s@.subrange(0, k as int - 1));
            }
            k -= 1;
        } else {
            proof {
                assert(s@.subrange(0, k as int).last() == s@[k as int - 1]);
            }
            done = true;
        }
    }
    proof {
        if !done {
            assert(s@.subrange(0, 0) =~= Seq::<char>::empty());
        }
    }
    s.substring_char(0, k)
}

/// The match decision of one classified pattern, executable form: strips one
/// leading separator, then dispatches on the two classification flags, calling
/// the glob matcher where the pattern is glob-based.
pub fn pattern_matches(
    pattern: &String,
    is_glob: bool,
    is_path: bool,
    relative_path: &str,
    filename: &str,
) -> (r: bool)
    ensures
        r == spec_pattern_matches(pattern@, is_glob, is_path, relative_path@, filename@),
{
    let n = pattern.as_str().unicode_len();
    let normalized: &str = if n > 0 && pattern.as_str().get_char(0) == '/' {
        pattern.as_str().substring_char(1, n)
    } else {
        pattern.as_str()
    };
    proof {
        assert(normalized@ == spec_normalize(pattern@));
    }
    if is_path {
        if is_glob {
            match glob_match(normalized, relative_path) {
                Some(m) => m,
                None => false,
            }
        } else {
            if str_eq(relative_path, normalized) {
                true
            } else {
                let trimmed = trim_end_slashes(normalized);
                str_is_prefix(trimmed, relative_path)
            }
        }
    } else {
        if is_glob {
            match glob_match(normalized, filename) {
                Some(m) => m,
                None => false,
            }
        } else {
            str_eq(filename, normalized)
        }
    }
}

/// The exclusion decision for one traversal entry: the hidden-file rule
/// first, then any match across the decision table, short-circuiting.
pub fn should_exclude(
    relative_path: &str,
    filename: &str,
    classified_patterns: &Vec<(String, bool, bool)>,
    ignore_hidden: bool,
) -> (r: bool)
    ensures
        r == spec_excluded(classified_patterns@, relative_path@, filename@, ignore_hidden),
{
    if ignore_hidden && !filename.is_empty() && filename.get_char(0) == '.' {
        return true;
    }
    let mut i: usize = 0;
    while i < classified_patterns.len()
        invariant
            i <= classified_patterns@.len(),
            !spec_hidden(filename@, ignore_hidden),
            forall|j: int| 0 <= j < i ==> !spec_pattern_matches(
                #[trigger] classified_patterns@[j].0@,
                classified_patterns@[j].1,
                classified_patterns@[j].2,
                relative_path@,
                filename@,
            ),
        decreases classified_patterns@.len() - i,
    {
        let entry = &classified_patterns[i];
        if pattern_matches(&entry.0, entry.1, entry.2, relative_path, filename) {
            proof {
                assert(spec_pattern_matches(
                    classified_patterns@[i as int].0@,
                    classified_patterns@[i as int].1,
                    classified_patterns@[i as int].2,
                    relative_path@,
                    filename@,
                ));
            }
            return true;
        }
        i += 1;
    }
    false
}

/// Whether a character has the Unicode `White_Space` property — the set the
/// reader's trim removes when deciding that a line is blank.
pub open spec fn spec_is_space(c: char) -> bool {
    ||| c == ' '
    ||| c == '\t'
    ||| c == '\n'
    ||| c == '\r'
    ||| c == '\u{b}'
    ||| c == '\u{c}'
    ||| c == '\u{85}'
    ||| c == '\u{a0}'
    ||| c == '\u{1680}'
    ||| c == '\u{2000}'
    ||| c == '\u{2001}'
    ||| c == '\u{2002}'
    ||| c == '\u{2003}'
    ||| c == '\u{2004}'
    ||| c == '\u{2005}'
    ||| c == '\u{2006}'
    ||| c == '\u{2007}'
    ||| c == '\u{2008}'
    ||| c == '\u{2009}'
    ||| c == '\u{200a}'
    ||| c == '\u{2028}'
    ||| c == '\u{2029}'
    ||| c == '\u{202f}'
    ||| c == '\u{205f}'
    ||| c == '\u{3000}'
}

/// Whether a character has the Unicode `White_Space` property, executable form.
pub fn is_space_char(c: char) -> (r: bool)
    ensures
        r == spec_is_space(c),
{
    c == ' ' || c == '\t' || c == '\n' || c == '\r' || c == '\u{b}' || c == '\u{c}'
        || c == '\u{85}' || c == '\u{a0}' || c == '\u{1680}' || c == '\u{2000}' || c == '\u{2001}'
        || c == '\u{2002}' || c == '\u{2003}' || c == '\u{2004}' || c == '\u{2005}'
        || c == '\u{2006}' || c == '\u{2007}' || c == '\u{2008}' || c == '\u{2009}'
        || c == '\u{200a}' || c == '\u{2028}' || c == '\u{2029}' || c == '\u{202f}'
        || c == '\u{205f}' || c == '\u{3000}'
}

/// A line that trims to nothing.
pub open spec fn spec_blank(s: Seq<char>) -> bool {
    forall|i: int| 0 <= i < s.len() ==> spec_is_space(#[trigger] s[i])
}

/// The ignore-file reader keeps a line unless it is blank or opens a comment.
pub open spec fn spec_keeps_line(s: Seq<char>) -> bool {
    !spec_blank(s) && !(s.len() > 0 && s[0] == '#')
}

/// The kept lines of an ignore file, in their order of appearance.
pub open spec fn spec_filter_lines(lines: Seq<String>) -> Seq<String>
    decreases lines.len(),
{
    if lines.len() == 0 {
        Seq::empty()
    } else {
        (if spec_keeps_line(lines[0]@) {
            seq![lines[0]]
        } else {
            Seq::empty()
        }) + spec_filter_lines(lines.drop_first())
    }
}

/// Whether a line holds nothing but whitespace.
pub fn line_is_blank(s: &str) -> (r: bool)
    ensures
        r == spec_blank(s@),
{
    let n = s.unicode_len();
    let mut i: usize = 0;
    while i < n
        invariant
            n == s@.len(),
            i <= n,
            forall|j: int| 0 <= j < i ==> spec_is_space(#[trigger] s@[j]),
        decreases n - i,
    {
        let c = s.get_char(i);
        if !is_space_char(c) {
            return false;
        }
        i += 1;
    }
    true
}

/// Drops blank lines and comment lines from the raw lines of an ignore file,
/// keeping the remaining patterns in order.
pub fn filter_ignore_lines(lines: Vec<String>) -> (r: Vec<String>)
    ensures
        r@ == spec_filter_lines(lines@),
{
    let ghost full = spec_filter_lines(lines@);
    let mut r: Vec<String> = Vec::new();
    let mut i: usize = 0;
    proof {
        assert(lines@.subrange(0, lines@.len() as int) =~= lines@);
        assert(r@ + spec_filter_lines(lines@) =~= spec_filter_lines(lines@));
    }
    while i < lines.len()
        invariant
            i <= lines@.len(),
            full == spec_filter_lines(lines@),
            r@ + spec_filter_lines(lines@.subrange(i as int, lines@.len() as int)) == full,
        decreases lines@.len() - i,
    {
        proof {
            let rem = lines@.subrange(i as int, lines@.len() as int);
            assert(rem[0] == lines@[i as int]);
            assert(rem.drop_first() =~= lines@.subrange(i as int + 1, lines@.len() as int));
        }
        let line = &lines[i];
        let blank = line_is_blank(line.as_str());
        let comment = !line.as_str().is_empty() && line.as_str().get_char(0) == '#';
        let ghost prev = r@;
        if !blank && !comment {
            r.push(line.clone());
            proof {
                let rest = spec_filter_lines(lines@.subrange(i as int + 1, lines@.len() as int));
                assert(r@ + rest =~= prev + (seq![lines@[i as int]] + rest));
            }
        } else {
            proof {
                let rest = spec_filter_lines(lines@.subrange(i as int + 1, lines@.len() as int));
                assert(r@ + rest =~= prev + (Seq::<String>::empty() + rest));
            }
        }
        i += 1;
    }
    proof {
        assert(lines@.subrange(lines@.len() as int, lines@.len() as int) =~= Seq::<String>::empty());
        assert(r@ + Seq::<String>::empty() =~= r@);
    }
    r
}

/// A pattern without glob metacharacters and without separators matches an
/// entry exactly when the entry's bare filename equals the pattern.
pub proof fn lemma_filename_literal_matches(p: Seq<char>, rel: Seq<char>, name: Seq<char>)
    requires
        !p.contains('*'),
        !p.contains('?'),
        !p.contains('/'),
    ensures
        !spec_is_glob(p),
        !spec_is_path(p),
        spec_pattern_matches(p, spec_is_glob(p), spec_is_path(p), rel, name) <==> name == p,
{
    if p.len() > 0 && p[0] == '/' {
        assert(p.contains('/'));
    }
    if p.len() > 0 && p.last() == '/' {
        assert(p[p.len() - 1] == '/');
        assert(p.contains('/'));
    }
}

/// An anchored literal pattern excludes every entry whose relative path
/// starts with the pattern trimmed of trailing separators.
pub proof fn lemma_anchored_literal_prefix(p: Seq<char>, rel: Seq<char>, name: Seq<char>)
    requires
        spec_trim_end_slashes(spec_normalize(p)).is_prefix_of(rel),
    ensures
        spec_pattern_matches(p, false, true, rel, name),
{
}

/// An anchored literal pattern anywhere in the table excludes every entry
/// whose relative path starts with the pattern trimmed of its leading and
/// trailing separators — so `build/` excludes `build/obj/a.o`.
pub proof fn lemma_anchored_literal_excludes(
    table: Seq<(String, bool, bool)>,
    i: int,
    rel: Seq<char>,
    name: Seq<char>,
    ignore_hidden: bool,
)
    requires
        0 <= i < table.len(),
        !table[i].1,
        table[i].2,
        spec_trim_end_slashes(spec_normalize(table[i].0@)).is_prefix_of(rel),
    ensures
        spec_excluded(table, rel, name, ignore_hidden),
{
    lemma_anchored_literal_prefix(table[i].0@, rel, name);
    lemma_any_match_excludes(table, i, rel, name, ignore_hidden);
}

/// One matching pattern anywhere in the table excludes the entry, whatever
/// the other patterns say: the table is an any-match-excludes disjunction.
pub proof fn lemma_any_match_excludes(
    table: Seq<(String, bool, bool)>,
    i: int,
    rel: Seq<char>,
    name: Seq<char>,
    ignore_hidden: bool,
)
    requires
        0 <= i < table.len(),
        spec_pattern_matches(table[i].0@, table[i].1, table[i].2, rel, name),
    ensures
        spec_excluded(table, rel, name, ignore_hidden),
{
}

/// The hidden-file rule takes precedence: with it enabled, a dotted name is
/// excluded whatever the decision table holds, even an empty one.
pub proof fn lemma_hidden_precedence(table: Seq<(String, bool, bool)>, rel: Seq<char>, name: Seq<char>)
    requires
        name.len() > 0,
        name[0] == '.',
    ensures
        spec_excluded(table, rel, name, true),
{
}

} // verus!
