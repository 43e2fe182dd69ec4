//! Filename filtering: an optional glob pattern, compiled once, and the
//! case-insensitive `.json` extension test that file discovery applies.
//!
//! Glob compilation and matching are the work of the `glob` crate; both
//! stand behind trusted wrappers whose results are named, so that every
//! contract above them can say exactly which pattern text decided.

use vstd::prelude::*;
use vstd::string::*;

use crate::error::JConvertError;

verus! {

#[verifier::external_type_specification]
#[verifier::external_body]
pub struct ExGlobPattern(glob::Pattern);

/// The pattern text a compiled glob holds: what it was compiled from.
pub uninterp spec fn glob_source(p: glob::Pattern) -> Seq<char>;

/// Whether glob compilation accepts a pattern text.
pub uninterp spec fn glob_compiles(pattern: Seq<char>) -> bool;

/// Whether the pattern compiled from `pattern` matches `name`.
pub uninterp spec fn glob_match(pattern: Seq<char>, name: Seq<char>) -> bool;

/// Relies on glob::Pattern::new: whether a pattern text compiles depends
/// on the text alone, and the compiled value keeps that text.
#[verifier::external_body]
fn compile_glob(pattern: &str) -> (r: Option<glob::Pattern>)
    ensures
        r is Some <==> glob_compiles(pattern@),
        r matches Some(p) ==> glob_source(p) == pattern@,
{
    glob::Pattern::new(pattern).ok()
}

/// Relies on glob::Pattern::matches: the answer depends on the compiled
/// pattern's source text and the name alone.
#[verifier::external_body]
fn glob_matches(p: &glob::Pattern, name: &str) -> (r: bool)
    ensures
        r == glob_match(glob_source(*p), name@),
{
    p.matches(name)
}

/// A filename filter, compiled once and read-only afterwards. Without a
/// pattern it lets every name pass.
pub struct PatternMatcher {
    pattern: Option<glob::Pattern>,
}

impl PatternMatcher {
    /// The pattern text this matcher filters by, if any.
    pub closed spec fn source(self) -> Option<Seq<char>> {
        match self.pattern {
            Some(p) => Some(glob_source(p)),
            None => None,
        }
    }

    /// What this matcher answers for a name: without a pattern, always
    /// yes.
    pub open spec fn spec_matches(self, name: Seq<char>) -> bool {
        match self.source() {
            Some(text) => glob_match(text, name),
            None => true,
        }
    }

    /// Compile an optional pattern. A pattern that does not compile is a
    /// configuration error carrying the offending text; it aborts the run
    /// before any file is read.
    pub fn new(pattern: Option<String>) -> (r: Result<Self, JConvertError>)
        ensures
            match pattern {
                None => r matches Ok(m) && m.source() is None,
                Some(text) => match r {
                    Ok(m) => glob_compiles(text@) && m.source() == Some(text@),
                    Err(e) => !glob_compiles(text@) && (e matches JConvertError::InvalidPattern {
                        pattern: p,
                    } && p@ == text@),
                },
            },
    {
        match pattern {
            Some(text) => match compile_glob(text.as_str()) {
                Some(p) => Ok(Self { pattern: Some(p) }),
                None => Err(JConvertError::InvalidPattern { pattern: text }),
            },
            None => Ok(Self { pattern: None }),
        }
    }

    /// Whether a file name passes the filter.
    pub fn matches(&self, file_name: &str) -> (r: bool)
        ensures
            r == self.spec_matches(file_name@),
    {
        match &self.pattern {
            Some(p) => glob_matches(p, file_name),
            None => true,
        }
    }

    /// Whether a pattern is set.
    pub fn has_pattern(&self) -> (r: bool)
        ensures
            r == (self.source() is Some),
    {
        match &self.pattern {
            Some(_) => true,
            None => false,
        }
    }
}

/// The position of the last dot of a name, or `-1` when it has none.
pub open spec fn last_dot(name: Seq<char>) -> int
    decreases name.len(),
{
    if name.len() == 0 {
        -1
    } else if name.last() == '.' {
        name.len() - 1
    } else {
        last_dot(name.drop_last())
    }
}

/// Whether a suffix reads `json`, ASCII case-insensitively.
pub open spec fn suffix_is_json(s: Seq<char>) -> bool {
    &&& s.len() == 4
    &&& (s[0] == 'j' || s[0] == 'J')
    &&& (s[1] == 's' || s[1] == 'S')
    &&& (s[2] == 'o' || s[2] == 'O')
    &&& (s[3] == 'n' || s[3] == 'N')
}

/// Whether a file name carries the `.json` extension: its last dot
/// stands after the first character and what follows it reads `json`,
/// ASCII case-insensitively.
pub open spec fn has_json_ext(name: Seq<char>) -> bool {
    last_dot(name) > 0 && suffix_is_json(name.skip(last_dot(name) + 1))
}

/// The extension test that file discovery applies to every entry.
pub fn is_json_file(name: &str) -> (r: bool)
    ensures
        r == has_json_ext(name@),
{
    let n = name.unicode_len();
    let mut found = false;
    let mut last: usize = 0;
    let mut i: usize = 0;
    proof {
        assert(name@.take(0) =~= Seq::<char>::empty());
    }
    while i < n
        invariant
            i <= n,
            n == name@.len(),
            found ==> last < i && last_dot(name@.take(i as int)) == last,
            !found ==> last_dot(name@.take(i as int)) == -1,
        decreases n - i,
    {
        let c = name.get_char(i);
        proof {
            assert(name@.take(i + 1).drop_last() =~= name@.take(i as int));
            assert(name@.take(i + 1).last() == name@[i as int]);
        }
        if c == '.' {
            found = true;
            last = i;
        }
        i = i + 1;
    }
    proof {
        assert(name@.take(n as int) =~= name@);
    }
    if !found || last == 0 {
        return false;
    }
    if n - last != 5 {
        return false;
    }
    let c1 = name.get_char(last + 1);
    let c2 = name.get_char(last + 2);
    let c3 = name.get_char(last + 3);
    let c4 = name.get_char(last + 4);
    let r = (c1 == 'j' || c1 == 'J') && (c2 == 's' || c2 == 'S') && (c3 == 'o' || c3 == 'O') && (c4
        == 'n' || c4 == 'N');
    proof {
        let s = name@.skip(last as int + 1);
        assert(s.len() == 4);
        assert(s[0] == name@[last as int + 1]);
        assert(s[1] == name@[last as int + 2]);
        assert(s[2] == name@[last as int + 3]);
        assert(s[3] == name@[last as int + 4]);
    }
    r
}

/// The whole per-name filter of file discovery: a regular file is taken
/// when its name carries the `.json` extension and passes the pattern
/// filter.
pub fn is_json_candidate(name: &str, matcher: &PatternMatcher) -> (r: bool)
    ensures
        r == (has_json_ext(name@) && matcher.spec_matches(name@)),
{
    is_json_file(name) && matcher.matches(name)
}

} // verus!
