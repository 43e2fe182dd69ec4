//! The run configuration, as structured data.
//!
//! Parsing the command line into this form is the surrounding program's
//! business; the one piece of logic here — turning the comma-separated
//! selector text into the selector list — is verified.

use vstd::prelude::*;
use vstd::string::*;

use crate::json::split_on;
use crate::json::split_str;

verus! {

/// What to do when the output file already exists.
#[derive(Debug, Clone, Copy, PartialEq, Eq, Structural)]
pub enum WriteMode {
    /// Replace the existing file.
    Overwrite,
    /// Keep its content and add new lines after it.
    Append,
    /// Treat the existing file as a fatal configuration error.
    Error,
}

impl WriteMode {
    /// The display name of this mode.
    pub open spec fn name_spec(self) -> Seq<char> {
        match self {
            WriteMode::Overwrite => "Overwrite"@,
            WriteMode::Append => "Append"@,
            WriteMode::Error => "Error"@,
        }
    }

    /// Render the display name.
    pub fn name(&self) -> (r: &'static str)
        ensures
            r@ == self.name_spec(),
    {
        match self {
            WriteMode::Overwrite => "Overwrite",
            WriteMode::Append => "Append",
            WriteMode::Error => "Error",
        }
    }
}

/// One run's configuration, fully structured.
#[derive(Debug)]
pub struct Args {
    /// The folder holding the JSON files to merge.
    pub input: String,
    /// The JSONL file to produce.
    pub output: String,
    /// What to do when the output file already exists.
    pub mode: WriteMode,
    /// An optional glob pattern that file names must match.
    pub pattern: Option<String>,
    /// Report every file, not only the failures.
    pub verbose: bool,
    /// Only list what would be processed.
    pub dry_run: bool,
    /// Only check validity; write no output.
    pub validate_only: bool,
    /// The selectors to keep, as one comma-separated text.
    pub fields: Option<String>,
    /// Worker pool size; nothing means the machine decides.
    pub threads: Option<usize>,
    /// How deep to walk into the input folder.
    pub max_depth: Option<usize>,
    /// Where to write the error log, if anywhere.
    pub log: Option<String>,
    /// Indented instead of compact output.
    pub pretty: bool,
}

/// The characters that `str::trim` removes: Unicode white space.
pub open spec fn is_space(c: char) -> bool {
    ||| c == '\u{9}'
    ||| c == '\u{a}'
    ||| c == '\u{b}'
    ||| c == '\u{c}'
    ||| c == '\u{d}'
    ||| c == ' '
    ||| c == '\u{85}'
    ||| c == '\u{a0}'
    ||| c == '\u{1680}'
    ||| ('\u{2000}' <= c && c <= '\u{200a}')
    ||| c == '\u{2028}'
    ||| c == '\u{2029}'
    ||| c == '\u{202f}'
    ||| c == '\u{205f}'
    ||| c == '\u{3000}'
}

/// `s` without its leading white space.
pub open spec fn trim_start(s: Seq<char>) -> Seq<char>
    decreases s.len(),
{
    if s.len() > 0 && is_space(s[0]) {
        trim_start(s.skip(1))
    } else {
        s
    }
}

/// `s` without its trailing white space.
pub open spec fn trim_end(s: Seq<char>) -> Seq<char>
    decreases s.len(),
{
    if s.len() > 0 && is_space(s.last()) {
        trim_end(s.drop_last())
    } else {
        s
    }
}

/// `s` without leading and trailing white space: what `str::trim` keeps.
pub open spec fn trim_spec(s: Seq<char>) -> Seq<char> {
    trim_end(trim_start(s))
}

/// The pieces of a selector text, each trimmed, the empty ones dropped.
pub open spec fn selector_list(pieces: Seq<Seq<char>>) -> Seq<Seq<char>>
    decreases pieces.len(),
{
    if pieces.len() == 0 {
        Seq::empty()
    } else {
        let rest = selector_list(pieces.drop_last());
        let t = trim_spec(pieces.last());
        if t.len() == 0 {
            rest
        } else {
            rest.push(t)
        }
    }
}

/// The selector list that a comma-separated selector text configures.
pub open spec fn fields_list(s: Seq<char>) -> Seq<Seq<char>> {
    selector_list(split_on(s, ','))
}

/// Whether `str::trim` removes a character.
fn is_space_char(c: char) -> (r: bool)
    ensures
        r == is_space(c),
{
    c == '\u{9}' || c == '\u{a}' || c == '\u{b}' || c == '\u{c}' || c == '\u{d}' || c == ' ' || c
        == '\u{85}' || c == '\u{a0}' || c == '\u{1680}' || ('\u{2000}' <= c && c <= '\u{200a}') || c
        == '\u{2028}' || c == '\u{2029}' || c == '\u{202f}' || c == '\u{205f}' || c == '\u{3000}'
}

/// `str::trim`: the text without leading and trailing white space.
pub fn trim_str(s: &str) -> (r: String)
    ensures
        r@ == trim_spec(s@),
{
    let n = s.unicode_len();
    let mut a: usize = 0;
    proof {
        assert(s@.skip(0) =~= s@);
    }
    while a < n && is_space_char(s.get_char(a))
        invariant
            a <= n,
            n == s@.len(),
            trim_start(s@) == trim_start(s@.skip(a as int)),
        decreases n - a,
    {
        proof {
            assert(s@.skip(a as int).skip(1) =~= s@.skip(a + 1));
        }
        a = a + 1;
    }
    proof {
        if a == n {
            assert(s@.skip(a as int) =~= Seq::<char>::empty());
        }
        assert(trim_start(s@) == s@.skip(a as int));
        assert(s@.skip(a as int) =~= s@.subrange(a as int, n as int));
    }
    let mut b: usize = n;
    while b > a && is_space_char(s.get_char(b - 1))
        invariant
            a <= b <= n,
            n == s@.len(),
            trim_start(s@) == s@.subrange(a as int, n as int),
            trim_end(s@.subrange(a as int, n as int)) == trim_end(s@.subrange(a as int, b as int)),
        decreases b,
    {
        proof {
            assert(s@.subrange(a as int, b as int).last() == s@[b - 1]);
            assert(s@.subrange(a as int, b as int).drop_last() =~= s@.subrange(a as int, b - 1));
        }
        b = b - 1;
    }
    proof {
        if b == a {
            assert(s@.subrange(a as int, a as int) =~= Seq::<char>::empty());
        } else {
            assert(s@.subrange(a as int, b as int).last() == s@[b - 1]);
        }
        assert(trim_end(s@.subrange(a as int, b as int)) == s@.subrange(a as int, b as int));
    }
    let r = s.substring_char(a, b);
    r.to_owned()
}

impl Args {
    /// The selector list this configuration asks for: the selector text
    /// split at commas, each piece trimmed, empty pieces dropped. No
    /// selector text means no selection at all.
    pub fn get_fields(&self) -> (r: Option<Vec<String>>)
        ensures
            match self.fields {
                Some(f) => r matches Some(v) && v.deep_view() == fields_list(f@),
                None => r is None,
            },
    {
        match &self.fields {
            Some(f) => {
                let parts = split_str(f.as_str(), ',');
                let ghost ps = parts.deep_view();
                let mut out: Vec<String> = Vec::new();
                let mut i: usize = 0;
                proof {
                    assert(ps.take(0) =~= Seq::<Seq<char>>::empty());
                }
                while i < parts.len()
                    invariant
                        i <= parts.len(),
                        ps == parts.deep_view(),
                        ps == split_on(f@, ','),
                        out.deep_view() == selector_list(ps.take(i as int)),
                    decreases parts.len() - i,
                {
                    proof {
                        assert(ps.take(i + 1).drop_last() =~= ps.take(i as int));
                        assert(ps.take(i + 1).last() == ps[i as int]);
                    }
                    let t = trim_str(parts[i].as_str());
                    if !t.as_str().is_empty() {
                        let ghost before = out.deep_view();
                        out.push(t);
                        proof {
                            assert(out.deep_view() =~~= before.push(trim_spec(ps[i as int])));
                        }
                    }
                    i = i + 1;
                }
                proof {
                    assert(ps.take(parts.deep_view().len() as int) =~= ps);
                }
                Some(out)
            },
            None => None,
        }
    }
}

} // verus!
