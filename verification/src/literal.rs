//! Query terms: a text value tagged as plain text or as a regular-expression
//! pattern.

use vstd::prelude::*;
use crate::strutil::{chars_of, string_from};

verus! {

/// A query term, matched literally (`Plain`) or as a pattern (`Regex`).
#[derive(Debug, Clone, PartialEq, Eq, Hash)]
pub enum Literal {
    Plain(String),
    Regex(String),
}

impl Default for Literal {
    /// The empty plain literal.
    fn default() -> (r: Literal)
        ensures
            r matches Literal::Plain(s) && s@ == Seq::<char>::empty(),
    {
        Literal::Plain(String::new())
    }
}

/// A regex meta character: one that must be escaped to match literally.
pub open spec fn is_regex_meta(c: char) -> bool {
    c == '\\' || c == '.' || c == '+' || c == '*' || c == '?' || c == '(' || c == ')' || c == '|'
        || c == '[' || c == ']' || c == '{' || c == '}' || c == '^' || c == '$' || c == '#'
        || c == '&' || c == '-' || c == '~'
}

/// The text a regex-escape of `s` yields: every meta character gains a
/// leading backslash, every other character is kept.
pub open spec fn regex_escaped(s: Seq<char>) -> Seq<char>
    decreases s.len(),
{
    if s.len() == 0 {
        s
    } else {
        (if is_regex_meta(s[0]) {
            seq!['\\', s[0]]
        } else {
            seq![s[0]]
        }) + regex_escaped(s.skip(1))
    }
}

/// Whether `p` is a well-formed regular-expression pattern.
pub uninterp spec fn regex_compiles(p: Seq<char>) -> bool;

#[verifier::external_type_specification]
#[verifier::external_body]
pub struct ExRegex(regex::Regex);

#[verifier::external_type_specification]
#[verifier::external_body]
pub struct ExRegexError(regex::Error);

/// Relies on `regex::escape`: prepends a backslash to each of the eighteen
/// meta characters of [`is_regex_meta`] and keeps every other character.
/// (The result is a safe literal pattern, but compiling it can still fail
/// beyond the compiler's size limit, so nothing is promised of that here.)
#[verifier::external_body]
fn regex_escape(s: &str) -> (r: String)
    ensures
        r@ == regex_escaped(s@),
{
    regex::escape(s)
}

/// Relies on `regex::Regex::new`: compiles a pattern; success depends on the
/// pattern text alone.
#[verifier::external_body]
fn regex_new(p: &str) -> (r: Result<regex::Regex, regex::Error>)
    ensures
        r is Ok <==> regex_compiles(p@),
{
    regex::Regex::new(p)
}

/// The error of [`Literal::regex`]: the pattern does not compile.
#[derive(Debug, Clone, PartialEq, Eq)]
pub struct InvalidPattern;

/// The text of a literal once turned into a pattern: a regex stands as it is,
/// plain text is escaped first.
pub open spec fn spec_regex_str(l: Literal) -> Seq<char> {
    match l {
        Literal::Plain(text) => regex_escaped(text@),
        Literal::Regex(r) => r@,
    }
}

impl Literal {
    /// Joins two literals into one pattern with whitespace between them.
    pub fn join_as_regex(self, rhs: Self) -> (r: Self)
        ensures
            r matches Literal::Regex(p) && p@ == spec_regex_str(self) + "\\s+"@ + spec_regex_str(
                rhs,
            ),
    {
        let lhs = self.regex_str();
        let rhs_str = rhs.regex_str();
        let joined = vstd::string::StringExecFns::concat(
            vstd::string::StringExecFns::concat(lhs, "\\s+"),
            rhs_str.as_str(),
        );
        Literal::Regex(joined)
    }

    /// Joins two plain literals with a space; `None` when either is a regex.
    pub fn join_as_plain(self, rhs: Self) -> (r: Option<Self>)
        ensures
            (self is Plain && rhs is Plain) ==> (r matches Some(j) && j matches Literal::Plain(p)
                && p@ == spec_inner_text(self) + " "@ + spec_inner_text(rhs)),
            (self is Regex || rhs is Regex) ==> r is None,
    {
        let lhs = match self {
            Literal::Plain(p) => p,
            Literal::Regex(_) => {
                return None;
            },
        };
        let rhs_str = match rhs {
            Literal::Plain(p) => p,
            Literal::Regex(_) => {
                return None;
            },
        };
        let joined = vstd::string::StringExecFns::concat(
            vstd::string::StringExecFns::concat(lhs, " "),
            rhs_str.as_str(),
        );
        Some(Literal::Plain(joined))
    }

    /// This literal as a regex pattern string: a plain text is escaped, a
    /// regex is returned as it stands.
    pub fn regex_str(&self) -> (r: String)
        ensures
            r@ == spec_regex_str(*self),
    {
        match self {
            Literal::Plain(text) => regex_escape(text.as_str()),
            Literal::Regex(r) => r.clone(),
        }
    }

    /// Compiles this literal into a regex: success depends exactly on the
    /// well-formedness of the pattern string the literal renders to.
    pub fn regex(&self) -> (r: Result<regex::Regex, InvalidPattern>)
        ensures
            r is Ok <==> regex_compiles(spec_regex_str(*self)),
    {
        let p = self.regex_str();
        match regex_new(p.as_str()) {
            Ok(re) => Ok(re),
            Err(_) => Err(InvalidPattern),
        }
    }

    /// The text when this literal is plain; `None` for a regex.
    pub fn as_plain(&self) -> (r: Option<String>)
        ensures
            self matches Literal::Plain(p) ==> r matches Some(s) && s@ == p@,
            self is Regex ==> r is None,
    {
        match self {
            Literal::Plain(p) => Some(p.clone()),
            Literal::Regex(_) => None,
        }
    }

    /// Forces this literal into the `Regex` variant, keeping its text.
    pub fn make_regex(&mut self)
        ensures
            *final(self) matches Literal::Regex(p) && p@ == spec_inner_text(*old(self)),
    {
        let text = match self {
            Literal::Plain(s) => s.clone(),
            Literal::Regex(s) => s.clone(),
        };
        *self = Literal::Regex(text);
    }

    /// The inner text, whatever the tag.
    pub fn unwrap(self) -> (r: String)
        ensures
            r@ == spec_inner_text(self),
    {
        match self {
            Literal::Plain(v) => v,
            Literal::Regex(v) => v,
        }
    }

    /// An owned copy; the tag and text are kept.
    pub fn into_owned(self) -> (r: Literal)
        ensures
            r == self,
    {
        self
    }
}

/// The text a literal carries, whatever its tag.
pub open spec fn spec_inner_text(l: Literal) -> Seq<char> {
    match l {
        Literal::Plain(v) => v@,
        Literal::Regex(v) => v@,
    }
}

/// `s` unescaped with the terminating character `term`: `\n` and `\t` become
/// the control characters, a backslash before `term` is dropped, any other
/// backslash pair is kept, and a trailing lone backslash is dropped.
pub open spec fn spec_unescape(s: Seq<char>, term: char) -> Seq<char>
    decreases s.len(),
{
    if s.len() == 0 {
        s
    } else if s[0] != '\\' {
        seq![s[0]] + spec_unescape(s.skip(1), term)
    } else if s.len() == 1 {
        Seq::empty()
    } else if s[1] == 'n' {
        seq!['\n'] + spec_unescape(s.skip(2), term)
    } else if s[1] == 't' {
        seq!['\t'] + spec_unescape(s.skip(2), term)
    } else if s[1] == term {
        seq![term] + spec_unescape(s.skip(2), term)
    } else {
        seq!['\\', s[1]] + spec_unescape(s.skip(2), term)
    }
}

/// Unescapes a string, with a specific terminating character.
pub fn unescape(s: &str, term: char) -> (r: String)
    ensures
        r@ == spec_unescape(s@, term),
{
    let cs = chars_of(s);
    let mut out: Vec<char> = Vec::new();
    let mut i: usize = 0;
    assert(s@.skip(0) =~= s@);
    assert(out@ + spec_unescape(s@, term) =~= spec_unescape(s@, term));
    while i < cs.len()
        invariant
            cs@ == s@,
            i <= s@.len(),
            spec_unescape(s@, term) == out@ + spec_unescape(s@.skip(i as int), term),
        decreases cs@.len() - i,
    {
        let ghost rest = s@.skip(i as int);
        assert(rest[0] == s@[i as int]);
        if cs[i] != '\\' {
            out.push(cs[i]);
            assert(rest.skip(1) =~= s@.skip(i + 1));
            assert(seq![rest[0]] =~= seq![s@[i as int]]);
            i = i + 1;
        } else if i + 1 == cs.len() {
            assert(rest.len() == 1);
            i = i + 1;
            assert(s@.skip(i as int) =~= Seq::<char>::empty());
        } else {
            assert(rest.len() >= 2);
            assert(rest[1] == s@[i + 1]);
            assert(rest.skip(2) =~= s@.skip(i + 2));
            let c = cs[i + 1];
            if c == 'n' {
                out.push('\n');
            } else if c == 't' {
                out.push('\t');
            } else if c == term {
                out.push(term);
            } else {
                out.push('\\');
                out.push(c);
            }
            i = i + 2;
        }
    }
    assert(s@.skip(i as int) =~= Seq::<char>::empty());
    assert(out@ =~= spec_unescape(s@, term));
    string_from(&out)
}

} // verus!
