//! Pattern search in text. The searching is done by the `regex` crate; this
//! module names what it finds and turns its answers into plain values.

use crate::error::RenderError;
use crate::text::{chars_of, occurs_in};
use vstd::prelude::*;

verus! {

/// `regex::Error`, the error of a pattern that does not compile; opaque here.
#[verifier::external_type_specification]
#[verifier::external_body]
pub struct ExPatternError(regex::Error);

/// Whether `c` has a meaning of its own in a pattern.
pub open spec fn is_meta_character(c: char) -> bool {
    c == '\\' || c == '.' || c == '+' || c == '*' || c == '?' || c == '(' || c == ')' || c == '|'
        || c == '[' || c == ']' || c == '{' || c == '}' || c == '^' || c == '$' || c == '#' || c
        == '&' || c == '-' || c == '~'
}

/// `text` with a backslash before each character that has a meaning of its
/// own in a pattern, so that the whole matches itself and nothing else.
pub open spec fn escaped(text: Seq<char>) -> Seq<char>
    decreases text.len(),
{
    if text.len() == 0 {
        text
    } else if is_meta_character(text[0]) {
        seq!['\\', text[0]] + escaped(text.skip(1))
    } else {
        seq![text[0]] + escaped(text.skip(1))
    }
}

/// Whether the engine takes `pattern`: it is well formed, and what it
/// compiles to is no larger than the engine's fixed limit.
pub uninterp spec fn pattern_accepted(pattern: Seq<char>) -> bool;

/// The first match of `pattern` in `haystack`, if there is one: the number of
/// characters before it, and the number of characters up to its end.
///
/// Of several matches the one that starts first is meant, and of those that
/// start there the one that the pattern prefers.
pub uninterp spec fn leftmost_match(pattern: Seq<char>, haystack: Seq<char>) -> Option<(int, int)>;

/// The text that the first group of `pattern` holds in the first match of
/// `pattern` in `haystack`; `None` if there is no match or the group took no
/// part in it.
pub uninterp spec fn leftmost_first_group(pattern: Seq<char>, haystack: Seq<char>) -> Option<
    Seq<char>,
>;

/// What a search for the first match of `pattern` in `haystack` comes to:
/// its span, `missing` where there is none, and `PatternRejected` where the
/// engine does not take the pattern. A span lies within the haystack.
pub open spec fn match_or(pattern: Seq<char>, haystack: Seq<char>, missing: RenderError) -> Result<
    (int, int),
    RenderError,
> {
    if !pattern_accepted(pattern) {
        Err(RenderError::PatternRejected)
    } else {
        match leftmost_match(pattern, haystack) {
            Some(span) if 0 <= span.0 <= span.1 <= haystack.len() => Ok(span),
            _ => Err(missing),
        }
    }
}

/// What a search for the first group of `pattern` in `haystack` comes to:
/// its text, `missing` where there is none, and `PatternRejected` where the
/// engine does not take the pattern. The text of a group is a part of the
/// haystack.
pub open spec fn group_or(pattern: Seq<char>, haystack: Seq<char>, missing: RenderError) -> Result<
    Seq<char>,
    RenderError,
> {
    if !pattern_accepted(pattern) {
        Err(RenderError::PatternRejected)
    } else {
        match leftmost_first_group(pattern, haystack) {
            Some(text) if occurs_in(haystack, text) => Ok(text),
            _ => Err(missing),
        }
    }
}

/// The characters of a text that was made or not.
pub open spec fn text_result(made: Result<String, RenderError>) -> Result<Seq<char>, RenderError> {
    match made {
        Ok(text) => Ok(text@),
        Err(e) => Err(e),
    }
}

/// A text cut in three around a match.
pub struct Located {
    /// What stands before the match.
    pub before: String,
    /// The match itself.
    pub matched: String,
    /// What stands after the match.
    pub after: String,
}

impl Located {
    /// The position of the first character of the match.
    pub open spec fn start(&self) -> int {
        self.before@.len() as int
    }

    /// The position after the last character of the match.
    pub open spec fn end(&self) -> int {
        (self.before@.len() + self.matched@.len()) as int
    }

    /// The three parts, put together again, are `text`.
    pub open spec fn cuts(&self, text: Seq<char>) -> bool {
        self.before@ + self.matched@ + self.after@ == text
    }
}

/// Whether `c` has a meaning of its own in a pattern.
pub fn is_meta(c: char) -> (meta: bool)
    ensures
        meta == is_meta_character(c),
{
    c == '\\' || c == '.' || c == '+' || c == '*' || c == '?' || c == '(' || c == ')' || c == '|'
        || c == '[' || c == ']' || c == '{' || c == '}' || c == '^' || c == '$' || c == '#' || c
        == '&' || c == '-' || c == '~'
}

/// Writes `text` so that, as a pattern, it matches itself and nothing else:
/// with a backslash before each character that has a meaning of its own.
pub fn escape_text(text: &str) -> (out: String)
    ensures
        out@ == escaped(text@),
{
    let chars = chars_of(text);
    let mut out = String::new();
    let mut i: usize = 0;
    proof {
        assert(chars@.skip(0) =~= chars@);
    }
    while i < chars.len()
        invariant
            i <= chars.len(),
            chars@ == text@,
            escaped(chars@) == out@ + escaped(chars@.skip(i as int)),
        decreases chars.len() - i,
    {
        let ghost rest = chars@.skip(i as int);
        let ghost before = out@;
        let c = chars[i];
        if is_meta(c) {
            out.push('\\');
        }
        out.push(c);
        i += 1;
        proof {
            assert(rest.skip(1) =~= chars@.skip(i as int));
            assert(out@ + escaped(chars@.skip(i as int)) =~= before + escaped(rest));
        }
    }
    out
}

/// Compiles `pattern` with `regex::Regex::new` and searches `haystack` with
/// `Regex::find`. The error is that of the compilation, which the pattern
/// alone decides. A match is handed back as the haystack cut at the match's
/// two offsets, which the crate documents to lie on character boundaries
/// with start before end.
#[verifier::external_body]
pub(crate) fn find_first(pattern: &str, haystack: &str) -> (found: Result<
    Option<Located>,
    regex::Error,
>)
    ensures
        found is Err <==> !pattern_accepted(pattern@),
        match found {
            Ok(Some(cut)) => cut.cuts(haystack@) && leftmost_match(pattern@, haystack@) == Some(
                (cut.start(), cut.end()),
            ),
            Ok(None) => leftmost_match(pattern@, haystack@) is None,
            Err(_) => true,
        },
{
    let re = regex::Regex::new(pattern)?;
    Ok(
        re.find(haystack).map(
            |m|
                Located {
                    before: haystack[..m.start()].to_string(),
                    matched: m.as_str().to_string(),
                    after: haystack[m.end()..].to_string(),
                },
        ),
    )
}

/// Compiles `pattern` with `regex::Regex::new`, searches `haystack` with
/// `Regex::captures` and takes the text of group 1 with `Captures::get`.
/// The error is that of the compilation, which the pattern alone decides.
/// The text of a group is a part of the haystack.
#[verifier::external_body]
pub(crate) fn capture_first_group(pattern: &str, haystack: &str) -> (found: Result<
    Option<String>,
    regex::Error,
>)
    ensures
        found is Err <==> !pattern_accepted(pattern@),
        match found {
            Ok(Some(text)) => leftmost_first_group(pattern@, haystack@) == Some(text@)
                && occurs_in(haystack@, text@),
            Ok(None) => leftmost_first_group(pattern@, haystack@) is None,
            Err(_) => true,
        },
{
    let re = regex::Regex::new(pattern)?;
    Ok(re.captures(haystack).and_then(|caps| caps.get(1)).map(|m| m.as_str().to_string()))
}

/// What a search comes to: the thing found, `missing` where nothing was
/// found, and `PatternRejected` where the pattern did not compile.
pub fn require_found<T>(outcome: Result<Option<T>, regex::Error>, missing: RenderError) -> (r:
    Result<T, RenderError>)
    ensures
        match outcome {
            Ok(Some(thing)) => r == Ok::<T, RenderError>(thing),
            Ok(None) => r == Err::<T, RenderError>(missing),
            Err(_) => r == Err::<T, RenderError>(RenderError::PatternRejected),
        },
{
    match outcome {
        Ok(Some(thing)) => Ok(thing),
        Ok(None) => Err(missing),
        Err(_) => Err(RenderError::PatternRejected),
    }
}

} // verus!
