//! Plain text as sequences of characters: literal search and replacement.

use vstd::prelude::*;

verus! {

/// `String::push` appends one character.
pub assume_specification[ String::push ](s: &mut String, c: char)
    ensures
        final(s)@ == old(s)@.push(c),
;

/// Whether `token` stands in `text` at position `at`.
pub open spec fn occurs_at(text: Seq<char>, token: Seq<char>, at: int) -> bool {
    &&& 0 <= at
    &&& at + token.len() <= text.len()
    &&& text.subrange(at, at + token.len()) == token
}

/// Whether `token` stands anywhere in `text`.
pub open spec fn occurs_in(text: Seq<char>, token: Seq<char>) -> bool {
    exists|at: int| occurs_at(text, token, at)
}

/// `filler` before every character of `text` and after the last one.
pub open spec fn interleaved(text: Seq<char>, filler: Seq<char>) -> Seq<char>
    decreases text.len(),
{
    if text.len() == 0 {
        filler
    } else {
        filler + seq![text[0]] + interleaved(text.skip(1), filler)
    }
}

/// `text` with every occurrence of `token` replaced by `replacement`.
///
/// Occurrences are taken from left to right and do not overlap. An empty
/// token occurs before every character and at the end.
pub open spec fn replace_all(text: Seq<char>, token: Seq<char>, replacement: Seq<char>) -> Seq<
    char,
>
    decreases text.len(),
{
    if token.len() == 0 {
        interleaved(text, replacement)
    } else if text.len() == 0 {
        text
    } else if occurs_at(text, token, 0) {
        replacement + replace_all(text.skip(token.len() as int), token, replacement)
    } else {
        seq![text[0]] + replace_all(text.skip(1), token, replacement)
    }
}

/// `value` without one trailing `px`, if it ends in one.
pub open spec fn without_px_suffix(value: Seq<char>) -> Seq<char> {
    if value.len() >= 2 && value[value.len() - 2] == 'p' && value[value.len() - 1] == 'x' {
        value.take(value.len() - 2)
    } else {
        value
    }
}

/// The characters of `s`, in order.
pub fn chars_of(s: &str) -> (v: Vec<char>)
    ensures
        v@ == s@,
{
    let mut v: Vec<char> = Vec::new();
    for c in it: s.chars()
        invariant
            it.seq() == s@,
            v@ == it.seq().take(it.index() as int),
    {
        v.push(c);
    }
    v
}

/// Whether `pat` stands in `hay` at `at`.
fn matches_at(hay: &Vec<char>, pat: &Vec<char>, at: usize) -> (b: bool)
    requires
        at <= hay.len(),
    ensures
        b == occurs_at(hay@, pat@, at as int),
{
    if pat.len() > hay.len() - at {
        return false;
    }
    let mut k: usize = 0;
    while k < pat.len()
        invariant
            k <= pat.len(),
            at + pat.len() <= hay.len(),
            forall|j: int| 0 <= j < k ==> hay@[at + j] == pat@[j],
        decreases pat.len() - k,
    {
        if hay[at + k] != pat[k] {
            assert(hay@.subrange(at as int, at + pat.len())[k as int] == hay@[at + k]);
            return false;
        }
        k += 1;
    }
    assert(hay@.subrange(at as int, at + pat.len()) =~= pat@);
    true
}

/// Replaces every occurrence of `token` in `text` by `replacement`.
///
/// The replacement text is copied as it is; a token that does not occur
/// leaves the text unchanged.
pub fn substitute(text: &str, token: &str, replacement: &str) -> (out: String)
    ensures
        out@ == replace_all(text@, token@, replacement@),
        token@.len() > 0 && !occurs_in(text@, token@) ==> out@ == text@,
{
    let hay = chars_of(text);
    let pat = chars_of(token);
    let mut out = String::new();
    let mut i: usize = 0;
    proof {
        assert(hay@.skip(0) =~= hay@);
    }
    if pat.len() == 0 {
        while i < hay.len()
            invariant
                i <= hay.len(),
                interleaved(hay@, replacement@) == out@ + interleaved(
                    hay@.skip(i as int),
                    replacement@,
                ),
            decreases hay.len() - i,
        {
            let ghost rest = hay@.skip(i as int);
            let ghost before = out@;
            out.append(replacement);
            out.push(hay[i]);
            i += 1;
            proof {
                assert(rest.skip(1) =~= hay@.skip(i as int));
                assert(out@ + interleaved(hay@.skip(i as int), replacement@) =~= before
                    + interleaved(rest, replacement@));
            }
        }
        out.append(replacement);
        return out;
    }
    while i < hay.len()
        invariant
            i <= hay.len(),
            pat@.len() > 0,
            replace_all(hay@, pat@, replacement@) == out@ + replace_all(
                hay@.skip(i as int),
                pat@,
                replacement@,
            ),
        decreases hay.len() - i,
    {
        let ghost rest = hay@.skip(i as int);
        let ghost before = out@;
        proof {
            if i + pat@.len() <= hay@.len() {
                assert(rest.subrange(0, pat@.len() as int) =~= hay@.subrange(
                    i as int,
                    i + pat@.len(),
                ));
            }
        }
        if matches_at(&hay, &pat, i) {
            out.append(replacement);
            i += pat.len();
            proof {
                assert(rest.skip(pat@.len() as int) =~= hay@.skip(i as int));
                assert(out@ + replace_all(hay@.skip(i as int), pat@, replacement@) =~= before
                    + replace_all(rest, pat@, replacement@));
            }
        } else {
            out.push(hay[i]);
            i += 1;
            proof {
                assert(rest.skip(1) =~= hay@.skip(i as int));
                assert(out@ + replace_all(hay@.skip(i as int), pat@, replacement@) =~= before
                    + replace_all(rest, pat@, replacement@));
            }
        }
    }
    proof {
        if !occurs_in(text@, token@) {
            lemma_absent_token_unchanged(text@, token@, replacement@);
        }
    }
    out
}

/// Drops one trailing `px` from `value`.
pub fn strip_px_suffix(value: &str) -> (out: String)
    ensures
        out@ == without_px_suffix(value@),
{
    let n = value.unicode_len();
    if n >= 2 && value.get_char(n - 2) == 'p' && value.get_char(n - 1) == 'x' {
        value.substring_char(0, n - 2).to_owned()
    } else {
        value.to_owned()
    }
}

/// Replacing a token that does not occur changes nothing.
pub proof fn lemma_absent_token_unchanged(
    text: Seq<char>,
    token: Seq<char>,
    replacement: Seq<char>,
)
    requires
        token.len() > 0,
        !occurs_in(text, token),
    ensures
        replace_all(text, token, replacement) == text,
    decreases text.len(),
{
    if text.len() > 0 {
        let rest = text.skip(1);
        assert(!occurs_at(text, token, 0));
        assert forall|j: int| !occurs_at(rest, token, j) by {
            if occurs_at(rest, token, j) {
                assert(rest.subrange(j, j + token.len()) =~= text.subrange(
                    j + 1,
                    j + 1 + token.len(),
                ));
                assert(occurs_at(text, token, j + 1));
            }
        }
        lemma_absent_token_unchanged(rest, token, replacement);
        assert(seq![text[0]] + rest =~= text);
    }
}

/// The replacement of a single occurrence, by induction on where it stands.
proof fn lemma_single_token_spliced(
    text: Seq<char>,
    token: Seq<char>,
    replacement: Seq<char>,
    at: int,
)
    requires
        token.len() > 0,
        occurs_at(text, token, at),
        forall|j: int| occurs_at(text, token, j) ==> j == at,
    ensures
        replace_all(text, token, replacement) == text.take(at) + replacement + text.skip(
            at + token.len(),
        ),
    decreases at,
{
    let k = token.len() as int;
    if at == 0 {
        let rest = text.skip(k);
        assert forall|j: int| !occurs_at(rest, token, j) by {
            if occurs_at(rest, token, j) {
                assert(rest.subrange(j, j + k) =~= text.subrange(j + k, j + k + k));
                assert(occurs_at(text, token, j + k));
            }
        }
        lemma_absent_token_unchanged(rest, token, replacement);
        assert(replacement + rest =~= text.take(0) + replacement + rest);
    } else {
        let rest = text.skip(1);
        assert(!occurs_at(text, token, 0));
        assert(rest.subrange(at - 1, at - 1 + k) =~= text.subrange(at, at + k));
        assert forall|j: int| occurs_at(rest, token, j) implies j == at - 1 by {
            assert(rest.subrange(j, j + k) =~= text.subrange(j + 1, j + 1 + k));
            assert(occurs_at(text, token, j + 1));
        }
        lemma_single_token_spliced(rest, token, replacement, at - 1);
        assert(seq![text[0]] + (rest.take(at - 1) + replacement + rest.skip(at - 1 + k))
            =~= text.take(at) + replacement + text.skip(at + k));
    }
}

/// Where a token stands in a text exactly once, replacing it puts the
/// replacement at that position and leaves the text on both sides as it was.
/// The token does not survive: any occurrence of it in the result touches
/// the text that was put in.
pub proof fn lemma_single_token_replaced(
    text: Seq<char>,
    token: Seq<char>,
    replacement: Seq<char>,
    at: int,
)
    requires
        token.len() > 0,
        occurs_at(text, token, at),
        forall|j: int| occurs_at(text, token, j) ==> j == at,
    ensures
        replace_all(text, token, replacement) == text.take(at) + replacement + text.skip(
            at + token.len(),
        ),
        occurs_at(replace_all(text, token, replacement), replacement, at),
        forall|j: int| #[trigger]
            occurs_at(replace_all(text, token, replacement), token, j) ==> at - token.len() < j
                < at + replacement.len(),
{
    let k = token.len() as int;
    let r = replacement.len() as int;
    let out = replace_all(text, token, replacement);
    lemma_single_token_spliced(text, token, replacement, at);
    assert(out.subrange(at, at + r) =~= replacement);
    assert forall|j: int| #[trigger] occurs_at(out, token, j) implies at - k < j < at + r by {
        if j + k <= at {
            assert(out.subrange(j, j + k) =~= text.subrange(j, j + k));
            assert(occurs_at(text, token, j));
        } else if j >= at + r {
            assert(out.subrange(j, j + k) =~= text.subrange(j - r + k, j - r + k + k));
            assert(occurs_at(text, token, j - r + k));
        }
    }
}

/// Where a token stands in a text exactly once, and the replacement does not
/// spell the token anew together with the text around it, the result holds
/// the token nowhere.
pub proof fn lemma_single_token_gone(
    text: Seq<char>,
    token: Seq<char>,
    replacement: Seq<char>,
    at: int,
)
    requires
        token.len() > 0,
        occurs_at(text, token, at),
        forall|j: int| occurs_at(text, token, j) ==> j == at,
        forall|j: int|
            at - token.len() < j < at + replacement.len() ==> !(#[trigger] occurs_at(
                text.take(at) + replacement + text.skip(at + token.len()),
                token,
                j,
            )),
    ensures
        !occurs_in(replace_all(text, token, replacement), token),
{
    lemma_single_token_replaced(text, token, replacement, at);
}

/// Neither the first nor the last character of `token` occurs in `text`.
pub open spec fn clear_of_ends(text: Seq<char>, token: Seq<char>) -> bool {
    !text.contains(token.first()) && !text.contains(token.last())
}

/// A character of two texts put together is a character of one of them.
pub proof fn lemma_contains_concat(a: Seq<char>, b: Seq<char>, c: char)
    ensures
        (a + b).contains(c) <==> a.contains(c) || b.contains(c),
{
    if (a + b).contains(c) {
        let i = choose|i: int| 0 <= i < (a + b).len() && (a + b)[i] == c;
        if i < a.len() {
            assert(a[i] == c);
        } else {
            assert(b[i - a.len()] == c);
        }
    }
    if a.contains(c) {
        let i = choose|i: int| 0 <= i < a.len() && a[i] == c;
        assert((a + b)[i] == c);
    }
    if b.contains(c) {
        let i = choose|i: int| 0 <= i < b.len() && b[i] == c;
        assert((a + b)[a.len() + i] == c);
    }
}

/// A character of a part of a text is a character of the text.
pub proof fn lemma_part_contains(text: Seq<char>, part: Seq<char>, c: char)
    requires
        occurs_in(text, part),
        part.contains(c),
    ensures
        text.contains(c),
{
    let at = choose|at: int| occurs_at(text, part, at);
    let i = choose|i: int| 0 <= i < part.len() && part[i] == c;
    assert(text.subrange(at, at + part.len())[i] == text[at + i]);
}

/// A token that stands nowhere in a text stands nowhere in it after a part
/// of the text was exchanged, if what was put in holds neither the token's
/// first nor its last character and is not so short that the token could
/// reach across it.
pub proof fn lemma_token_stays_out(
    before: Seq<char>,
    removed: Seq<char>,
    after: Seq<char>,
    inserted: Seq<char>,
    token: Seq<char>,
)
    requires
        token.len() > 0,
        !occurs_in(before + removed + after, token),
        clear_of_ends(inserted, token),
        token.len() < inserted.len() + 2,
    ensures
        !occurs_in(before + inserted + after, token),
{
    let old_text = before + removed + after;
    let new_text = before + inserted + after;
    let k = token.len() as int;
    let b = before.len() as int;
    let m = inserted.len() as int;
    let r = removed.len() as int;
    assert forall|j: int| !occurs_at(new_text, token, j) by {
        if occurs_at(new_text, token, j) {
            let found = new_text.subrange(j, j + k);
            if j + k <= b {
                assert(found =~= old_text.subrange(j, j + k));
                assert(occurs_at(old_text, token, j));
            } else if j >= b + m {
                assert(found =~= old_text.subrange(j - m + r, j - m + r + k));
                assert(occurs_at(old_text, token, j - m + r));
            } else if j >= b {
                assert(found[0] == inserted[j - b]);
                assert(inserted.contains(token.first()));
            } else if j + k - 1 < b + m {
                assert(found[k - 1] == inserted[j + k - 1 - b]);
                assert(inserted.contains(token.last()));
            }
        }
    }
}

} // verus!
