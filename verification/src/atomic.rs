use crate::pattern::{is_match, regex_is_match, Pattern};
use crate::text::{from_chars, joined, to_chars};
use std::borrow::Cow;
use vstd::prelude::*;

verus! {

/// Whether one row is detected: whether the pattern matches in it, the other
/// way round with `negate`; null for a null row.
pub open spec fn detect_row(pattern: Seq<char>, x: Option<Seq<char>>, negate: bool) -> Option<bool> {
    match x {
        None => None,
        Some(t) => Some(regex_is_match(pattern, t) != negate),
    }
}

/// Tells whether the pattern matches anywhere in the row, or with `negate`
/// whether it does not; a null row stays null.
pub fn detect(x: Option<&str>, pat: &Pattern, negate: bool) -> (r: Option<bool>)
    ensures
        r == detect_row(pat@, x.deep_view(), negate),
{
    match x {
        None => None,
        Some(s) => {
            let found = is_match(pat, s);
            if negate {
                Some(!found)
            } else {
                Some(found)
            }
        },
    }
}

/// Whether `sep` stands in `text` at position `at`.
pub open spec fn occurs_at(text: Seq<char>, sep: Seq<char>, at: int) -> bool {
    &&& 0 <= at
    &&& at + sep.len() <= text.len()
    &&& text.subrange(at, at + sep.len()) == sep
}

/// The pieces of `text` from position `start` on, cut at each occurrence of
/// `sep` that is found when looking from position `at` on, from left to
/// right, an occurrence never reaching into the one before it.
pub open spec fn split_from(text: Seq<char>, sep: Seq<char>, start: int, at: int) -> Seq<Seq<char>>
    decreases text.len() - at,
{
    if sep.len() == 0 || at < 0 || at + sep.len() > text.len() {
        seq![text.subrange(start, text.len() as int)]
    } else if occurs_at(text, sep, at) {
        seq![text.subrange(start, at)] + split_from(text, sep, at + sep.len(), at + sep.len())
    } else {
        split_from(text, sep, start, at + 1)
    }
}

/// The characters of `text`, each a piece of its own, with an empty piece
/// before them and one after them.
pub open spec fn split_apart(text: Seq<char>) -> Seq<Seq<char>> {
    Seq::new(
        text.len() + 2,
        |i: int|
            if 1 <= i <= text.len() {
                seq![text[i - 1]]
            } else {
                Seq::empty()
            },
    )
}

/// The pieces of `text` between the occurrences of `sep`, taken from left to
/// right. The empty separator stands between any two characters and at both
/// ends.
pub open spec fn split_on(text: Seq<char>, sep: Seq<char>) -> Seq<Seq<char>> {
    if sep.len() == 0 {
        split_apart(text)
    } else {
        split_from(text, sep, 0, 0)
    }
}

/// The characters that `char::to_uppercase` yields for `c`.
pub uninterp spec fn upper_of(c: char) -> Seq<char>;

/// A piece with its first character replaced by `upper`; an empty piece stays empty.
pub open spec fn with_first_replaced(piece: Seq<char>, upper: Seq<char>) -> Seq<char> {
    if piece.len() == 0 {
        piece
    } else {
        upper + piece.drop_first()
    }
}

/// A piece with its first character in upper case.
pub open spec fn capitalized(piece: Seq<char>) -> Seq<char> {
    if piece.len() == 0 {
        piece
    } else {
        with_first_replaced(piece, upper_of(piece[0]))
    }
}

/// What capitalizing the pieces between occurrences of `sep` makes of one row:
/// the pieces, each with its first character in upper case, with `sep` between
/// them again; null for a null row.
pub open spec fn capitalize_row(x: Option<Seq<char>>, sep: Seq<char>) -> Option<Seq<char>> {
    match x {
        None => None,
        Some(t) => Some(joined(split_on(t, sep).map_values(|p: Seq<char>| capitalized(p)), sep)),
    }
}

/// Tells whether `sep` stands in `text` at position `at`.
fn stands_at(text: &Vec<char>, sep: &Vec<char>, at: usize) -> (found: bool)
    requires
        at + sep.len() <= text.len(),
    ensures
        found == occurs_at(text@, sep@, at as int),
{
    let mut k: usize = 0;
    while k < sep.len()
        invariant
            k <= sep.len(),
            at + sep.len() <= text.len(),
            forall|j: int| 0 <= j < k ==> text@[at + j] == sep@[j],
        decreases sep.len() - k,
    {
        if text[at + k] != sep[k] {
            assert(text@.subrange(at as int, at + sep.len())[k as int] != sep@[k as int]);
            return false;
        }
        k += 1;
    }
    assert(text@.subrange(at as int, at + sep.len()) =~= sep@);
    true
}

/// Cuts `text` at each occurrence of `sep`, as `str::split` does.
pub fn split_text(text: &str, sep: &str) -> (pieces: Vec<String>)
    ensures
        pieces.deep_view() == split_on(text@, sep@),
{
    let chars = to_chars(text);
    let mark = to_chars(sep);
    let mut pieces: Vec<String> = Vec::new();
    if mark.len() == 0 {
        pieces.push(String::new());
        let mut i: usize = 0;
        while i < chars.len()
            invariant
                i <= chars.len(),
                pieces@.len() == i + 1,
                forall|j: int|
                    0 <= j <= i ==> (#[trigger] pieces@[j])@ == split_apart(chars@)[j],
            decreases chars.len() - i,
        {
            pieces.push(from_chars(&chars, i, i + 1));
            assert(chars@.subrange(i as int, i + 1) =~= seq![chars@[i as int]]);
            i += 1;
        }
        pieces.push(String::new());
        assert(pieces.deep_view() =~= split_apart(chars@));
        return pieces;
    }
    let mut start: usize = 0;
    let mut at: usize = 0;
    while chars.len() - at >= mark.len()
        invariant
            mark.len() > 0,
            start <= at <= chars.len(),
            pieces.deep_view() + split_from(chars@, mark@, start as int, at as int) == split_on(
                chars@,
                mark@,
            ),
        decreases chars.len() - at,
    {
        let ghost before = pieces.deep_view();
        if stands_at(&chars, &mark, at) {
            pieces.push(from_chars(&chars, start, at));
            assert(pieces.deep_view() =~= before + seq![chars@.subrange(start as int, at as int)]);
            at += mark.len();
            start = at;
        } else {
            at += 1;
        }
    }
    let ghost before = pieces.deep_view();
    pieces.push(from_chars(&chars, start, chars.len()));
    assert(pieces.deep_view() =~= before + seq![
        chars@.subrange(start as int, chars.len() as int),
    ]);
    pieces
}

/// Calls `char::to_uppercase` and collects the characters it yields. Taken on
/// trust: they depend on the character alone.
#[verifier::external_body]
fn upper_chars(c: char) -> (up: String)
    ensures
        up@ == upper_of(c),
{
    c.to_uppercase().collect()
}

/// Replaces the first character of `piece` by `upper`.
pub fn replace_first(piece: &str, upper: &str) -> (out: String)
    ensures
        out@ == with_first_replaced(piece@, upper@),
{
    if piece.is_empty() {
        String::new()
    } else {
        let n = piece.unicode_len();
        let rest = piece.substring_char(1, n);
        let mut out = String::from_str(upper);
        out.append(rest);
        assert(piece@.drop_first() == piece@.subrange(1, n as int));
        out
    }
}

/// Puts the first character of `piece` in upper case.
pub fn capitalize(piece: &str) -> (out: String)
    ensures
        out@ == capitalized(piece@),
{
    if piece.is_empty() {
        String::new()
    } else {
        let first = piece.get_char(0);
        let upper = upper_chars(first);
        replace_first(piece, upper.as_str())
    }
}

/// Capitalizes every piece and joins the results with `sep` between them.
pub fn capitalize_join(pieces: &Vec<String>, sep: &str) -> (out: String)
    ensures
        out@ == joined(pieces.deep_view().map_values(|p: Seq<char>| capitalized(p)), sep@),
{
    let ghost done = pieces.deep_view().map_values(|p: Seq<char>| capitalized(p));
    let mut out = String::new();
    let mut i: usize = 0;
    while i < pieces.len()
        invariant
            i <= pieces.len(),
            done == pieces.deep_view().map_values(|p: Seq<char>| capitalized(p)),
            out@ == joined(done.take(i as int), sep@),
        decreases pieces.len() - i,
    {
        let piece = capitalize(pieces[i].as_str());
        proof {
            let before = done.take(i as int);
            let after = done.take(i + 1);
            assert(after.drop_last() == before);
            assert(after.last() == piece@);
        }
        if i > 0 {
            out.append(sep);
        }
        out.append(piece.as_str());
        i += 1;
    }
    assert(done.take(pieces.len() as int) == done);
    out
}

/// Upper-cases the first character of every piece of `x` between occurrences
/// of `seperator`; a null row stays null.
pub fn to_upper<'a>(x: Option<&'a str>, seperator: &str) -> (r: Option<Cow<'a, str>>)
    ensures
        r.deep_view() == capitalize_row(x.deep_view(), seperator@),
{
    match x {
        None => None,
        Some(s) => {
            let pieces = split_text(s, seperator);
            let out = capitalize_join(&pieces, seperator);
            Some(Cow::Owned(out))
        },
    }
}

} // verus!
