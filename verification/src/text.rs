use crate::sides::{Keep, Side};
use vstd::prelude::*;
use vstd::string::StringSliceAdditionalSpecFns;
use vstd::utf8::{
    decode_utf8, encode_utf8, encode_utf8_decode_utf8, encode_utf8_valid_utf8, is_char_boundary,
    is_char_boundary_iff_not_is_continuation_byte, is_char_boundary_start_end_of_seq, valid_utf8,
    valid_utf8_split,
};

verus! {

/// Whether `char::is_whitespace` holds of `c`.
pub uninterp spec fn is_whitespace(c: char) -> bool;

/// The text that `str::to_uppercase` gives for `text`.
pub uninterp spec fn uppercase_of(text: Seq<char>) -> Seq<char>;

/// The text that `str::to_lowercase` gives for `text`.
pub uninterp spec fn lowercase_of(text: Seq<char>) -> Seq<char>;

/// The ASCII transliteration that `unidecode::unidecode` gives for `text`.
pub uninterp spec fn unidecoded(text: Seq<char>) -> Seq<char>;

/// The number of bytes of the UTF-8 encoding of `text`.
pub open spec fn byte_len(text: Seq<char>) -> nat {
    encode_utf8(text).len()
}

/// The number of bytes of `text` as `str::len` counts them.
pub open spec fn len_of(text: Seq<char>) -> usize {
    byte_len(text) as usize
}

/// Whether the bytes from `start` up to `end` of the encoding of `text` are a
/// text of their own: the range is in order, inside the text, and cuts no
/// character.
pub open spec fn range_ok(text: Seq<char>, start: int, end: int) -> bool {
    &&& 0 <= start <= end <= byte_len(text)
    &&& is_char_boundary(encode_utf8(text), start)
    &&& is_char_boundary(encode_utf8(text), end)
}

/// The text whose encoding is the bytes from `start` up to `end` of the
/// encoding of `text`; `None` where that range is no text.
pub open spec fn text_between(text: Seq<char>, start: int, end: int) -> Option<Seq<char>> {
    if range_ok(text, start, end) {
        Some(decode_utf8(encode_utf8(text).subrange(start, end)))
    } else {
        None
    }
}

/// `text` without its leading whitespace.
pub open spec fn trim_start_of(text: Seq<char>) -> Seq<char>
    decreases text.len(),
{
    if text.len() > 0 && is_whitespace(text[0]) {
        trim_start_of(text.drop_first())
    } else {
        text
    }
}

/// `text` without its trailing whitespace.
pub open spec fn trim_end_of(text: Seq<char>) -> Seq<char>
    decreases text.len(),
{
    if text.len() > 0 && is_whitespace(text.last()) {
        trim_end_of(text.drop_last())
    } else {
        text
    }
}

/// `text` without its leading and trailing whitespace.
pub open spec fn trim_of(text: Seq<char>) -> Seq<char> {
    trim_end_of(trim_start_of(text))
}

/// The maximal runs of non-whitespace characters of `text`, in order.
pub open spec fn words_of(text: Seq<char>) -> Seq<Seq<char>>
    decreases text.len(),
{
    if text.len() == 0 {
        Seq::empty()
    } else {
        let before = words_of(text.drop_last());
        if is_whitespace(text.last()) {
            before
        } else if text.len() >= 2 && !is_whitespace(text[text.len() - 2]) {
            before.drop_last().push(before.last().push(text.last()))
        } else {
            before.push(seq![text.last()])
        }
    }
}

/// The pieces, with `sep` between each two neighbours, in one text.
pub open spec fn joined(pieces: Seq<Seq<char>>, sep: Seq<char>) -> Seq<char>
    decreases pieces.len(),
{
    if pieces.len() == 0 {
        Seq::empty()
    } else if pieces.len() == 1 {
        pieces[0]
    } else {
        joined(pieces.drop_last(), sep) + sep + pieces.last()
    }
}

/// `text` with each stretch of whitespace between two words made one space,
/// and none left at the ends.
pub open spec fn squished(text: Seq<char>) -> Seq<char> {
    joined(words_of(text), seq![' '])
}

/// `count` copies of `unit`, one after another.
pub open spec fn repeated(unit: Seq<char>, count: nat) -> Seq<char>
    decreases count,
{
    if count == 0 {
        Seq::empty()
    } else {
        repeated(unit, (count - 1) as nat) + unit
    }
}

/// A character boundary of a text is one of each part of the text that starts
/// at the start of the text and ends at or after it.
pub proof fn lemma_boundary_in_head(bytes: Seq<u8>, start: int, end: int)
    requires
        valid_utf8(bytes),
        0 <= start <= end <= bytes.len(),
        is_char_boundary(bytes, start),
        is_char_boundary(bytes, end),
    ensures
        valid_utf8(bytes.subrange(0, end)),
        is_char_boundary(bytes.subrange(0, end), start),
{
    let head = bytes.subrange(0, end);
    valid_utf8_split(bytes, end);
    if start == end {
        is_char_boundary_start_end_of_seq(head);
    } else if start > 0 {
        is_char_boundary_iff_not_is_continuation_byte(bytes, start);
        is_char_boundary_iff_not_is_continuation_byte(head, start);
    }
}

/// The part of `text` from byte `start` up to byte `end`, or nothing where
/// the two offsets are out of order, past the end, or inside a character.
pub fn substring<'a>(text: &'a str, start: usize, end: usize) -> (part: Option<&'a str>)
    ensures
        part.deep_view() == text_between(text@, start as int, end as int),
{
    let len = text.as_bytes().len();
    if start <= end && end <= len && text.is_char_boundary(start) && text.is_char_boundary(end) {
        let ghost bytes = encode_utf8(text@);
        proof {
            encode_utf8_valid_utf8(text@);
            lemma_boundary_in_head(bytes, start as int, end as int);
        }
        let (head, _) = text.split_at(end);
        let (_, part) = head.split_at(start);
        proof {
            assert(part.spec_bytes() =~= bytes.subrange(start as int, end as int));
            encode_utf8_decode_utf8(part@);
        }
        Some(part)
    } else {
        None
    }
}

/// Calls `char::is_whitespace`. Taken on trust: the answer depends on the
/// character alone.
#[verifier::external_body]
pub(crate) fn is_space(c: char) -> (b: bool)
    ensures
        b == is_whitespace(c),
{
    c.is_whitespace()
}

/// The characters of `text`, in order.
pub fn to_chars(text: &str) -> (chars: Vec<char>)
    ensures
        chars@ == text@,
{
    let mut chars: Vec<char> = Vec::new();
    for c in it: text.chars()
        invariant
            chars@ == it.seq().take(it.index() as int),
            it.seq() == text@,
    {
        chars.push(c);
    }
    chars
}

/// Calls `str::to_uppercase`. Taken on trust: the result depends on the text
/// alone.
#[verifier::external_body]
pub(crate) fn uppercase(text: &str) -> (out: String)
    ensures
        out@ == uppercase_of(text@),
{
    text.to_uppercase()
}

/// Calls `str::to_lowercase`. Taken on trust: the result depends on the text
/// alone.
#[verifier::external_body]
pub(crate) fn lowercase(text: &str) -> (out: String)
    ensures
        out@ == lowercase_of(text@),
{
    text.to_lowercase()
}

/// Calls `unidecode::unidecode`. Taken on trust: the result depends on the
/// text alone.
#[verifier::external_body]
pub(crate) fn unidecode(text: &str) -> (out: String)
    ensures
        out@ == unidecoded(text@),
{
    unidecode::unidecode(text)
}

/// Calls `String::push`. Taken on trust: it appends the character and changes
/// nothing else.
#[verifier::external_body]
pub(crate) fn push_char(text: &mut String, c: char)
    ensures
        final(text)@ == old(text)@.push(c),
{
    text.push(c)
}

/// The text made of the characters `chars[start..end]`.
pub(crate) fn from_chars(chars: &Vec<char>, start: usize, end: usize) -> (out: String)
    requires
        start <= end <= chars.len(),
    ensures
        out@ == chars@.subrange(start as int, end as int),
{
    let mut out = String::new();
    let mut i: usize = start;
    while i < end
        invariant
            start <= i <= end <= chars.len(),
            out@ == chars@.subrange(start as int, i as int),
        decreases end - i,
    {
        push_char(&mut out, chars[i]);
        i += 1;
    }
    out
}

/// Leading whitespace does not change what is left after trimming at the start.
pub proof fn lemma_trim_start_skips(text: Seq<char>, k: int)
    requires
        0 <= k <= text.len(),
        forall|j: int| 0 <= j < k ==> is_whitespace(#[trigger] text[j]),
    ensures
        trim_start_of(text) == trim_start_of(text.subrange(k, text.len() as int)),
    decreases k,
{
    if k == 0 {
        assert(text.subrange(0, text.len() as int) == text);
    } else {
        let rest = text.drop_first();
        assert forall|j: int| 0 <= j < k - 1 implies is_whitespace(#[trigger] rest[j]) by {
            assert(rest[j] == text[j + 1]);
        }
        lemma_trim_start_skips(rest, k - 1);
        assert(rest.subrange(k - 1, rest.len() as int) == text.subrange(k, text.len() as int));
    }
}

/// Trailing whitespace does not change what is left after trimming at the end.
pub proof fn lemma_trim_end_skips(text: Seq<char>, k: int)
    requires
        0 <= k <= text.len(),
        forall|j: int| k <= j < text.len() ==> is_whitespace(#[trigger] text[j]),
    ensures
        trim_end_of(text) == trim_end_of(text.subrange(0, k)),
    decreases text.len() - k,
{
    if k == text.len() {
        assert(text.subrange(0, k) == text);
    } else {
        let init = text.drop_last();
        lemma_trim_end_skips(init, k);
        assert(init.subrange(0, k) == text.subrange(0, k));
    }
}

/// The index of the first character that is no whitespace, or the length.
pub(crate) fn first_non_space(chars: &Vec<char>) -> (k: usize)
    ensures
        k <= chars.len(),
        forall|j: int| 0 <= j < k ==> is_whitespace(#[trigger] chars[j]),
        k < chars.len() ==> !is_whitespace(chars[k as int]),
        trim_start_of(chars@) == chars@.subrange(k as int, chars.len() as int),
{
    let mut k: usize = 0;
    while k < chars.len() && is_space(chars[k])
        invariant
            k <= chars.len(),
            forall|j: int| 0 <= j < k ==> is_whitespace(#[trigger] chars[j]),
        decreases chars.len() - k,
    {
        k += 1;
    }
    proof {
        lemma_trim_start_skips(chars@, k as int);
    }
    k
}

/// The index just after the last character at or after `from` that is no
/// whitespace, or `from` where there is none.
pub(crate) fn last_non_space(chars: &Vec<char>, from: usize) -> (k: usize)
    requires
        from <= chars.len(),
    ensures
        from <= k <= chars.len(),
        forall|j: int| k <= j < chars.len() ==> is_whitespace(#[trigger] chars[j]),
        k > from ==> !is_whitespace(chars[k - 1]),
        trim_end_of(chars@.subrange(from as int, chars.len() as int)) == chars@.subrange(
            from as int,
            k as int,
        ),
{
    let mut k: usize = chars.len();
    while k > from && is_space(chars[k - 1])
        invariant
            from <= k <= chars.len(),
            forall|j: int| k <= j < chars.len() ==> is_whitespace(#[trigger] chars[j]),
        decreases k,
    {
        k -= 1;
    }
    proof {
        let tail = chars@.subrange(from as int, chars.len() as int);
        lemma_trim_end_skips(tail, k - from);
        assert(tail.subrange(0, k - from) == chars@.subrange(from as int, k as int));
    }
    k
}

/// Joins the words of `text` with single spaces.
pub fn squish_text(text: &str) -> (out: String)
    ensures
        out@ == squished(text@),
{
    let mut out = String::new();
    let mut in_word = false;
    let mut any = false;
    for c in it: text.chars()
        invariant
            it.seq() == text@,
            out@ == squished(it.seq().take(it.index() as int)),
            in_word == (it.index() > 0 && !is_whitespace(it.seq()[it.index() - 1])),
            any == (words_of(it.seq().take(it.index() as int)).len() > 0),
            in_word ==> any,
    {
        let ghost before = text@.take(it.index() as int);
        let ghost after = text@.take(it.index() + 1);
        proof {
            assert(after.drop_last() == before);
            assert(after.last() == c);
            if it.index() > 0 {
                assert(after[after.len() - 2] == text@[it.index() - 1]);
            }
        }
        if is_space(c) {
            in_word = false;
        } else {
            if !in_word && any {
                push_char(&mut out, ' ');
            }
            push_char(&mut out, c);
            proof {
                let w = words_of(before);
                let w2 = words_of(after);
                let sp = seq![' '];
                if in_word {
                    assert(w2 == w.drop_last().push(w.last().push(c)));
                    assert(w2.last() == w.last().push(c));
                    if w.len() >= 2 {
                        assert(w2.drop_last() == w.drop_last());
                    }
                    assert(joined(w2, sp) == joined(w, sp).push(c));
                } else {
                    assert(w2 == w.push(seq![c]));
                    assert(w2.drop_last() == w);
                    assert(joined(w2, sp) == if w.len() == 0 {
                        seq![c]
                    } else {
                        joined(w, sp) + sp + seq![c]
                    });
                }
            }
            in_word = true;
            any = true;
        }
    }
    assert(text@.take(text@.len() as int) == text@);
    out
}

/// `text` trimmed on the given side.
pub open spec fn trimmed(text: Seq<char>, side: Side) -> Seq<char> {
    match side {
        Side::Left => trim_start_of(text),
        Side::Right => trim_end_of(text),
        Side::Both => trim_of(text),
    }
}

/// Removes the whitespace at the given end, or ends, of `text`.
pub fn trim_text(text: &str, side: Side) -> (out: String)
    ensures
        out@ == trimmed(text@, side),
{
    let chars = to_chars(text);
    assert(chars@.subrange(0, chars.len() as int) == chars@);
    match side {
        Side::Left => {
            let k = first_non_space(&chars);
            from_chars(&chars, k, chars.len())
        },
        Side::Right => {
            let k = last_non_space(&chars, 0);
            from_chars(&chars, 0, k)
        },
        Side::Both => {
            let k = first_non_space(&chars);
            let j = last_non_space(&chars, k);
            from_chars(&chars, k, j)
        },
    }
}

/// Repeating the empty text gives the empty text.
pub proof fn lemma_repeated_empty(count: nat)
    ensures
        repeated(Seq::empty(), count) == Seq::<char>::empty(),
    decreases count,
{
    if count > 0 {
        lemma_repeated_empty((count - 1) as nat);
    }
}

/// `times` copies of `text`, one after another.
pub fn repeat_text(text: &str, times: usize) -> (out: String)
    ensures
        out@ == repeated(text@, times as nat),
{
    let mut out = String::new();
    if text.is_empty() {
        proof {
            assert(text@ == Seq::<char>::empty());
            lemma_repeated_empty(times as nat);
        }
        return out;
    }
    let mut i: usize = 0;
    while i < times
        invariant
            i <= times,
            out@ == repeated(text@, i as nat),
        decreases times - i,
    {
        out.append(text);
        i += 1;
    }
    out
}

/// How many of `count` padding characters go to the left of the text. Padding
/// on both sides gives the left half the bytes of the padding, counted in
/// characters: half of them where `pad` takes one byte, all of them otherwise.
pub open spec fn left_share(count: int, side: Side, pad: char) -> int {
    match side {
        Side::Left => count,
        Side::Right => 0,
        Side::Both => if (pad as u32) < 0x80 {
            count / 2
        } else {
            count
        },
    }
}

/// `text` with as many `pad` characters added as it has bytes fewer than
/// `width`; unchanged where it has more than `width` bytes already. With a
/// `pad` of one byte the result has `width` bytes.
pub open spec fn padded(text: Seq<char>, width: int, side: Side, pad: char) -> Seq<char> {
    if width < len_of(text) {
        text
    } else {
        let count = width - len_of(text);
        let left = left_share(count, side, pad);
        repeated(seq![pad], left as nat) + text + repeated(seq![pad], (count - left) as nat)
    }
}

/// Appends `count` copies of `pad` to `out`.
pub fn push_repeated(out: &mut String, pad: char, count: usize)
    ensures
        final(out)@ == old(out)@ + repeated(seq![pad], count as nat),
{
    let mut i: usize = 0;
    while i < count
        invariant
            i <= count,
            out@ == old(out)@ + repeated(seq![pad], i as nat),
        decreases count - i,
    {
        push_char(out, pad);
        i += 1;
    }
}

/// Adds to `text`, on the given side, as many `pad` characters as it has
/// bytes fewer than `width`.
pub fn pad_text(text: &str, width: i32, side: Side, pad: char) -> (out: String)
    ensures
        out@ == padded(text@, width as int, side, pad),
{
    let len = text.len();
    if width < 0 || (width as usize) < len {
        return text.to_owned();
    }
    let count: usize = width as usize - len;
    let left: usize = match side {
        Side::Left => count,
        Side::Right => 0,
        Side::Both => if (pad as u32) < 0x80 {
            count / 2
        } else {
            count
        },
    };
    let mut out = String::new();
    push_repeated(&mut out, pad, left);
    out.append(text);
    push_repeated(&mut out, pad, count - left);
    out
}

/// The byte offset that a signed index means in a text of `len` bytes: from the
/// start where it is not negative, from the end where it is, and never outside
/// the text.
pub open spec fn resolve_index(idx: int, len: int) -> int {
    if idx >= len {
        len
    } else if idx >= 0 {
        idx
    } else if idx > -len {
        len + idx
    } else {
        0
    }
}

/// Resolves a signed index against a text of `len` bytes.
pub fn resolve(idx: i32, len: usize) -> (at: usize)
    ensures
        at == resolve_index(idx as int, len as int),
        at <= len,
{
    if idx >= 0 {
        if idx as usize >= len {
            len
        } else {
            idx as usize
        }
    } else {
        let back: usize = (-(idx as i64)) as usize;
        if back < len {
            len - back
        } else {
            0
        }
    }
}

/// The part of `text` between two signed byte indices; `None` where the
/// resolved offsets are out of order or cut a character.
pub open spec fn sub_of(text: Seq<char>, start: int, end: int) -> Option<Seq<char>> {
    text_between(
        text,
        resolve_index(start, len_of(text) as int),
        resolve_index(end, len_of(text) as int),
    )
}

/// Cuts the part of `text` between two signed byte indices.
pub fn sub_text(text: &str, start: i32, end: i32) -> (out: Option<String>)
    ensures
        out.deep_view() == sub_of(text@, start as int, end as int),
{
    let len = text.len();
    match substring(text, resolve(start, len), resolve(end, len)) {
        Some(part) => Some(part.to_owned()),
        None => None,
    }
}

/// `text` cut down to `width` bytes, with `ellipsis` where the cut was made.
/// A text shorter than `width` is unchanged. `None` where a cut would fall
/// inside a character.
pub open spec fn truncated(text: Seq<char>, width: usize, keep: Keep, ellipsis: Seq<char>) -> Option<
    Seq<char>,
> {
    let len = len_of(text);
    if len < width {
        Some(text)
    } else {
        match keep {
            Keep::Left => match text_between(text, 0, width as int) {
                Some(head) => Some(head + ellipsis),
                None => None,
            },
            Keep::Right => match text_between(text, len - width, len as int) {
                Some(tail) => Some(ellipsis + tail),
                None => None,
            },
            Keep::Center => match (
                text_between(text, 0, (width / 2) as int),
                text_between(text, len - (width - width / 2), len as int),
            ) {
                (Some(head), Some(tail)) => Some(head + ellipsis + tail),
                _ => None,
            },
        }
    }
}

/// Cuts `text` down to `width` bytes and marks the cut with `ellipsis`.
pub fn truncate_text(text: &str, width: usize, keep: Keep, ellipsis: &str) -> (out: Option<String>)
    ensures
        out.deep_view() == truncated(text@, width, keep, ellipsis@),
{
    let len = text.len();
    if len < width {
        return Some(text.to_owned());
    }
    match keep {
        Keep::Left => match substring(text, 0, width) {
            Some(head) => {
                let mut out = head.to_owned();
                out.append(ellipsis);
                Some(out)
            },
            None => None,
        },
        Keep::Right => match substring(text, len - width, len) {
            Some(tail) => {
                let mut out = ellipsis.to_owned();
                out.append(tail);
                Some(out)
            },
            None => None,
        },
        Keep::Center => {
            let first = width / 2;
            let last = width - first;
            match (substring(text, 0, first), substring(text, len - last, len)) {
                (Some(head), Some(tail)) => {
                    let mut out = head.to_owned();
                    out.append(ellipsis);
                    out.append(tail);
                    Some(out)
                },
                _ => None,
            }
        },
    }
}

/// The character of a decimal digit.
pub open spec fn digit_char(d: int) -> char {
    if d == 0 {
        '0'
    } else if d == 1 {
        '1'
    } else if d == 2 {
        '2'
    } else if d == 3 {
        '3'
    } else if d == 4 {
        '4'
    } else if d == 5 {
        '5'
    } else if d == 6 {
        '6'
    } else if d == 7 {
        '7'
    } else if d == 8 {
        '8'
    } else {
        '9'
    }
}

/// The decimal numeral of `n`, without leading zeros.
pub open spec fn decimal(n: nat) -> Seq<char>
    decreases n,
{
    if n < 10 {
        seq![digit_char(n as int)]
    } else {
        decimal(n / 10).push(digit_char((n % 10) as int))
    }
}

/// The character of the last decimal digit of `n`.
fn last_digit(n: usize) -> (c: char)
    ensures
        c == digit_char((n % 10) as int),
{
    let d = n % 10;
    if d == 0 {
        '0'
    } else if d == 1 {
        '1'
    } else if d == 2 {
        '2'
    } else if d == 3 {
        '3'
    } else if d == 4 {
        '4'
    } else if d == 5 {
        '5'
    } else if d == 6 {
        '6'
    } else if d == 7 {
        '7'
    } else if d == 8 {
        '8'
    } else {
        '9'
    }
}

/// Writes `n` in decimal.
pub fn to_decimal(n: usize) -> (out: String)
    ensures
        out@ == decimal(n as nat),
    decreases n,
{
    if n < 10 {
        let mut out = String::new();
        push_char(&mut out, last_digit(n));
        out
    } else {
        let mut out = to_decimal(n / 10);
        push_char(&mut out, last_digit(n));
        out
    }
}

} // verus!
