//! Texts cut into pieces at a separator, and whole numbers read from digits.

use vstd::prelude::*;

verus! {

/// Position of the first `sep` in `text`, or the length of `text` when there
/// is none.
pub open spec fn first_position(text: Seq<char>, sep: char) -> int
    decreases text.len(),
{
    if text.len() == 0 || text[0] == sep {
        0
    } else {
        1 + first_position(text.drop_first(), sep)
    }
}

/// What stands before the first `sep`: all of `text` when there is none.
pub open spec fn first_token(text: Seq<char>, sep: char) -> Seq<char> {
    text.take(first_position(text, sep))
}

/// What stands after the first `sep`, if there is one.
pub open spec fn after_first(text: Seq<char>, sep: char) -> Option<Seq<char>> {
    if first_position(text, sep) < text.len() {
        Some(text.skip(first_position(text, sep) + 1))
    } else {
        None
    }
}

/// The pieces of `text` between the occurrences of `sep`, in order. There is
/// always at least one piece, and pieces may be empty.
pub open spec fn split(text: Seq<char>, sep: char) -> Seq<Seq<char>>
    decreases text.len(),
{
    let at = first_position(text, sep);
    if 0 <= at < text.len() {
        seq![text.take(at)] + split(text.skip(at + 1), sep)
    } else {
        seq![text]
    }
}

/// Whether `c` is one of the ten digits.
pub open spec fn is_digit(c: char) -> bool {
    '0' <= c <= '9'
}

/// Whether `text` holds digits only.
pub open spec fn all_digits(text: Seq<char>) -> bool {
    forall|i: int| 0 <= i < text.len() ==> is_digit(#[trigger] text[i])
}

/// The number written by the digits of `start` followed by `digits`.
pub open spec fn extend_number(start: nat, digits: Seq<char>) -> nat
    decreases digits.len(),
{
    if digits.len() == 0 {
        start
    } else {
        extend_number(start, digits.drop_last()) * 10 + (digits.last() as nat - '0' as nat) as nat
    }
}

/// The number that a run of digits writes in base ten; nothing is zero.
pub open spec fn number_of(digits: Seq<char>) -> nat {
    extend_number(0, digits)
}

/// The number written by `text`: an optional `+`, then at least one digit
/// and digits only, naming a number that fits 64 bits.
pub open spec fn decimal_u64(text: Seq<char>) -> Option<u64> {
    let digits = if text.len() > 0 && text[0] == '+' {
        text.drop_first()
    } else {
        text
    };
    if digits.len() > 0 && all_digits(digits) && number_of(digits) <= u64::MAX {
        Some(number_of(digits) as u64)
    } else {
        None
    }
}

/// The characters of each of `texts`, in order.
pub open spec fn texts_of(texts: Seq<String>) -> Seq<Seq<char>> {
    texts.map_values(|t: String| t@)
}

/// The first position is within `text`, nothing before it is `sep`, and
/// where it is short of the end it holds `sep`.
pub proof fn lemma_first_position(text: Seq<char>, sep: char)
    ensures
        0 <= first_position(text, sep) <= text.len(),
        forall|i: int| 0 <= i < first_position(text, sep) ==> text[i] != sep,
        first_position(text, sep) < text.len() ==> text[first_position(text, sep)] == sep,
    decreases text.len(),
{
    if !(text.len() == 0 || text[0] == sep) {
        let rest = text.drop_first();
        lemma_first_position(rest, sep);
        assert forall|i: int| 0 <= i < first_position(text, sep) implies text[i] != sep by {
            if i > 0 {
                assert(rest[i - 1] != sep);
            }
        }
    }
}

/// A position that holds `sep` (or the end), with no `sep` before it, is
/// the first position.
proof fn lemma_first_position_is(text: Seq<char>, sep: char, at: int)
    requires
        0 <= at <= text.len(),
        forall|i: int| 0 <= i < at ==> text[i] != sep,
        at < text.len() ==> text[at] == sep,
    ensures
        first_position(text, sep) == at,
{
    lemma_first_position(text, sep);
    let p = first_position(text, sep);
    if p < at {
        assert(text[p] != sep);
    }
}

/// Splitting after a first piece: the pieces of `text` are its first token
/// and then the pieces of what follows the first `sep`.
pub proof fn lemma_split_unfold(text: Seq<char>, sep: char)
    ensures
        split(text, sep).len() >= 1,
        split(text, sep)[0] == first_token(text, sep),
        match after_first(text, sep) {
            Some(rest) => split(text, sep).skip(1) == split(rest, sep),
            None => split(text, sep).len() == 1,
        },
{
    lemma_first_position(text, sep);
    let at = first_position(text, sep);
    if at < text.len() {
        assert(split(text, sep).skip(1) =~= split(text.skip(at + 1), sep));
    } else {
        assert(text.take(at) =~= text);
    }
}

/// Writing `more` after `digits` extends the number of `digits`.
pub proof fn lemma_extend_number(digits: Seq<char>, more: Seq<char>)
    ensures
        extend_number(number_of(digits), more) == number_of(digits + more),
    decreases more.len(),
{
    if more.len() == 0 {
        assert(digits + more =~= digits);
    } else {
        lemma_extend_number(digits, more.drop_last());
        assert((digits + more).drop_last() =~= digits + more.drop_last());
    }
}

/// A number grows with every digit written after it.
pub proof fn lemma_extend_number_prefix(start: nat, digits: Seq<char>, n: int)
    requires
        0 <= n <= digits.len(),
        all_digits(digits),
    ensures
        extend_number(start, digits.take(n)) <= extend_number(start, digits),
    decreases digits.len() - n,
{
    if n == digits.len() {
        assert(digits.take(n) =~= digits);
    } else {
        assert(digits.take(n + 1).drop_last() =~= digits.take(n));
        assert(is_digit(digits[n]));
        lemma_extend_number_prefix(start, digits, n + 1);
    }
}

/// The characters of `text`, one by one.
pub fn chars_of(text: &str) -> (chars: Vec<char>)
    ensures
        chars@ == text@,
{
    let mut chars: Vec<char> = Vec::new();
    for c in it: text.chars()
        invariant
            it.seq() == text@,
            chars@ == it.seq().take(it.index() as int),
    {
        chars.push(c);
    }
    chars
}

/// Position of the first `sep` at or after `from`, or the length of `chars`
/// when there is none.
pub(crate) fn find_from(chars: &Vec<char>, from: usize, sep: char) -> (at: usize)
    requires
        from <= chars@.len(),
    ensures
        from <= at <= chars@.len(),
        at == from + first_position(chars@.skip(from as int), sep),
{
    let mut at: usize = from;
    while at < chars.len() && chars[at] != sep
        invariant
            from <= at <= chars@.len(),
            forall|i: int| from <= i < at ==> chars@[i] != sep,
        decreases chars@.len() - at,
    {
        at = at + 1;
    }
    proof {
        lemma_first_position_is(chars@.skip(from as int), sep, at - from);
    }
    at
}

/// Reads the characters from `from` up to `to` as digits written after the
/// number `start`. There is no result when one of them is no digit or the
/// number does not fit 128 bits.
pub(crate) fn read_digits(chars: &Vec<char>, from: usize, to: usize, start: u128) -> (value: Option<u128>)
    requires
        from <= to <= chars@.len(),
    ensures
        value == if all_digits(chars@.subrange(from as int, to as int)) && extend_number(
            start as nat,
            chars@.subrange(from as int, to as int),
        ) <= u128::MAX {
            Some(extend_number(start as nat, chars@.subrange(from as int, to as int)) as u128)
        } else {
            None
        },
{
    let ghost digits = chars@.subrange(from as int, to as int);
    let mut value: u128 = start;
    let mut i: usize = from;
    proof {
        assert(digits.take(0) =~= Seq::<char>::empty());
    }
    while i < to
        invariant
            from <= i <= to <= chars@.len(),
            digits == chars@.subrange(from as int, to as int),
            all_digits(digits.take(i - from)),
            value == extend_number(start as nat, digits.take(i - from)),
        decreases to - i,
    {
        let c = chars[i];
        proof {
            assert(digits[i - from] == c);
            assert(digits.take(i - from + 1).drop_last() =~= digits.take(i - from));
        }
        if !('0' <= c && c <= '9') {
            return None;
        }
        let digit: u128 = (c as u32 - '0' as u32) as u128;
        if value > (u128::MAX - digit) / 10 {
            proof {
                if all_digits(digits) {
                    lemma_extend_number_prefix(start as nat, digits, i - from + 1);
                }
            }
            return None;
        }
        value = value * 10 + digit;
        i = i + 1;
    }
    proof {
        assert(digits.take(i - from) =~= digits);
    }
    Some(value)
}

/// Reads the number written by the characters from `from` up to `to`.
pub(crate) fn parse_decimal_u64(chars: &Vec<char>, from: usize, to: usize) -> (number: Option<u64>)
    requires
        from <= to <= chars@.len(),
    ensures
        number == decimal_u64(chars@.subrange(from as int, to as int)),
{
    let ghost text = chars@.subrange(from as int, to as int);
    let start: usize = if from < to && chars[from] == '+' {
        from + 1
    } else {
        from
    };
    proof {
        let digits = chars@.subrange(start as int, to as int);
        if start == from {
            assert(digits =~= text);
        } else {
            assert(digits =~= text.drop_first());
        }
    }
    if start == to {
        return None;
    }
    match read_digits(chars, start, to, 0) {
        Some(value) => if value <= u64::MAX as u128 {
            Some(value as u64)
        } else {
            None
        },
        None => None,
    }
}

/// Reads a whole number: an optional `+`, then digits.
pub fn parse_u64(text: &str) -> (number: Option<u64>)
    ensures
        number == decimal_u64(text@),
{
    let chars = chars_of(text);
    proof {
        assert(chars@.subrange(0, chars@.len() as int) =~= text@);
    }
    parse_decimal_u64(&chars, 0, chars.len())
}

/// The pieces of `text` between the occurrences of `sep`, in order.
pub fn split_on(text: &str, sep: char) -> (pieces: Vec<String>)
    ensures
        texts_of(pieces@) == split(text@, sep),
{
    let chars = chars_of(text);
    let ghost all = split(text@, sep);
    let mut pieces: Vec<String> = Vec::new();
    let mut start: usize = 0;
    proof {
        assert(chars@.skip(0) =~= chars@);
        assert(all.skip(0) =~= all);
        assert(texts_of(pieces@) =~= all.take(0));
    }
    loop
        invariant_except_break
            chars@ == text@,
            all == split(text@, sep),
            start <= chars@.len(),
            pieces@.len() <= all.len(),
            texts_of(pieces@) == all.take(pieces@.len() as int),
            all.skip(pieces@.len() as int) == split(chars@.skip(start as int), sep),
        ensures
            texts_of(pieces@) == split(text@, sep),
        decreases chars@.len() - start,
    {
        let end = find_from(&chars, start, sep);
        let piece = text.substring_char(start, end).to_owned();
        let ghost rest = chars@.skip(start as int);
        let ghost done = pieces@.len() as int;
        proof {
            lemma_split_unfold(rest, sep);
            assert(rest.take(end - start) =~= chars@.subrange(start as int, end as int));
            assert(all[done] == all.skip(done)[0]);
        }
        pieces.push(piece);
        proof {
            assert(texts_of(pieces@) =~= all.take(done + 1)) by {
                assert(all.take(done + 1) =~= all.take(done).push(all[done]));
                assert(texts_of(pieces@) =~= texts_of(pieces@.drop_last()).push(piece@));
            }
        }
        if end == chars.len() {
            proof {
                assert(all.skip(done).len() == 1);
                assert(all.take(done + 1) =~= all);
            }
            break ;
        }
        proof {
            assert(all.skip(done + 1) =~= all.skip(done).skip(1));
            assert(rest.skip(end - start + 1) =~= chars@.skip(end + 1));
        }
        start = end + 1;
    }
    pieces
}

/// Whether `c` is white space.
pub open spec fn is_space(c: char) -> bool {
    let code = c as u32;
    ||| 0x09 <= code <= 0x0d
    ||| code == 0x20
    ||| code == 0x85
    ||| code == 0xa0
    ||| code == 0x1680
    ||| 0x2000 <= code <= 0x200a
    ||| code == 0x2028
    ||| code == 0x2029
    ||| code == 0x202f
    ||| code == 0x205f
    ||| code == 0x3000
}

/// Position of the first character of `text` that is no white space, or
/// the length of `text` when there is none.
pub open spec fn first_mark(text: Seq<char>) -> int
    decreases text.len(),
{
    if text.len() == 0 || !is_space(text[0]) {
        0
    } else {
        1 + first_mark(text.drop_first())
    }
}

/// Position after the last character of `text` that is no white space, or
/// zero when there is none.
pub open spec fn last_mark_end(text: Seq<char>) -> int
    decreases text.len(),
{
    if text.len() == 0 || !is_space(text.last()) {
        text.len() as int
    } else {
        last_mark_end(text.drop_last())
    }
}

/// `text` without the white space at its start and at its end.
pub open spec fn trimmed(text: Seq<char>) -> Seq<char> {
    if first_mark(text) < last_mark_end(text) {
        text.subrange(first_mark(text), last_mark_end(text))
    } else {
        Seq::empty()
    }
}

/// Whether `c` is white space.
pub fn is_white_space(c: char) -> (space: bool)
    ensures
        space == is_space(c),
{
    let code: u32 = c as u32;
    (0x09 <= code && code <= 0x0d) || code == 0x20 || code == 0x85 || code == 0xa0 || code
        == 0x1680 || (0x2000 <= code && code <= 0x200a) || code == 0x2028 || code == 0x2029
        || code == 0x202f || code == 0x205f || code == 0x3000
}

/// A position with white space only before it, and none at it unless it is
/// the end, is the first mark.
proof fn lemma_first_mark_is(text: Seq<char>, at: int)
    requires
        0 <= at <= text.len(),
        forall|i: int| 0 <= i < at ==> is_space(text[i]),
        at < text.len() ==> !is_space(text[at]),
    ensures
        first_mark(text) == at,
    decreases at,
{
    if at > 0 {
        let rest = text.drop_first();
        assert(is_space(text[0]));
        assert forall|i: int| 0 <= i < at - 1 implies is_space(rest[i]) by {
            assert(is_space(text[i + 1]));
        }
        lemma_first_mark_is(rest, at - 1);
    }
}

/// A position with white space only from it on, and none before it unless
/// it is the start, is the end of the last mark.
proof fn lemma_last_mark_end_is(text: Seq<char>, at: int)
    requires
        0 <= at <= text.len(),
        forall|i: int| at <= i < text.len() ==> is_space(text[i]),
        at > 0 ==> !is_space(text[at - 1]),
    ensures
        last_mark_end(text) == at,
    decreases text.len() - at,
{
    if at < text.len() {
        let rest = text.drop_last();
        assert(is_space(text[text.len() - 1]));
        assert forall|i: int| at <= i < rest.len() implies is_space(rest[i]) by {
            assert(is_space(text[i]));
        }
        lemma_last_mark_end_is(rest, at);
    }
}

/// `text` without the white space at its start and at its end.
pub fn trim(text: &str) -> (kept: String)
    ensures
        kept@ == trimmed(text@),
{
    let chars = chars_of(text);
    let mut start: usize = 0;
    while start < chars.len() && is_white_space(chars[start])
        invariant
            start <= chars@.len(),
            forall|i: int| 0 <= i < start ==> is_space(chars@[i]),
        decreases chars@.len() - start,
    {
        start = start + 1;
    }
    let mut end: usize = chars.len();
    while end > 0 && is_white_space(chars[end - 1])
        invariant
            end <= chars@.len(),
            forall|i: int| end <= i < chars@.len() ==> is_space(chars@[i]),
        decreases end,
    {
        end = end - 1;
    }
    proof {
        lemma_first_mark_is(chars@, start as int);
        lemma_last_mark_end_is(chars@, end as int);
    }
    if start < end {
        text.substring_char(start, end).to_owned()
    } else {
        String::new()
    }
}

} // verus!
