//! Small verified operations on strings: comparing, splitting, and reading
//! an unsigned number.

use vstd::prelude::*;
use vstd::utf8::{encode_utf8, encode_utf8_decode_utf8, is_ascii_chars, is_ascii_chars_encode_utf8};

verus! {

/// The characters of each string of `strings`, in order.
pub open spec fn texts(strings: Seq<String>) -> Seq<Seq<char>> {
    strings.map_values(|s: String| s@)
}

/// The pieces of `text` between the occurrences of `separator`: one more
/// piece than there are separators, some of them possibly empty.
pub open spec fn split(text: Seq<char>, separator: char) -> Seq<Seq<char>>
    decreases text.len(),
{
    if text.len() == 0 {
        seq![Seq::empty()]
    } else {
        let pieces = split(text.drop_last(), separator);
        if text.last() == separator {
            pieces.push(Seq::empty())
        } else {
            pieces.update(pieces.len() - 1, pieces.last().push(text.last()))
        }
    }
}

/// The pieces of `pieces` put together again, with `separator` between
/// each two.
pub open spec fn join(pieces: Seq<Seq<char>>, separator: char) -> Seq<char>
    decreases pieces.len(),
{
    if pieces.len() == 0 {
        Seq::empty()
    } else if pieces.len() == 1 {
        pieces[0]
    } else {
        join(pieces.drop_last(), separator).push(separator) + pieces.last()
    }
}

/// Splitting loses nothing: there is at least one piece, no piece holds the
/// separator, and the pieces joined by the separator are the text again.
pub proof fn lemma_split_is_exact(text: Seq<char>, separator: char)
    ensures
        split(text, separator).len() >= 1,
        forall|i: int, j: int|
            0 <= i < split(text, separator).len() && 0 <= j < split(text, separator)[i].len()
                ==> split(text, separator)[i][j] != separator,
        join(split(text, separator), separator) == text,
    decreases text.len(),
{
    if text.len() > 0 {
        let shorter = text.drop_last();
        let pieces = split(shorter, separator);
        lemma_split_is_exact(shorter, separator);
        if text.last() == separator {
            let longer = pieces.push(Seq::empty());
            assert(longer.drop_last() == pieces);
            assert(join(longer, separator) == text);
        } else {
            let grown = pieces.last().push(text.last());
            let longer = pieces.update(pieces.len() - 1, grown);
            assert(longer.drop_last() == pieces.drop_last());
            if pieces.len() == 1 {
                assert(join(longer, separator) == text);
            } else {
                assert(join(longer, separator) == join(pieces, separator).push(text.last()));
                assert(join(longer, separator) == text);
            }
        }
    }
}

/// Whether `c` is one of the ten decimal digits.
pub open spec fn is_digit(c: char) -> bool {
    '0' <= c <= '9'
}

/// Whether `text` holds decimal digits only.
pub open spec fn all_digits(text: Seq<char>) -> bool {
    forall|i: int| 0 <= i < text.len() ==> is_digit(#[trigger] text[i])
}

/// The number that `digits` spell in base ten; a character that is no digit
/// counts as zero.
pub open spec fn decimal(digits: Seq<char>) -> nat
    decreases digits.len(),
{
    if digits.len() == 0 {
        0
    } else {
        let last = digits.last();
        10 * decimal(digits.drop_last()) + if is_digit(last) {
            (last as u32 - '0' as u32) as nat
        } else {
            0
        }
    }
}

/// The `u64` that `text` spells: decimal digits, at least one, after an
/// optional `+`, and no more than a `u64` holds. Anything else, white space
/// and a `-` included, spells none.
pub open spec fn unsigned(text: Seq<char>) -> Option<u64> {
    let digits = if text.len() > 0 && text[0] == '+' {
        text.drop_first()
    } else {
        text
    };
    if digits.len() > 0 && all_digits(digits) && decimal(digits) <= u64::MAX {
        Some(decimal(digits) as u64)
    } else {
        None
    }
}

/// The number that the first digits spell is no larger than what all spell.
proof fn lemma_decimal_grows(digits: Seq<char>, taken: int)
    requires
        0 <= taken <= digits.len(),
    ensures
        decimal(digits.take(taken)) <= decimal(digits),
    decreases digits.len(),
{
    if taken == digits.len() {
        assert(digits.take(taken) == digits);
    } else {
        assert(digits.drop_last().take(taken) == digits.take(taken));
        lemma_decimal_grows(digits.drop_last(), taken);
    }
}

/// Text with a character outside ASCII spells no number.
proof fn lemma_number_is_ascii(text: Seq<char>)
    requires
        !is_ascii_chars(text),
    ensures
        unsigned(text) is None,
{
    let i = choose|i: int| 0 <= i < text.len() && !('\0' <= #[trigger] text[i] <= '\u{7f}');
    if text[0] == '+' {
        assert(!is_digit(text.drop_first()[i - 1]));
    } else {
        assert(!is_digit(text[i]));
    }
}

/// Whether two strings hold the same characters.
pub fn same_text(a: &str, b: &str) -> (same: bool)
    ensures
        same == (a@ == b@),
{
    let x = a.as_bytes();
    let y = b.as_bytes();
    proof {
        // Distinct strings have distinct encodings: decoding undoes encoding.
        encode_utf8_decode_utf8(a@);
        encode_utf8_decode_utf8(b@);
    }
    assert(x@ == encode_utf8(a@) && y@ == encode_utf8(b@));
    if x.len() != y.len() {
        return false;
    }
    let mut i: usize = 0;
    while i < x.len()
        invariant
            i <= x.len(),
            x.len() == y.len(),
            x@ == encode_utf8(a@),
            y@ == encode_utf8(b@),
            forall|j: int| 0 <= j < i ==> x@[j] == y@[j],
        decreases x.len() - i,
    {
        if x[i] != y[i] {
            return false;
        }
        i += 1;
    }
    assert(x@ =~= y@);
    true
}

/// Splits `text` at every `separator`. Takes time quadratic in the length
/// of `text`, which is meant to be a line of configuration.
pub fn split_at_each(text: &str, separator: char) -> (pieces: Vec<String>)
    ensures
        texts(pieces@) == split(text@, separator),
{
    let length: usize = text.unicode_len();
    let mut pieces: Vec<String> = Vec::new();
    let mut start: usize = 0;
    let mut i: usize = 0;
    assert(text@.take(0) == Seq::<char>::empty());
    assert(texts(pieces@).push(text@.subrange(0, 0)) == seq![Seq::<char>::empty()]);
    while i < length
        invariant
            start <= i <= length,
            length == text@.len(),
            split(text@.take(i as int), separator) == texts(pieces@).push(
                text@.subrange(start as int, i as int),
            ),
        decreases length - i,
    {
        let c = text.get_char(i);
        let ghost before = texts(pieces@);
        let ghost current = text@.subrange(start as int, i as int);
        assert(text@.take(i + 1).drop_last() == text@.take(i as int));
        if c == separator {
            pieces.push(text.substring_char(start, i).to_owned());
            start = i + 1;
            assert(texts(pieces@) == before.push(current));
            assert(text@.subrange(start as int, start as int) == Seq::<char>::empty());
        } else {
            assert(current.push(c) == text@.subrange(start as int, i + 1));
            assert(before.push(current).update(before.len() as int, current.push(c))
                == before.push(current.push(c)));
        }
        i += 1;
    }
    let ghost before = texts(pieces@);
    pieces.push(text.substring_char(start, length).to_owned());
    assert(texts(pieces@) == before.push(text@.subrange(start as int, length as int)));
    assert(text@.take(length as int) == text@);
    pieces
}

/// Reads a `u64` written in decimal, as [`unsigned`] defines it.
pub fn parse_u64(text: &str) -> (number: Option<u64>)
    ensures
        number == unsigned(text@),
{
    if !text.is_ascii() {
        proof {
            lemma_number_is_ascii(text@);
        }
        return None;
    }
    proof {
        is_ascii_chars_encode_utf8(text@);
    }
    let bytes = text.as_bytes();
    let length: usize = bytes.len();
    assert(bytes@ == encode_utf8(text@));
    let first: usize = if length > 0 && bytes[0] == 0x2b {
        1
    } else {
        0
    };
    let ghost digits = text@.skip(first as int);
    assert(digits == if text@.len() > 0 && text@[0] == '+' {
        text@.drop_first()
    } else {
        text@
    });
    let mut value: u64 = 0;
    let mut i: usize = first;
    assert(digits.take(0) == Seq::<char>::empty());
    while i < length
        invariant
            first <= i <= length,
            length == text@.len(),
            length == bytes@.len(),
            is_ascii_chars(text@),
            bytes@ == encode_utf8(text@),
            digits == text@.skip(first as int),
            digits == if text@.len() > 0 && text@[0] == '+' {
                text@.drop_first()
            } else {
                text@
            },
            all_digits(digits.take(i - first)),
            value == decimal(digits.take(i - first)),
        decreases length - i,
    {
        let byte: u8 = bytes[i];
        proof {
            is_ascii_chars_encode_utf8(text@);
        }
        assert(byte == text@[i as int] as u8);
        let ghost seen = digits.take(i - first);
        let ghost more = digits.take(i - first + 1);
        assert(more.drop_last() == seen);
        assert(more.last() == text@[i as int]);
        if byte < 0x30 || byte > 0x39 {
            assert(!is_digit(digits[i - first]));
            return None;
        }
        assert(is_digit(text@[i as int]));
        let digit: u64 = (byte - 0x30) as u64;
        assert(decimal(more) == 10 * value + digit);
        let grown = match value.checked_mul(10) {
            Some(tenfold) => tenfold.checked_add(digit),
            None => None,
        };
        match grown {
            Some(sum) => {
                value = sum;
            },
            None => {
                proof {
                    lemma_decimal_grows(digits, i - first + 1);
                }
                return None;
            },
        }
        assert forall|j: int| 0 <= j < more.len() implies is_digit(#[trigger] more[j]) by {
            if j < seen.len() {
                assert(more[j] == seen[j]);
            }
        }
        i += 1;
    }
    assert(digits.take(length - first) == digits);
    if i == first {
        None
    } else {
        Some(value)
    }
}

} // verus!
