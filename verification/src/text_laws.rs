//! What numbers as texts, and pieces of texts, amount to.
use vstd::prelude::*;
use crate::text::{
    dec, dec_int, find_char, is_space, lemma_find_char_first, number_value, split_on, trim_end,
    trim_start, trimmed, NumberError,
};

verus! {

/// The number that a row of digits stands for: each digit counts ten times what follows it.
pub open spec fn decimal_value(s: Seq<char>) -> int
    decreases s.len(),
{
    if s.len() == 0 {
        0
    } else {
        10 * decimal_value(s.drop_last()) + (s.last() as int - '0' as int)
    }
}

/// The number that digits, with a minus sign before them or without, stand for.
pub open spec fn signed_value(s: Seq<char>) -> int {
    if s.len() > 0 && s[0] == '-' {
        -decimal_value(s.skip(1))
    } else {
        decimal_value(s)
    }
}

/// The text of a number is a row of digits that stands for it, and has no zero before others.
pub proof fn law_decimal_text(n: nat)
    ensures
        decimal_value(dec(n)) == n,
        dec(n).len() > 0,
        forall|i: int| 0 <= i < dec(n).len() ==> '0' <= #[trigger] dec(n)[i] <= '9',
        dec(n).len() > 1 ==> dec(n)[0] != '0',
    decreases n,
{
    if n < 10 {
        let s = dec(n);
        assert(s.drop_last() =~= Seq::empty());
        assert(decimal_value(s.drop_last()) == 0);
        assert(s.last() as int == 48 + n);
    } else {
        law_decimal_text(n / 10);
        let s = dec(n);
        assert(s.drop_last() =~= dec(n / 10));
        assert(s.last() as int == 48 + n % 10);
        assert(s[0] == dec(n / 10)[0]);
        if dec(n / 10).len() == 1 {
            assert(dec(n / 10).drop_last() =~= Seq::empty());
            assert(decimal_value(dec(n / 10).drop_last()) == 0);
        }
        assert forall|i: int| 0 <= i < s.len() implies '0' <= #[trigger] s[i] <= '9' by {
            if i < s.len() - 1 {
                assert(s[i] == dec(n / 10)[i]);
            }
        }
    }
}

/// The text of a signed number stands for it.
pub proof fn law_signed_text(n: int)
    ensures
        signed_value(dec_int(n)) == n,
{
    if n < 0 {
        law_decimal_text((-n) as nat);
        assert(dec_int(n).skip(1) =~= dec((-n) as nat));
    } else {
        law_decimal_text(n as nat);
    }
}

/// Different numbers have different texts.
pub proof fn law_decimal_texts_differ(a: nat, b: nat)
    ensures
        dec(a) == dec(b) ==> a == b,
{
    law_decimal_text(a);
    law_decimal_text(b);
}

/// Digits are read as the number that they stand for where that is at most `max`, and refused
/// otherwise.
proof fn lemma_digits(s: Seq<char>, max: int)
    requires
        forall|i: int| 0 <= i < s.len() ==> '0' <= #[trigger] s[i] <= '9',
        max >= 0,
    ensures
        decimal_value(s) >= 0,
        crate::text::digits_value(s, max) == (if decimal_value(s) <= max {
            Ok::<int, NumberError>(decimal_value(s))
        } else {
            Err(NumberError::Overflow)
        }),
    decreases s.len(),
{
    if s.len() > 0 {
        assert forall|i: int| 0 <= i < s.drop_last().len() implies '0' <= #[trigger] s.drop_last()[i]
            <= '9' by {
            assert(s.drop_last()[i] == s[i]);
        }
        lemma_digits(s.drop_last(), max);
        assert('0' <= s[s.len() - 1] <= '9');
    }
}

/// A number's text is read as that number where it is at most `max`, and refused as too large
/// otherwise; the same with a plus sign before it.
pub proof fn law_numbers_are_read(n: nat, max: int)
    requires
        max >= 0,
    ensures
        n <= max ==> number_value(dec(n), max) == Ok::<int, NumberError>(n as int),
        n > max ==> number_value(dec(n), max) == Err::<int, NumberError>(NumberError::Overflow),
        number_value(seq!['+'] + dec(n), max) == number_value(dec(n), max),
{
    law_decimal_text(n);
    lemma_digits(dec(n), max);
    assert((seq!['+'] + dec(n)).skip(1) =~= dec(n));
    assert(dec(n)[0] != '+');
}

/// What `trim_start` leaves is the end of the text, with white space before it.
proof fn lemma_trim_start(s: Seq<char>)
    ensures
        trim_start(s).len() <= s.len(),
        trim_start(s) == s.skip(s.len() - trim_start(s).len()),
        forall|i: int| 0 <= i < s.len() - trim_start(s).len() ==> is_space(#[trigger] s[i]),
        trim_start(s).len() > 0 ==> !is_space(trim_start(s)[0]),
    decreases s.len(),
{
    if s.len() > 0 && is_space(s[0]) {
        lemma_trim_start(s.skip(1));
        let k = s.len() - trim_start(s).len();
        assert(s.skip(1).skip(k - 1) =~= s.skip(k));
        assert forall|i: int| 0 <= i < k implies is_space(#[trigger] s[i]) by {
            if i > 0 {
                assert(s.skip(1)[i - 1] == s[i]);
            }
        }
    } else {
        assert(s.skip(0) =~= s);
    }
}

/// What `trim_end` leaves is the beginning of the text, with white space behind it.
proof fn lemma_trim_end(s: Seq<char>)
    ensures
        trim_end(s).len() <= s.len(),
        trim_end(s) == s.take(trim_end(s).len() as int),
        forall|i: int| trim_end(s).len() <= i < s.len() ==> is_space(#[trigger] s[i]),
        trim_end(s).len() > 0 ==> !is_space(trim_end(s).last()),
    decreases s.len(),
{
    if s.len() > 0 && is_space(s.last()) {
        lemma_trim_end(s.drop_last());
        let k = trim_end(s).len() as int;
        assert(s.drop_last().take(k) =~= s.take(k));
        assert forall|i: int| k <= i < s.len() implies is_space(#[trigger] s[i]) by {
            if i < s.len() - 1 {
                assert(s.drop_last()[i] == s[i]);
            }
        }
    } else {
        assert(s.take(s.len() as int) =~= s);
    }
}

/// A trimmed text is a piece of the text with white space around it, and neither begins nor ends
/// with white space itself.
pub proof fn law_trimming(s: Seq<char>)
    ensures
        exists|a: int, b: int|
            {
                &&& 0 <= a <= b <= s.len()
                &&& trimmed(s) == #[trigger] s.subrange(a, b)
                &&& forall|i: int| 0 <= i < a || b <= i < s.len() ==> is_space(#[trigger] s[i])
            },
        trimmed(s).len() > 0 ==> !is_space(trimmed(s)[0]) && !is_space(trimmed(s).last()),
{
    lemma_trim_start(s);
    let t = trim_start(s);
    lemma_trim_end(t);
    let a = s.len() - t.len();
    let b = a + trimmed(s).len();
    assert(s.subrange(a, b) =~= trimmed(s)) by {
        assert forall|i: int| 0 <= i < b - a implies s.subrange(a, b)[i] == trimmed(s)[i] by {
            assert(t[i] == s.skip(a)[i]);
            assert(t.take(trimmed(s).len() as int)[i] == t[i]);
        }
    }
    assert forall|i: int| 0 <= i < a || b <= i < s.len() implies is_space(#[trigger] s[i]) by {
        if b <= i {
            assert(t[i - a] == s.skip(a)[i - a]);
        }
    }
    if trimmed(s).len() > 0 {
        assert(trimmed(s)[0] == t.take(trimmed(s).len() as int)[0]);
    }
}

/// Pieces with a character between each two.
pub open spec fn joined(parts: Seq<Seq<char>>, c: char) -> Seq<char>
    decreases parts.len(),
{
    if parts.len() == 0 {
        Seq::empty()
    } else if parts.len() == 1 {
        parts[0]
    } else {
        parts[0].push(c) + joined(parts.skip(1), c)
    }
}

/// Splitting a text at a character gives at least one piece, none of them has the character, and
/// joining them gives the text back.
pub proof fn law_splitting(s: Seq<char>, c: char)
    ensures
        split_on(s, c).len() > 0,
        joined(split_on(s, c), c) == s,
        forall|i: int| 0 <= i < split_on(s, c).len() ==> !(#[trigger] split_on(s, c)[i]).contains(c),
    decreases s.len(),
{
    lemma_find_char_first(s, c);
    let i = find_char(s, c);
    let parts = split_on(s, c);
    if 0 <= i < s.len() {
        let rest = s.skip(i + 1);
        law_splitting(rest, c);
        let more = split_on(rest, c);
        assert(parts =~= seq![s.take(i)] + more);
        assert(parts.skip(1) =~= more);
        assert(parts[0] == s.take(i));
        assert(s.take(i).push(c) + rest =~= s);
        assert forall|k: int| 0 <= k < parts.len() implies !(#[trigger] parts[k]).contains(c) by {
            if k > 0 {
                assert(parts[k] == more[k - 1]);
            }
        }
    } else {
        assert(parts[0] == s);
    }
}

} // verus!
