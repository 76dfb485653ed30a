//! Byte-level text helpers: searching for a separator, splitting at it,
//! decimal digits (as `u8`'s `FromStr` reads them and as `Display` writes
//! unsigned integers), and ASCII text as UTF-8.

use vstd::prelude::*;
use vstd::utf8::*;

verus! {

/// Index of the first `c` in `s`, or `s.len()` where `s` holds none.
pub open spec fn index_of(s: Seq<u8>, c: u8) -> int
    decreases s.len(),
{
    if s.len() == 0 {
        0
    } else if s[0] == c {
        0
    } else {
        1 + index_of(s.drop_first(), c)
    }
}

pub proof fn lemma_index_of(s: Seq<u8>, c: u8)
    ensures
        0 <= index_of(s, c) <= s.len(),
        forall|j: int| 0 <= j < index_of(s, c) ==> s[j] != c,
        index_of(s, c) < s.len() ==> s[index_of(s, c)] == c,
    decreases s.len(),
{
    if s.len() > 0 && s[0] != c {
        lemma_index_of(s.drop_first(), c);
        assert forall|j: int| 0 <= j < index_of(s, c) implies s[j] != c by {
            if j > 0 {
                assert(s[j] == s.drop_first()[j - 1]);
            }
        }
    }
}

/// The first `c` of `s` stands at `i` (or `s` holds none and `i` is its length).
pub proof fn lemma_index_of_at(s: Seq<u8>, c: u8, i: int)
    requires
        0 <= i <= s.len(),
        forall|j: int| 0 <= j < i ==> s[j] != c,
        i < s.len() ==> s[i] == c,
    ensures
        index_of(s, c) == i,
    decreases s.len(),
{
    if i > 0 {
        assert(s[0] != c);
        assert forall|j: int| 0 <= j < i - 1 implies s.drop_first()[j] != c by {
            assert(s.drop_first()[j] == s[j + 1]);
        }
        if i - 1 < s.len() - 1 {
            assert(s.drop_first()[i - 1] == s[i]);
        }
        lemma_index_of_at(s.drop_first(), c, i - 1);
    }
}

/// The pieces of `s` between occurrences of `sep`, in order, as `str::split` yields them:
/// there is always at least one piece, and `k` separators give `k + 1` pieces.
pub open spec fn split_at_byte(s: Seq<u8>, sep: u8) -> Seq<Seq<u8>>
    decreases s.len(),
{
    let k = index_of(s, sep);
    if k >= s.len() {
        seq![s]
    } else {
        proof {
            lemma_index_of(s, sep);
        }
        seq![s.take(k)] + split_at_byte(s.skip(k + 1), sep)
    }
}

/// Splitting `a`, then `sep`, then `b`, where `a` holds no `sep`: `a` is the first piece.
pub proof fn lemma_split_cons(a: Seq<u8>, b: Seq<u8>, sep: u8)
    requires
        forall|j: int| 0 <= j < a.len() ==> a[j] != sep,
    ensures
        split_at_byte(a + seq![sep] + b, sep) == seq![a] + split_at_byte(b, sep),
{
    let s = a + seq![sep] + b;
    lemma_index_of_at(s, sep, a.len() as int);
    assert(s.take(a.len() as int) =~= a);
    assert(s.skip(a.len() + 1 as int) =~= b);
}

/// Splitting `a`, then `sep`, then `b` gives the pieces of `a` followed by those of `b`.
pub proof fn lemma_split_concat(a: Seq<u8>, b: Seq<u8>, sep: u8)
    ensures
        split_at_byte(a + seq![sep] + b, sep) == split_at_byte(a, sep) + split_at_byte(b, sep),
    decreases a.len(),
{
    lemma_index_of(a, sep);
    let k = index_of(a, sep);
    if k >= a.len() {
        lemma_split_single(a, sep);
        lemma_split_cons(a, b, sep);
    } else {
        let head = a.take(k);
        let rest = a.skip(k + 1);
        assert(a =~= head + seq![sep] + rest);
        assert forall|j: int| 0 <= j < head.len() implies head[j] != sep by {}
        lemma_split_cons(head, rest, sep);
        assert(a + seq![sep] + b =~= head + seq![sep] + (rest + seq![sep] + b));
        lemma_split_cons(head, rest + seq![sep] + b, sep);
        lemma_split_concat(rest, b, sep);
        assert(seq![head] + (split_at_byte(rest, sep) + split_at_byte(b, sep)) =~= seq![head]
            + split_at_byte(rest, sep) + split_at_byte(b, sep));
    }
}

/// A text that holds no `sep` is a single piece.
pub proof fn lemma_split_single(a: Seq<u8>, sep: u8)
    requires
        forall|j: int| 0 <= j < a.len() ==> a[j] != sep,
    ensures
        split_at_byte(a, sep) == seq![a],
{
    lemma_index_of_at(a, sep, a.len() as int);
}

/// First index `k` with `from <= k < to` and `s[k] == c`, or `to` where there is none.
pub fn find_byte(s: &Vec<u8>, from: usize, to: usize, c: u8) -> (k: usize)
    requires
        from <= to <= s.len(),
    ensures
        k == from + index_of(s@.subrange(from as int, to as int), c),
        from <= k <= to,
{
    let mut i = from;
    while i < to
        invariant
            from <= i <= to <= s.len(),
            forall|j: int| from <= j < i ==> s@[j] != c,
        ensures
            from <= i <= to,
            forall|j: int| from <= j < i ==> s@[j] != c,
            i < to ==> s@[i as int] == c,
        decreases to - i,
    {
        if s[i] == c {
            break;
        }
        i = i + 1;
    }
    proof {
        let t = s@.subrange(from as int, to as int);
        assert forall|j: int| 0 <= j < i - from implies t[j] != c by {
            assert(t[j] == s@[from + j]);
        }
        lemma_index_of_at(t, c, i - from);
    }
    i
}

/// A copy of `s[from..to]`.
pub fn copy_range(s: &Vec<u8>, from: usize, to: usize) -> (res: Vec<u8>)
    requires
        from <= to <= s.len(),
    ensures
        res@ == s@.subrange(from as int, to as int),
{
    let mut res: Vec<u8> = Vec::new();
    let mut i = from;
    while i < to
        invariant
            from <= i <= to <= s.len(),
            res@ == s@.subrange(from as int, i as int),
        decreases to - i,
    {
        res.push(s[i]);
        i = i + 1;
        assert(res@ =~= s@.subrange(from as int, i as int));
    }
    res
}

/// An ASCII decimal digit.
pub open spec fn is_digit(b: u8) -> bool {
    48 <= b <= 57
}

/// Every byte of `d` is a decimal digit.
pub open spec fn all_digits(d: Seq<u8>) -> bool {
    forall|i: int| 0 <= i < d.len() ==> is_digit(#[trigger] d[i])
}

/// The number that the decimal digits `d` denote (leading zeros allowed).
pub open spec fn digits_value(d: Seq<u8>) -> nat
    decreases d.len(),
{
    if d.len() == 0 {
        0
    } else {
        digits_value(d.drop_last()) * 10 + (d.last() - 48) as nat
    }
}

/// The text after an optional leading `+`.
pub open spec fn digits_part(s: Seq<u8>) -> Seq<u8> {
    if s.len() > 0 && s[0] == 43 {
        s.drop_first()
    } else {
        s
    }
}

/// What `str::parse::<u8>` gives for the text `s`: an optional `+`, then at least one
/// decimal digit and nothing else, denoting a value of at most 255.
pub open spec fn parse_u8(s: Seq<u8>) -> Option<u8> {
    let d = digits_part(s);
    if d.len() == 0 || !all_digits(d) || digits_value(d) > 255 {
        None
    } else {
        Some(digits_value(d) as u8)
    }
}

/// The decimal text that `Display` writes for an unsigned integer `n`.
pub open spec fn decimal(n: nat) -> Seq<u8>
    decreases n,
{
    if n < 10 {
        seq![(48 + n) as u8]
    } else {
        decimal(n / 10).push((48 + n % 10) as u8)
    }
}

/// ASCII text: every byte below 128.
pub open spec fn is_ascii_bytes(s: Seq<u8>) -> bool {
    forall|i: int| 0 <= i < s.len() ==> #[trigger] s[i] < 128
}

proof fn lemma_digits_value_step(d: Seq<u8>, i: int)
    requires
        0 <= i < d.len(),
    ensures
        digits_value(d.take(i + 1)) == digits_value(d.take(i)) * 10 + (d[i] - 48) as nat,
{
    assert(d.take(i + 1).drop_last() =~= d.take(i));
}

/// Appending digits never lowers the value.
proof fn lemma_digits_value_grows(d: Seq<u8>, i: int)
    requires
        0 <= i <= d.len(),
        all_digits(d),
    ensures
        digits_value(d.take(i)) <= digits_value(d),
    decreases d.len() - i,
{
    if i < d.len() {
        lemma_digits_value_step(d, i);
        lemma_digits_value_grows(d, i + 1);
    } else {
        assert(d.take(i) =~= d);
    }
}

/// `decimal(n)` is a nonempty run of digits that denotes `n`.
pub proof fn lemma_decimal(n: nat)
    ensures
        all_digits(decimal(n)),
        decimal(n).len() >= 1,
        digits_value(decimal(n)) == n,
        n < 10 ==> decimal(n).len() == 1,
        n < 100 ==> decimal(n).len() <= 2,
        n < 1000 ==> decimal(n).len() <= 3,
    decreases n,
{
    if n >= 10 {
        lemma_decimal(n / 10);
        let d = decimal(n / 10).push((48 + n % 10) as u8);
        assert(d.drop_last() =~= decimal(n / 10));
        assert(decimal(n) == d);
        assert(d.last() == (48 + n % 10) as u8);
        assert((d.last() - 48) as nat == n % 10);
        assert(digits_value(d) == digits_value(decimal(n / 10)) * 10 + (d.last() - 48) as nat);
        assert(digits_value(decimal(n / 10)) == n / 10);
        assert((n / 10) * 10 + n % 10 == n);
        assert forall|i: int| 0 <= i < d.len() implies is_digit(#[trigger] d[i]) by {
            if i < d.len() - 1 {
                assert(d[i] == decimal(n / 10)[i]);
            }
        }
    } else {
        let d = decimal(n);
        assert(d.drop_last() =~= Seq::<u8>::empty());
        assert(digits_value(d.drop_last()) == 0);
    }
}

/// Reading back what `decimal` wrote for a `u8` gives the same `u8`.
pub proof fn lemma_parse_decimal_u8(b: u8)
    ensures
        parse_u8(decimal(b as nat)) == Some(b),
{
    lemma_decimal(b as nat);
    let s = decimal(b as nat);
    assert(is_digit(s[0]));
}

/// ASCII bytes are valid UTF-8.
pub proof fn lemma_ascii_valid_utf8(s: Seq<u8>)
    requires
        is_ascii_bytes(s),
    ensures
        valid_utf8(s),
    decreases s.len(),
{
    if s.len() > 0 {
        assert(s[0] < 128);
        let rest = pop_first_scalar(s);
        assert(rest =~= s.subrange(1, s.len() as int));
        assert forall|i: int| 0 <= i < rest.len() implies #[trigger] rest[i] < 128 by {
            assert(rest[i] == s[i + 1]);
        }
        lemma_ascii_valid_utf8(rest);
    }
}

/// A non-digit inside the digits makes the text unreadable.
proof fn lemma_parse_u8_not_digit(t: Seq<u8>, k: int)
    requires
        0 <= k < digits_part(t).len(),
        !is_digit(digits_part(t)[k]),
    ensures
        parse_u8(t) is None,
{
}

/// Digits whose leading part already exceeds 255 make the text unreadable.
proof fn lemma_parse_u8_too_large(t: Seq<u8>, k: int)
    requires
        0 <= k <= digits_part(t).len(),
        digits_value(digits_part(t).take(k)) > 255,
    ensures
        parse_u8(t) is None,
{
    if all_digits(digits_part(t)) {
        lemma_digits_value_grows(digits_part(t), k);
    }
}

/// Reads `s[from..to]` as `str::parse::<u8>` does.
pub fn read_u8(s: &Vec<u8>, from: usize, to: usize) -> (res: Option<u8>)
    requires
        from <= to <= s.len(),
    ensures
        res == parse_u8(s@.subrange(from as int, to as int)),
{
    let ghost t = s@.subrange(from as int, to as int);
    let mut start = from;
    if to - from > 0 && s[from] == 43 {
        start = from + 1;
    }
    let ghost d = s@.subrange(start as int, to as int);
    assert(d =~= digits_part(t));
    if start == to {
        return None;
    }
    let mut value: u32 = 0;
    let mut i = start;
    while i < to
        invariant
            from <= start <= i <= to <= s.len(),
            t == s@.subrange(from as int, to as int),
            d == s@.subrange(start as int, to as int),
            d == digits_part(t),
            value == digits_value(d.take(i - start)),
            value <= 255,
            forall|j: int| 0 <= j < i - start ==> is_digit(#[trigger] d[j]),
        decreases to - i,
    {
        let b = s[i];
        proof {
            assert(d[i - start] == b);
            lemma_digits_value_step(d, i - start);
        }
        if b < 48 || b > 57 {
            proof {
                lemma_parse_u8_not_digit(t, i - start);
            }
            return None;
        }
        value = value * 10 + (b - 48) as u32;
        if value > 255 {
            proof {
                lemma_parse_u8_too_large(t, i - start + 1);
            }
            return None;
        }
        i = i + 1;
    }
    assert(d.take(i - start) =~= d);
    Some(value as u8)
}

/// Appends the decimal text of `n` to `out`.
pub fn write_decimal(n: u64, out: &mut Vec<u8>)
    ensures
        final(out)@ == old(out)@ + decimal(n as nat),
    decreases n,
{
    if n >= 10 {
        write_decimal(n / 10, out);
    }
    out.push((48 + n % 10) as u8);
    proof {
        if n >= 10 {
            assert(decimal(n as nat) == decimal((n / 10) as nat).push((48 + n % 10) as u8));
        }
    }
    assert(out@ =~= old(out)@ + decimal(n as nat));
}

} // verus!
