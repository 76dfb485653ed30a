//! Text helpers of the config lines: UTF-8 decoding, trimming trailing NUL
//! characters, decimal numbers as text and the `$ID$` / `$ID+1$` patterns.

use crate::text::{decimal, lemma_decimal};
use vstd::prelude::*;
use vstd::string::StrSliceExecFns;
use vstd::string::StringExecFns;
use vstd::utf8::{decode_utf8, valid_utf8};

verus! {

/// Pattern replaced by the item index plus one.
pub open spec fn id_plus_one_pattern() -> Seq<char> {
    seq!['$', 'I', 'D', '+', '1', '$']
}

/// Pattern replaced by the item index.
pub open spec fn id_pattern() -> Seq<char> {
    seq!['$', 'I', 'D', '$']
}

/// `pat` occurs in `s` starting at `i`.
pub open spec fn matches_at(s: Seq<char>, pat: Seq<char>, i: int) -> bool {
    0 <= i && i + pat.len() <= s.len() && s.subrange(i, i + pat.len()) == pat
}

/// `pat` occurs in `s` (`str::contains`).
pub open spec fn contains_text(s: Seq<char>, pat: Seq<char>) -> bool {
    exists|i: int| matches_at(s, pat, i)
}

/// `str::replace`: every occurrence of the nonempty `pat`, found left to right without
/// overlap, replaced by `rep`.
pub open spec fn replace_all(s: Seq<char>, pat: Seq<char>, rep: Seq<char>) -> Seq<char>
    decreases s.len(),
{
    if s.len() == 0 || pat.len() == 0 {
        s
    } else if matches_at(s, pat, 0) {
        rep + replace_all(s.skip(pat.len() as int), pat, rep)
    } else {
        seq![s[0]] + replace_all(s.drop_first(), pat, rep)
    }
}

/// The decimal text of `n` as characters (`usize`'s `to_string`).
pub open spec fn decimal_text(n: nat) -> Seq<char> {
    decimal(n).map_values(|b: u8| b as char)
}

/// `replace_patterns`: `$ID+1$` becomes the decimal text of `index + 1`, then `$ID$` the
/// decimal text of `index`; each replacement is made only where its pattern occurs.
pub open spec fn replace_patterns_text(value: Seq<char>, index: nat) -> Seq<char> {
    let first = if contains_text(value, id_plus_one_pattern()) {
        replace_all(value, id_plus_one_pattern(), decimal_text(index + 1))
    } else {
        value
    };
    if contains_text(first, id_pattern()) {
        replace_all(first, id_pattern(), decimal_text(index))
    } else {
        first
    }
}

/// `s` without its trailing NUL characters (`trim_end_matches("\0")`).
pub open spec fn trim_trailing_nul(s: Seq<char>) -> Seq<char>
    decreases s.len(),
{
    if s.len() > 0 && s.last() == '\0' {
        trim_trailing_nul(s.drop_last())
    } else {
        s
    }
}

/// Calls `String::from_utf8`. Claimed, as its documentation says: it succeeds exactly on
/// valid UTF-8 and then holds the characters the bytes encode.
#[verifier::external_body]
pub(crate) fn string_from_utf8(bytes: Vec<u8>) -> (res: Option<String>)
    ensures
        res is Some <==> valid_utf8(bytes@),
        res matches Some(s) ==> s@ == decode_utf8(bytes@),
{
    match String::from_utf8(bytes) {
        Ok(s) => Some(s),
        Err(_) => None,
    }
}

/// The decimal text of `n`.
pub fn decimal_string(n: usize) -> (res: String)
    ensures
        res@ == decimal_text(n as nat),
    decreases n,
{
    let digits = "0123456789";
    proof {
        reveal_strlit("0123456789");
    }
    let mut out = if n >= 10 {
        decimal_string(n / 10)
    } else {
        String::new()
    };
    let d = n % 10;
    out.append(digits.substring_char(d, d + 1));
    proof {
        lemma_decimal(n as nat);
        let c = (48 + n % 10) as u8;
        assert(digits@.subrange(d as int, d + 1) =~= seq![c as char]);
        if n >= 10 {
            assert(decimal(n as nat) == decimal((n / 10) as nat).push(c));
            assert(decimal_text(n as nat) =~= decimal_text((n / 10) as nat).push(c as char));
        } else {
            assert(decimal(n as nat) == seq![c]);
            assert(decimal_text(n as nat) =~= seq![c as char]);
        }
    }
    assert(out@ =~= decimal_text(n as nat));
    out
}

/// Whether `pat` occurs in `s` starting at `i`.
fn matches_here(s: &str, pat: &str, i: usize) -> (res: bool)
    requires
        i <= s@.len(),
    ensures
        res == matches_at(s@, pat@, i as int),
{
    let n = s.unicode_len();
    let m = pat.unicode_len();
    if m > n - i {
        return false;
    }
    let mut k: usize = 0;
    while k < m
        invariant
            0 <= k <= m,
            m == pat@.len(),
            n == s@.len(),
            i + m <= n,
            forall|j: int| 0 <= j < k ==> s@[i + j] == pat@[j],
        decreases m - k,
    {
        if s.get_char(i + k) != pat.get_char(k) {
            assert(s@.subrange(i as int, i + m)[k as int] != pat@[k as int]);
            return false;
        }
        k = k + 1;
    }
    assert(s@.subrange(i as int, i + m) =~= pat@);
    true
}

/// `str::contains`.
fn contains_str(s: &str, pat: &str) -> (res: bool)
    ensures
        res == contains_text(s@, pat@),
{
    let n = s.unicode_len();
    let mut i: usize = 0;
    loop
        invariant
            0 <= i <= n,
            n == s@.len(),
            forall|j: int| 0 <= j < i ==> !matches_at(s@, pat@, j),
        ensures
            forall|j: int| 0 <= j <= n ==> !matches_at(s@, pat@, j),
        decreases n - i,
    {
        if matches_here(s, pat, i) {
            return true;
        }
        if i == n {
            break;
        }
        i = i + 1;
    }
    assert forall|j: int| !matches_at(s@, pat@, j) by {
        if 0 <= j && j <= n {
        }
    }
    false
}

/// `str::replace` of the nonempty `pat` by `rep`.
fn replace_str(s: &str, pat: &str, rep: &str) -> (res: String)
    requires
        pat@.len() > 0,
    ensures
        res@ == replace_all(s@, pat@, rep@),
{
    let n = s.unicode_len();
    let m = pat.unicode_len();
    let mut out = String::new();
    let mut seg: usize = 0;
    let mut i: usize = 0;
    assert(s@.skip(0) =~= s@);
    while i < n
        invariant
            0 <= seg <= i <= n,
            n == s@.len(),
            m == pat@.len(),
            m > 0,
            replace_all(s@, pat@, rep@) == out@ + s@.subrange(seg as int, i as int) + replace_all(
                s@.skip(i as int),
                pat@,
                rep@,
            ),
        decreases n - i,
    {
        let ghost rest = s@.skip(i as int);
        let hit = matches_here(s, pat, i);
        proof {
            assert(rest.len() > 0);
            if hit {
                assert(rest.subrange(0, m as int) =~= s@.subrange(i as int, i + m));
                assert(matches_at(rest, pat@, 0));
                assert(rest.skip(m as int) =~= s@.skip(i + m));
            } else {
                assert(!matches_at(rest, pat@, 0)) by {
                    if i + m <= n {
                        assert(rest.subrange(0, m as int) =~= s@.subrange(i as int, i + m));
                    }
                };
                assert(rest.drop_first() =~= s@.skip(i + 1));
                assert(rest[0] == s@[i as int]);
            }
        }
        if hit {
            let ghost before = out@;
            out.append(s.substring_char(seg, i));
            out.append(rep);
            proof {
                assert(out@ =~= before + s@.subrange(seg as int, i as int) + rep@);
            }
            i = i + m;
            seg = i;
            assert(s@.subrange(seg as int, i as int) =~= Seq::<char>::empty());
        } else {
            proof {
                assert(s@.subrange(seg as int, i as int) + seq![s@[i as int]] =~= s@.subrange(seg as int, i + 1));
            }
            i = i + 1;
        }
    }
    out.append(s.substring_char(seg, n));
    proof {
        assert(s@.skip(n as int) =~= Seq::<char>::empty());
    }
    out
}

/// `replace_patterns`: the item index (`$ID$`) and the index plus one (`$ID+1$`) written
/// into a name or URI template.
pub fn replace_patterns(value: String, index: usize) -> (res: String)
    requires
        contains_text(value@, id_plus_one_pattern()) ==> index < usize::MAX,
    ensures
        res@ == replace_patterns_text(value@, index as nat),
{
    let p1 = "$ID+1$";
    let p2 = "$ID$";
    proof {
        reveal_strlit("$ID+1$");
        reveal_strlit("$ID$");
        assert(p1@ =~= id_plus_one_pattern());
        assert(p2@ =~= id_pattern());
    }
    let mut mutable = value;
    if contains_str(mutable.as_str(), p1) {
        let text = decimal_string(index + 1);
        mutable = replace_str(mutable.as_str(), p1, text.as_str());
    }
    if contains_str(mutable.as_str(), p2) {
        let text = decimal_string(index);
        mutable = replace_str(mutable.as_str(), p2, text.as_str());
    }
    mutable
}

/// `s` without its trailing NUL characters.
pub fn trim_nul(s: &String) -> (res: String)
    ensures
        res@ == trim_trailing_nul(s@),
{
    let t = s.as_str();
    let mut k = t.unicode_len();
    assert(s@.take(k as int) =~= s@);
    while k > 0 && t.get_char(k - 1) == '\0'
        invariant
            0 <= k <= s@.len(),
            t@ == s@,
            trim_trailing_nul(s@) == trim_trailing_nul(s@.take(k as int)),
        decreases k,
    {
        assert(s@.take(k as int).drop_last() =~= s@.take(k - 1));
        k = k - 1;
    }
    let res = String::from_str(t.substring_char(0, k));
    assert(s@.subrange(0, k as int) =~= s@.take(k as int));
    res
}

} // verus!
