//! Text helpers over scalar positions: a string is viewed as its sequence of
//! `char`s, and every index in this crate counts `char`s.

use vstd::prelude::*;
use vstd::string::*;

verus! {

/// Lexicographic order on character sequences, as Rust orders `str` values.
pub open spec fn seq_lt(a: Seq<char>, b: Seq<char>) -> bool
    decreases a.len(),
{
    if a.len() == 0 {
        b.len() > 0
    } else if b.len() == 0 {
        false
    } else if a[0] != b[0] {
        (a[0] as int) < (b[0] as int)
    } else {
        seq_lt(a.drop_first(), b.drop_first())
    }
}

/// `d` with the range `[start, end)` replaced by `t`.
pub open spec fn splice(d: Seq<char>, start: int, end: int, t: Seq<char>) -> Seq<char> {
    d.subrange(0, start) + t + d.subrange(end, d.len() as int)
}

/// Two different sequences are ordered one way exactly, and none is below itself.
pub proof fn lemma_seq_lt_total(a: Seq<char>, b: Seq<char>)
    ensures
        a != b ==> seq_lt(a, b) != seq_lt(b, a),
        !seq_lt(a, a),
    decreases a.len(),
{
    if a.len() == 0 {
        if b.len() == 0 {
            assert(a =~= b);
        }
    } else {
        lemma_seq_lt_total(a.drop_first(), a.drop_first());
        if b.len() > 0 {
            if a[0] != b[0] {
                assert((a[0] as int) != (b[0] as int));
            } else {
                lemma_seq_lt_total(a.drop_first(), b.drop_first());
                if a.drop_first() == b.drop_first() {
                    assert(a =~= seq![a[0]] + a.drop_first());
                    assert(b =~= seq![b[0]] + b.drop_first());
                }
            }
        }
    }
}

proof fn lemma_seq_lt_skip(a: Seq<char>, b: Seq<char>, i: int)
    requires
        0 <= i < a.len(),
        i < b.len(),
        a[i] == b[i],
    ensures
        seq_lt(a.skip(i), b.skip(i)) == seq_lt(a.skip(i + 1), b.skip(i + 1)),
{
    assert(a.skip(i).drop_first() =~= a.skip(i + 1));
    assert(b.skip(i).drop_first() =~= b.skip(i + 1));
}

/// Number of characters of `s`.
pub fn char_len(s: &str) -> (r: usize)
    ensures
        r == s@.len(),
{
    s.unicode_len()
}

/// Whether `a` sorts strictly before `b`.
pub fn str_lt(a: &str, b: &str) -> (r: bool)
    ensures
        r == seq_lt(a@, b@),
{
    let la = a.unicode_len();
    let lb = b.unicode_len();
    let mut i: usize = 0;
    assert(a@.skip(0) =~= a@);
    assert(b@.skip(0) =~= b@);
    while i < la && i < lb
        invariant
            la == a@.len(),
            lb == b@.len(),
            i <= la,
            i <= lb,
            seq_lt(a@, b@) == seq_lt(a@.skip(i as int), b@.skip(i as int)),
        decreases la - i,
    {
        let ca = a.get_char(i);
        let cb = b.get_char(i);
        if ca != cb {
            assert(a@.skip(i as int)[0] == ca);
            assert(b@.skip(i as int)[0] == cb);
            return (ca as u32) < (cb as u32);
        }
        proof {
            lemma_seq_lt_skip(a@, b@, i as int);
        }
        i = i + 1;
    }
    i < lb && i == la
}

/// `s` with the character range `[start, end)` replaced by `t`.
pub fn splice_str(s: &str, start: usize, end: usize, t: &str) -> (r: String)
    requires
        start <= end <= s@.len(),
    ensures
        r@ == splice(s@, start as int, end as int, t@),
{
    let n = s.unicode_len();
    let mut r = String::from_str(s.substring_char(0, start));
    r.append(t);
    r.append(s.substring_char(end, n));
    r
}

} // verus!
