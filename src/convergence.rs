//! Laws of the transform: identities, and convergence of concurrent edits.

use vstd::prelude::*;
use crate::operation::{apply_model, OpModel};
use crate::text::{lemma_seq_lt_total, seq_lt, splice};
use crate::transform::{map_after_deletion, transform_model};

verus! {

/// Both orders of applying concurrent `a` and `b` to `d`, each followed by the
/// other rebased past it, give the same document.
pub open spec fn converges(d: Seq<char>, a: OpModel, b: OpModel) -> bool {
    &&& apply_model(d, a) is Some
    &&& apply_model(d, b) is Some
    &&& apply_model(apply_model(d, a)->0, transform_model(b, a)) == apply_model(
        apply_model(d, b)->0,
        transform_model(a, b),
    )
}

/// Rebasing past a noop leaves an operation unchanged, and a noop rebased past
/// anything stays that same noop.
pub proof fn lemma_noop_identity(a: OpModel, n: OpModel)
    requires
        n is Noop,
    ensures
        transform_model(a, n) == a,
        transform_model(n, a) == n,
{
}

/// When two clients delete the same range, the one rebased past the other
/// becomes a noop that keeps its own identity.
pub proof fn lemma_same_delete_becomes_noop(a: OpModel, b: OpModel)
    requires
        a is Delete,
        b is Delete,
        a->Delete_start == b->Delete_start,
        a->Delete_end == b->Delete_end,
        a.well_formed(),
    ensures
        transform_model(b, a) == b.to_noop(),
{
}

/// A replace rebased past anything stays a replace or becomes an insert, and
/// keeps its text and identity; it becomes an insert only when a range
/// removed by the other edit swallows its own range.
pub proof fn lemma_replace_keeps_text(a: OpModel, b: OpModel)
    requires
        a is Replace,
        a.well_formed(),
        b.well_formed(),
    ensures
        ({
            let r = transform_model(a, b);
            &&& r is Replace ==> r->Replace_text == a->Replace_text
            &&& r is Insert ==> r->Insert_text == a->Replace_text
            &&& r is Insert ==> b is Delete || b is Replace
            &&& r is Replace || r is Insert
            &&& r.client_id() == a.client_id()
            &&& r.client_version() == a.client_version()
        }),
{
}

/// Concurrent edits converge when one of them is a noop.
pub proof fn lemma_converge_noop(d: Seq<char>, a: OpModel, b: OpModel)
    requires
        a.fits(d),
        b.fits(d),
        a is Noop || b is Noop,
    ensures
        converges(d, a, b),
{
}

/// Concurrent inserts converge, except where both come from the same client at
/// the same position with texts that do not commute.
pub proof fn lemma_converge_insert_insert(d: Seq<char>, a: OpModel, b: OpModel)
    requires
        a.fits(d),
        b.fits(d),
        a is Insert,
        b is Insert,
        a->Insert_index != b->Insert_index || a.client_id() != b.client_id()
            || a->Insert_text + b->Insert_text == b->Insert_text + a->Insert_text,
    ensures
        converges(d, a, b),
{
    let i = a->Insert_index;
    let j = b->Insert_index;
    let t1 = a->Insert_text;
    let t2 = b->Insert_text;
    lemma_seq_lt_total(a.client_id(), b.client_id());
    let da = splice(d, i, i, t1);
    let db = splice(d, j, j, t2);
    if i < j {
        assert(splice(da, j + t1.len(), j + t1.len(), t2) =~= splice(db, i, i, t1));
    } else if j < i {
        assert(splice(da, j, j, t2) =~= splice(db, i + t2.len(), i + t2.len(), t1));
    } else if seq_lt(a.client_id(), b.client_id()) {
        assert(splice(da, j + t1.len(), j + t1.len(), t2) =~= splice(db, i, i, t1));
    } else if seq_lt(b.client_id(), a.client_id()) {
        assert(splice(da, j, j, t2) =~= splice(db, i + t2.len(), i + t2.len(), t1));
    } else {
        assert(splice(da, j, j, t2) =~= d.subrange(0, i) + (t2 + t1) + d.subrange(i, d.len() as int));
        assert(splice(db, i, i, t1) =~= d.subrange(0, i) + (t1 + t2) + d.subrange(i, d.len() as int));
    }
}

/// A concurrent insert and delete converge, except where a non-empty text is
/// inserted strictly inside the deleted range.
pub proof fn lemma_converge_insert_delete(d: Seq<char>, a: OpModel, b: OpModel)
    requires
        a.fits(d),
        b.fits(d),
        a is Insert,
        b is Delete,
        !(b->Delete_start < a->Insert_index < b->Delete_end && a->Insert_text.len() > 0),
    ensures
        converges(d, a, b),
        converges(d, b, a),
{
    let i = a->Insert_index;
    let t = a->Insert_text;
    let s = b->Delete_start;
    let e = b->Delete_end;
    let n = t.len() as int;
    let da = splice(d, i, i, t);
    let db = splice(d, s, e, Seq::empty());
    if i <= s {
        assert(splice(da, s + n, e + n, Seq::empty()) =~= splice(db, i, i, t));
    } else if i >= e {
        assert(splice(da, s, e, Seq::empty()) =~= splice(db, i - (e - s), i - (e - s), t));
    } else {
        assert(t =~= Seq::<char>::empty());
        assert(splice(da, s, e, Seq::empty()) =~= splice(db, s, s, t));
    }
}

/// Concurrent deletes always converge.
pub proof fn lemma_converge_delete_delete(d: Seq<char>, a: OpModel, b: OpModel)
    requires
        a.fits(d),
        b.fits(d),
        a is Delete,
        b is Delete,
    ensures
        converges(d, a, b),
{
    let s1 = a->Delete_start;
    let e1 = a->Delete_end;
    let s2 = b->Delete_start;
    let e2 = b->Delete_end;
    let da = splice(d, s1, e1, Seq::empty());
    let db = splice(d, s2, e2, Seq::empty());
    let lo = if s1 < s2 { s1 } else { s2 };
    let hi = if e1 < e2 { e2 } else { e1 };
    let x2 = map_after_deletion(s2, s1, e1);
    let y2 = map_after_deletion(e2, s1, e1);
    let x1 = map_after_deletion(s1, s2, e2);
    let y1 = map_after_deletion(e1, s2, e2);
    if e1 < s2 || e2 < s1 {
        let (p, q, r, t) = if e1 < s2 { (s1, e1, s2, e2) } else { (s2, e2, s1, e1) };
        let u = d.subrange(0, p) + d.subrange(q, r) + d.subrange(t, d.len() as int);
        if s2 == e2 {
            assert(da =~= u || splice(da, x2, y2, Seq::empty()) =~= u);
        } else {
            assert(splice(da, x2, y2, Seq::empty()) =~= u);
        }
        if s1 == e1 {
            assert(db =~= u || splice(db, x1, y1, Seq::empty()) =~= u);
        } else {
            assert(splice(db, x1, y1, Seq::empty()) =~= u);
        }
        assert(apply_model(da, transform_model(b, a)) == Some(u));
        assert(apply_model(db, transform_model(a, b)) == Some(u));
    } else {
        let u = d.subrange(0, lo) + d.subrange(hi, d.len() as int);
        if s1 <= s2 {
            assert(x2 == s1);
            assert(x1 == s1);
        } else {
            assert(x2 == s2);
            assert(x1 == s2);
        }
        if e1 <= e2 {
            assert(y2 == e2 - (e1 - s1) || y2 == lo);
        }
        lemma_delete_union(d, s1, e1, x2, y2, lo, hi, transform_model(b, a));
        lemma_delete_union(d, s2, e2, x1, y1, lo, hi, transform_model(a, b));
        assert(apply_model(db, transform_model(a, b)) == Some(u));
        assert(apply_model(da, transform_model(b, a)) == Some(u));
    }
}

/// Deleting `[s, e)` and then `[x, y)` of the result removes `[lo, hi)` of `d`
/// when `[x, y)` is what remains of `[lo, hi)` after the first deletion.
proof fn lemma_delete_union(
    d: Seq<char>,
    s: int,
    e: int,
    x: int,
    y: int,
    lo: int,
    hi: int,
    o: OpModel,
)
    requires
        0 <= lo <= s <= e <= hi <= d.len(),
        x == lo,
        y == hi - (e - s),
        o is Noop ==> x == y,
        o is Noop || (o is Delete && o->Delete_start == x && o->Delete_end == y),
    ensures
        apply_model(splice(d, s, e, Seq::empty()), o) == Some(
            d.subrange(0, lo) + d.subrange(hi, d.len() as int),
        ),
{
    let da = splice(d, s, e, Seq::empty());
    let u = d.subrange(0, lo) + d.subrange(hi, d.len() as int);
    if o is Noop {
        assert(da =~= u);
    } else {
        assert(splice(da, x, y, Seq::empty()) =~= u);
    }
}

/// A concurrent insert and replace converge, except where a non-empty text is
/// inserted strictly inside the replaced range, or at its start with a text
/// that does not commute with the replacement.
pub proof fn lemma_converge_insert_replace(d: Seq<char>, a: OpModel, b: OpModel)
    requires
        a.fits(d),
        b.fits(d),
        a is Insert,
        b is Replace,
        !(b->Replace_start < a->Insert_index < b->Replace_end && a->Insert_text.len() > 0),
        a->Insert_index == b->Replace_start ==> a->Insert_text + b->Replace_text
            == b->Replace_text + a->Insert_text,
    ensures
        converges(d, a, b),
        converges(d, b, a),
{
    let i = a->Insert_index;
    let t = a->Insert_text;
    let s = b->Replace_start;
    let e = b->Replace_end;
    let u = b->Replace_text;
    let n = t.len() as int;
    let m = u.len() as int;
    let da = splice(d, i, i, t);
    let db = splice(d, s, e, u);
    if i < s {
        assert(splice(da, s + n, e + n, u) =~= splice(db, i, i, t));
    } else if i == s {
        assert(splice(da, s + n, e + n, u) =~= d.subrange(0, s) + (t + u) + d.subrange(
            e,
            d.len() as int,
        ));
        assert(splice(db, s + m, s + m, t) =~= d.subrange(0, s) + (u + t) + d.subrange(
            e,
            d.len() as int,
        ));
    } else if i >= e {
        assert(splice(da, s, e, u) =~= splice(db, i - (e - s) + m, i - (e - s) + m, t));
    } else {
        assert(t =~= Seq::<char>::empty());
        assert(splice(da, s, e, u) =~= splice(db, s + m, s + m, t));
    }
}

/// The document both orders of a concurrent delete `a` and replace `b` give:
/// the union of the two ranges removed, and the replacement text in its place.
spec fn delete_replace_result(d: Seq<char>, a: OpModel, b: OpModel) -> Seq<char> {
    let s1 = a->Delete_start;
    let e1 = a->Delete_end;
    let s2 = b->Replace_start;
    let e2 = b->Replace_end;
    let u = b->Replace_text;
    if e1 <= s2 {
        d.subrange(0, s1) + d.subrange(e1, s2) + u + d.subrange(e2, d.len() as int)
    } else if e2 <= s1 {
        d.subrange(0, s2) + u + d.subrange(e2, s1) + d.subrange(e1, d.len() as int)
    } else {
        let lo = if s1 < s2 {
            s1
        } else {
            s2
        };
        let hi = if e1 < e2 {
            e2
        } else {
            e1
        };
        d.subrange(0, lo) + u + d.subrange(hi, d.len() as int)
    }
}

/// The delete rebased past the replace, applied after it.
#[verifier::spinoff_prover]
proof fn lemma_delete_after_replace(d: Seq<char>, a: OpModel, b: OpModel)
    requires
        a.fits(d),
        b.fits(d),
        a is Delete,
        b is Replace,
        !(a->Delete_start < b->Replace_start && b->Replace_end < a->Delete_end
            && b->Replace_text.len() > 0),
    ensures
        apply_model(splice(d, b->Replace_start, b->Replace_end, b->Replace_text), transform_model(a, b))
            == Some(delete_replace_result(d, a, b)),
{
    let s1 = a->Delete_start;
    let e1 = a->Delete_end;
    let s2 = b->Replace_start;
    let e2 = b->Replace_end;
    let u = b->Replace_text;
    let m = u.len() as int;
    let db = splice(d, s2, e2, u);
    let r = delete_replace_result(d, a, b);
    let ta = transform_model(a, b);
    if e1 <= s2 {
        if s1 == e1 {
            assert(db =~= r);
        } else {
            assert(ta == OpModel::Delete { start: s1, end: e1, client_id: a.client_id(), client_version: a.client_version() });
            assert(splice(db, s1, e1, Seq::empty()) =~= r);
        }
    } else if e2 <= s1 {
        if s1 == e1 {
            assert(db =~= r);
        } else {
            let x = s1 - (e2 - s2) + m;
            let y = e1 - (e2 - s2) + m;
            assert(ta == OpModel::Delete { start: x, end: y, client_id: a.client_id(), client_version: a.client_version() });
            assert(splice(db, x, y, Seq::empty()) =~= r);
        }
    } else if s2 <= s1 && e1 <= e2 {
        assert(ta is Noop);
        assert(db =~= r);
    } else if s1 <= s2 && e2 <= e1 {
        if s1 == s2 {
            let y = e1 - (e2 - s2);
            assert(ta == OpModel::Delete { start: s1 + m, end: y + m, client_id: a.client_id(), client_version: a.client_version() });
            assert(splice(db, s1 + m, y + m, Seq::empty()) =~= r);
        } else if e2 == e1 {
            assert(ta == OpModel::Delete { start: s1, end: s2, client_id: a.client_id(), client_version: a.client_version() });
            assert(splice(db, s1, s2, Seq::empty()) =~= r);
        } else {
            assert(u =~= Seq::<char>::empty());
            let y = e1 - (e2 - s2);
            assert(ta == OpModel::Delete { start: s1, end: y, client_id: a.client_id(), client_version: a.client_version() });
            assert(splice(db, s1, y, Seq::empty()) =~= r);
        }
    } else if s1 < s2 {
        assert(ta == OpModel::Delete { start: s1, end: s2, client_id: a.client_id(), client_version: a.client_version() });
        assert(splice(db, s1, s2, Seq::empty()) =~= r);
    } else {
        let y = e1 - (e2 - s2);
        assert(ta == OpModel::Delete { start: s2 + m, end: y + m, client_id: a.client_id(), client_version: a.client_version() });
        assert(splice(db, s2 + m, y + m, Seq::empty()) =~= r);
    }
}

/// The replace rebased past the delete, applied after it.
#[verifier::spinoff_prover]
proof fn lemma_replace_after_delete(d: Seq<char>, a: OpModel, b: OpModel)
    requires
        a.fits(d),
        b.fits(d),
        a is Delete,
        b is Replace,
    ensures
        apply_model(splice(d, a->Delete_start, a->Delete_end, Seq::empty()), transform_model(b, a))
            == Some(delete_replace_result(d, a, b)),
{
    let s1 = a->Delete_start;
    let e1 = a->Delete_end;
    let s2 = b->Replace_start;
    let e2 = b->Replace_end;
    let u = b->Replace_text;
    let da = splice(d, s1, e1, Seq::empty());
    let r = delete_replace_result(d, a, b);
    let tb = transform_model(b, a);
    let x = map_after_deletion(s2, s1, e1);
    let y = map_after_deletion(e2, s1, e1);
    if e1 <= s2 {
        assert(x == s2 - (e1 - s1) && y == e2 - (e1 - s1));
    } else if e2 <= s1 {
        assert(x == s2 && y == e2);
    } else if s2 <= s1 && e1 <= e2 {
        assert(x == s2 && y == e2 - (e1 - s1));
    } else if s1 <= s2 && e2 <= e1 {
        assert(x == s1 && y == s1);
    } else if s1 < s2 {
        assert(x == s1 && y == e2 - (e1 - s1));
    } else {
        assert(x == s2 && y == s1);
    }
    if x == y {
        assert(tb == OpModel::Insert { index: x, text: u, client_id: b.client_id(), client_version: b.client_version() });
        assert(splice(da, x, x, u) =~= r);
    } else {
        assert(tb == OpModel::Replace { start: x, end: y, text: u, client_id: b.client_id(), client_version: b.client_version() });
        assert(splice(da, x, y, u) =~= r);
    }
}

/// A concurrent delete and replace converge, except where a non-empty
/// replacement lies within the deleted range and away from both of its ends.
pub proof fn lemma_converge_delete_replace(d: Seq<char>, a: OpModel, b: OpModel)
    requires
        a.fits(d),
        b.fits(d),
        a is Delete,
        b is Replace,
        !(a->Delete_start < b->Replace_start && b->Replace_end < a->Delete_end
            && b->Replace_text.len() > 0),
    ensures
        converges(d, a, b),
        converges(d, b, a),
{
    lemma_delete_after_replace(d, a, b);
    lemma_replace_after_delete(d, a, b);
}

/// Two concurrent replaces of ranges that neither overlap nor touch converge.
proof fn lemma_converge_separate_replaces(d: Seq<char>, a: OpModel, b: OpModel)
    requires
        a.fits(d),
        b.fits(d),
        a is Replace,
        b is Replace,
        a->Replace_end < b->Replace_start,
    ensures
        converges(d, a, b),
        converges(d, b, a),
{
    let s1 = a->Replace_start;
    let e1 = a->Replace_end;
    let u1 = a->Replace_text;
    let s2 = b->Replace_start;
    let e2 = b->Replace_end;
    let u2 = b->Replace_text;
    let k = u1.len() - (e1 - s1);
    let da = splice(d, s1, e1, u1);
    let db = splice(d, s2, e2, u2);
    let r = d.subrange(0, s1) + u1 + d.subrange(e1, s2) + u2 + d.subrange(e2, d.len() as int);
    assert(splice(da, s2 + k, e2 + k, u2) =~= r);
    assert(splice(db, s1, e1, u1) =~= r);
}

/// Replace `b` rebased past replace `a` and applied after it, where the two
/// ranges overlap or touch: the union of the ranges gives way to `b`'s text,
/// preceded by `a`'s unless `b` starts first.
#[verifier::spinoff_prover]
proof fn lemma_replace_after_replace(d: Seq<char>, a: OpModel, b: OpModel)
    requires
        a.fits(d),
        b.fits(d),
        a is Replace,
        b is Replace,
        b->Replace_start <= a->Replace_end,
        a->Replace_start <= b->Replace_end,
    ensures
        ({
            let s1 = a->Replace_start;
            let e1 = a->Replace_end;
            let s2 = b->Replace_start;
            let e2 = b->Replace_end;
            let lo = if s1 < s2 {
                s1
            } else {
                s2
            };
            let hi = if e1 < e2 {
                e2
            } else {
                e1
            };
            let w = if s2 < s1 {
                b->Replace_text
            } else {
                a->Replace_text + b->Replace_text
            };
            apply_model(splice(d, s1, e1, a->Replace_text), transform_model(b, a)) == Some(
                d.subrange(0, lo) + w + d.subrange(hi, d.len() as int),
            )
        }),
{
    let s1 = a->Replace_start;
    let e1 = a->Replace_end;
    let u1 = a->Replace_text;
    let s2 = b->Replace_start;
    let e2 = b->Replace_end;
    let u2 = b->Replace_text;
    let m1 = u1.len() as int;
    let da = splice(d, s1, e1, u1);
    let lo = if s1 < s2 { s1 } else { s2 };
    let hi = if e1 < e2 { e2 } else { e1 };
    let w = if s2 < s1 { u2 } else { u1 + u2 };
    let r = d.subrange(0, lo) + w + d.subrange(hi, d.len() as int);
    let x = if s2 < s1 { s2 } else { s1 + m1 };
    let y = if e2 > e1 { e2 - (e1 - s1) + m1 } else { s1 + m1 };
    let tb = transform_model(b, a);
    if x == y {
        assert(tb == OpModel::Insert { index: x, text: u2, client_id: b.client_id(), client_version: b.client_version() });
        assert(splice(da, x, x, u2) =~= r);
    } else {
        assert(tb == OpModel::Replace { start: x, end: y, text: u2, client_id: b.client_id(), client_version: b.client_version() });
        assert(splice(da, x, y, u2) =~= r);
    }
}

/// Two concurrent replaces converge when their ranges neither overlap nor
/// touch; otherwise exactly when the text of the one that starts later is
/// empty, or, for equal starts, when the two texts commute.
pub proof fn lemma_converge_replace_replace(d: Seq<char>, a: OpModel, b: OpModel)
    requires
        a.fits(d),
        b.fits(d),
        a is Replace,
        b is Replace,
        converging_replaces(a, b),
    ensures
        converges(d, a, b),
{
    if a->Replace_end < b->Replace_start {
        lemma_converge_separate_replaces(d, a, b);
    } else if b->Replace_end < a->Replace_start {
        lemma_converge_separate_replaces(d, b, a);
    } else {
        lemma_replace_after_replace(d, a, b);
        lemma_replace_after_replace(d, b, a);
    }
}

/// The replace pairs that converge: separate ranges, or an empty text for the
/// one that starts later, or commuting texts for equal starts.
pub open spec fn converging_replaces(a: OpModel, b: OpModel) -> bool {
    let s1 = a->Replace_start;
    let e1 = a->Replace_end;
    let u1 = a->Replace_text;
    let s2 = b->Replace_start;
    let e2 = b->Replace_end;
    let u2 = b->Replace_text;
    ||| e1 < s2
    ||| e2 < s1
    ||| s1 < s2 && u2.len() == 0
    ||| s2 < s1 && u1.len() == 0
    ||| s1 == s2 && u1 + u2 == u2 + u1
}

/// The pairs of concurrent edits that converge: any pair with a
/// noop; two inserts unless both come from one client at one position with
/// texts that do not commute; an insert and a delete unless a non-empty text
/// lands strictly inside the deleted range; an insert and a replace unless a
/// non-empty text lands strictly inside the replaced range, or at its start
/// without commuting with the replacement; any two deletes; a delete and a
/// replace unless a non-empty replacement lies strictly inside the deleted
/// range; two replaces as `converging_replaces` says.
pub open spec fn converging_pair(a: OpModel, b: OpModel) -> bool {
    if a is Noop || b is Noop {
        true
    } else if a is Insert && b is Insert {
        a->Insert_index != b->Insert_index || a.client_id() != b.client_id() || a->Insert_text
            + b->Insert_text == b->Insert_text + a->Insert_text
    } else if a is Delete && b is Delete {
        true
    } else if a is Replace && b is Replace {
        converging_replaces(a, b)
    } else {
        converging_mixed(a, b) || converging_mixed(b, a)
    }
}

/// The insert-delete, insert-replace and delete-replace pairs of
/// `converging_pair`, in that order.
pub open spec fn converging_mixed(a: OpModel, b: OpModel) -> bool {
    if a is Insert && b is Delete {
        !(b->Delete_start < a->Insert_index < b->Delete_end && a->Insert_text.len() > 0)
    } else if a is Insert && b is Replace {
        &&& !(b->Replace_start < a->Insert_index < b->Replace_end && a->Insert_text.len() > 0)
        &&& a->Insert_index == b->Replace_start ==> a->Insert_text + b->Replace_text
            == b->Replace_text + a->Insert_text
    } else if a is Delete && b is Replace {
        !(a->Delete_start < b->Replace_start && b->Replace_end < a->Delete_end
            && b->Replace_text.len() > 0)
    } else {
        false
    }
}

/// Convergence of concurrent edits: for the pairs of `converging_pair`, both
/// orders of applying `a` and `b` to `d`, each followed by the other rebased
/// past it, give the same document.
pub proof fn lemma_convergence(d: Seq<char>, a: OpModel, b: OpModel)
    requires
        a.fits(d),
        b.fits(d),
        converging_pair(a, b),
    ensures
        converges(d, a, b),
{
    if a is Noop || b is Noop {
        lemma_converge_noop(d, a, b);
    } else if a is Insert && b is Insert {
        lemma_converge_insert_insert(d, a, b);
    } else if a is Insert && b is Delete {
        lemma_converge_insert_delete(d, a, b);
    } else if a is Delete && b is Insert {
        lemma_converge_insert_delete(d, b, a);
    } else if a is Insert && b is Replace {
        lemma_converge_insert_replace(d, a, b);
    } else if a is Replace && b is Insert {
        lemma_converge_insert_replace(d, b, a);
    } else if a is Delete && b is Delete {
        lemma_converge_delete_delete(d, a, b);
    } else if a is Delete && b is Replace {
        lemma_converge_delete_replace(d, a, b);
    } else if a is Replace && b is Delete {
        lemma_converge_delete_replace(d, b, a);
    } else {
        lemma_converge_replace_replace(d, a, b);
    }
}

/// Sequences that differ only in a middle part of equal length are equal
/// exactly when those parts are.
proof fn lemma_middle_differs(x: Seq<char>, p: Seq<char>, q: Seq<char>, y: Seq<char>)
    requires
        p.len() == q.len(),
        p != q,
    ensures
        x + p + y != x + q + y,
{
    let l = x + p + y;
    let r = x + q + y;
    assert(l.subrange(x.len() as int, (x.len() + p.len()) as int) =~= p);
    assert(r.subrange(x.len() as int, (x.len() + q.len()) as int) =~= q);
}

/// Outside the pairs of `converging_pair` the two orders give different
/// documents, whatever the starting document.
pub proof fn lemma_divergence(d: Seq<char>, a: OpModel, b: OpModel)
    requires
        a.fits(d),
        b.fits(d),
        !converging_pair(a, b),
    ensures
        !converges(d, a, b),
{
    if a is Insert && b is Insert {
        let i = a->Insert_index;
        let x = d.subrange(0, i);
        let y = d.subrange(i, d.len() as int);
        let t1 = a->Insert_text;
        let t2 = b->Insert_text;
        lemma_seq_lt_total(a.client_id(), b.client_id());
        assert(splice(splice(d, i, i, t1), i, i, t2) =~= x + (t2 + t1) + y);
        assert(splice(splice(d, i, i, t2), i, i, t1) =~= x + (t1 + t2) + y);
        lemma_middle_differs(x, t2 + t1, t1 + t2, y);
        assert(!converges(d, a, b));
    } else if a is Replace && b is Replace {
        lemma_replace_after_replace(d, a, b);
        lemma_replace_after_replace(d, b, a);
        let s1 = a->Replace_start;
        let s2 = b->Replace_start;
        let u1 = a->Replace_text;
        let u2 = b->Replace_text;
        let lo = if s1 < s2 { s1 } else { s2 };
        let hi = if a->Replace_end < b->Replace_end { b->Replace_end } else { a->Replace_end };
        let x = d.subrange(0, lo);
        let y = d.subrange(hi, d.len() as int);
        if s1 == s2 {
            lemma_middle_differs(x, u1 + u2, u2 + u1, y);
        } else if s1 < s2 {
            assert((x + (u1 + u2) + y).len() != (x + u1 + y).len());
        } else {
            assert((x + u2 + y).len() != (x + (u2 + u1) + y).len());
        }
    } else if converging_mixed_shape(a, b) {
        lemma_mixed_divergence(d, a, b);
    } else {
        lemma_mixed_divergence(d, b, a);
    }
}

/// `a` and `b` form an insert-delete, insert-replace or delete-replace pair,
/// in that order.
spec fn converging_mixed_shape(a: OpModel, b: OpModel) -> bool {
    ||| a is Insert && b is Delete
    ||| a is Insert && b is Replace
    ||| a is Delete && b is Replace
}

#[verifier::spinoff_prover]
proof fn lemma_mixed_divergence(d: Seq<char>, a: OpModel, b: OpModel)
    requires
        a.fits(d),
        b.fits(d),
        converging_mixed_shape(a, b),
        !converging_mixed(a, b),
    ensures
        !converges(d, a, b),
        !converges(d, b, a),
{
    if a is Insert && b is Delete {
        let i = a->Insert_index;
        let t = a->Insert_text;
        let s = b->Delete_start;
        let e = b->Delete_end;
        let p1 = splice(splice(d, i, i, t), s, e + t.len(), Seq::empty());
        let p2 = splice(splice(d, s, e, Seq::empty()), s, s, t);
        assert(p1.len() != p2.len());
    } else if a is Insert && b is Replace {
        let i = a->Insert_index;
        let t = a->Insert_text;
        let s = b->Replace_start;
        let e = b->Replace_end;
        let u = b->Replace_text;
        if i == s {
            let x = d.subrange(0, s);
            let y = d.subrange(e, d.len() as int);
            assert(splice(splice(d, i, i, t), s + t.len(), e + t.len(), u) =~= x + (t + u) + y);
            assert(splice(splice(d, s, e, u), s + u.len(), s + u.len(), t) =~= x + (u + t) + y);
            lemma_middle_differs(x, t + u, u + t, y);
        } else {
            let p1 = splice(splice(d, i, i, t), s, e + t.len(), u);
            let p2 = splice(splice(d, s, e, u), s + u.len(), s + u.len(), t);
            assert(p1.len() != p2.len());
        }
    } else {
        let s1 = a->Delete_start;
        let e1 = a->Delete_end;
        let s2 = b->Replace_start;
        let e2 = b->Replace_end;
        let u = b->Replace_text;
        lemma_replace_after_delete(d, a, b);
        let y1 = e1 - (e2 - s2);
        assert(transform_model(a, b) == OpModel::Delete {
            start: s1,
            end: y1 + u.len(),
            client_id: a.client_id(),
            client_version: a.client_version(),
        });
        let p1 = splice(splice(d, s2, e2, u), s1, y1 + u.len(), Seq::empty());
        assert(p1.len() == d.len() - (e1 - s1));
    }
}

/// Convergence, exactly: both orders of applying concurrent `a` and `b` to
/// `d`, each followed by the other rebased past it, give the same document
/// if and only if the pair is one of `converging_pair`.
pub proof fn lemma_convergence_exact(d: Seq<char>, a: OpModel, b: OpModel)
    requires
        a.fits(d),
        b.fits(d),
    ensures
        converges(d, a, b) <==> converging_pair(a, b),
{
    if converging_pair(a, b) {
        lemma_convergence(d, a, b);
    } else {
        lemma_divergence(d, a, b);
    }
}

} // verus!
