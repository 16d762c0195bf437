use vstd::prelude::*;
use crate::table::{ids_increasing, Record};

verus! {

broadcast use vstd::seq_lib::group_to_multiset_ensures;

/// The order in which a kind of row is listed. Rows with distinct identifiers
/// are always ordered one way or the other.
pub trait ListOrder: Record {
    /// Whether `self` is listed strictly before `other`.
    spec fn spec_before(&self, other: &Self) -> bool;

    fn before(&self, other: &Self) -> (r: bool)
        ensures
            r == self.spec_before(other),
    ;

    proof fn lemma_order(a: &Self, b: &Self, c: &Self)
        ensures
            !a.spec_before(a),
            a.spec_before(b) && b.spec_before(c) ==> a.spec_before(c),
            a.spec_id() != b.spec_id() ==> a.spec_before(b) || b.spec_before(a),
    ;
}

/// Each row is listed strictly before every later one.
pub open spec fn in_list_order<R: ListOrder>(rows: Seq<R>) -> bool {
    forall|i: int, j: int| 0 <= i < j < rows.len() ==> #[trigger] rows[i].spec_before(&#[trigger] rows[j])
}

/// `r` holds exactly the rows of `rows`, in listing order.
pub open spec fn listing_of<R: ListOrder>(r: Seq<R>, rows: Seq<R>) -> bool {
    r.to_multiset() == rows.to_multiset() && in_list_order(r)
}

/// The rows of `rows` in listing order.
pub fn sort_rows<R: ListOrder>(rows: Vec<R>) -> (r: Vec<R>)
    requires
        ids_increasing(rows@),
    ensures
        listing_of(r@, rows@),
{
    let mut out: Vec<R> = Vec::new();
    let mut i: usize = 0;
    while i < rows.len()
        invariant
            i <= rows@.len(),
            ids_increasing(rows@),
            out@.to_multiset() == rows@.take(i as int).to_multiset(),
            in_list_order(out@),
        decreases rows@.len() - i,
    {
        let x = rows[i].duplicate();
        // every row placed so far has a smaller identifier than `x`
        assert forall|q: int| 0 <= q < out@.len() implies #[trigger] out@[q].spec_id() < x.spec_id() by {
            assert(out@.to_multiset().count(out@[q]) > 0);
            assert(rows@.take(i as int).to_multiset().count(out@[q]) > 0);
            assert(rows@.take(i as int).contains(out@[q]));
            let m = choose|m: int| 0 <= m < i && rows@.take(i as int)[m] == out@[q];
            assert(rows@[m] == out@[q]);
        }
        let mut p: usize = 0;
        while p < out.len() && !x.before(&out[p])
            invariant
                p <= out@.len(),
                forall|q: int| 0 <= q < p ==> #[trigger] out@[q].spec_before(&x),
                forall|q: int| 0 <= q < out@.len() ==> #[trigger] out@[q].spec_id() < x.spec_id(),
            decreases out@.len() - p,
        {
            proof {
                R::lemma_order(&out@[p as int], &x, &x);
            }
            p = p + 1;
        }
        let ghost prev = out@;
        out.insert(p, x);
        proof {
            assert(out@ == prev.insert(p as int, x));
            vstd::seq_lib::to_multiset_insert(prev, p as int, x);
            assert(rows@.take(i + 1) =~= rows@.take(i as int).push(rows@[i as int]));
            assert(out@.to_multiset() == rows@.take(i + 1).to_multiset());
            assert forall|a: int, b: int| 0 <= a < b < out@.len() implies #[trigger] out@[a].spec_before(
                &#[trigger] out@[b],
            ) by {
                if b < p {
                    assert(out@[a] == prev[a] && out@[b] == prev[b]);
                } else if b == p {
                    assert(out@[a] == prev[a]);
                } else if a < p {
                    assert(out@[a] == prev[a] && out@[b] == prev[b - 1]);
                } else if a == p {
                    assert(out@[b] == prev[b - 1]);
                    if p < prev.len() {
                        R::lemma_order(&x, &prev[p as int], &prev[b - 1]);
                    }
                } else {
                    assert(out@[a] == prev[a - 1] && out@[b] == prev[b - 1]);
                }
            }
        }
        i = i + 1;
    }
    assert(rows@.take(i as int) =~= rows@);
    out
}

} // verus!
