use vstd::prelude::*;

verus! {

/// A row of a table: it carries the identifier the store assigned, its
/// creation stamp, and optionally the identifier of the parent row whose
/// deletion removes it.
pub trait Record: Sized {
    spec fn spec_id(&self) -> i32;

    spec fn spec_created_at(&self) -> i64;

    spec fn spec_parent(&self) -> Option<i32>;

    fn id(&self) -> (r: i32)
        ensures
            r == self.spec_id(),
    ;

    fn created_at(&self) -> (r: i64)
        ensures
            r == self.spec_created_at(),
    ;

    fn parent(&self) -> (r: Option<i32>)
        ensures
            r == self.spec_parent(),
    ;

    fn duplicate(&self) -> (r: Self)
        ensures
            r == *self,
    ;
}

/// Whether some row of `rows` has identifier `id`.
pub open spec fn has_id<R: Record>(rows: Seq<R>, id: i32) -> bool {
    exists|i: int| 0 <= i < rows.len() && #[trigger] rows[i].spec_id() == id
}

/// The row of `rows` with identifier `id`, if any.
pub open spec fn find_row<R: Record>(rows: Seq<R>, id: i32) -> Option<R> {
    if has_id(rows, id) {
        Some(rows[choose|i: int| 0 <= i < rows.len() && #[trigger] rows[i].spec_id() == id])
    } else {
        None
    }
}

pub open spec fn id_differs<R: Record>(id: i32) -> spec_fn(R) -> bool {
    |r: R| r.spec_id() != id
}

pub open spec fn parent_is<R: Record>(parent: i32) -> spec_fn(R) -> bool {
    |r: R| r.spec_parent() == Some(parent)
}

pub open spec fn parent_differs<R: Record>(parent: i32) -> spec_fn(R) -> bool {
    |r: R| r.spec_parent() != Some(parent)
}

/// Whether some row of `rows` has parent `parent`.
pub open spec fn has_child<R: Record>(rows: Seq<R>, parent: i32) -> bool {
    exists|i: int| 0 <= i < rows.len() && #[trigger] rows[i].spec_parent() == Some(parent)
}

/// A filter that every element passes keeps the sequence.
pub proof fn lemma_filter_all<A>(s: Seq<A>, pred: spec_fn(A) -> bool)
    requires
        forall|i: int| 0 <= i < s.len() ==> pred(#[trigger] s[i]),
    ensures
        s.filter(pred) == s,
    decreases s.len(),
{
    reveal(Seq::filter);
    if s.len() > 0 {
        lemma_filter_all(s.drop_last(), pred);
        assert(s.drop_last().push(s.last()) =~= s);
    }
}

/// Removing an identifier that is absent keeps the rows.
pub proof fn lemma_without_absent<R: Record>(rows: Seq<R>, id: i32)
    requires
        !has_id(rows, id),
    ensures
        without_id(rows, id) == rows,
{
    assert forall|i: int| 0 <= i < rows.len() implies id_differs::<R>(id)(#[trigger] rows[i]) by {
        if rows[i].spec_id() == id {
            assert(has_id(rows, id));
        }
    }
    lemma_filter_all(rows, id_differs(id));
}

/// Removing the children of a parent that has none keeps the rows.
pub proof fn lemma_without_no_children<R: Record>(rows: Seq<R>, parent: i32)
    requires
        !has_child(rows, parent),
    ensures
        without_children(rows, parent) == rows,
{
    assert forall|i: int| 0 <= i < rows.len() implies parent_differs::<R>(parent)(#[trigger] rows[i]) by {
        if rows[i].spec_parent() == Some(parent) {
            assert(has_child(rows, parent));
        }
    }
    lemma_filter_all(rows, parent_differs(parent));
}

/// `rows` without the row of identifier `id`.
pub open spec fn without_id<R: Record>(rows: Seq<R>, id: i32) -> Seq<R> {
    rows.filter(id_differs(id))
}

/// The rows of `rows` whose parent is `parent`, in table order.
pub open spec fn children_of<R: Record>(rows: Seq<R>, parent: i32) -> Seq<R> {
    rows.filter(parent_is(parent))
}

/// `rows` without the rows whose parent is `parent`.
pub open spec fn without_children<R: Record>(rows: Seq<R>, parent: i32) -> Seq<R> {
    rows.filter(parent_differs(parent))
}

/// `rows` with the row that has the identifier of `row` replaced by `row`.
pub open spec fn replace_row<R: Record>(rows: Seq<R>, row: R) -> Seq<R> {
    rows.map_values(|r: R| if r.spec_id() == row.spec_id() { row } else { r })
}

/// Identifiers strictly increase along the sequence.
pub open spec fn ids_increasing<R: Record>(rows: Seq<R>) -> bool {
    forall|i: int, j: int|
        0 <= i < j < rows.len() ==> #[trigger] rows[i].spec_id() < #[trigger] rows[j].spec_id()
}

/// Creation stamps never decrease along the sequence.
pub open spec fn stamps_nondecreasing<R: Record>(rows: Seq<R>) -> bool {
    forall|i: int, j: int|
        0 <= i < j < rows.len() ==> #[trigger] rows[i].spec_created_at()
            <= #[trigger] rows[j].spec_created_at()
}

/// Creation stamps never increase along the sequence.
pub open spec fn stamps_nonincreasing<R: Record>(rows: Seq<R>) -> bool {
    forall|i: int, j: int|
        0 <= i < j < rows.len() ==> #[trigger] rows[i].spec_created_at()
            >= #[trigger] rows[j].spec_created_at()
}

/// The rows of one entity, kept in the order of their identifiers.
pub struct Table<R> {
    pub rows: Vec<R>,
    /// The largest identifier ever assigned (0 before the first insert);
    /// identifiers are never reused.
    pub last_id: i32,
}

/// Rows in identifier order, with identifiers in `1..=last_id` and creation
/// stamps that follow identifier order and are at most `clock`.
pub open spec fn rows_wf<R: Record>(rows: Seq<R>, last_id: i32, clock: i64) -> bool {
    &&& last_id >= 0
    &&& ids_increasing(rows)
    &&& stamps_nondecreasing(rows)
    &&& forall|i: int| 0 <= i < rows.len() ==> 1 <= #[trigger] rows[i].spec_id() <= last_id
    &&& forall|i: int| 0 <= i < rows.len() ==> #[trigger] rows[i].spec_created_at() <= clock
}

impl<R: Record> Table<R> {
    pub open spec fn wf(&self, clock: i64) -> bool {
        rows_wf(self.rows@, self.last_id, clock)
    }

    /// The identifier the next insert receives, if the identifier space is not used up.
    pub open spec fn spec_next_id(&self) -> Option<i32> {
        if self.last_id < i32::MAX {
            Some((self.last_id + 1) as i32)
        } else {
            None
        }
    }

    pub fn new() -> (t: Self)
        ensures
            t.rows@ == Seq::<R>::empty(),
            t.last_id == 0,
            forall|clock: i64| #[trigger] t.wf(clock),
    {
        Table { rows: Vec::new(), last_id: 0 }
    }

    pub fn next_id(&self) -> (r: Option<i32>)
        ensures
            r == self.spec_next_id(),
    {
        if self.last_id < i32::MAX {
            Some(self.last_id + 1)
        } else {
            None
        }
    }

    /// Whether the table is well formed at `clock`.
    pub fn check(&self, clock: i64) -> (r: bool)
        ensures
            r == self.wf(clock),
    {
        if self.last_id < 0 {
            return false;
        }
        let mut k: usize = 0;
        while k < self.rows.len()
            invariant
                k <= self.rows@.len(),
                self.last_id >= 0,
                rows_wf(self.rows@.take(k as int), self.last_id, clock),
            decreases self.rows@.len() - k,
        {
            let ghost s = self.rows@;
            let id = self.rows[k].id();
            let at = self.rows[k].created_at();
            if id < 1 || id > self.last_id || at > clock {
                assert(!self.wf(clock)) by {
                    if self.wf(clock) {
                        assert(1 <= s[k as int].spec_id() <= self.last_id);
                        assert(s[k as int].spec_created_at() <= clock);
                    }
                }
                return false;
            }
            if k > 0 {
                let before_id = self.rows[k - 1].id();
                let before_at = self.rows[k - 1].created_at();
                if before_id >= id || before_at > at {
                    assert(!self.wf(clock)) by {
                        if self.wf(clock) {
                            assert(s[k - 1].spec_id() < s[k as int].spec_id());
                            assert(s[k - 1].spec_created_at() <= s[k as int].spec_created_at());
                        }
                    }
                    return false;
                }
            }
            proof {
                let p = s.take(k as int);
                let q = s.take(k + 1);
                assert forall|i: int, j: int| 0 <= i < j < q.len() implies #[trigger] q[i].spec_id()
                    < #[trigger] q[j].spec_id() by {
                    if j < k {
                        assert(q[i] == p[i] && q[j] == p[j]);
                    } else if i < k - 1 {
                        assert(q[i] == p[i] && p[k - 1] == s[k - 1]);
                        assert(p[i].spec_id() < p[k - 1].spec_id());
                    }
                }
                assert forall|i: int, j: int| 0 <= i < j < q.len() implies #[trigger] q[i].spec_created_at()
                    <= #[trigger] q[j].spec_created_at() by {
                    if j < k {
                        assert(q[i] == p[i] && q[j] == p[j]);
                    } else if i < k - 1 {
                        assert(q[i] == p[i] && p[k - 1] == s[k - 1]);
                        assert(p[i].spec_created_at() <= p[k - 1].spec_created_at());
                    }
                }
                assert forall|i: int| 0 <= i < q.len() implies 1 <= #[trigger] q[i].spec_id()
                    <= self.last_id by {
                    if i < k {
                        assert(q[i] == p[i]);
                    }
                }
                assert forall|i: int| 0 <= i < q.len() implies #[trigger] q[i].spec_created_at() <= clock by {
                    if i < k {
                        assert(q[i] == p[i]);
                    }
                }
                assert(rows_wf(q, self.last_id, clock));
            }
            k = k + 1;
        }
        assert(self.rows@.take(k as int) =~= self.rows@);
        true
    }

    /// Position of the row with identifier `id`.
    pub fn position(&self, id: i32) -> (r: Option<usize>)
        requires
            ids_increasing(self.rows@),
        ensures
            match r {
                Some(k) => k < self.rows@.len() && self.rows@[k as int].spec_id() == id
                    && has_id(self.rows@, id) && find_row(self.rows@, id) == Some(
                    self.rows@[k as int],
                ),
                None => !has_id(self.rows@, id) && find_row(self.rows@, id) is None,
            },
    {
        let mut k: usize = 0;
        while k < self.rows.len()
            invariant
                k <= self.rows@.len(),
                ids_increasing(self.rows@),
                forall|i: int| 0 <= i < k ==> #[trigger] self.rows@[i].spec_id() != id,
            decreases self.rows@.len() - k,
        {
            if self.rows[k].id() == id {
                proof {
                    lemma_find_at(self.rows@, k as int);
                }
                return Some(k);
            }
            k = k + 1;
        }
        None
    }

    /// A copy of the row with identifier `id`.
    pub fn fetch(&self, id: i32) -> (r: Option<R>)
        requires
            ids_increasing(self.rows@),
        ensures
            r == find_row(self.rows@, id),
    {
        match self.position(id) {
            Some(k) => Some(self.rows[k].duplicate()),
            None => None,
        }
    }

    /// Copies of all rows, in identifier order.
    pub fn all(&self) -> (r: Vec<R>)
        ensures
            r@ == self.rows@,
    {
        let mut out: Vec<R> = Vec::new();
        let mut k: usize = 0;
        while k < self.rows.len()
            invariant
                k <= self.rows@.len(),
                out@ == self.rows@.take(k as int),
            decreases self.rows@.len() - k,
        {
            out.push(self.rows[k].duplicate());
            k = k + 1;
            assert(out@ =~= self.rows@.take(k as int));
        }
        assert(self.rows@.take(k as int) =~= self.rows@);
        out
    }

    /// Copies of all rows, newest identifier first.
    pub fn all_newest_first(&self) -> (r: Vec<R>)
        ensures
            r@ == self.rows@.reverse(),
    {
        let mut out: Vec<R> = Vec::new();
        let mut k: usize = self.rows.len();
        while k > 0
            invariant
                k <= self.rows@.len(),
                out@ == self.rows@.skip(k as int).reverse(),
            decreases k,
        {
            k = k - 1;
            out.push(self.rows[k].duplicate());
            assert(out@ =~= self.rows@.skip(k as int).reverse());
        }
        assert(self.rows@.skip(0) =~= self.rows@);
        out
    }

    /// Copies of the rows whose parent is `parent`, in identifier order.
    pub fn children(&self, parent: i32) -> (r: Vec<R>)
        ensures
            r@ == children_of(self.rows@, parent),
    {
        let mut out: Vec<R> = Vec::new();
        let mut k: usize = 0;
        while k < self.rows.len()
            invariant
                k <= self.rows@.len(),
                out@ == children_of(self.rows@.take(k as int), parent),
            decreases self.rows@.len() - k,
        {
            proof {
                lemma_take_push(self.rows@, k as int);
                lemma_filters_push(self.rows@.take(k as int), self.rows@[k as int], parent);
            }
            if self.rows[k].parent() == Some(parent) {
                out.push(self.rows[k].duplicate());
            }
            k = k + 1;
        }
        assert(self.rows@.take(k as int) =~= self.rows@);
        out
    }

    /// Whether some row has parent `parent`.
    pub fn has_children(&self, parent: i32) -> (r: bool)
        ensures
            r == has_child(self.rows@, parent),
    {
        let mut k: usize = 0;
        while k < self.rows.len()
            invariant
                k <= self.rows@.len(),
                forall|i: int| 0 <= i < k ==> #[trigger] self.rows@[i].spec_parent() != Some(parent),
            decreases self.rows@.len() - k,
        {
            if self.rows[k].parent() == Some(parent) {
                return true;
            }
            k = k + 1;
        }
        false
    }

    /// Appends `row`, which takes the next identifier.
    pub fn append(&mut self, row: R)
        requires
            old(self).spec_next_id() == Some(row.spec_id()),
        ensures
            final(self).rows@ == old(self).rows@.push(row),
            final(self).last_id == row.spec_id(),
    {
        self.rows.push(row);
        self.last_id = self.last_id + 1;
    }

    /// Replaces the row at position `k`, which has the identifier of `row`.
    pub fn replace(&mut self, k: usize, row: R)
        requires
            k < old(self).rows@.len(),
            old(self).rows@[k as int].spec_id() == row.spec_id(),
            ids_increasing(old(self).rows@),
        ensures
            final(self).rows@ == old(self).rows@.update(k as int, row),
            final(self).rows@ == replace_row(old(self).rows@, row),
            final(self).last_id == old(self).last_id,
    {
        proof {
            let s = self.rows@;
            assert(s.update(k as int, row) =~= replace_row(s, row)) by {
                assert forall|i: int| 0 <= i < s.len() implies #[trigger] s.update(
                    k as int,
                    row,
                )[i] == replace_row(s, row)[i] by {
                    if i != k {
                        assert(s[i].spec_id() != s[k as int].spec_id());
                    }
                }
            }
        }
        self.rows.set(k, row);
    }

    /// Removes the row with identifier `id`; returns how many rows went (0 or 1).
    pub fn remove(&mut self, id: i32) -> (n: usize)
        requires
            ids_increasing(old(self).rows@),
        ensures
            final(self).rows@ == without_id(old(self).rows@, id),
            final(self).last_id == old(self).last_id,
            n == old(self).rows@.len() - final(self).rows@.len(),
            !has_id(old(self).rows@, id) ==> *final(self) == *old(self),
    {
        if self.position(id).is_none() {
            proof {
                assert forall|i: int| 0 <= i < self.rows@.len() implies id_differs::<R>(id)(
                    #[trigger] self.rows@[i],
                ) by {
                    if self.rows@[i].spec_id() == id {
                        assert(has_id(self.rows@, id));
                    }
                }
                lemma_filter_all(self.rows@, id_differs(id));
            }
            return 0;
        }
        let ghost before = self.rows@;
        let mut kept: Vec<R> = Vec::new();
        let mut k: usize = 0;
        while k < self.rows.len()
            invariant
                self.rows@ == before,
                k <= before.len(),
                kept@ == without_id(before.take(k as int), id),
                kept@.len() <= k,
            decreases before.len() - k,
        {
            proof {
                lemma_take_push(before, k as int);
                lemma_filters_push(before.take(k as int), before[k as int], id);
            }
            if self.rows[k].id() != id {
                kept.push(self.rows[k].duplicate());
            }
            k = k + 1;
        }
        assert(before.take(k as int) =~= before);
        let n = self.rows.len() - kept.len();
        self.rows = kept;
        n
    }

    /// Removes the rows whose parent is `parent`; returns how many went.
    pub fn remove_children(&mut self, parent: i32) -> (n: usize)
        ensures
            final(self).rows@ == without_children(old(self).rows@, parent),
            final(self).last_id == old(self).last_id,
            n == old(self).rows@.len() - final(self).rows@.len(),
            !has_child(old(self).rows@, parent) ==> *final(self) == *old(self),
    {
        if !self.has_children(parent) {
            proof {
                assert forall|i: int| 0 <= i < self.rows@.len() implies parent_differs::<R>(parent)(
                    #[trigger] self.rows@[i],
                ) by {
                    if self.rows@[i].spec_parent() == Some(parent) {
                        assert(has_child(self.rows@, parent));
                    }
                }
                lemma_filter_all(self.rows@, parent_differs(parent));
            }
            return 0;
        }
        let ghost before = self.rows@;
        let mut kept: Vec<R> = Vec::new();
        let mut k: usize = 0;
        while k < self.rows.len()
            invariant
                self.rows@ == before,
                k <= before.len(),
                kept@ == without_children(before.take(k as int), parent),
                kept@.len() <= k,
            decreases before.len() - k,
        {
            proof {
                lemma_take_push(before, k as int);
                lemma_filters_push(before.take(k as int), before[k as int], parent);
            }
            if self.rows[k].parent() != Some(parent) {
                kept.push(self.rows[k].duplicate());
            }
            k = k + 1;
        }
        assert(before.take(k as int) =~= before);
        let n = self.rows.len() - kept.len();
        self.rows = kept;
        n
    }
}

pub proof fn lemma_take_push<A>(s: Seq<A>, k: int)
    requires
        0 <= k < s.len(),
    ensures
        s.take(k + 1) == s.take(k).push(s[k]),
{
    assert(s.take(k + 1) =~= s.take(k).push(s[k]));
}

/// Well-formedness survives a later clock.
pub proof fn lemma_wf_later<R: Record>(rows: Seq<R>, last_id: i32, c1: i64, c2: i64)
    requires
        rows_wf(rows, last_id, c1),
        c1 <= c2,
    ensures
        rows_wf(rows, last_id, c2),
{
}

/// Well-formedness survives appending a row that takes the next identifier
/// and the current stamp.
pub proof fn lemma_wf_push<R: Record>(rows: Seq<R>, last_id: i32, c1: i64, row: R, c2: i64)
    requires
        rows_wf(rows, last_id, c1),
        last_id < i32::MAX,
        row.spec_id() == last_id + 1,
        c1 <= row.spec_created_at() == c2,
    ensures
        rows_wf(rows.push(row), row.spec_id(), c2),
{
    let s = rows.push(row);
    assert forall|i: int, j: int| 0 <= i < j < s.len() implies #[trigger] s[i].spec_id()
        < #[trigger] s[j].spec_id() by {
        if j == s.len() - 1 {
            assert(s[i] == rows[i]);
        }
    }
    assert forall|i: int, j: int| 0 <= i < j < s.len() implies #[trigger] s[i].spec_created_at()
        <= #[trigger] s[j].spec_created_at() by {
        if j == s.len() - 1 {
            assert(s[i] == rows[i]);
        }
    }
    assert forall|i: int| 0 <= i < s.len() implies 1 <= #[trigger] s[i].spec_id()
        <= row.spec_id() by {
        if i < rows.len() {
            assert(s[i] == rows[i]);
        }
    }
    assert forall|i: int| 0 <= i < s.len() implies #[trigger] s[i].spec_created_at() <= c2 by {
        if i < rows.len() {
            assert(s[i] == rows[i]);
        }
    }
}

/// Replacing a row by one with the same identifier and creation stamp keeps
/// the rows well formed.
pub proof fn lemma_wf_update<R: Record>(rows: Seq<R>, last_id: i32, c: i64, k: int, row: R)
    requires
        rows_wf(rows, last_id, c),
        0 <= k < rows.len(),
        row.spec_id() == rows[k].spec_id(),
        row.spec_created_at() == rows[k].spec_created_at(),
    ensures
        rows_wf(rows.update(k, row), last_id, c),
{
    let s = rows.update(k, row);
    assert forall|i: int, j: int| 0 <= i < j < s.len() implies #[trigger] s[i].spec_id()
        < #[trigger] s[j].spec_id() by {
        assert(rows[i].spec_id() < rows[j].spec_id());
    }
    assert forall|i: int, j: int| 0 <= i < j < s.len() implies #[trigger] s[i].spec_created_at()
        <= #[trigger] s[j].spec_created_at() by {
        assert(rows[i].spec_created_at() <= rows[j].spec_created_at());
    }
    assert forall|i: int| 0 <= i < s.len() implies 1 <= #[trigger] s[i].spec_id() <= last_id by {
        assert(1 <= rows[i].spec_id() <= last_id);
    }
    assert forall|i: int| 0 <= i < s.len() implies #[trigger] s[i].spec_created_at() <= c by {
        assert(rows[i].spec_created_at() <= c);
    }
}

/// Keeping the rows that satisfy `pred` keeps the rows well formed, and
/// every kept row is one of the rows filtered.
pub proof fn lemma_wf_filter<R: Record>(rows: Seq<R>, last_id: i32, c: i64, pred: spec_fn(R) -> bool)
    requires
        rows_wf(rows, last_id, c),
    ensures
        rows_wf(rows.filter(pred), last_id, c),
        forall|i: int|
            0 <= i < rows.filter(pred).len() ==> rows.contains(#[trigger] rows.filter(pred)[i])
                && pred(rows.filter(pred)[i]),
    decreases rows.len(),
{
    reveal(Seq::filter);
    if rows.len() > 0 {
        let init = rows.drop_last();
        let x = rows.last();
        assert(rows_wf(init, last_id, c)) by {
            assert forall|i: int, j: int| 0 <= i < j < init.len() implies #[trigger] init[i].spec_id()
                < #[trigger] init[j].spec_id() by {
                assert(init[i] == rows[i] && init[j] == rows[j]);
            }
            assert forall|i: int, j: int| 0 <= i < j < init.len() implies #[trigger] init[i].spec_created_at()
                <= #[trigger] init[j].spec_created_at() by {
                assert(init[i] == rows[i] && init[j] == rows[j]);
            }
            assert forall|i: int| 0 <= i < init.len() implies 1 <= #[trigger] init[i].spec_id() <= last_id by {
                assert(init[i] == rows[i]);
            }
            assert forall|i: int| 0 <= i < init.len() implies #[trigger] init[i].spec_created_at() <= c by {
                assert(init[i] == rows[i]);
            }
        }
        lemma_wf_filter(init, last_id, c, pred);
        let f = init.filter(pred);
        assert forall|i: int| 0 <= i < f.len() implies #[trigger] f[i].spec_id() < x.spec_id()
            && f[i].spec_created_at() <= x.spec_created_at() by {
            assert(init.contains(f[i]));
            let j = choose|j: int| 0 <= j < init.len() && init[j] == f[i];
            assert(rows[j] == init[j]);
            assert(rows[j].spec_id() < rows[rows.len() - 1].spec_id());
            assert(rows[j].spec_created_at() <= rows[rows.len() - 1].spec_created_at());
        }
        if pred(x) {
            let s = f.push(x);
            assert(rows.filter(pred) == s);
            assert forall|i: int, j: int| 0 <= i < j < s.len() implies #[trigger] s[i].spec_id()
                < #[trigger] s[j].spec_id() by {
                assert(s[i] == f[i]);
            }
            assert forall|i: int, j: int| 0 <= i < j < s.len() implies #[trigger] s[i].spec_created_at()
                <= #[trigger] s[j].spec_created_at() by {
                assert(s[i] == f[i]);
            }
            assert forall|i: int| 0 <= i < s.len() implies rows.contains(#[trigger] s[i]) && pred(s[i]) by {
                if i < f.len() {
                    assert(s[i] == f[i]);
                    assert(init.contains(f[i]));
                    let j = choose|j: int| 0 <= j < init.len() && init[j] == f[i];
                    assert(rows[j] == init[j]);
                } else {
                    assert(rows[rows.len() - 1] == x);
                }
            }
            assert forall|i: int| 0 <= i < s.len() implies 1 <= #[trigger] s[i].spec_id() <= last_id by {
                if i == f.len() {
                    assert(rows[rows.len() - 1] == x);
                }
            }
            assert forall|i: int| 0 <= i < s.len() implies #[trigger] s[i].spec_created_at() <= c by {
                if i == f.len() {
                    assert(rows[rows.len() - 1] == x);
                }
            }
        } else {
            assert(rows.filter(pred) == f);
            assert forall|i: int| 0 <= i < f.len() implies rows.contains(#[trigger] f[i]) && pred(f[i]) by {
                assert(init.contains(f[i]));
                let j = choose|j: int| 0 <= j < init.len() && init[j] == f[i];
                assert(rows[j] == init[j]);
            }
        }
    }
}

/// A row that satisfies `pred` is kept by the filter.
pub proof fn lemma_filter_keeps<A>(rows: Seq<A>, pred: spec_fn(A) -> bool, k: int)
    requires
        0 <= k < rows.len(),
        pred(rows[k]),
    ensures
        rows.filter(pred).contains(rows[k]),
{
    rows.lemma_filter_contains(pred, k);
}

/// Identifiers present before a push stay present, and the pushed one is present.
pub proof fn lemma_has_id_push<R: Record>(rows: Seq<R>, row: R)
    ensures
        has_id(rows.push(row), row.spec_id()),
        forall|id: i32| has_id(rows, id) ==> #[trigger] has_id(rows.push(row), id),
        forall|id: i32| #[trigger] has_id(rows.push(row), id) ==> has_id(rows, id) || id == row.spec_id(),
{
    let s = rows.push(row);
    assert(s[rows.len() as int] == row);
    assert forall|id: i32| has_id(rows, id) implies #[trigger] has_id(s, id) by {
        let i = choose|i: int| 0 <= i < rows.len() && #[trigger] rows[i].spec_id() == id;
        assert(s[i] == rows[i]);
    }
    assert forall|id: i32| #[trigger] has_id(s, id) implies has_id(rows, id) || id == row.spec_id() by {
        let i = choose|i: int| 0 <= i < s.len() && #[trigger] s[i].spec_id() == id;
        if i < rows.len() {
            assert(s[i] == rows[i]);
        }
    }
}

/// Replacing a row by one with the same identifier keeps the same identifiers.
pub proof fn lemma_has_id_update<R: Record>(rows: Seq<R>, k: int, row: R)
    requires
        0 <= k < rows.len(),
        row.spec_id() == rows[k].spec_id(),
    ensures
        forall|id: i32| #[trigger] has_id(rows.update(k, row), id) == has_id(rows, id),
{
    let s = rows.update(k, row);
    assert forall|id: i32| #[trigger] has_id(s, id) == has_id(rows, id) by {
        if has_id(s, id) {
            let i = choose|i: int| 0 <= i < s.len() && #[trigger] s[i].spec_id() == id;
            assert(rows[i].spec_id() == id);
        }
        if has_id(rows, id) {
            let i = choose|i: int| 0 <= i < rows.len() && #[trigger] rows[i].spec_id() == id;
            assert(s[i].spec_id() == id);
        }
    }
}

/// A kept identifier is present after filtering; every identifier present
/// after filtering was present before.
pub proof fn lemma_has_id_filter<R: Record>(rows: Seq<R>, pred: spec_fn(R) -> bool, id: i32)
    ensures
        has_id(rows.filter(pred), id) ==> has_id(rows, id),
        (exists|k: int| 0 <= k < rows.len() && rows[k].spec_id() == id && pred(rows[k]))
            ==> has_id(rows.filter(pred), id),
{
    let f = rows.filter(pred);
    if has_id(f, id) {
        let i = choose|i: int| 0 <= i < f.len() && #[trigger] f[i].spec_id() == id;
        assert(f.contains(f[i]));
        rows.lemma_filter_contains_rev(pred, f[i]);
        let j = choose|j: int| 0 <= j < rows.len() && rows[j] == f[i];
        assert(rows[j].spec_id() == id);
    }
    if exists|k: int| 0 <= k < rows.len() && rows[k].spec_id() == id && pred(rows[k]) {
        let k = choose|k: int| 0 <= k < rows.len() && rows[k].spec_id() == id && pred(rows[k]);
        lemma_filter_keeps(rows, pred, k);
        let i = choose|i: int| 0 <= i < f.len() && f[i] == rows[k];
        assert(f[i].spec_id() == id);
    }
}

/// How the table filters extend when a row is pushed.
pub proof fn lemma_filters_push<R: Record>(s: Seq<R>, x: R, v: i32)
    ensures
        without_id(s.push(x), v) == if x.spec_id() != v {
            without_id(s, v).push(x)
        } else {
            without_id(s, v)
        },
        children_of(s.push(x), v) == if x.spec_parent() == Some(v) {
            children_of(s, v).push(x)
        } else {
            children_of(s, v)
        },
        without_children(s.push(x), v) == if x.spec_parent() != Some(v) {
            without_children(s, v).push(x)
        } else {
            without_children(s, v)
        },
{
    s.lemma_filter_push(x, id_differs(v));
    s.lemma_filter_push(x, parent_is(v));
    s.lemma_filter_push(x, parent_differs(v));
}

/// With increasing identifiers, the row found for an identifier is the one at
/// the position that carries it.
pub proof fn lemma_find_at<R: Record>(rows: Seq<R>, k: int)
    requires
        ids_increasing(rows),
        0 <= k < rows.len(),
    ensures
        has_id(rows, rows[k].spec_id()),
        find_row(rows, rows[k].spec_id()) == Some(rows[k]),
{
    let id = rows[k].spec_id();
    assert(has_id(rows, id));
    let j = choose|i: int| 0 <= i < rows.len() && #[trigger] rows[i].spec_id() == id;
    if j < k {
        assert(rows[j].spec_id() < rows[k].spec_id());
    } else if j > k {
        assert(rows[k].spec_id() < rows[j].spec_id());
    }
}

} // verus!
