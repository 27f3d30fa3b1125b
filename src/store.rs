use vstd::prelude::*;

use crate::delivery::{cursor_of, precedes, Cursor, Delivery, Target};

verus! {

/// Why a store operation failed.
#[derive(Clone, Copy, Debug, PartialEq, Eq, Structural)]
pub enum StoreError {
    /// No delivery has the given id.
    NotFound,
    /// The backing storage could not be read or written.
    Unavailable,
    /// Every identifier has been handed out.
    IdsExhausted,
}

/// Whether `s` is strictly ordered by due time, then id.
pub open spec fn ordered(s: Seq<Delivery>) -> bool {
    forall|i: int, j: int| 0 <= i < j < s.len() ==> #[trigger] precedes(s[i], s[j])
}

/// Whether no two deliveries of `s` share an id.
pub open spec fn unique_ids(s: Seq<Delivery>) -> bool {
    forall|i: int, j: int| 0 <= i < s.len() && 0 <= j < s.len() && i != j ==> s[i].id != s[j].id
}

/// Whether some delivery of `s` has the id `id`.
pub open spec fn holds_id(s: Seq<Delivery>, id: i64) -> bool {
    exists|i: int| 0 <= i < s.len() && s[i].id == id
}

/// Whether `s` is ordered by due time, earliest first.
pub open spec fn due_order(s: Seq<Delivery>) -> bool {
    forall|i: int, j: int| 0 <= i <= j < s.len() ==> s[i].due_at <= s[j].due_at
}

/// In an ordered sequence, the first delivery after `s[i]` is `s[i + 1]`, and
/// none follows the last: a pass that walks `earliest_after` from no cursor
/// meets the deliveries one by one, in due order, each once.
pub proof fn lemma_pass_walks_in_order(s: Seq<Delivery>, i: int)
    requires
        ordered(s),
        0 <= i < s.len(),
    ensures
        i + 1 < s.len() ==> follows(Some(cursor_of(s[i])), s[i + 1]),
        forall|j: int|
            0 <= j < s.len() && follows(Some(cursor_of(s[i])), #[trigger] s[j]) ==> j > i && (j == i + 1
                || precedes(s[i + 1], s[j])),
        s.len() > 0 ==> forall|j: int| 0 <= j < s.len() ==> !precedes(#[trigger] s[j], s[0]),
{
    assert forall|j: int| 0 <= j < s.len() && follows(Some(cursor_of(s[i])), #[trigger] s[j]) implies j > i && (j
        == i + 1 || precedes(s[i + 1], s[j])) by {
        if j < i {
            assert(precedes(s[j], s[i]));
        }
    }
    if i + 1 < s.len() {
        assert(precedes(s[i], s[i + 1]));
    }
    assert forall|j: int| 0 <= j < s.len() implies !precedes(#[trigger] s[j], s[0]) by {
        if j > 0 {
            assert(precedes(s[0], s[j]));
        }
    }
}

/// The due times of `s`, in its order.
pub open spec fn dues(s: Seq<Delivery>) -> Seq<i64> {
    s.map_values(|d: Delivery| d.due_at)
}

/// Whether `a` never decreases.
pub open spec fn non_decreasing(a: Seq<i64>) -> bool {
    forall|i: int, j: int| 0 <= i <= j < a.len() ==> a[i] <= a[j]
}

/// Two non-decreasing sequences that hold the same values, each as often,
/// are the same sequence.
pub proof fn lemma_sorted_is_unique(a: Seq<i64>, b: Seq<i64>)
    requires
        non_decreasing(a),
        non_decreasing(b),
        a.to_multiset() == b.to_multiset(),
    ensures
        a == b,
    decreases a.len(),
{
    broadcast use vstd::seq_lib::to_multiset_len, vstd::seq_lib::to_multiset_contains, vstd::seq_lib::to_multiset_remove;

    assert(a.len() == a.to_multiset().len());
    assert(b.len() == b.to_multiset().len());
    if a.len() > 0 {
        assert(a.to_multiset().count(a[0]) > 0) by {
            assert(a.contains(a[0]));
        }
        assert(b.contains(a[0]));
        let j = choose|j: int| 0 <= j < b.len() && b[j] == a[0];
        assert(b[0] <= a[0]);
        assert(b.to_multiset().count(b[0]) > 0) by {
            assert(b.contains(b[0]));
        }
        assert(a.contains(b[0]));
        let k = choose|k: int| 0 <= k < a.len() && a[k] == b[0];
        assert(a[0] <= b[0]);
        let ra = a.remove(0);
        let rb = b.remove(0);
        assert(ra.to_multiset() == a.to_multiset().remove(a[0]));
        assert(rb.to_multiset() == b.to_multiset().remove(b[0]));
        assert forall|i: int, j: int| 0 <= i <= j < ra.len() implies ra[i] <= ra[j] by {
            assert(ra[i] == a[i + 1] && ra[j] == a[j + 1]);
        }
        assert forall|i: int, j: int| 0 <= i <= j < rb.len() implies rb[i] <= rb[j] by {
            assert(rb[i] == b[i + 1] && rb[j] == b[j + 1]);
        }
        lemma_sorted_is_unique(ra, rb);
        assert forall|i: int| 0 <= i < a.len() implies a[i] == b[i] by {
            if i > 0 {
                assert(a[i] == ra[i - 1] && b[i] == rb[i - 1]);
            }
        }
        assert(a =~= b);
    } else {
        assert(a =~= b);
    }
}

/// Inserting `d` where the due times around it place it, with an id above
/// all others, keeps a sequence ordered and its ids unique.
proof fn lemma_insertion_keeps_order(s: Seq<Delivery>, p: int, d: Delivery)
    requires
        ordered(s),
        unique_ids(s),
        0 <= p <= s.len(),
        forall|i: int| 0 <= i < s.len() ==> #[trigger] s[i].id < d.id,
        forall|i: int| 0 <= i < p ==> #[trigger] s[i].due_at <= d.due_at,
        p < s.len() ==> s[p].due_at > d.due_at,
    ensures
        ordered(s.insert(p, d)),
        unique_ids(s.insert(p, d)),
{
    let r = s.insert(p, d);
    assert forall|i: int, j: int| 0 <= i < j < r.len() implies #[trigger] precedes(r[i], r[j]) by {
        if j < p {
            assert(precedes(s[i], s[j]));
        } else if j == p {
            assert(s[i].due_at <= d.due_at);
            assert(s[i].id < d.id);
        } else if i == p {
            if j - 1 > p {
                assert(precedes(s[p], s[j - 1]));
            }
        } else if i < p {
            assert(precedes(s[i], s[j - 1]));
        } else {
            assert(precedes(s[i - 1], s[j - 1]));
        }
    }
    assert forall|i: int, j: int| 0 <= i < r.len() && 0 <= j < r.len() && i != j implies r[i].id != r[j].id by {
        if i != p && j != p {
            let bi = if i < p { i } else { i - 1 };
            let bj = if j < p { j } else { j - 1 };
            assert(s[bi].id != s[bj].id);
        } else if i != p {
            let bi = if i < p { i } else { i - 1 };
            assert(s[bi].id < d.id);
        } else if j != p {
            let bj = if j < p { j } else { j - 1 };
            assert(s[bj].id < d.id);
        }
    }
}

/// Removing one delivery keeps a sequence ordered, its ids unique and in
/// range, and leaves no delivery with the removed id.
proof fn lemma_removal_keeps_order(s: Seq<Delivery>, k: int, next_id: i64)
    requires
        ordered(s),
        unique_ids(s),
        0 <= k < s.len(),
        forall|i: int| 0 <= i < s.len() ==> 1 <= #[trigger] s[i].id < next_id,
    ensures
        ordered(s.remove(k)),
        unique_ids(s.remove(k)),
        forall|i: int| 0 <= i < s.remove(k).len() ==> 1 <= #[trigger] s.remove(k)[i].id < next_id,
        !holds_id(s.remove(k), s[k].id),
{
    let r = s.remove(k);
    assert forall|i: int, j: int| 0 <= i < j < r.len() implies #[trigger] precedes(r[i], r[j]) by {
        let bi = if i < k { i } else { i + 1 };
        let bj = if j < k { j } else { j + 1 };
        assert(precedes(s[bi], s[bj]));
    }
    assert forall|i: int, j: int| 0 <= i < r.len() && 0 <= j < r.len() && i != j implies r[i].id != r[j].id by {
        let bi = if i < k { i } else { i + 1 };
        let bj = if j < k { j } else { j + 1 };
        assert(s[bi].id != s[bj].id);
    }
    assert forall|i: int| 0 <= i < r.len() implies 1 <= #[trigger] r[i].id < next_id by {
        let bi = if i < k { i } else { i + 1 };
        assert(1 <= s[bi].id < next_id);
    }
    assert forall|i: int| 0 <= i < r.len() implies r[i].id != s[k].id by {
        let bi = if i < k { i } else { i + 1 };
        assert(s[bi].id != s[k].id);
    }
}

/// Whether `d` comes after the cursor `after` in hand-out order; with no
/// cursor, every delivery does.
pub open spec fn follows(after: Option<Cursor>, d: Delivery) -> bool {
    match after {
        None => true,
        Some(a) => a.due_at < d.due_at || (a.due_at == d.due_at && a.id < d.id),
    }
}

/// The pending deliveries, kept in due-time order (ties by id).
pub struct DeliveryStore {
    items: Vec<Delivery>,
    next_id: i64,
}

impl View for DeliveryStore {
    type V = Seq<Delivery>;

    closed spec fn view(&self) -> Seq<Delivery> {
        self.items@
    }
}

impl DeliveryStore {
    /// The id that the next insert hands out.
    pub closed spec fn next_id_spec(&self) -> i64 {
        self.next_id
    }

    /// The store's invariant: ordered, ids unique, positive and below the next id.
    pub closed spec fn wf(&self) -> bool {
        &&& ordered(self.items@)
        &&& unique_ids(self.items@)
        &&& 1 <= self.next_id
        &&& forall|i: int| 0 <= i < self.items@.len() ==> 1 <= #[trigger] self.items@[i].id < self.next_id
    }

    /// In whatever order deliveries were inserted, a well-formed store holds
    /// them earliest first, each id once, so that `peek_earliest` and
    /// `iterate_due` hand them out in non-decreasing due time.
    pub proof fn lemma_yields_in_due_order(&self)
        requires
            self.wf(),
        ensures
            ordered(self@),
            unique_ids(self@),
            due_order(self@),
            forall|i: int| 0 <= i < self@.len() ==> 1 <= #[trigger] self@[i].id < self.next_id_spec(),
    {
        assert forall|i: int, j: int| 0 <= i <= j < self@.len() implies self@[i].due_at <= self@[j].due_at by {
            if i < j {
                assert(precedes(self@[i], self@[j]));
            }
        }
    }

    /// Whatever order deliveries were inserted in, the store hands them out at
    /// the same due times in the same order: two well-formed stores whose due
    /// times agree as a multiset list them in one sequence.
    pub proof fn lemma_insertion_order_does_not_matter(&self, other: &DeliveryStore)
        requires
            self.wf(),
            other.wf(),
            dues(self@).to_multiset() == dues(other@).to_multiset(),
        ensures
            dues(self@) == dues(other@),
    {
        self.lemma_yields_in_due_order();
        other.lemma_yields_in_due_order();
        lemma_sorted_is_unique(dues(self@), dues(other@));
    }

    /// An insert adds the new due time to the store's due times and removes
    /// none, so stores filled by the same inserts in any order agree on them.
    pub proof fn lemma_insert_adds_its_due_time(before: Seq<Delivery>, p: int, d: Delivery)
        requires
            0 <= p <= before.len(),
        ensures
            dues(before.insert(p, d)).to_multiset() == dues(before).to_multiset().insert(d.due_at),
    {
        broadcast use vstd::seq_lib::to_multiset_insert;

        assert(dues(before.insert(p, d)) =~= dues(before).insert(p, d.due_at));
    }

    /// An empty store.
    pub fn new() -> (r: Self)
        ensures
            r.wf(),
            r@ == Seq::<Delivery>::empty(),
            r.next_id_spec() == 1,
    {
        DeliveryStore { items: Vec::new(), next_id: 1 }
    }

    /// An empty store whose ids continue from `next_id`, as after reopening
    /// storage whose ids reached `next_id - 1`.
    pub fn starting_at(next_id: i64) -> (r: Self)
        requires
            next_id >= 1,
        ensures
            r.wf(),
            r@ == Seq::<Delivery>::empty(),
            r.next_id_spec() == next_id,
    {
        DeliveryStore { items: Vec::new(), next_id }
    }

    /// Adds a delivery for `target` at `due_at` and returns its new id.
    /// Fails, changing nothing, only when the ids are used up.
    pub fn insert(&mut self, target: Target, due_at: i64) -> (r: Result<i64, StoreError>)
        requires
            old(self).wf(),
        ensures
            final(self).wf(),
            old(self).next_id_spec() == i64::MAX ==> r == Err::<i64, StoreError>(StoreError::IdsExhausted)
                && final(self)@ == old(self)@ && final(self).next_id_spec() == old(self).next_id_spec(),
            old(self).next_id_spec() < i64::MAX ==> r == Ok::<i64, StoreError>(old(self).next_id_spec())
                && final(self).next_id_spec() == old(self).next_id_spec() + 1
                && exists|p: int| 0 <= p <= old(self)@.len() && final(self)@ == old(self)@.insert(
                    p, (Delivery { id: old(self).next_id_spec(), target, due_at }),
                ),
    {
        if self.next_id == i64::MAX {
            return Err(StoreError::IdsExhausted);
        }
        proof {
            self.lemma_yields_in_due_order();
        }
        let id = self.next_id;
        let d = Delivery { id, target, due_at };
        let mut p: usize = 0;
        while p < self.items.len() && self.items[p].due_at <= due_at
            invariant
                p <= self.items@.len(),
                forall|k: int| 0 <= k < p ==> #[trigger] self.items@[k].due_at <= due_at,
            decreases self.items@.len() - p,
        {
            p = p + 1;
        }
        let ghost before = self.items@;
        self.items.insert(p, d);
        self.next_id = id + 1;
        proof {
            lemma_insertion_keeps_order(before, p as int, d);
            assert(self.items@ == before.insert(p as int, d));
        }
        Ok(id)
    }

    /// The delivery that is due first, left in the store.
    pub fn peek_earliest(&self) -> (r: Option<Delivery>)
        requires
            self.wf(),
        ensures
            self@.len() == 0 ==> r == None::<Delivery>,
            self@.len() > 0 ==> r == Some(self@[0]),
            r matches Some(e) ==> forall|i: int| 0 <= i < self@.len() ==> e.due_at <= #[trigger] self@[i].due_at,
    {
        proof {
            self.lemma_yields_in_due_order();
        }
        if self.items.len() == 0 {
            None
        } else {
            Some(self.items[0])
        }
    }

    /// The first delivery, in hand-out order, that comes after the cursor
    /// `after`; with no cursor, the earliest.
    pub fn earliest_after(&self, after: Option<Cursor>) -> (r: Option<Delivery>)
        requires
            self.wf(),
        ensures
            r is None <==> forall|i: int| 0 <= i < self@.len() ==> !follows(after, #[trigger] self@[i]),
            r matches Some(d) ==> {
                &&& exists|i: int| 0 <= i < self@.len() && self@[i] == d
                &&& follows(after, d)
                &&& forall|i: int|
                    0 <= i < self@.len() && follows(after, #[trigger] self@[i]) ==> !precedes(self@[i], d)
            },
    {
        let mut i: usize = 0;
        while i < self.items.len()
            invariant
                i <= self.items@.len(),
                self.wf(),
                forall|k: int| 0 <= k < i ==> !follows(after, #[trigger] self.items@[k]),
            decreases self.items@.len() - i,
        {
            let x = self.items[i];
            let later = match after {
                None => true,
                Some(a) => x.due_at > a.due_at || (x.due_at == a.due_at && x.id > a.id),
            };
            if later {
                proof {
                    assert(x == self@[i as int]);
                    assert(follows(after, self@[i as int]));
                    assert forall|j: int| 0 <= j < self@.len() && follows(after, #[trigger] self@[j]) implies !precedes(self@[j], x) by {
                        if j > i {
                            assert(precedes(self@[i as int], self@[j]));
                        }
                    }
                }
                return Some(x);
            }
            i = i + 1;
        }
        None
    }

    /// The deliveries due at `now`, earliest first: the store's leading run of
    /// deliveries with `due_at <= now`.
    pub fn iterate_due(&self, now: i64) -> (r: Vec<Delivery>)
        requires
            self.wf(),
        ensures
            r@.len() <= self@.len(),
            r@ == self@.subrange(0, r@.len() as int),
            forall|i: int| 0 <= i < r@.len() ==> #[trigger] r@[i].due_at <= now,
            forall|i: int| r@.len() <= i < self@.len() ==> #[trigger] self@[i].due_at > now,
            due_order(r@),
    {
        proof {
            self.lemma_yields_in_due_order();
        }
        let mut r: Vec<Delivery> = Vec::new();
        let mut i: usize = 0;
        while i < self.items.len() && self.items[i].due_at <= now
            invariant
                i <= self.items@.len(),
                r@ == self.items@.subrange(0, i as int),
                forall|k: int| 0 <= k < i ==> #[trigger] self.items@[k].due_at <= now,
            decreases self.items@.len() - i,
        {
            r.push(self.items[i]);
            i = i + 1;
            assert(r@ =~= self.items@.subrange(0, i as int));
        }
        proof {
            if i < self.items@.len() {
                assert forall|k: int| i <= k < self@.len() implies #[trigger] self@[k].due_at > now by {
                    assert(self@[i as int].due_at <= self@[k].due_at);
                }
            }
        }
        r
    }

    /// Removes the delivery with id `id`. On an id that is not there it fails
    /// with `NotFound` and changes nothing, so a repeated call is harmless.
    pub fn delete(&mut self, id: i64) -> (r: Result<(), StoreError>)
        requires
            old(self).wf(),
        ensures
            final(self).wf(),
            final(self).next_id_spec() == old(self).next_id_spec(),
            r is Ok <==> holds_id(old(self)@, id),
            r is Err ==> r == Err::<(), StoreError>(StoreError::NotFound) && final(self)@ == old(self)@,
            r is Ok ==> exists|k: int| 0 <= k < old(self)@.len() && old(self)@[k].id == id
                && final(self)@ == old(self)@.remove(k),
            !holds_id(final(self)@, id),
    {
        let mut k: usize = 0;
        while k < self.items.len()
            invariant
                k <= self.items@.len(),
                *self == *old(self),
                self.wf(),
                forall|i: int| 0 <= i < k ==> #[trigger] self.items@[i].id != id,
            decreases self.items@.len() - k,
        {
            if self.items[k].id == id {
                let ghost before = self.items@;
                self.items.remove(k);
                proof {
                    lemma_removal_keeps_order(before, k as int, self.next_id);
                    assert(self.items@ == before.remove(k as int));
                    assert(old(self)@ == before);
                }
                return Ok(());
            }
            k = k + 1;
        }
        Err(StoreError::NotFound)
    }

    /// The number of pending deliveries.
    pub fn len(&self) -> (r: usize)
        ensures
            r == self@.len(),
    {
        self.items.len()
    }

    /// Whether no delivery is pending.
    pub fn is_empty(&self) -> (r: bool)
        ensures
            r == (self@.len() == 0),
    {
        self.items.len() == 0
    }
}

} // verus!
