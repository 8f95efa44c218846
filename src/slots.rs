//! Callback contexts: the payload carried by the native library between a
//! registering call and the callbacks it fires.
//!
//! A context holds one slot per callback of a registration, each with a
//! strong reference to a managed callback object. Firing a callback takes its
//! slot; the context itself is released only when every slot has been taken.
//! A single-shot context is the case of one slot.
use vstd::prelude::*;

verus! {

/// Every slot of `s` is empty.
pub open spec fn all_taken<R>(s: Seq<Option<R>>) -> bool {
    forall|j: int| 0 <= j < s.len() ==> s[j] is None
}

/// Every slot of `s` holds a reference.
pub open spec fn all_held<R>(s: Seq<Option<R>>) -> bool {
    forall|j: int| 0 <= j < s.len() ==> s[j] is Some
}

/// The slots of a fresh context for the references `refs`, in order.
pub open spec fn fresh_slots<R>(refs: Seq<R>) -> Seq<Option<R>> {
    refs.map_values(|r: R| Some(r))
}

/// The slots after the first `n` firings of `order` have taken theirs.
pub open spec fn slots_after<R>(s: Seq<Option<R>>, order: Seq<int>, n: nat) -> Seq<Option<R>>
    decreases n,
{
    if n == 0 {
        s
    } else {
        slots_after(s, order, (n - 1) as nat).update(order[n - 1], None)
    }
}

/// What the firing at step `t` of `order` takes from its slot.
pub open spec fn taken_at<R>(s: Seq<Option<R>>, order: Seq<int>, t: nat) -> Option<R> {
    slots_after(s, order, t)[order[t as int]]
}

/// Whether the firing at step `t` of `order` releases the context.
pub open spec fn released_at<R>(s: Seq<Option<R>>, order: Seq<int>, t: nat) -> bool {
    all_taken(slots_after(s, order, t + 1))
}

/// `order` names slots of a context of `k` slots, none twice.
pub open spec fn distinct_slots(order: Seq<int>, k: nat) -> bool {
    &&& forall|t: int| 0 <= t < order.len() ==> 0 <= #[trigger] order[t] < k
    &&& forall|t: int, u: int|
        0 <= t < order.len() && 0 <= u < order.len() && t != u ==> order[t] != order[u]
}

/// The number of slots of `s` that hold the reference `x`.
pub open spec fn held_count<R>(s: Seq<Option<R>>, x: R) -> nat
    decreases s.len(),
{
    if s.len() == 0 {
        0
    } else {
        held_count(s.drop_last(), x) + if s.last() == Some(x) {
            1nat
        } else {
            0nat
        }
    }
}

/// A callback context: a fixed number of slots, each holding a reference to a
/// managed callback until its callback fires.
pub struct CallbackSlots<R> {
    slots: Vec<Option<R>>,
}

impl<R> View for CallbackSlots<R> {
    type V = Seq<Option<R>>;

    closed spec fn view(&self) -> Seq<Option<R>> {
        self.slots@
    }
}

impl<R> CallbackSlots<R> {
    /// A context for a multi-shot registration: one slot per callback, in the
    /// order of the native function's callback parameters.
    pub fn new(refs: Vec<R>) -> (r: Self)
        ensures
            r@ == fresh_slots(refs@),
    {
        let ghost orig = refs@;
        let mut refs = refs;
        let mut rev: Vec<Option<R>> = Vec::with_capacity(refs.len());
        while refs.len() > 0
            invariant
                refs@.len() + rev@.len() == orig.len(),
                refs@ == orig.take(refs@.len() as int),
                forall|j: int|
                    0 <= j < rev@.len() ==> rev@[j] == Some(
                        orig[orig.len() - 1 - j],
                    ),
            decreases refs@.len(),
        {
            let x = refs.pop().unwrap();
            rev.push(Some(x));
        }
        let mut slots: Vec<Option<R>> = Vec::with_capacity(rev.len());
        while rev.len() > 0
            invariant
                rev@.len() + slots@.len() == orig.len(),
                forall|j: int|
                    0 <= j < rev@.len() ==> rev@[j] == Some(
                        orig[orig.len() - 1 - j],
                    ),
                slots@ == fresh_slots(orig.take(slots@.len() as int)),
            decreases rev@.len(),
        {
            let ghost n = slots@.len();
            let x = rev.pop().unwrap();
            slots.push(x);
            assert(slots@ =~= fresh_slots(orig.take(n + 1 as int)));
        }
        assert(orig.take(orig.len() as int) =~= orig);
        CallbackSlots { slots }
    }

    /// A context for a single-shot registration.
    pub fn single(cb: R) -> (r: Self)
        ensures
            r@ == seq![Some(cb)],
    {
        let mut slots: Vec<Option<R>> = Vec::with_capacity(1);
        slots.push(Some(cb));
        CallbackSlots { slots }
    }

    /// The number of slots, fired or not.
    pub fn len(&self) -> (r: usize)
        ensures
            r == self@.len(),
    {
        self.slots.len()
    }

    /// Whether every slot has been taken, so that the context may be released.
    pub fn is_spent(&self) -> (r: bool)
        ensures
            r == all_taken(self@),
    {
        let mut i: usize = 0;
        while i < self.slots.len()
            invariant
                i <= self@.len(),
                forall|j: int| 0 <= j < i ==> self@[j] is None,
            decreases self@.len() - i,
        {
            if self.slots[i].is_some() {
                return false;
            }
            i += 1;
        }
        true
    }

    /// Takes slot `i` for the callback that fires, and says whether the
    /// context is now spent and must be released by the caller; when it is
    /// not, the context stays with the native library for the other callbacks.
    pub fn take(&mut self, i: usize) -> (r: (Option<R>, bool))
        requires
            i < old(self)@.len(),
        ensures
            final(self)@ == old(self)@.update(i as int, None),
            r.0 == old(self)@[i as int],
            r.1 == all_taken(final(self)@),
    {
        let mut none: Option<R> = None;
        std::mem::swap(&mut none, &mut self.slots[i]);
        let spent = self.is_spent();
        (none, spent)
    }
}

proof fn lemma_slots_after<R>(s: Seq<Option<R>>, order: Seq<int>, n: nat)
    requires
        n <= order.len(),
        forall|t: int| 0 <= t < order.len() ==> 0 <= #[trigger] order[t] < s.len(),
    ensures
        slots_after(s, order, n).len() == s.len(),
        forall|j: int|
            0 <= j < s.len() ==> #[trigger] slots_after(s, order, n)[j] == if order.take(
                n as int,
            ).contains(j) {
                None
            } else {
                s[j]
            },
    decreases n,
{
    if n > 0 {
        lemma_slots_after(s, order, (n - 1) as nat);
        assert forall|j: int| 0 <= j < s.len() implies #[trigger] slots_after(s, order, n)[j]
            == if order.take(n as int).contains(j) {
            None
        } else {
            s[j]
        } by {
            let prev = order.take(n - 1 as int);
            assert(order.take(n as int) =~= prev.push(order[n - 1]));
            if j != order[n - 1] && prev.contains(j) {
                let t = choose|t: int| 0 <= t < prev.len() && #[trigger] prev[t] == j;
                assert(order.take(n as int)[t] == j);
            }
            if order.take(n as int).contains(j) && j != order[n - 1] {
                let t = choose|t: int| 0 <= t < n && #[trigger] order.take(n as int)[t] == j;
                assert(prev[t] == j);
            }
            if j == order[n - 1] {
                assert(order.take(n as int)[n - 1] == j);
            }
        }
    }
}

/// A context whose callbacks all fire, in any order, hands each callback's
/// reference out exactly once, to its own firing; it is released by the last
/// firing and by no earlier one; and afterwards no slot holds a reference.
pub proof fn lemma_all_fired_released_once<R>(refs: Seq<R>, order: Seq<int>)
    requires
        order.len() == refs.len(),
        distinct_slots(order, refs.len()),
    ensures
        forall|t: nat| t < order.len() ==> #[trigger] taken_at(fresh_slots(refs), order, t) == Some(
            refs[order[t as int]],
        ),
        forall|t: nat|
            t < order.len() ==> (#[trigger] released_at(fresh_slots(refs), order, t) <==> t
                == order.len() - 1),
        all_taken(slots_after(fresh_slots(refs), order, order.len())),
{
    let s = fresh_slots(refs);
    let k = order.len();
    assert forall|t: nat| t <= k implies #[trigger] slots_after(s, order, t).len() == s.len() by {
        lemma_slots_after(s, order, t);
    }
    assert forall|t: nat| t < k implies #[trigger] taken_at(s, order, t) == Some(
        refs[order[t as int]],
    ) by {
        lemma_slots_after(s, order, t);
        let j = order[t as int];
        if order.take(t as int).contains(j) {
            let u = choose|u: int| 0 <= u < t && #[trigger] order.take(t as int)[u] == j;
            assert(order[u] == j);
        }
    }
    // every slot is named by some firing
    assert forall|j: int| 0 <= j < k implies order.contains(j) by {
        lemma_permutation_covers(order, k, j);
    }
    lemma_slots_after(s, order, k);
    assert(order.take(k as int) =~= order);
    assert forall|t: nat| t < k implies (#[trigger] released_at(s, order, t) <==> t == k - 1) by {
        lemma_slots_after(s, order, t + 1);
        if t + 1 < k {
            let j = order[t + 1 as int];
            if order.take(t + 1 as int).contains(j) {
                let u = choose|u: int| 0 <= u < t + 1 && #[trigger] order.take(t + 1 as int)[u] == j;
                assert(order[u] == j);
            }
            assert(slots_after(s, order, t + 1)[j] is Some);
        } else {
            assert(order.take(t + 1 as int) =~= order);
        }
    }
}

/// A sequence of `k` distinct slot numbers below `k` names every slot.
proof fn lemma_permutation_covers(order: Seq<int>, k: nat, j: int)
    requires
        order.len() == k,
        distinct_slots(order, k),
        0 <= j < k,
    ensures
        order.contains(j),
{
    let st = order.to_set();
    let full = vstd::set_lib::set_int_range(0, k as int);
    vstd::set_lib::lemma_int_range(0, k as int);
    assert(order.no_duplicates());
    order.unique_seq_to_set();
    assert(st.subset_of(full));
    vstd::set_lib::lemma_len_subset(st, full);
    vstd::set_lib::lemma_subset_equality(st, full);
    assert(full.contains(j));
    assert(st.contains(j));
}

/// While one callback of a context has not fired, the context is not released
/// by the others, whatever their order, and the unfired callback's reference
/// is still held in its slot.
pub proof fn lemma_unfired_slot_kept<R>(refs: Seq<R>, order: Seq<int>, j: int)
    requires
        distinct_slots(order, refs.len()),
        0 <= j < refs.len(),
        !order.contains(j),
    ensures
        forall|t: nat| t < order.len() ==> !#[trigger] released_at(fresh_slots(refs), order, t),
        slots_after(fresh_slots(refs), order, order.len())[j] == Some(refs[j]),
{
    let s = fresh_slots(refs);
    assert forall|t: nat| t < order.len() implies !#[trigger] released_at(s, order, t) by {
        lemma_slots_after(s, order, t + 1);
        if order.take(t + 1 as int).contains(j) {
            let u = choose|u: int| 0 <= u < t + 1 && #[trigger] order.take(t + 1 as int)[u] == j;
            assert(order[u] == j);
        }
        assert(slots_after(s, order, t + 1)[j] is Some);
    }
    lemma_slots_after(s, order, order.len());
    assert(order.take(order.len() as int) =~= order);
}

/// A single-shot registration pins its callback once: the context holds one
/// reference to it; the one firing hands that reference out and releases the
/// context, after which the context holds none, as before the registration.
pub proof fn lemma_single_shot_balanced<R>(cb: R)
    ensures
        held_count(seq![Some(cb)], cb) == 1,
        taken_at(seq![Some(cb)], seq![0int], 0) == Some(cb),
        released_at(seq![Some(cb)], seq![0int], 0),
        held_count(slots_after(seq![Some(cb)], seq![0int], 1), cb) == 0,
{
    let s = seq![Some(cb)];
    assert(s.drop_last() =~= Seq::<Option<R>>::empty());
    let after = slots_after(s, seq![0int], 1);
    assert(slots_after(s, seq![0int], 0) == s);
    assert(after =~= seq![None]);
    assert(after.drop_last() =~= Seq::<Option<R>>::empty());
    assert(held_count(Seq::<Option<R>>::empty(), cb) == 0);
    assert(held_count(s, cb) == held_count(s.drop_last(), cb) + 1);
    assert(held_count(after, cb) == held_count(after.drop_last(), cb));
}

} // verus!
