//! A fixed-capacity least-recently-used cache.
//!
//! The entries live in a vector; a doubly linked list threaded through the
//! entries by 16-bit indices orders them from most- to least-recently used.
//! Abstractly the cache is the sequence of its values in that order.
use vstd::prelude::*;

verus! {

/// One slot of the cache: a value and its neighbours in the recency list.
struct Entry<T> {
    val: T,
    prev: u16,
    next: u16,
}

/// A cache holding at most `N` values, ordered from most- to least-recently used.
pub struct LRUCache<T, const N: usize> {
    entries: Vec<Entry<T>>,
    head: u16,
    tail: u16,
    /// The slot indices in list order, from head to tail.
    order: Ghost<Seq<int>>,
}

/// The values of `outs` that are present, in order.
pub open spec fn somes<R>(outs: Seq<Option<R>>) -> Seq<R>
    decreases outs.len(),
{
    if outs.len() == 0 {
        Seq::empty()
    } else {
        let rest = somes(outs.drop_last());
        match outs.last() {
            Some(r) => rest.push(r),
            None => rest,
        }
    }
}

/// The items of `s` whose flag in `keep` is set, in order.
pub open spec fn select<A>(s: Seq<A>, keep: Seq<bool>) -> Seq<A>
    recommends
        s.len() == keep.len(),
    decreases s.len(),
{
    if s.len() == 0 || keep.len() == 0 {
        Seq::empty()
    } else {
        let rest = select(s.drop_last(), keep.drop_last());
        if keep.last() {
            rest.push(s.last())
        } else {
            rest
        }
    }
}

/// The sequence `s` with its item at `k` moved to the front.
pub open spec fn move_to_front<A>(s: Seq<A>, k: int) -> Seq<A>
    recommends
        0 <= k < s.len(),
{
    seq![s[k]] + s.remove(k)
}

/// The values of a cache holding `s`, at most `n`, after `v` is inserted:
/// `v` first, then the others, the least-recently-used one evicted when
/// the cache was full.
pub open spec fn inserted<T>(s: Seq<T>, v: T, n: nat) -> Seq<T> {
    if s.len() >= n {
        seq![v] + s.drop_last()
    } else {
        seq![v] + s
    }
}

/// What an insert does: the inserted value becomes the most recently used;
/// the cache keeps at most `n` values; the values that were there keep
/// their order, all of them while there is room, all but the least recently
/// used one otherwise.
pub proof fn law_insert<T>(s: Seq<T>, v: T, n: nat)
    requires
        0 < n,
        s.len() <= n,
    ensures
        inserted(s, v, n)[0] == v,
        inserted(s, v, n).len() == if s.len() < n {
            s.len() + 1
        } else {
            n
        },
        inserted(s, v, n).len() <= n,
        forall|k: int|
            0 <= k < s.len() && (s.len() < n || k < s.len() - 1) ==> #[trigger] inserted(s, v, n)[k
                + 1] == s[k],
{
}

/// `pred` answered `false` for every item of `s` before position `k`.
pub open spec fn no_hit_before<T, F: Fn(&T) -> bool>(pred: F, s: Seq<T>, k: int) -> bool {
    forall|j: int| 0 <= j < k ==> #[trigger] pred.ensures((&s[j],), false)
}

/// `pred` answered `None` for every item of `s` before position `k`.
pub open spec fn no_answer_before<T, R, F: Fn(&T) -> Option<R>>(
    pred: F,
    s: Seq<T>,
    k: int,
) -> bool {
    forall|j: int| 0 <= j < k ==> #[trigger] pred.ensures((&s[j],), None::<R>)
}

/// `order` lists distinct slots of `e`, each slot's `next`/`prev` naming its neighbours.
spec fn links_ok<T>(e: Seq<Entry<T>>, order: Seq<int>) -> bool {
    &&& order.len() <= e.len()
    &&& forall|k: int| 0 <= k < order.len() ==> 0 <= #[trigger] order[k] < e.len()
    &&& forall|k1: int, k2: int|
        0 <= k1 < order.len() && 0 <= k2 < order.len() && k1 != k2 ==> order[k1] != order[k2]
    &&& forall|k: int| 0 <= k < order.len() - 1 ==> e[#[trigger] order[k]].next as int == order[k + 1]
    &&& forall|k: int| 0 < k < order.len() ==> e[#[trigger] order[k]].prev as int == order[k - 1]
}

/// Taking the slot at position `p` out of the list, after its neighbours were
/// joined, leaves a well-linked list.
proof fn lemma_unlinked<T>(e: Seq<Entry<T>>, e2: Seq<Entry<T>>, o: Seq<int>, p: int)
    requires
        links_ok(e, o),
        0 < p < o.len(),
        e2.len() == e.len(),
        forall|j: int| 0 <= j < e.len() && j != o[p - 1] ==> (#[trigger] e2[j]).next == e[j].next,
        p + 1 < o.len() ==> e2[o[p - 1]].next as int == o[p + 1],
        forall|j: int|
            0 <= j < e.len() && (p + 1 >= o.len() || j != o[p + 1]) ==> (#[trigger] e2[j]).prev
                == e[j].prev,
        p + 1 < o.len() ==> e2[o[p + 1]].prev as int == o[p - 1],
    ensures
        links_ok(e2, o.remove(p)),
        forall|k: int| 0 <= k < o.len() - 1 ==> #[trigger] o.remove(p)[k] == if k < p { o[k] } else { o[k + 1] },
{
    let o2 = o.remove(p);
    assert forall|k: int| 0 <= k < o.len() - 1 implies #[trigger] o2[k] == if k < p { o[k] } else { o[k + 1] } by {}
    assert forall|k: int| 0 <= k < o2.len() - 1 implies e2[#[trigger] o2[k]].next as int == o2[k + 1] by {
        if k < p - 1 {
            assert(o2[k] == o[k]);
            assert(o[k] != o[p - 1]);
        } else if k == p - 1 {
            assert(o2[k] == o[p - 1]);
        } else {
            assert(o2[k] == o[k + 1]);
            assert(o[k + 1] != o[p - 1]);
        }
    }
    assert forall|k: int| 0 < k < o2.len() implies e2[#[trigger] o2[k]].prev as int == o2[k - 1] by {
        if k < p {
            assert(o2[k] == o[k]);
            if p + 1 < o.len() {
                assert(o[k] != o[p + 1]);
            }
        } else if k == p {
            assert(o2[k] == o[p + 1]);
        } else {
            assert(o2[k] == o[k + 1]);
            assert(o[k + 1] != o[p + 1]);
        }
    }
    assert forall|k1: int, k2: int|
        0 <= k1 < o2.len() && 0 <= k2 < o2.len() && k1 != k2 implies o2[k1] != o2[k2] by {
        let a = if k1 < p { k1 } else { k1 + 1 };
        let b = if k2 < p { k2 } else { k2 + 1 };
        assert(o2[k1] == o[a]);
        assert(o2[k2] == o[b]);
    }
    assert forall|k: int| 0 <= k < o2.len() implies 0 <= #[trigger] o2[k] < e2.len() by {
        let a = if k < p { k } else { k + 1 };
        assert(o2[k] == o[a]);
    }
}

impl<T, const N: usize> View for LRUCache<T, N> {
    type V = Seq<T>;

    /// The cached values from most- to least-recently used.
    closed spec fn view(&self) -> Seq<T> {
        Seq::new(self.order@.len(), |k: int| self.entries@[self.order@[k]].val)
    }
}

impl<T, const N: usize> LRUCache<T, N> {
    /// `order` lists distinct slots, head to tail, joined by the `next`/`prev` links.
    closed spec fn linked(self, order: Seq<int>) -> bool {
        &&& links_ok(self.entries@, order)
        &&& order.len() > 0 ==> self.head as int == order[0] && self.tail as int == order.last()
    }

    /// The cache's internal invariant: every slot is on the list exactly once.
    pub closed spec fn wf(self) -> bool {
        &&& N < 0xffff
        &&& self.entries@.len() <= N
        &&& self.order@.len() == self.entries@.len()
        &&& self.linked(self.order@)
    }

    proof fn lemma_view_len(self)
        ensures
            self@.len() == self.order@.len(),
    {
    }

    /// A well-formed cache never holds more than `N` values.
    pub proof fn law_within_capacity(self)
        requires
            self.wf(),
        ensures
            self@.len() <= N,
    {
    }

    /// Creates an empty cache.
    pub fn new() -> (res: Self)
        requires
            N < 0xffff,
        ensures
            res.wf(),
            res@ == Seq::<T>::empty(),
    {
        let res = LRUCache { entries: Vec::new(), head: 0, tail: 0, order: Ghost(Seq::empty()) };
        assert(res@ =~= Seq::<T>::empty());
        res
    }

    /// Inserts `val` as the most-recently-used value. When the cache is full the
    /// least-recently-used value is evicted and returned.
    pub fn insert(&mut self, val: T) -> (ret: Option<T>)
        requires
            old(self).wf(),
            N > 0,
        ensures
            final(self).wf(),
            final(self)@ == inserted(old(self)@, val, N as nat),
            old(self)@.len() == N ==> ret == Some(old(self)@.last()),
            old(self)@.len() < N ==> ret.is_none(),
    {
        let ghost old_view = self@;
        let ghost old_order = self.order@;
        let new_entry = Entry { val, prev: 0, next: 0 };
        if self.entries.len() == N {
            let i = self.pop_back();
            let old_val = self.swap_entry(i, new_entry);
            proof {
                assert(old_order.last() == i as int);
                assert forall|k: int| 0 <= k < self.order@.len() implies self.order@[k] != i as int by {
                    assert(self.order@[k] == old_order[k]);
                    assert(old_order[old_order.len() - 1] == i as int);
                }
            }
            self.push_front(i);
            proof {
                assert(self@ =~= seq![val] + old_view.drop_last()) by {
                    assert forall|k: int| 0 < k < self@.len() implies self@[k] == old_view[k - 1] by {
                        assert(self.order@[k] == old_order[k - 1]);
                        assert(old_order[k - 1] != i as int);
                    }
                }
            }
            Some(old_val)
        } else {
            let i = self.entries.len() as u16;
            self.entries.push(new_entry);
            proof {
                assert forall|k: int| 0 <= k < self.order@.len() implies self.order@[k] != i as int by {}
                assert forall|k: int| 0 <= k < self.order@.len() - 1 implies
                    self.entries@[#[trigger] self.order@[k]].next as int == self.order@[k + 1] by {
                    assert(self.entries@[self.order@[k]] == old(self).entries@[self.order@[k]]);
                }
                assert forall|k: int| 0 < k < self.order@.len() implies
                    self.entries@[#[trigger] self.order@[k]].prev as int == self.order@[k - 1] by {
                    assert(self.entries@[self.order@[k]] == old(self).entries@[self.order@[k]]);
                }
            }
            self.push_front(i);
            proof {
                assert(self@ =~= seq![val] + old_view) by {
                    assert forall|k: int| 0 < k < self@.len() implies self@[k] == old_view[k - 1] by {
                        assert(self.order@[k] == old_order[k - 1]);
                    }
                }
            }
            None
        }
    }

    /// Replaces the slot `i` with `e`, returning the value it held.
    fn swap_entry(&mut self, i: u16, e: Entry<T>) -> (ret: T)
        requires
            (i as int) < old(self).entries@.len(),
        ensures
            ret == old(self).entries@[i as int].val,
            final(self).entries@ == old(self).entries@.update(i as int, e),
            final(self).head == old(self).head,
            final(self).tail == old(self).tail,
            final(self).order@ == old(self).order@,
    {
        let mut e = e;
        std::mem::swap(&mut self.entries[i as usize], &mut e);
        e.val
    }

    /// Unlinks the last slot of the list and returns its index.
    fn pop_back(&mut self) -> (ret: u16)
        requires
            old(self).linked(old(self).order@),
            old(self).order@.len() >= 1,
        ensures
            ret as int == old(self).order@.last(),
            final(self).order@ == old(self).order@.drop_last(),
            final(self).entries@ == old(self).entries@,
            final(self).head == old(self).head,
            final(self).linked(final(self).order@),
    {
        let ghost o = self.order@;
        let t = self.tail;
        let new_tail = self.entries[t as usize].prev;
        self.tail = new_tail;
        self.order = Ghost(o.drop_last());
        proof {
            if o.len() >= 2 {
                assert(o[o.len() - 1] == t as int);
            }
        }
        t
    }

    /// Links the unlisted slot `i` in front of the list.
    fn push_front(&mut self, i: u16)
        requires
            old(self).linked(old(self).order@),
            old(self).order@.len() + 1 == old(self).entries@.len(),
            (i as int) < old(self).entries@.len(),
            forall|k: int| 0 <= k < old(self).order@.len() ==> old(self).order@[k] != i as int,
        ensures
            final(self).order@ == seq![i as int] + old(self).order@,
            final(self).linked(final(self).order@),
            final(self).entries@.len() == old(self).entries@.len(),
            forall|j: int|
                0 <= j < final(self).entries@.len() ==> (#[trigger] final(self).entries@[j]).val
                    == old(self).entries@[j].val,
    {
        let ghost o = self.order@;
        if self.entries.len() == 1 {
            self.tail = i;
        } else {
            let h = self.head;
            self.entries[i as usize].next = h;
            self.entries[h as usize].prev = i;
        }
        self.head = i;
        self.order = Ghost(seq![i as int] + o);
        proof {
            let o2 = self.order@;
            assert forall|k: int| 0 <= k < o2.len() - 1 implies self.entries@[#[trigger] o2[k]].next as int
                == o2[k + 1] by {
                if k > 0 {
                    assert(o2[k] == o[k - 1]);
                }
            }
            assert forall|k: int| 0 < k < o2.len() implies self.entries@[#[trigger] o2[k]].prev as int
                == o2[k - 1] by {
                assert(o2[k] == o[k - 1]);
                if k > 1 {
                    assert(o[k - 1] != o[0]);
                }
            }
            assert forall|k1: int, k2: int|
                0 <= k1 < o2.len() && 0 <= k2 < o2.len() && k1 != k2 implies o2[k1] != o2[k2] by {
                if k1 > 0 && k2 > 0 {
                    assert(o2[k1] == o[k1 - 1]);
                    assert(o2[k2] == o[k2 - 1]);
                }
            }
        }
    }

    /// Unlinks the slot `i`, found at position `p` (not the front) of the list.
    #[verifier::rlimit(60)]
    fn unlink(&mut self, i: u16, Ghost(p): Ghost<int>)
        requires
            old(self).linked(old(self).order@),
            old(self).order@.len() == old(self).entries@.len(),
            0 < p < old(self).order@.len(),
            old(self).order@[p] == i as int,
        ensures
            final(self).order@ == old(self).order@.remove(p),
            final(self).linked(final(self).order@),
            final(self).entries@.len() == old(self).entries@.len(),
            forall|j: int|
                0 <= j < final(self).entries@.len() ==> (#[trigger] final(self).entries@[j]).val
                    == old(self).entries@[j].val,
    {
        let ghost o = self.order@;
        let prev = self.entries[i as usize].prev;
        let next = self.entries[i as usize].next;
        assert(prev as int == o[p - 1]);
        if i == self.head {
            assert(o[0] != o[p]);
            self.head = next;
        } else {
            self.entries[prev as usize].next = next;
        }
        if i == self.tail {
            self.tail = prev;
        } else {
            assert(p < o.len() - 1) by {
                if p == o.len() - 1 {
                    assert(o.last() == o[p]);
                }
            }
            self.entries[next as usize].prev = prev;
        }
        self.order = Ghost(o.remove(p));
        proof {
            assert(i as int == o.last() ==> p == o.len() - 1) by {
                if p != o.len() - 1 {
                    assert(o[o.len() - 1] != o[p]);
                }
            }
            lemma_unlinked(old(self).entries@, self.entries@, o, p);
            let o2 = self.order@;
            if o2.len() > 0 {
                assert(o2[0] == o[0]);
                if p < o.len() - 1 {
                    assert(o2[o2.len() - 1] == o[o.len() - 1]);
                }
            }
        }
    }

    /// Moves the slot at list position `p` to the front.
    #[verifier::rlimit(60)]
    fn touch_index(&mut self, i: u16, Ghost(p): Ghost<int>)
        requires
            old(self).wf(),
            0 <= p < old(self).order@.len(),
            old(self).order@[p] == i as int,
        ensures
            final(self).wf(),
            final(self)@ == move_to_front(old(self)@, p),
    {
        let ghost old_view = self@;
        let ghost o = self.order@;
        if i != self.head {
            assert(p != 0);
            self.unlink(i, Ghost(p));
            proof {
                assert forall|k: int| 0 <= k < self.order@.len() implies self.order@[k] != i as int by {
                    let a = if k < p { k } else { k + 1 };
                    assert(self.order@[k] == o[a]);
                }
            }
            self.push_front(i);
            proof {
                assert(self@ =~= move_to_front(old_view, p)) by {
                    assert forall|k: int| 0 <= k < self@.len() implies self@[k] == move_to_front(
                        old_view,
                        p,
                    )[k] by {
                        if k > 0 {
                            let a = if k - 1 < p { k - 1 } else { k };
                            assert(self.order@[k] == o[a]);
                        }
                    }
                }
            }
        } else {
            assert(p == 0) by {
                if p != 0 {
                    assert(o[0] != o[p]);
                }
            }
            assert(self@ =~= move_to_front(old_view, p)) by {
                assert forall|k: int| 0 <= k < self@.len() implies self@[k] == move_to_front(old_view, p)[k] by {
                    if k > 0 {
                        assert(old_view.remove(0)[k - 1] == old_view[k]);
                    }
                }
            }
        }
    }

    /// The number of cached values.
    pub fn len(&self) -> (n: usize)
        requires
            self.wf(),
        ensures
            n == self@.len(),
    {
        self.entries.len()
    }

    /// Whether the cache holds no value.
    pub fn is_empty(&self) -> (b: bool)
        requires
            self.wf(),
        ensures
            b == (self@.len() == 0),
    {
        self.entries.len() == 0
    }

    /// The most number of values the cache holds.
    pub fn capacity(&self) -> (n: usize)
        ensures
            n == N,
    {
        N
    }

    /// Evicts every value.
    pub fn clear(&mut self)
        requires
            old(self).wf(),
        ensures
            final(self).wf(),
            final(self)@ == Seq::<T>::empty(),
    {
        self.entries.clear();
        self.order = Ghost(Seq::empty());
        assert(self@ =~= Seq::<T>::empty());
    }

    /// The slot holding the value at list position `k`.
    fn slot_at(&self, k: usize, pos: u16) -> (next: u16)
        requires
            self.wf(),
            (k as int) < self.order@.len(),
            pos as int == self.order@[k as int],
        ensures
            (k as int) + 1 < self.order@.len() ==> next as int == self.order@[k + 1],
    {
        self.entries[pos as usize].next
    }

    /// The most-recently-used value, if any.
    pub fn front(&self) -> (r: Option<&T>)
        requires
            self.wf(),
        ensures
            self@.len() == 0 ==> r.is_none(),
            self@.len() > 0 ==> r == Some(&self@[0]),
    {
        if self.entries.len() == 0 {
            None
        } else {
            Some(&self.entries[self.head as usize].val)
        }
    }

    /// The most-recently-used value, mutably, if any.
    pub fn front_mut(&mut self) -> (r: Option<&mut T>)
        requires
            old(self).wf(),
        ensures
            old(self)@.len() == 0 ==> r.is_none() && *final(self) == *old(self),
            old(self)@.len() > 0 ==> r is Some && *r->0 == old(self)@[0] && final(self).wf()
                && final(self)@ == old(self)@.update(0, *final(r->0)),
    {
        if self.entries.len() == 0 {
            None
        } else {
            let h = self.head as usize;
            Some(&mut self.entries[h].val)
        }
    }

    /// The value at position `index` from the most-recently-used end, if any.
    pub fn get(&self, index: usize) -> (r: Option<&T>)
        requires
            self.wf(),
        ensures
            index < self@.len() ==> r == Some(&self@[index as int]),
            index >= self@.len() ==> r.is_none(),
    {
        let len = self.entries.len();
        if index >= len {
            return None;
        }
        let mut pos = self.head;
        let mut k: usize = 0;
        while k < index
            invariant
                self.wf(),
                index < len == self.order@.len(),
                k <= index,
                pos as int == self.order@[k as int],
            decreases index - k,
        {
            pos = self.slot_at(k, pos);
            k += 1;
        }
        Some(&self.entries[pos as usize].val)
    }

    /// The values from most- to least-recently used.
    pub fn iter(&self) -> (res: Vec<&T>)
        requires
            self.wf(),
        ensures
            res@.len() == self@.len(),
            forall|k: int| 0 <= k < res@.len() ==> *res@[k] == self@[k],
    {
        let len = self.entries.len();
        let mut res: Vec<&T> = Vec::new();
        let mut pos = self.head;
        let mut k: usize = 0;
        while k < len
            invariant
                self.wf(),
                len == self.order@.len(),
                k <= len,
                k < len ==> pos as int == self.order@[k as int],
                res@.len() == k,
                forall|j: int| 0 <= j < k ==> *res@[j] == self@[j],
            decreases len - k,
        {
            res.push(&self.entries[pos as usize].val);
            pos = self.slot_at(k, pos);
            k += 1;
        }
        res
    }

    /// The answers of `pred` on the values, most-recently-used first, keeping the present ones.
    pub fn lookup_all<F, R>(&self, pred: F) -> (res: Vec<R>)
        where
            F: Fn(&T) -> Option<R>,
        requires
            self.wf(),
            forall|t: &T| pred.requires((t,)),
        ensures
            exists|outs: Seq<Option<R>>|
                {
                    &&& outs.len() == self@.len()
                    &&& forall|k: int| 0 <= k < outs.len() ==> pred.ensures((&self@[k],), #[trigger] outs[k])
                    &&& res@ == somes(outs)
                },
    {
        let len = self.entries.len();
        let mut res: Vec<R> = Vec::new();
        let mut pos = self.head;
        let mut k: usize = 0;
        let ghost mut outs: Seq<Option<R>> = Seq::empty();
        while k < len
            invariant
                self.wf(),
                forall|t: &T| pred.requires((t,)),
                len == self.order@.len(),
                k <= len,
                k < len ==> pos as int == self.order@[k as int],
                outs.len() == k,
                forall|j: int| 0 <= j < k ==> pred.ensures((&self@[j],), #[trigger] outs[j]),
                res@ == somes(outs),
            decreases len - k,
        {
            let r = pred(&self.entries[pos as usize].val);
            proof {
                let prev = outs;
                outs = outs.push(r);
                assert(outs.drop_last() =~= prev);
            }
            match r {
                Some(v) => res.push(v),
                None => {},
            }
            pos = self.slot_at(k, pos);
            k += 1;
        }
        res
    }

    /// The values for which `pred` holds, most-recently-used first.
    pub fn find_all<F>(&self, pred: F) -> (res: Vec<&T>)
        where
            F: Fn(&T) -> bool,
        requires
            self.wf(),
            forall|t: &T| pred.requires((t,)),
        ensures
            exists|keep: Seq<bool>|
                {
                    &&& keep.len() == self@.len()
                    &&& forall|k: int| 0 <= k < keep.len() ==> pred.ensures((&self@[k],), #[trigger] keep[k])
                    &&& res@.map_values(|r: &T| *r) == select(self@, keep)
                },
    {
        let len = self.entries.len();
        let mut res: Vec<&T> = Vec::new();
        let mut pos = self.head;
        let mut k: usize = 0;
        let ghost mut keep: Seq<bool> = Seq::empty();
        while k < len
            invariant
                self.wf(),
                forall|t: &T| pred.requires((t,)),
                len == self.order@.len(),
                k <= len,
                k < len ==> pos as int == self.order@[k as int],
                keep.len() == k,
                forall|j: int| 0 <= j < k ==> pred.ensures((&self@[j],), #[trigger] keep[j]),
                res@.map_values(|r: &T| *r) == select(self@.take(k as int), keep),
            decreases len - k,
        {
            let val = &self.entries[pos as usize].val;
            let b = pred(val);
            proof {
                let prev = keep;
                keep = keep.push(b);
                assert(keep.drop_last() =~= prev);
                assert(self@.take(k + 1).drop_last() =~= self@.take(k as int));
            }
            if b {
                let ghost before = res@;
                res.push(val);
                assert(res@.map_values(|r: &T| *r) =~= before.map_values(|r: &T| *r).push(*val));
            }
            pos = self.slot_at(k, pos);
            k += 1;
        }
        assert(self@.take(len as int) =~= self@);
        res
    }

    /// The list position of the first value on which `pred` holds, if any.
    fn position<F>(&self, pred: &F) -> (res: Option<(usize, u16)>)
        where
            F: Fn(&T) -> bool,
        requires
            self.wf(),
            forall|t: &T| pred.requires((t,)),
        ensures
            match res {
                Some((k, i)) => {
                    &&& (k as int) < self@.len()
                    &&& self.order@[k as int] == i as int
                    &&& pred.ensures((&self@[k as int],), true)
                    &&& no_hit_before(*pred, self@, k as int)
                },
                None => no_hit_before(*pred, self@, self@.len() as int),
            },
    {
        let len = self.entries.len();
        let mut pos = self.head;
        let mut k: usize = 0;
        while k < len
            invariant
                self.wf(),
                forall|t: &T| pred.requires((t,)),
                len == self.order@.len(),
                k <= len,
                k < len ==> pos as int == self.order@[k as int],
                no_hit_before(*pred, self@, k as int),
            decreases len - k,
        {
            let b = pred(&self.entries[pos as usize].val);
            assert(self@[k as int] == self.entries@[pos as int].val);
            if b {
                return Some((k, pos));
            }
            pos = self.slot_at(k, pos);
            k += 1;
        }
        None
    }

    /// Marks the first value on which `pred` holds as most-recently used.
    /// Returns whether there was one.
    pub fn touch<F>(&mut self, pred: F) -> (hit: bool)
        where
            F: Fn(&T) -> bool,
        requires
            old(self).wf(),
            forall|t: &T| pred.requires((t,)),
        ensures
            final(self).wf(),
            hit ==> exists|k: int|
                {
                    &&& 0 <= k < old(self)@.len()
                    &&& pred.ensures((&old(self)@[k],), true)
                    &&& no_hit_before(pred, old(self)@, k)
                    &&& final(self)@ == move_to_front(old(self)@, k)
                },
            !hit ==> no_hit_before(pred, old(self)@, old(self)@.len() as int) && final(self)@ == old(
                self,
            )@,
    {
        match self.position(&pred) {
            Some((k, i)) => {
                self.touch_index(i, Ghost(k as int));
                true
            },
            None => false,
        }
    }

    /// Marks the first value on which `pred` holds as most-recently used and
    /// returns that value mutably.
    pub fn find<F>(&mut self, pred: F) -> (r: Option<&mut T>)
        where
            F: Fn(&T) -> bool,
        requires
            old(self).wf(),
            forall|t: &T| pred.requires((t,)),
        ensures
            r is None ==> no_hit_before(pred, old(self)@, old(self)@.len() as int) && *final(self)
                == *old(self),
            r is Some ==> exists|k: int|
                {
                    &&& 0 <= k < old(self)@.len()
                    &&& pred.ensures((&old(self)@[k],), true)
                    &&& no_hit_before(pred, old(self)@, k)
                    &&& *r->0 == old(self)@[k]
                    &&& final(self).wf()
                    &&& final(self)@ == move_to_front(old(self)@, k).update(0, *final(r->0))
                },
    {
        match self.position(&pred) {
            Some((k, i)) => {
                self.touch_index(i, Ghost(k as int));
                self.front_mut()
            },
            None => None,
        }
    }

    /// Returns the first present answer of `pred` on the values, most-recently-used
    /// first, and marks the value that gave it as most-recently used.
    pub fn lookup<F, R>(&mut self, pred: F) -> (r: Option<R>)
        where
            F: Fn(&T) -> Option<R>,
        requires
            old(self).wf(),
            forall|t: &T| pred.requires((t,)),
        ensures
            final(self).wf(),
            r is None ==> no_answer_before(pred, old(self)@, old(self)@.len() as int) && final(self)@
                == old(self)@,
            r is Some ==> exists|k: int|
                {
                    &&& 0 <= k < old(self)@.len()
                    &&& pred.ensures((&old(self)@[k],), r)
                    &&& no_answer_before(pred, old(self)@, k)
                    &&& final(self)@ == move_to_front(old(self)@, k)
                },
    {
        let len = self.entries.len();
        let mut pos = self.head;
        let mut k: usize = 0;
        while k < len
            invariant
                self.wf(),
                forall|t: &T| pred.requires((t,)),
                len == self.order@.len(),
                k <= len,
                k < len ==> pos as int == self.order@[k as int],
                no_answer_before(pred, self@, k as int),
                *self == *old(self),
            decreases len - k,
        {
            let r = pred(&self.entries[pos as usize].val);
            if r.is_some() {
                self.touch_index(pos, Ghost(k as int));
                return r;
            }
            pos = self.slot_at(k, pos);
            k += 1;
        }
        None
    }

    /// The present answers of `pred` on the values, most-recently-used first.
    pub fn iter_mut_all<F, R>(&mut self, pred: F) -> (res: Vec<R>)
        where
            F: Fn(&T) -> Option<R>,
        requires
            old(self).wf(),
            forall|t: &T| pred.requires((t,)),
        ensures
            *final(self) == *old(self),
            exists|outs: Seq<Option<R>>|
                {
                    &&& outs.len() == old(self)@.len()
                    &&& forall|k: int| 0 <= k < outs.len() ==> pred.ensures((&old(self)@[k],), #[trigger] outs[k])
                    &&& res@ == somes(outs)
                },
    {
        self.lookup_all(pred)
    }
}

} // verus!
