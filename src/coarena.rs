use crate::index::Index;
use vstd::pervasive::cloned;
use vstd::prelude::*;

verus! {

/// The generation stored in a slot that holds no element.
pub const EMPTY_GENERATION: u32 = 0xffff_ffff;

/// A container for data associated to items that live in another arena.
///
/// Each slot holds a generation and a value. An access through an `Index` only
/// sees the value when the index's generation matches the stored one, so a handle
/// to a removed element never reaches the data of a newer element in its slot.
#[derive(Clone, Debug)]
pub struct Coarena<T> {
    data: Vec<(u32, T)>,
}

impl<T> View for Coarena<T> {
    type V = Seq<(u32, T)>;

    closed spec fn view(&self) -> Seq<(u32, T)> {
        self.data@
    }
}

impl<T> Default for Coarena<T> {
    fn default() -> (r: Self)
        ensures
            r@ == Seq::<(u32, T)>::empty(),
    {
        Coarena { data: Vec::new() }
    }
}

/// The element that `index` designates in the slots `s`, if its generation matches.
pub open spec fn lookup<T>(s: Seq<(u32, T)>, index: Index) -> Option<T> {
    if index.slot < s.len() && s[index.slot as int].0 == index.generation {
        Some(s[index.slot as int].1)
    } else {
        None
    }
}

/// `new` is `old` grown to at least `len` slots: the slots of `old` are kept, and
/// every added slot is empty.
pub open spec fn grown_empty<T>(old: Seq<(u32, T)>, new: Seq<(u32, T)>, len: int) -> bool {
    &&& new.len() == if old.len() < len { len } else { old.len() as int }
    &&& forall|j: int| 0 <= j < old.len() ==> #[trigger] new[j] == old[j]
    &&& forall|j: int| old.len() <= j < new.len() ==> (#[trigger] new[j]).0 == EMPTY_GENERATION
}

/// Like `grown_empty`, and every added slot holds a clone of `default`.
pub open spec fn grown_with<T: Clone>(
    old: Seq<(u32, T)>,
    new: Seq<(u32, T)>,
    len: int,
    default: T,
) -> bool {
    &&& grown_empty(old, new, len)
    &&& forall|j: int| old.len() <= j < new.len() ==> cloned(default, (#[trigger] new[j]).1)
}

/// `new` differs from `old` at most in the slots listed in `slots`.
pub open spec fn same_except<T>(old: Seq<(u32, T)>, new: Seq<(u32, T)>, slots: Set<int>) -> bool {
    forall|j: int|
        0 <= j < old.len() && j < new.len() && !slots.contains(j) ==> #[trigger] new[j] == old[j]
}

/// `new` is `old` grown to at least `len` slots, with every slot outside `slots`
/// kept, and every added slot outside `slots` empty and holding a clone of
/// `default`.
pub open spec fn grown_around<T: Clone>(
    old: Seq<(u32, T)>,
    new: Seq<(u32, T)>,
    len: int,
    default: T,
    slots: Set<int>,
) -> bool {
    &&& new.len() == if old.len() < len { len } else { old.len() as int }
    &&& same_except(old, new, slots)
    &&& forall|j: int|
        old.len() <= j < new.len() && !slots.contains(j) ==> (#[trigger] new[j]).0
            == EMPTY_GENERATION && cloned(default, new[j].1)
}

/// The slots `new` are what inserting `value` under `a` into `old` leaves, with
/// clones of `default` in the empty slots created on the way.
pub open spec fn inserted<T: Clone>(
    old: Seq<(u32, T)>,
    new: Seq<(u32, T)>,
    a: Index,
    value: T,
    default: T,
) -> bool {
    &&& grown_around(old, new, a.slot + 1, default, set![a.slot as int])
    &&& new[a.slot as int] == (a.generation, value)
}

/// The slots `new` and the result `r` are what removing `index` from `old` gives,
/// with `removed_value` left in an emptied slot.
pub open spec fn removed<T>(
    old: Seq<(u32, T)>,
    new: Seq<(u32, T)>,
    index: Index,
    removed_value: T,
    r: Option<T>,
) -> bool {
    &&& r == lookup(old, index)
    &&& r.is_some() ==> new == old.update(index.slot as int, (EMPTY_GENERATION, removed_value))
    &&& r.is_none() ==> new == old
}

impl<T> Coarena<T> {
    /// A coarena with no element.
    pub fn new() -> (r: Self)
        ensures
            r@ == Seq::<(u32, T)>::empty(),
    {
        Coarena { data: Vec::new() }
    }

    /// The number of slots, occupied or not.
    pub fn len(&self) -> (r: usize)
        ensures
            r == self@.len(),
    {
        self.data.len()
    }

    /// Gets the element in slot `index` without checking its generation.
    ///
    /// Prefer `Coarena::get`: this one cannot tell a removed element from the
    /// newer element that took its slot.
    pub fn get_unknown_gen(&self, index: u32) -> (r: Option<&T>)
        ensures
            r == (if index < self@.len() {
                Some(&self@[index as int].1)
            } else {
                None
            }),
    {
        let i = index as usize;
        if i < self.data.len() {
            Some(&self.data[i].1)
        } else {
            None
        }
    }

    /// The generation stored in slot `index`.
    pub fn get_gen(&self, index: u32) -> (r: Option<u32>)
        ensures
            r == (if index < self@.len() {
                Some(self@[index as int].0)
            } else {
                None
            }),
    {
        let i = index as usize;
        if i < self.data.len() {
            Some(self.data[i].0)
        } else {
            None
        }
    }

    /// Gets the element that `index` designates, if its generation matches.
    pub fn get(&self, index: Index) -> (r: Option<&T>)
        ensures
            r == (match lookup(self@, index) {
                Some(v) => Some(&v),
                None => None,
            }),
    {
        let (i, g) = index.into_raw_parts();
        let i = i as usize;
        if i < self.data.len() && self.data[i].0 == g {
            Some(&self.data[i].1)
        } else {
            None
        }
    }

    /// Every slot number of this coarena fits in a `u32`.
    pub open spec fn wf(&self) -> bool {
        self@.len() <= 0x1_0000_0000
    }

    /// The occupied slots of this coarena in increasing order, each with the index
    /// rebuilt from its stored generation.
    pub fn iter(&self) -> (r: Vec<(Index, &T)>)
        requires
            self.wf(),
        ensures
            forall|k: int|
                0 <= k < r@.len() ==> {
                    let (idx, v) = #[trigger] r@[k];
                    &&& idx.slot < self@.len()
                    &&& self@[idx.slot as int].0 != EMPTY_GENERATION
                    &&& idx.generation == self@[idx.slot as int].0
                    &&& *v == self@[idx.slot as int].1
                },
            forall|k1: int, k2: int|
                0 <= k1 < k2 < r@.len() ==> (#[trigger] r@[k1]).0.slot < (#[trigger] r@[k2]).0.slot,
            forall|j: int|
                0 <= j < self@.len() && (#[trigger] self@[j]).0 != EMPTY_GENERATION ==> exists|
                    k: int,
                | 0 <= k < r@.len() && (#[trigger] r@[k]).0.slot == j,
    {
        let mut r: Vec<(Index, &T)> = Vec::new();
        let mut i: usize = 0;
        while i < self.data.len()
            invariant
                self.wf(),
                i <= self@.len(),
                forall|k: int|
                    0 <= k < r@.len() ==> {
                        let (idx, v) = #[trigger] r@[k];
                        &&& idx.slot < i
                        &&& self@[idx.slot as int].0 != EMPTY_GENERATION
                        &&& idx.generation == self@[idx.slot as int].0
                        &&& *v == self@[idx.slot as int].1
                    },
                forall|k1: int, k2: int|
                    0 <= k1 < k2 < r@.len() ==> (#[trigger] r@[k1]).0.slot < (#[trigger] r@[
                        k2
                    ]).0.slot,
                forall|j: int|
                    0 <= j < i && (#[trigger] self@[j]).0 != EMPTY_GENERATION ==> exists|k: int|
                        0 <= k < r@.len() && (#[trigger] r@[k]).0.slot == j,
            decreases self@.len() - i,
        {
            let ghost before = r@;
            let elt = &self.data[i];
            if elt.0 != EMPTY_GENERATION {
                let idx = Index::from_raw_parts(i as u32, elt.0);
                r.push((idx, &elt.1));
            }
            proof {
                assert forall|j: int|
                    0 <= j <= i && (#[trigger] self@[j]).0 != EMPTY_GENERATION implies exists|k: int|
                    0 <= k < r@.len() && (#[trigger] r@[k]).0.slot == j by {
                    if j < i {
                        let k = choose|k: int| 0 <= k < before.len() && before[k].0.slot == j;
                        assert(r@[k] == before[k]);
                    } else {
                        assert(r@[r@.len() - 1].0.slot == j);
                    }
                }
            }
            i += 1;
        }
        r
    }

    /// Gets a mutable reference to the element that `index` designates, if its
    /// generation matches.
    pub fn get_mut(&mut self, index: Index) -> (r: Option<&mut T>)
        ensures
            r.is_some() == lookup(old(self)@, index).is_some(),
            r.is_some() ==> {
                &&& lookup(old(self)@, index) == Some(*r.unwrap())
                &&& final(self)@ == old(self)@.update(
                    index.slot as int,
                    (index.generation, *final(r.unwrap())),
                )
            },
            r.is_none() ==> final(self)@ == old(self)@,
    {
        let (i, g) = index.into_raw_parts();
        let i = i as usize;
        if i < self.data.len() && self.data[i].0 == g {
            let elt = &mut self.data[i];
            Some(&mut elt.1)
        } else {
            None
        }
    }

    /// Removes the element that `index` designates and returns it, leaving
    /// `removed_value` in its emptied slot. Does nothing if the generation of
    /// `index` does not match.
    pub fn remove(&mut self, index: Index, removed_value: T) -> (r: Option<T>)
        ensures
            removed(old(self)@, final(self)@, index, removed_value, r),
    {
        let (i, g) = index.into_raw_parts();
        let i = i as usize;
        if i < self.data.len() && self.data[i].0 == g {
            let elt = &mut self.data[i];
            elt.0 = EMPTY_GENERATION;
            let mut value = removed_value;
            std::mem::swap(&mut elt.1, &mut value);
            Some(value)
        } else {
            None
        }
    }
}

impl<T: Clone> Coarena<T> {
    /// Appends empty slots holding clones of `default` until there are at least
    /// `len` slots.
    fn grow(&mut self, len: usize, default: &T)
        ensures
            grown_with(old(self)@, final(self)@, len as int, *default),
    {
        while self.data.len() < len
            invariant
                grown_with(old(self)@, self@, self@.len() as int, *default),
                old(self)@.len() <= self@.len(),
                self@.len() <= len || self@.len() == old(self)@.len(),
            decreases len - self.data.len(),
        {
            let d = default.clone();
            self.data.push((EMPTY_GENERATION, d));
        }
    }

    /// Inserts `value` under `a`, replacing whatever its slot held. Empty slots
    /// created on the way hold clones of `default`.
    pub fn insert_with_default(&mut self, a: Index, value: T, default: T)
        ensures
            inserted(old(self)@, final(self)@, a, value, default),
    {
        let (i1, g1) = a.into_raw_parts();
        let i = i1 as usize;
        if self.data.len() <= i {
            self.grow(i, &default);
            self.data.push((g1, value));
        } else {
            self.data.set(i, (g1, value));
        }
    }

    /// Inserts `value` under `a`, replacing whatever its slot held. Empty slots
    /// created on the way hold `T`'s default value.
    pub fn insert(&mut self, a: Index, value: T)
        where
            T: Default,
        ensures
            exists|d: T|
                call_ensures(T::default, (), d) && #[trigger] inserted(
                    old(self)@,
                    final(self)@,
                    a,
                    value,
                    d,
                ),
    {
        let d = T::default();
        self.insert_with_default(a, value, d);
    }

    /// Makes sure that slot `a.slot` holds an element of generation
    /// `a.generation`, and returns a mutable reference to it. An element of
    /// another generation in that slot is replaced by `default`; so is a missing
    /// one, and empty slots created on the way hold clones of `default`.
    pub fn ensure_element_exist(&mut self, a: Index, default: T) -> (r: &mut T)
        ensures
            grown_around(old(self)@, final(self)@, a.slot + 1, default, set![a.slot as int]),
            final(self)@[a.slot as int] == (a.generation, *final(r)),
            *r == (match lookup(old(self)@, a) {
                Some(v) => v,
                None => default,
            }),
    {
        let (i1, g1) = a.into_raw_parts();
        let i = i1 as usize;
        if self.data.len() <= i {
            self.grow(i, &default);
            self.data.push((g1, default));
        } else if self.data[i].0 != g1 {
            self.data.set(i, (g1, default));
        }
        let elt = &mut self.data[i];
        &mut elt.1
    }

    /// Like `ensure_element_exist`, for two elements in distinct slots at once.
    pub fn ensure_pair_exists(&mut self, a: Index, b: Index, default: T) -> (r: (&mut T, &mut T))
        requires
            a.slot != b.slot,
        ensures
            grown_around(
                old(self)@,
                final(self)@,
                if a.slot < b.slot { b.slot + 1 } else { a.slot + 1 },
                default,
                set![a.slot as int, b.slot as int],
            ),
            final(self)@[a.slot as int] == (a.generation, *final(r.0)),
            final(self)@[b.slot as int] == (b.generation, *final(r.1)),
            match lookup(old(self)@, a) {
                Some(v) => *r.0 == v,
                None => cloned(default, *r.0),
            },
            match lookup(old(self)@, b) {
                Some(v) => *r.1 == v,
                None => cloned(default, *r.1),
            },
    {
        let (i1, g1) = a.into_raw_parts();
        let (i2, g2) = b.into_raw_parts();
        let (lo, hi) = if i1 < i2 {
            (i1 as usize, i2 as usize)
        } else {
            (i2 as usize, i1 as usize)
        };
        self.grow(hi, &default);
        if self.data.len() == hi {
            let d = default.clone();
            self.data.push((EMPTY_GENERATION, d));
        }
        if self.data[i1 as usize].0 != g1 {
            let d = default.clone();
            self.data.set(i1 as usize, (g1, d));
        }
        if self.data[i2 as usize].0 != g2 {
            self.data.set(i2 as usize, (g2, default));
        }
        let slots = self.data.as_mut_slice();
        let (left, right) = slots.split_at_mut(hi);
        let (_, mid) = left.split_at_mut(lo);
        let elt_lo = mid.first_mut().unwrap();
        let elt_hi = right.first_mut().unwrap();
        if i1 < i2 {
            (&mut elt_lo.1, &mut elt_hi.1)
        } else {
            (&mut elt_hi.1, &mut elt_lo.1)
        }
    }
}

/// An element just inserted under `a` is what a lookup of `a` finds.
pub proof fn lemma_get_after_insert<T: Clone>(
    s0: Seq<(u32, T)>,
    s1: Seq<(u32, T)>,
    a: Index,
    value: T,
    default: T,
)
    requires
        inserted(s0, s1, a, value, default),
    ensures
        lookup(s1, a) == Some(value),
{
}

/// Removing an element just inserted under `a` hands it back; afterwards a lookup
/// of `a`, or of any other generation in the same slot but the empty one, finds
/// nothing.
pub proof fn lemma_get_after_remove<T: Clone>(
    s0: Seq<(u32, T)>,
    s1: Seq<(u32, T)>,
    s2: Seq<(u32, T)>,
    a: Index,
    value: T,
    default: T,
    removed_value: T,
    r: Option<T>,
)
    requires
        inserted(s0, s1, a, value, default),
        removed(s1, s2, a, removed_value, r),
        a.generation != EMPTY_GENERATION,
    ensures
        r == Some(value),
        lookup(s2, a).is_none(),
        forall|g: u32|
            g != EMPTY_GENERATION ==> (#[trigger] lookup(s2, Index { slot: a.slot, generation: g })).is_none(),
{
}

/// A slot reused by a newer generation: after inserting under `a1`, removing it,
/// and inserting under `a2` in the same slot with another generation, a lookup
/// of `a1` finds nothing and a lookup of `a2` finds the newer element.
pub proof fn lemma_stale_index_after_reuse<T: Clone>(
    s0: Seq<(u32, T)>,
    s1: Seq<(u32, T)>,
    s2: Seq<(u32, T)>,
    s3: Seq<(u32, T)>,
    a1: Index,
    a2: Index,
    v1: T,
    v2: T,
    default: T,
    removed_value: T,
    r: Option<T>,
)
    requires
        a1.slot == a2.slot,
        a1.generation != a2.generation,
        inserted(s0, s1, a1, v1, default),
        removed(s1, s2, a1, removed_value, r),
        inserted(s2, s3, a2, v2, default),
    ensures
        lookup(s3, a1).is_none(),
        lookup(s3, a2) == Some(v2),
{
}

} // verus!
