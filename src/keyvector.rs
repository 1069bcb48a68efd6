//! A fixed-capacity slot map over the keys `[1, N)`.
//!
//! Values live densely in slots `1..=length`; slot 0 holds a sentinel that
//! lookups of absent keys return. The array `indices` plays two roles:
//! - for a slot `s <= length`, `indices[s] == s` says that key `s` sits in its
//!   home slot, and any other value names the key (greater than `length`) that
//!   borrows slot `s`;
//! - for a key `k > length`, `indices[k]` is the slot that holds `k`, or 0 when
//!   `k` is absent.

use vstd::prelude::*;

use crate::indexing::{Index, UnsignedType};
use crate::web_core::PlacementError;

verus! {

/// `x` rounded up to a multiple of `a`.
pub open spec fn align_up(x: int, a: int) -> int {
    if x % a == 0 {
        x
    } else {
        x + (a - x % a)
    }
}

/// The larger of two naturals.
pub open spec fn max_nat(a: nat, b: nat) -> nat {
    if a >= b {
        a
    } else {
        b
    }
}

/// Rounds `x` up to a multiple of `a`; `None` when the result exceeds `usize`.
fn align_up_checked(x: usize, a: usize) -> (r: Option<usize>)
    requires
        a > 0,
    ensures
        align_up(x as int, a as int) >= x,
        r matches Some(v) ==> v == align_up(x as int, a as int),
        r is None ==> align_up(x as int, a as int) > usize::MAX,
{
    let rem = x % a;
    if rem == 0 {
        Some(x)
    } else {
        x.checked_add(a - rem)
    }
}

/// Rounding up to a positive alignment never lowers a non-negative value.
proof fn lemma_align_up_grows(x: int, a: int)
    requires
        x >= 0,
        a > 0,
    ensures
        align_up(x, a) >= x,
{
    vstd::arithmetic::div_mod::lemma_mod_bound(x, a);
}

/// Appending a slot adds its value to the values of the dense region.
proof fn lemma_dense_push<A>(s: Seq<A>, x: A, len: int)
    requires
        len >= 0,
        s.len() == len + 1,
    ensures
        s.push(x).subrange(1, len + 2).to_multiset() == s.subrange(1, len + 1).to_multiset().insert(
            x,
        ),
{
    assert(s.push(x).subrange(1, len + 2) =~= s.subrange(1, len + 1).push(x));
    s.subrange(1, len + 1).to_multiset_ensures();
}

/// Overwriting a slot of the dense region trades its value for the new one.
proof fn lemma_dense_update<A>(s: Seq<A>, i: int, v: A, len: int)
    requires
        s.len() == len + 1,
        1 <= i <= len,
    ensures
        s.subrange(1, len + 1).to_multiset().count(s[i]) > 0,
        s.update(i, v).subrange(1, len + 1).to_multiset() == s.subrange(
            1,
            len + 1,
        ).to_multiset().remove(s[i]).insert(v),
{
    let d = s.subrange(1, len + 1);
    let e = s.update(i, v).subrange(1, len + 1);
    assert(e.remove(i - 1) =~= d.remove(i - 1));
    assert(d[i - 1] == s[i] && e[i - 1] == v);
    d.to_multiset_ensures();
    e.to_multiset_ensures();
    assert(d.contains(s[i]));
    assert(e.contains(v));
    assert(e.remove(i - 1).to_multiset() =~= e.to_multiset().remove(v));
    assert(d.remove(i - 1).to_multiset() =~= d.to_multiset().remove(s[i]));
    assert(e.to_multiset() =~= e.to_multiset().remove(v).insert(v));
}

/// Overwriting a slot of the dense region and appending its old value adds
/// just the new value.
proof fn lemma_dense_trade<A>(s: Seq<A>, i: int, v: A, len: int)
    requires
        s.len() == len + 1,
        1 <= i <= len,
    ensures
        s.update(i, v).push(s[i]).subrange(1, len + 2).to_multiset() == s.subrange(
            1,
            len + 1,
        ).to_multiset().insert(v),
{
    lemma_dense_update(s, i, v, len);
    lemma_dense_push(s.update(i, v), s[i], len);
    assert(s.subrange(1, len + 1).to_multiset().remove(s[i]).insert(v).insert(s[i])
        =~= s.subrange(1, len + 1).to_multiset().insert(v));
}

/// Whether a value could have come from `T::default()`.
pub open spec fn is_default<T: Default>(v: T) -> bool {
    call_ensures(T::default, (), v)
}

/// A slot map of capacity `N` whose slot references are stored in the width `I`.
///
/// The map records `address`, the start of the extent a region reserved for
/// it; its keys and values are held in vectors of its own.
pub struct KeyVector<T, I: UnsignedType, const N: usize> {
    address: usize,
    length: usize,
    indices: Vec<Index<I>>,
    data: Vec<T>,
}

impl<T, I: UnsignedType, const N: usize> KeyVector<T, I, N> {
    /// Whether the capacity `N` suits the index width `I`.
    pub open spec fn valid_capacity() -> bool {
        1 <= N && N - 1 <= I::max_value()
    }

    /// Where the map was placed.
    pub closed spec fn placed_at(&self) -> nat {
        self.address as nat
    }

    /// The number of keys present.
    pub closed spec fn len(&self) -> nat {
        self.length as nat
    }

    /// The entry of `indices` at position `i`.
    pub closed spec fn entry(&self, i: int) -> int {
        Self::entry_of(self.indices@, i)
    }

    /// The entry at position `i` of an index array.
    pub open spec fn entry_of(ix: Seq<Index<I>>, i: int) -> int {
        ix[i].value() as int
    }

    /// The contents of the slots `0..=length`.
    pub closed spec fn slots(&self) -> Seq<T> {
        self.data@
    }

    /// The values in the dense slots `1..=length`.
    pub open spec fn dense(&self) -> Seq<T> {
        self.slots().subrange(1, self.len() as int + 1)
    }

    /// `post` has the index entries of `pre`, except at the positions of `w`,
    /// which hold the values `w` gives.
    pub open spec fn entries_written(pre: Self, post: Self, w: Map<int, int>) -> bool {
        forall|j: int|
            0 <= j < N ==> #[trigger] post.entry(j) == if w.contains_key(j) {
                w[j]
            } else {
                pre.entry(j)
            }
    }

    /// The value returned for absent keys.
    pub open spec fn sentinel(&self) -> T {
        self.slots()[0]
    }

    /// Whether key `k` is present.
    pub open spec fn contains(&self, k: int) -> bool {
        &&& 1 <= k < N
        &&& if k <= self.len() {
            self.entry(k) == k
        } else {
            self.entry(k) != 0
        }
    }

    /// The slot that holds key `k`, or 0 when `k` is absent.
    pub open spec fn home(&self, k: int) -> int {
        if !self.contains(k) {
            0
        } else if k <= self.len() {
            k
        } else {
            self.entry(k)
        }
    }

    /// The key whose value sits in slot `s`, for `1 <= s <= length`.
    pub open spec fn occupant(&self, s: int) -> int {
        if self.entry(s) == s {
            s
        } else {
            self.entry(s)
        }
    }

    /// The keys present.
    pub open spec fn keys(&self) -> Set<int> {
        Set::new(|k: int| self.contains(k))
    }

    /// What a lookup of `k` returns: its value when present, the sentinel otherwise.
    pub open spec fn lookup(&self, k: int) -> T {
        self.slots()[self.home(k)]
    }

    /// The present keys and their values.
    pub open spec fn view(&self) -> Map<int, T> {
        Map::new(|k: int| self.contains(k), |k: int| self.lookup(k))
    }

    /// The index array `ix` describes a dense region `1..=length` that is fully
    /// occupied, each slot by exactly one key, with every present key naming
    /// its slot.
    pub open spec fn indices_wf(ix: Seq<Index<I>>, length: int) -> bool {
        &&& Self::valid_capacity()
        &&& ix.len() == N
        &&& 0 <= length < N
        &&& Self::entry_of(ix, 0) == 0
        &&& forall|i: int| 0 <= i < N ==> #[trigger] Self::entry_of(ix, i) < N
        &&& forall|s: int|
            1 <= s <= length ==> #[trigger] Self::entry_of(ix, s) == s || (length < Self::entry_of(
                ix,
                s,
            ) && Self::entry_of(ix, Self::entry_of(ix, s)) == s)
        &&& forall|k: int|
            length < k < N ==> #[trigger] Self::entry_of(ix, k) == 0 || (1 <= Self::entry_of(ix, k)
                <= length && Self::entry_of(ix, Self::entry_of(ix, k)) == k)
    }

    /// Well-formedness: the index array is well formed and the slots
    /// `0..=length` hold values.
    pub closed spec fn wf(&self) -> bool {
        &&& Self::indices_wf(self.indices@, self.length as int)
        &&& self.data@.len() == self.length + 1
    }

    /// A map as it stands after construction: no key present and a default sentinel.
    pub open spec fn is_fresh(&self) -> bool {
        &&& self.wf()
        &&& self.len() == 0
        &&& self.keys() == Set::<int>::empty()
        &&& forall|k: int| !#[trigger] self.contains(k)
        &&& self.slots().len() == 1
    }

    /// The alignment of the placed map: that of its widest part, among the
    /// length word, the indices and the values.
    pub open spec fn layout_align() -> nat {
        max_nat(
            max_nat(vstd::layout::align_of::<usize>(), vstd::layout::align_of::<Index<I>>()),
            vstd::layout::align_of::<T>(),
        )
    }

    /// The bytes the placed map occupies: the length word, then `N` indices,
    /// then `N` values, each part aligned, the whole rounded up to the map's
    /// alignment.
    pub open spec fn layout_size() -> int {
        let indices_at = align_up(
            vstd::layout::size_of::<usize>() as int,
            vstd::layout::align_of::<Index<I>>() as int,
        );
        let indices_end = indices_at + N * vstd::layout::size_of::<Index<I>>();
        let data_at = align_up(indices_end, vstd::layout::align_of::<T>() as int);
        let data_end = data_at + N * vstd::layout::size_of::<T>();
        align_up(data_end, Self::layout_align() as int)
    }

    /// The alignment of the placed map.
    pub fn alignment() -> (r: usize)
        ensures
            r as nat == Self::layout_align(),
            r > 0,
    {
        vstd::layout::layout_for_type_is_valid::<usize>();
        vstd::layout::layout_for_type_is_valid::<Index<I>>();
        vstd::layout::layout_for_type_is_valid::<T>();
        let word = core::mem::align_of::<usize>();
        let index = core::mem::align_of::<Index<I>>();
        let value = core::mem::align_of::<T>();
        let wider = if word >= index {
            word
        } else {
            index
        };
        if wider >= value {
            wider
        } else {
            value
        }
    }

    /// The bytes the placed map occupies; `None` when they exceed `usize`.
    pub fn footprint() -> (r: Option<usize>)
        ensures
            r matches Some(v) ==> v == Self::layout_size(),
            r is None ==> Self::layout_size() > usize::MAX,
    {
        vstd::layout::layout_for_type_is_valid::<usize>();
        vstd::layout::layout_for_type_is_valid::<Index<I>>();
        vstd::layout::layout_for_type_is_valid::<T>();
        let align = Self::alignment();
        let indices_at = match align_up_checked(
            core::mem::size_of::<usize>(),
            core::mem::align_of::<Index<I>>(),
        ) {
            Some(v) => v,
            None => return None,
        };
        let indices_len = match N.checked_mul(core::mem::size_of::<Index<I>>()) {
            Some(v) => v,
            None => {
                proof {
                    Self::lemma_layout_grows();
                }
                return None;
            },
        };
        let indices_end = match indices_at.checked_add(indices_len) {
            Some(v) => v,
            None => {
                proof {
                    Self::lemma_layout_grows();
                }
                return None;
            },
        };
        let data_at = match align_up_checked(indices_end, core::mem::align_of::<T>()) {
            Some(v) => v,
            None => {
                proof {
                    Self::lemma_layout_grows();
                }
                return None;
            },
        };
        let data_len = match N.checked_mul(core::mem::size_of::<T>()) {
            Some(v) => v,
            None => {
                proof {
                    Self::lemma_layout_grows();
                }
                return None;
            },
        };
        let data_end = match data_at.checked_add(data_len) {
            Some(v) => v,
            None => {
                proof {
                    Self::lemma_layout_grows();
                }
                return None;
            },
        };
        align_up_checked(data_end, align)
    }

    /// Each part of the layout ends no earlier than the one before it, so the
    /// total is at least every partial sum.
    proof fn lemma_layout_grows()
        requires
            vstd::layout::align_of::<Index<I>>() > 0,
            vstd::layout::align_of::<T>() > 0,
            Self::layout_align() > 0,
        ensures
            ({
                let indices_at = align_up(
                    vstd::layout::size_of::<usize>() as int,
                    vstd::layout::align_of::<Index<I>>() as int,
                );
                let indices_end = indices_at + N * vstd::layout::size_of::<Index<I>>();
                let data_at = align_up(indices_end, vstd::layout::align_of::<T>() as int);
                let data_end = data_at + N * vstd::layout::size_of::<T>();
                &&& indices_at <= indices_end
                &&& N * vstd::layout::size_of::<Index<I>>() <= indices_end
                &&& indices_end <= data_at
                &&& data_at <= data_end
                &&& N * vstd::layout::size_of::<T>() <= data_end
                &&& data_end <= Self::layout_size()
            }),
    {
        let indices_at = align_up(
            vstd::layout::size_of::<usize>() as int,
            vstd::layout::align_of::<Index<I>>() as int,
        );
        let indices_end = indices_at + N * vstd::layout::size_of::<Index<I>>();
        let data_at = align_up(indices_end, vstd::layout::align_of::<T>() as int);
        let data_end = data_at + N * vstd::layout::size_of::<T>();
        lemma_align_up_grows(
            vstd::layout::size_of::<usize>() as int,
            vstd::layout::align_of::<Index<I>>() as int,
        );
        lemma_align_up_grows(indices_end, vstd::layout::align_of::<T>() as int);
        lemma_align_up_grows(data_end, Self::layout_align() as int);
        assert(N * vstd::layout::size_of::<Index<I>>() >= 0) by (nonlinear_arith);
        assert(N * vstd::layout::size_of::<T>() >= 0) by (nonlinear_arith);
    }

    /// Checks the capacity, then builds an empty map recorded at `address`:
    /// every index empty and a default value in the sentinel slot.
    pub fn new(address: usize) -> (r: Result<Self, PlacementError>)
        where T: Default,
        ensures
            N == 0 ==> r == Err::<Self, _>(PlacementError::EmptyCapacity),
            N >= 1 && N - 1 > I::max_value() ==> r == Err::<Self, _>(
                PlacementError::CapacityExceedsIndexWidth,
            ),
            r is Ok <==> Self::valid_capacity(),
            r matches Ok(m) ==> m.is_fresh() && is_default(m.sentinel()) && m.placed_at()
                == address,
    {
        if N == 0 {
            return Err(PlacementError::EmptyCapacity);
        }
        if N - 1 > I::max_usize() {
            return Err(PlacementError::CapacityExceedsIndexWidth);
        }
        let mut indices: Vec<Index<I>> = Vec::with_capacity(N);
        let mut i: usize = 0;
        while i < N
            invariant
                i <= N,
                Self::valid_capacity(),
                indices@.len() == i,
                forall|j: int| 0 <= j < i ==> (#[trigger] indices@[j]).value() == 0,
            decreases N - i,
        {
            proof {
                I::lemma_from_nat(0);
            }
            indices.push(Index(I::from_usize(0)));
            i += 1;
        }
        // Every index now reads back as empty (the loop invariant at `i == N`).
        let mut data: Vec<T> = Vec::with_capacity(N);
        data.push(T::default());
        let r = KeyVector { address, length: 0, indices, data };
        assert(r.keys() =~= Set::<int>::empty());
        Ok(r)
    }

    /// Where the map was placed.
    pub fn address(&self) -> (r: usize)
        ensures
            r as nat == self.placed_at(),
    {
        self.address
    }

    /// The number of keys present.
    pub fn length(&self) -> (r: usize)
        ensures
            r as nat == self.len(),
    {
        self.length
    }

    /// Looks `key` up: its value when present, else the sentinel. Keys at or
    /// beyond `N` read the sentinel; a key within the dense region reads its home
    /// slot only if it sits there; a key beyond it reads the slot its index names.
    pub fn find(&self, key: usize) -> (r: &T)
        requires
            self.wf(),
        ensures
            *r == self.lookup(key as int),
            key >= N ==> *r == self.sentinel(),
    {
        if key >= N {
            return &self.data[0];
        }
        if key <= self.length {
            if key == self.indices[key].to_address() {
                return &self.data[key];
            }
            return &self.data[0];
        }
        let key_location: usize = self.indices[key].to_address();
        assert(key_location == self.entry(key as int));
        &self.data[key_location]
    }

    /// Whether `add(key)` inserts: `key` is admissible and absent, and the map
    /// has room for one more key.
    pub open spec fn accepts(&self, key: int) -> bool {
        &&& 1 <= key < N
        &&& self.len() + 1 < N
        &&& !self.contains(key)
    }

    /// Inserts `key` at a default value. Key 0, keys at or beyond `N`, keys
    /// already present, and any key once the map is full (`length + 1 == N`)
    /// leave the map unchanged.
    pub fn add(&mut self, key: usize)
        where T: Default,
        requires
            old(self).wf(),
        ensures
            Self::added(*old(self), *final(self), key as int),
            Self::add_step(*old(self), *final(self), key as int),
            final(self).wf(),
            final(self).len() < N,
            final(self).len() == old(self).len() + if old(self).accepts(key as int) {
                1int
            } else {
                0int
            },
            key == 0 || key >= N ==> *final(self) == *old(self),
            old(self).len() + 1 == N ==> *final(self) == *old(self),
    {
        if key == 0 || key >= N {
            return;
        }
        if self.length + 1 >= N {
            return;
        }
        if key <= self.length {
            self.add_lesser_key_checked(key);
            return;
        }
        if key > self.length + 1 {
            self.add_greater_key_checked(key);
            return;
        }
        self.add_equal_key_checked(key);
    }

    /// Looks `key` up as `find` does, handing out the slot for writing.
    pub fn find_mut(&mut self, key: usize) -> (r: &mut T)
        requires
            old(self).wf(),
        ensures
            *r == old(self).lookup(key as int),
            key >= N ==> *r == old(self).sentinel(),
            final(self).wf(),
            final(self).len() == old(self).len(),
            final(self).keys() == old(self).keys(),
            forall|k: int| #[trigger] final(self).contains(k) == old(self).contains(k),
            forall|k: int| #[trigger] final(self).home(k) == old(self).home(k),
            final(self).lookup(key as int) == *final(r),
            forall|k: int|
                old(self).home(k) != old(self).home(key as int) ==> #[trigger] final(self).lookup(k)
                    == old(self).lookup(k),
            final(self).sentinel() == if old(self).contains(key as int) {
                old(self).sentinel()
            } else {
                *final(r)
            },
            final(self).slots() == old(self).slots().update(
                old(self).home(key as int),
                *final(r),
            ),
            key >= N ==> final(self).slots() == old(self).slots().update(0, *final(r)),
            forall|j: int| 0 <= j < N ==> #[trigger] final(self).entry(j) == old(self).entry(j),
            final(self).placed_at() == old(self).placed_at(),
    {
        if key >= N {
            return &mut self.data[0];
        }
        if key <= self.length {
            if key == self.indices[key].to_address() {
                return &mut self.data[key];
            }
            return &mut self.data[0];
        }
        let key_location: usize = self.indices[key].to_address();
        assert(key_location == self.entry(key as int));
        &mut self.data[key_location]
    }

    /// Writes `value` into position `i` of `indices`.
    fn set_entry(&mut self, i: usize, value: usize)
        requires
            i < old(self).indices@.len(),
            value as nat <= I::max_value(),
        ensures
            final(self).address == old(self).address,
            final(self).length == old(self).length,
            final(self).data == old(self).data,
            final(self).indices@.len() == old(self).indices@.len(),
            forall|j: int|
                0 <= j < old(self).indices@.len() ==> #[trigger] Self::entry_of(final(self).indices@, j)
                    == if j == i {
                    value as int
                } else {
                    Self::entry_of(old(self).indices@, j)
                },
    {
        self.indices[i] = Self::usize_to_index(value);
    }

    /// Narrows a slot reference to the index width.
    pub fn usize_to_index(key: usize) -> (r: Index<I>)
        requires
            key as nat <= I::max_value(),
        ensures
            r.value() == key as nat,
    {
        Index(I::from_usize(key))
    }

    /// Inserts `key == length + 1`, which extends the dense region by its own
    /// home slot.
    fn add_equal_key_checked(&mut self, key: usize)
        where T: Default,
        requires
            old(self).wf(),
            key == old(self).len() + 1,
            key < N,
        ensures
            Self::added(*old(self), *final(self), key as int),
            Self::equal_step(*old(self), *final(self), key as int),
    {
        if !self.indices[key].equals_address(0) {
            return;
        }
        let ghost pre = *self;
        self.set_entry(key, key);
        self.data.push(T::default());
        self.length += 1;
        proof {
            lemma_dense_push(pre.slots(), self.slots()[key as int], pre.len() as int);
            Self::lemma_inserted(pre, *self, key as int);
        }
    }

    /// Gathers the facts of an accepted insertion into the form `added` states.
    proof fn lemma_inserted(pre: Self, post: Self, key: int)
        where T: Default,
        requires
            pre.wf(),
            pre.accepts(key),
            post.wf(),
            post.len() == pre.len() + 1,
            post.sentinel() == pre.sentinel(),
            post.placed_at() == pre.placed_at(),
            forall|k: int| #[trigger] post.contains(k) == (pre.contains(k) || k == key),
            forall|k: int| pre.contains(k) ==> #[trigger] post.lookup(k) == pre.lookup(k),
            is_default(post.lookup(key)),
            post.dense().to_multiset() == pre.dense().to_multiset().insert(post.lookup(key)),
        ensures
            Self::added(pre, post, key),
    {
        assert(post@ =~= pre@.insert(key, post.lookup(key)));
    }

    /// Inserts `key > length + 1`. It takes the back slot `length + 1`; when key
    /// `length + 1` borrows another slot, that key moves home and `key` takes
    /// the slot it leaves.
    fn add_greater_key_checked(&mut self, key: usize)
        where T: Default,
        requires
            old(self).wf(),
            old(self).len() + 1 < key < N,
        ensures
            Self::added(*old(self), *final(self), key as int),
            Self::greater_step(*old(self), *final(self), key as int),
    {
        if !self.indices[key].equals_address(0) {
            return;
        }
        let ghost pre = *self;
        assert(Self::entry_of(pre.indices@, key as int) == 0);
        let back: usize = self.length + 1;
        let index_pointer: usize = self.indices[back].to_address();
        assert(index_pointer == Self::entry_of(pre.indices@, back as int));
        if index_pointer != 0 {
            self.set_entry(back, back);
            self.set_entry(index_pointer, key);
            self.set_entry(key, index_pointer);
            let mut moved = T::default();
            core::mem::swap(&mut self.data[index_pointer], &mut moved);
            self.data.push(moved);
            self.length += 1;
            proof {
                lemma_dense_trade(
                    pre.slots(),
                    index_pointer as int,
                    self.slots()[index_pointer as int],
                    pre.len() as int,
                );
                Self::lemma_inserted(pre, *self, key as int);
            }
            return;
        }
        self.set_entry(back, key);
        self.set_entry(key, back);
        self.data.push(T::default());
        self.length += 1;
        proof {
            lemma_dense_push(pre.slots(), self.slots()[back as int], pre.len() as int);
            Self::lemma_inserted(pre, *self, key as int);
        }
    }

    /// Inserts `key <= length`, whose home slot is borrowed by a key beyond the
    /// dense region: `key` moves home and the borrower moves out.
    pub fn add_lesser_key_checked(&mut self, key: usize)
        where T: Default,
        requires
            old(self).wf(),
            1 <= key <= old(self).len(),
            old(self).len() + 1 < N,
        ensures
            Self::added(*old(self), *final(self), key as int),
            Self::add_step(*old(self), *final(self), key as int),
    {
        let swap_key: usize = self.indices[key].to_address();
        assert(swap_key == Self::entry_of(self.indices@, key as int));
        if swap_key == key {
            return;
        }
        // The borrower of a slot in the dense region lies beyond it.
        assert(swap_key > self.length);
        if swap_key > self.length + 1 {
            self.add_greater_key_unchecked(key, swap_key);
            return;
        }
        self.add_equal_key_unchecked(key, swap_key);
    }

    /// Moves `key` home while its borrower `swap_key == length + 1` moves to its
    /// own home slot, which extends the dense region.
    fn add_equal_key_unchecked(&mut self, key: usize, swap_key: usize)
        where T: Default,
        requires
            old(self).wf(),
            1 <= key <= old(self).len(),
            old(self).entry(key as int) == swap_key,
            swap_key == old(self).len() + 1,
            swap_key < N,
        ensures
            old(self).accepts(key as int),
            Self::added(*old(self), *final(self), key as int),
            Self::evict_home_step(*old(self), *final(self), key as int, swap_key as int),
    {
        let ghost pre = *self;
        self.set_entry(key, key);
        self.set_entry(swap_key, swap_key);
        let mut moved = T::default();
        core::mem::swap(&mut self.data[key], &mut moved);
        self.data.push(moved);
        self.length += 1;
        proof {
            lemma_dense_trade(pre.slots(), key as int, self.slots()[key as int], pre.len() as int);
            Self::lemma_inserted(pre, *self, key as int);
        }
    }

    /// Moves `key` home while its borrower `swap_key > length + 1` moves to the
    /// back slot `length + 1`. When key `length + 1` itself borrows a slot, it
    /// moves home to the back slot and the borrower takes the slot it leaves.
    pub fn add_greater_key_unchecked(&mut self, key: usize, swap_key: usize)
        where T: Default,
        requires
            old(self).wf(),
            1 <= key <= old(self).len(),
            old(self).entry(key as int) == swap_key,
            old(self).len() + 1 < swap_key,
        ensures
            old(self).accepts(key as int),
            Self::added(*old(self), *final(self), key as int),
            Self::evict_back_step(*old(self), *final(self), key as int, swap_key as int),
    {
        let ghost pre = *self;
        let back: usize = self.length + 1;
        let index_pointer: usize = self.indices[back].to_address();
        assert(index_pointer == Self::entry_of(pre.indices@, back as int));
        self.set_entry(key, key);
        let mut moved = T::default();
        core::mem::swap(&mut self.data[key], &mut moved);
        if index_pointer != 0 {
            self.set_entry(back, back);
            self.set_entry(index_pointer, swap_key);
            self.set_entry(swap_key, index_pointer);
            core::mem::swap(&mut self.data[index_pointer], &mut moved);
            self.data.push(moved);
        } else {
            self.set_entry(back, swap_key);
            self.set_entry(swap_key, back);
            self.data.push(moved);
        }
        self.length += 1;
        proof {
            let d = self.slots()[key as int];
            if index_pointer != 0 {
                let s1 = pre.slots().update(key as int, d);
                lemma_dense_update(pre.slots(), key as int, d, pre.len() as int);
                lemma_dense_trade(s1, index_pointer as int, pre.slots()[key as int], pre.len() as int);
                assert(s1[index_pointer as int] == pre.slots()[index_pointer as int]);
                assert(pre.dense().to_multiset().remove(pre.slots()[key as int]).insert(d).insert(
                    pre.slots()[key as int],
                ) =~= pre.dense().to_multiset().insert(d));
            } else {
                lemma_dense_trade(pre.slots(), key as int, d, pre.len() as int);
            }
            Self::lemma_inserted(pre, *self, key as int);
        }
    }
}

impl<T: Default, I: UnsignedType, const N: usize> KeyVector<T, I, N> {
    /// The effect of `add(key)` taking `pre` to `post`: when `pre` accepts the
    /// key, `key` joins at a value from `T::default()`, every other key keeps
    /// its value, the sentinel and the address stay, and the values of the
    /// dense region gain just the new one; otherwise nothing changes.
    pub open spec fn added(pre: Self, post: Self, key: int) -> bool {
        if pre.accepts(key) {
            &&& post.wf()
            &&& post.len() == pre.len() + 1
            &&& post@ == pre@.insert(key, post.lookup(key))
            &&& forall|k: int| #[trigger] post.contains(k) == (pre.contains(k) || k == key)
            &&& forall|k: int| pre.contains(k) ==> #[trigger] post.lookup(k) == pre.lookup(k)
            &&& post.sentinel() == pre.sentinel()
            &&& post.placed_at() == pre.placed_at()
            &&& post.contains(key)
            &&& is_default(post.lookup(key))
            &&& post.dense().to_multiset() == pre.dense().to_multiset().insert(post.lookup(key))
        } else {
            post == pre
        }
    }

    /// The writes of inserting `key == length + 1`: when its index is empty,
    /// its own slot is appended with a default value and its index names
    /// itself; otherwise nothing changes.
    pub open spec fn equal_step(pre: Self, post: Self, key: int) -> bool {
        if pre.entry(key) != 0 {
            post == pre
        } else {
            &&& post.len() == pre.len() + 1
            &&& post.slots() == pre.slots().push(post.slots()[key])
            &&& is_default(post.slots()[key])
            &&& Self::entries_written(pre, post, map![key => key])
        }
    }

    /// The writes of inserting `key > length + 1` into the back slot
    /// `b = length + 1`. When key `b` borrows slot `p`, its value moves home to
    /// `b`, slot `p` gets a default value for `key`, and the entries become
    /// `b -> b`, `p -> key`, `key -> p`. When `b` is free, it is appended with a
    /// default value for `key`, and the entries become `b -> key`, `key -> b`.
    /// A key already present changes nothing.
    pub open spec fn greater_step(pre: Self, post: Self, key: int) -> bool {
        let b = pre.len() as int + 1;
        let p = pre.entry(b);
        if pre.entry(key) != 0 {
            post == pre
        } else if p != 0 {
            &&& post.len() == pre.len() + 1
            &&& post.slots() == pre.slots().update(p, post.slots()[p]).push(pre.slots()[p])
            &&& is_default(post.slots()[p])
            &&& Self::entries_written(pre, post, map![b => b, p => key, key => p])
        } else {
            &&& post.len() == pre.len() + 1
            &&& post.slots() == pre.slots().push(post.slots()[b])
            &&& is_default(post.slots()[b])
            &&& Self::entries_written(pre, post, map![b => key, key => b])
        }
    }

    /// The writes of bringing `key <= length` home when its borrower `s` is
    /// key `length + 1`: the borrower's value moves to the appended slot `s`,
    /// slot `key` gets a default value, and both entries name themselves.
    pub open spec fn evict_home_step(pre: Self, post: Self, key: int, s: int) -> bool {
        &&& post.len() == pre.len() + 1
        &&& post.slots() == pre.slots().update(key, post.slots()[key]).push(pre.slots()[key])
        &&& is_default(post.slots()[key])
        &&& Self::entries_written(pre, post, map![key => key, s => s])
    }

    /// The writes of bringing `key <= length` home when its borrower `s` lies
    /// beyond the back slot `b = length + 1`. Slot `key` gets a default value.
    /// When key `b` borrows slot `p`, its value moves home to `b` and the
    /// borrower's value moves to `p`: entries `key -> key`, `b -> b`,
    /// `p -> s`, `s -> p`. When `b` is free, the borrower's value moves to the
    /// appended slot `b`: entries `key -> key`, `b -> s`, `s -> b`.
    pub open spec fn evict_back_step(pre: Self, post: Self, key: int, s: int) -> bool {
        let b = pre.len() as int + 1;
        let p = pre.entry(b);
        &&& post.len() == pre.len() + 1
        &&& is_default(post.slots()[key])
        &&& if p != 0 {
            &&& post.slots() == pre.slots().update(key, post.slots()[key]).update(
                p,
                pre.slots()[key],
            ).push(pre.slots()[p])
            &&& Self::entries_written(pre, post, map![key => key, b => b, p => s, s => p])
        } else {
            &&& post.slots() == pre.slots().update(key, post.slots()[key]).push(pre.slots()[key])
            &&& Self::entries_written(pre, post, map![key => key, b => s, s => b])
        }
    }

    /// The writes of `add(key)`, by case: key 0, a key at or beyond `N`, or a
    /// full map change nothing; otherwise the step for how `key` stands to the
    /// back slot `length + 1`.
    pub open spec fn add_step(pre: Self, post: Self, key: int) -> bool {
        let b = pre.len() as int + 1;
        if key <= 0 || key >= N || b >= N {
            post == pre
        } else if key <= pre.len() {
            let s = pre.entry(key);
            if s == key {
                post == pre
            } else if s == b {
                Self::evict_home_step(pre, post, key, s)
            } else {
                Self::evict_back_step(pre, post, key, s)
            }
        } else if key > b {
            Self::greater_step(pre, post, key)
        } else {
            Self::equal_step(pre, post, key)
        }
    }

    /// Adding a key a second time changes nothing: the map after the second
    /// `add(key)` equals the map after the first, so its length and the value
    /// found for `key` stay as they were.
    pub proof fn lemma_add_idempotent(m0: Self, m1: Self, m2: Self, key: int)
        requires
            m0.wf(),
            Self::added(m0, m1, key),
            Self::added(m1, m2, key),
        ensures
            m2 == m1,
            m2.len() == m1.len(),
            m2.lookup(key) == m1.lookup(key),
    {
    }

    /// On a fresh map, adding any key of `[1, N)` makes it present, alone,
    /// with a value from `T::default()`, which a lookup of it then returns.
    pub proof fn lemma_fresh_add_then_find(m0: Self, m1: Self, key: int)
        requires
            m0.is_fresh(),
            1 <= key < N,
            Self::added(m0, m1, key),
        ensures
            m1.contains(key),
            m1.len() == 1,
            is_default(m1.lookup(key)),
            m1.keys() == set![key],
    {
        assert(!m0.keys().contains(key));
        assert(m1.keys() =~= m1@.dom());
        assert(m0@.dom() =~= Set::<int>::empty());
        assert(m1.keys() =~= set![key]);
    }
}

impl<T, I: UnsignedType, const N: usize> KeyVector<T, I, N> {
    /// On a freshly built map every lookup returns the sentinel.
    pub proof fn lemma_fresh_finds_sentinel(m: Self, key: int)
        requires
            m.is_fresh(),
        ensures
            !m.contains(key),
            m.lookup(key) == m.sentinel(),
    {
        assert(!m.keys().contains(key));
    }

    /// Density: slots `1..=length` hold exactly the values of the present
    /// keys, each once and with no gap. Every slot of the dense region has one
    /// occupant, a present key whose home it is; every present key has its
    /// home in the dense region; so there are exactly `length` keys.
    pub proof fn lemma_density(m: Self)
        requires
            m.wf(),
        ensures
            forall|s: int|
                1 <= s <= m.len() ==> m.contains(#[trigger] m.occupant(s)) && m.home(m.occupant(s))
                    == s,
            forall|k: int|
                #[trigger] m.contains(k) ==> 1 <= m.home(k) <= m.len() && m.occupant(m.home(k)) == k,
            m.slots().subrange(1, m.len() as int + 1) == Seq::new(
                m.len(),
                |i: int| m@[m.occupant(i + 1)],
            ),
            m.slots().len() == m.len() + 1,
            m.keys().finite(),
            m.keys().len() == m.len(),
    {
        let dense = vstd::set_lib::set_int_range(1, m.len() as int + 1);
        let f = |s: int| m.occupant(s);
        assert forall|s: int| 1 <= s <= m.len() implies m.contains(#[trigger] m.occupant(s))
            && m.home(m.occupant(s)) == s by {
            assert(Self::entry_of(m.indices@, s) == m.entry(s));
        }
        assert forall|k: int| #[trigger] m.contains(k) implies 1 <= m.home(k) <= m.len()
            && m.occupant(m.home(k)) == k by {
            assert(Self::entry_of(m.indices@, k) == m.entry(k));
        }
        assert(m.slots().subrange(1, m.len() as int + 1) =~= Seq::new(
            m.len(),
            |i: int| m@[m.occupant(i + 1)],
        ));
        vstd::set_lib::lemma_int_range(1, m.len() as int + 1);
        assert(vstd::relations::injective_on(f, dense));
        assert(dense.map(f) =~= m.keys()) by {
            assert forall|k: int| m.keys().contains(k) implies dense.map(f).contains(k) by {
                assert(dense.contains(m.home(k)) && f(m.home(k)) == k);
            }
        }
        vstd::set_lib::lemma_map_size(dense, m.keys(), f);
    }
}

} // verus!
