//! A fixed-capacity ring buffer.
//!
//! A linear buffer that wraps around once it has grown to its capacity:
//! pushing into a full buffer evicts the oldest element. The logical
//! content (`self@`) is the occupied elements in insertion order.
//!
//! The coherent states are captured by [`RingBuffer::well_formed`]: the
//! backing storage holds exactly the occupied elements, and the read
//! cursor sits at zero until the buffer first wraps. Popping from a
//! wrapped buffer leaves that regime (it removes the physically last
//! element, not the logically last) and is therefore described at the
//! level of the backing storage.

use vstd::prelude::*;

use vstd::pervasive::VecAdditionalExecFns;

verus! {

/// A linear slice of memory that wraps around when elements are added
/// past its capacity.
#[derive(Debug)]
pub struct RingBuffer<T> {
    /// The index to start iterating from.
    start: usize,
    /// Number of occupied elements in the ring buffer.
    occupied: usize,
    /// Max size.
    size: usize,
    /// Backing buffer.
    buf: Vec<T>,
}

impl<T> View for RingBuffer<T> {
    type V = Seq<T>;

    /// The logical content: the occupied elements, oldest first.
    closed spec fn view(&self) -> Seq<T> {
        self.buf@.skip(self.start as int) + self.buf@.take(self.start as int)
    }
}

/// The elements of `s` whose slot in `keep` is true, in order.
pub open spec fn mask_filter<T>(s: Seq<T>, keep: Seq<bool>) -> Seq<T>
    decreases s.len(),
{
    if s.len() == 0 {
        Seq::empty()
    } else {
        let rest = mask_filter(s.drop_first(), keep.drop_first());
        if keep.len() > 0 && keep[0] {
            seq![s[0]] + rest
        } else {
            rest
        }
    }
}

/// Filtering never grows a sequence.
pub proof fn lemma_mask_filter_len<T>(s: Seq<T>, keep: Seq<bool>)
    ensures
        mask_filter(s, keep).len() <= s.len(),
    decreases s.len(),
{
    if s.len() == 0 {
    } else {
        lemma_mask_filter_len(s.drop_first(), keep.drop_first());
    }
}

impl<T> RingBuffer<T> {
    /// The backing storage, in physical order.
    pub closed spec fn raw(&self) -> Seq<T> {
        self.buf@
    }

    /// The physical index the logical content starts at.
    pub closed spec fn spec_start(&self) -> int {
        self.start as int
    }

    /// The number of occupied slots.
    pub closed spec fn spec_occupied(&self) -> int {
        self.occupied as int
    }

    /// The capacity.
    pub closed spec fn spec_size(&self) -> int {
        self.size as int
    }

    /// The coherent states: the backing storage holds exactly the
    /// occupied elements, and the start cursor is zero until the buffer
    /// has filled its capacity.
    pub open spec fn well_formed(&self) -> bool {
        &&& self.spec_occupied() == self.raw().len()
        &&& self.raw().len() <= self.spec_size()
        &&& (self.spec_start() == 0
            || (self.raw().len() == self.spec_size() && self.spec_start() < self.spec_size()))
    }

    /// First open spot, or the next element to replace.
    fn insert_index(&self) -> (r: usize)
        requires
            self.spec_size() > 0,
            self.spec_start() + self.spec_occupied() <= usize::MAX,
        ensures
            r as int == (self.spec_start() + self.spec_occupied()) % self.spec_size(),
    {
        (self.start + self.occupied) % self.size
    }

    /// The size is fixed once the ring buffer is created.
    /// New entries will overwrite old ones.
    pub fn new(size: usize) -> (r: Self)
        ensures
            r.well_formed(),
            r@ =~= Seq::<T>::empty(),
            r.spec_size() == size,
    {
        RingBuffer { start: 0, occupied: 0, size, buf: Vec::new() }
    }

    /// Empties the buffer; the capacity is kept.
    pub fn clear(&mut self)
        ensures
            final(self).well_formed(),
            final(self)@ =~= Seq::<T>::empty(),
            final(self).spec_size() == old(self).spec_size(),
    {
        self.buf.clear();
        self.start = 0;
        self.occupied = 0;
    }

    /// Max size of the ring buffer.
    pub fn size(&self) -> (r: usize)
        ensures
            r as int == self.spec_size(),
    {
        self.size
    }

    /// How many slots in the ring buffer are occupied.
    pub fn occupied(&self) -> (r: usize)
        ensures
            r as int == self.spec_occupied(),
            self.well_formed() ==> r as int == self@.len(),
    {
        self.occupied
    }

    /// The oldest element, or `None` while the buffer is empty.
    pub fn first(&self) -> (r: Option<&T>)
        requires
            self.well_formed(),
        ensures
            match r {
                Some(v) => self@.len() > 0 && *v == self@[0],
                None => self@.len() == 0,
            },
    {
        if self.occupied == 0 {
            None
        } else {
            assert(self@[0] == self.raw()[self.spec_start()]);
            Some(&self.buf[self.start])
        }
    }

    /// The newest element, or `None` while the buffer is empty.
    pub fn last(&self) -> (r: Option<&T>)
        requires
            self.well_formed(),
        ensures
            match r {
                Some(v) => self@.len() > 0 && *v == self@[self@.len() - 1],
                None => self@.len() == 0,
            },
    {
        if self.occupied == 0 {
            None
        } else {
            let i = if self.start == 0 {
                self.occupied - 1
            } else {
                // A nonzero start cursor means the buffer has wrapped, so
                // it is at capacity and the newest element sits just
                // before the cursor.
                self.start - 1
            };
            proof {
                let s = self.spec_start();
                let n = self.spec_occupied();
                if s == 0 {
                    assert((self.spec_size() + n - 1) % self.spec_size() >= 0);
                    assert(self@[n - 1] == self.raw()[n - 1]);
                } else {
                    assert(self@[n - 1] == self.raw()[s - 1]);
                }
            }
            Some(&self.buf[i])
        }
    }

    /// Appends `value`; once the buffer is at capacity the oldest element
    /// is evicted and returned.
    pub fn push(&mut self, value: T) -> (r: Option<T>)
        requires
            old(self).well_formed(),
            0 < old(self).spec_size() <= 0x7fff_ffff,
        ensures
            final(self).well_formed(),
            final(self).spec_size() == old(self).spec_size(),
            match r {
                None => {
                    &&& old(self)@.len() < old(self).spec_size()
                    &&& final(self)@ =~= old(self)@.push(value)
                },
                Some(evicted) => {
                    &&& old(self)@.len() == old(self).spec_size()
                    &&& evicted == old(self)@[0]
                    &&& final(self)@ =~= old(self)@.drop_first().push(value)
                },
            },
    {
        if self.occupied < self.size {
            let ghost prev = self@;
            assert(self.spec_start() == 0);
            self.buf.push(value);
            self.occupied = self.occupied + 1;
            proof {
                assert(self@ =~= prev.push(value));
            }
            None
        } else {
            let ghost prev = self@;
            let index = self.insert_index();
            proof {
                vstd::arithmetic::div_mod::lemma_mod_self_0(self.spec_size());
                vstd::arithmetic::div_mod::lemma_small_mod(self.spec_start() as nat, self.spec_size() as nat);
                vstd::arithmetic::div_mod::lemma_add_mod_noop(
                    self.spec_start(),
                    self.spec_occupied(),
                    self.spec_size(),
                );
                assert(index as int == self.spec_start());
                assert(prev[0] == self.raw()[index as int]);
            }
            let mut value = value;
            let ghost pushed = value;
            self.buf.set_and_swap(index, &mut value);
            self.start = (self.start + 1) % self.buf.len();
            proof {
                assert(value == prev[0]);
                if old(self).spec_start() + 1 == old(self).spec_size() {
                    assert(self.spec_start() == 0);
                } else {
                    vstd::arithmetic::div_mod::lemma_small_mod(
                        (old(self).spec_start() + 1) as nat,
                        old(self).spec_size() as nat,
                    );
                }
                assert(self@ =~= prev.drop_first().push(pushed));
            }
            Some(value)
        }
    }

    /// Removes and returns the physically last element of the backing
    /// storage. Until the buffer has wrapped this is the newest element
    /// and the buffer stays coherent; on a wrapped buffer it removes the
    /// element just before the start cursor.
    pub fn pop(&mut self) -> (r: Option<T>)
        requires
            old(self).well_formed(),
        ensures
            final(self).spec_size() == old(self).spec_size(),
            final(self).spec_start() == old(self).spec_start(),
            match r {
                None => {
                    &&& old(self).spec_occupied() == 0
                    &&& final(self).raw() == old(self).raw()
                    &&& final(self).spec_occupied() == 0
                    &&& final(self).well_formed()
                },
                Some(v) => {
                    &&& old(self).spec_occupied() > 0
                    &&& v == old(self).raw().last()
                    &&& final(self).raw() == old(self).raw().drop_last()
                    &&& final(self).spec_occupied() == old(self).spec_occupied() - 1
                },
            },
            old(self).spec_start() == 0 ==> final(self).well_formed(),
            (old(self).spec_start() == 0 && old(self)@.len() > 0) ==> {
                &&& final(self)@ =~= old(self)@.drop_last()
                &&& r == Some(old(self)@[old(self)@.len() - 1])
            },
    {
        if self.occupied > 0 {
            let v = self.buf.pop();
            self.occupied = self.occupied - 1;
            proof {
                if self.spec_start() == 0 {
                    assert(self@ =~= old(self)@.drop_last());
                    assert(old(self)@[old(self)@.len() - 1] == old(self).raw().last());
                }
            }
            v
        } else {
            None
        }
    }

    /// The element at logical position `index`; positions wrap around the
    /// occupied length.
    pub fn get(&self, index: usize) -> (r: &T)
        requires
            self.well_formed(),
            self@.len() > 0,
        ensures
            *r == self@[(index as int) % self@.len() as int],
    {
        let p = index % self.occupied;
        let i = if p < self.occupied - self.start {
            self.start + p
        } else {
            p - (self.occupied - self.start)
        };
        assert(self@[p as int] == self.raw()[i as int]);
        &self.buf[i]
    }

    /// Replaces the element at logical position `index`; positions wrap
    /// around the occupied length.
    pub fn set(&mut self, index: usize, value: T)
        requires
            old(self).well_formed(),
            old(self)@.len() > 0,
        ensures
            final(self).well_formed(),
            final(self).spec_size() == old(self).spec_size(),
            final(self).spec_start() == old(self).spec_start(),
            final(self)@ =~= old(self)@.update((index as int) % old(self)@.len() as int, value),
    {
        let p = index % self.occupied;
        let i = if p < self.occupied - self.start {
            self.start + p
        } else {
            p - (self.occupied - self.start)
        };
        self.buf.set(i, value);
        assert(self@ =~= old(self)@.update(p as int, value));
    }

    /// Builds a buffer that is exactly at capacity from the given
    /// elements, oldest first.
    pub fn from_vec(buf: Vec<T>) -> (r: Self)
        ensures
            r.well_formed(),
            r@ =~= buf@,
            r.spec_size() == buf@.len(),
    {
        let occupied = buf.len();
        RingBuffer { start: 0, occupied, size: occupied, buf }
    }

    /// Keeps only the elements the predicate accepts, in physical order;
    /// the buffer is re-anchored at cursor zero, its capacity kept.
    pub fn retain<F: Fn(&T) -> bool>(&mut self, f: F)
        requires
            old(self).well_formed(),
            forall|t: &T| #[trigger] f.requires((t,)),
        ensures
            final(self).well_formed(),
            final(self).spec_start() == 0,
            final(self).spec_size() == old(self).spec_size(),
            final(self).spec_occupied() == final(self)@.len(),
            exists|keep: Seq<bool>|
                {
                    &&& keep.len() == old(self).raw().len()
                    &&& final(self)@ =~= #[trigger] mask_filter(old(self).raw(), keep)
                    &&& forall|j: int|
                        0 <= j < keep.len() ==> call_ensures(f, (&old(self).raw()[j],), keep[j])
                },
    {
        let ghost raw = self.buf@;
        let mut rev: Vec<T> = Vec::new();
        let ghost mut keep: Seq<bool> = Seq::empty();
        while self.buf.len() > 0
            invariant
                self.spec_size() == old(self).spec_size(),
                forall|t: &T| #[trigger] f.requires((t,)),
                self.buf@ =~= raw.take(self.buf@.len() as int),
                self.buf@.len() <= raw.len(),
                keep.len() == raw.len() - self.buf@.len(),
                rev@ =~= mask_filter(raw.skip(self.buf@.len() as int), keep).reverse(),
                forall|j: int|
                    0 <= j < keep.len()
                        ==> call_ensures(f, (&raw[self.buf@.len() as int + j],), keep[j]),
            decreases self.buf@.len(),
        {
            let ghost i = self.buf@.len() as int;
            let ghost old_rev = rev@;
            let x = self.buf.pop().unwrap();
            assert(x == raw[i - 1]);
            let b = f(&x);
            if b {
                rev.push(x);
            }
            proof {
                let old_keep = keep;
                keep = seq![b] + keep;
                let suffix = raw.skip(i - 1);
                assert(suffix[0] == raw[i - 1]);
                assert(suffix.drop_first() =~= raw.skip(i));
                assert(keep.drop_first() =~= old_keep);
                assert(mask_filter(suffix, keep) == if b {
                    seq![raw[i - 1]] + mask_filter(raw.skip(i), old_keep)
                } else {
                    mask_filter(raw.skip(i), old_keep)
                });
                if b {
                    assert(rev@ =~= mask_filter(suffix, keep).reverse());
                } else {
                    assert(rev@ =~= mask_filter(suffix, keep).reverse());
                }
            }
        }
        let ghost target = mask_filter(raw, keep);
        proof {
            assert(raw.skip(0) =~= raw);
            assert(rev@ =~= target.reverse());
            lemma_mask_filter_len(raw, keep);
        }
        while rev.len() > 0
            invariant
                self.spec_size() == old(self).spec_size(),
                target.len() <= old(self).spec_size(),
                self.buf@ =~= target.take(self.buf@.len() as int),
                self.buf@.len() + rev@.len() == target.len(),
                rev@ =~= target.skip(self.buf@.len() as int).reverse(),
            decreases rev@.len(),
        {
            let ghost k = self.buf@.len() as int;
            let x = rev.pop().unwrap();
            proof {
                assert(target.skip(k).reverse().last() == target.skip(k)[0]);
                assert(target.skip(k)[0] == target[k]);
            }
            self.buf.push(x);
            proof {
                assert(self.buf@ =~= target.take(k + 1));
                assert(rev@ =~= target.skip(k).reverse().drop_last());
                assert(target.skip(k).reverse().drop_last() =~= target.skip(k + 1).reverse());
            }
        }
        self.start = 0;
        self.occupied = self.buf.len();
        proof {
            assert(self.buf@ =~= target);
            assert(self@ =~= target);
            assert(keep.len() == raw.len());
        }
    }

    /// Consumes the buffer into a draining cursor.
    pub fn into_iter(self) -> (r: IntoRingBufferIterator<T>)
        ensures
            r.ring_buffer == self,
            r.pos == 0,
    {
        IntoRingBufferIterator { ring_buffer: self, pos: 0 }
    }

    /// A cursor over the buffer's logical content.
    pub fn iter(&self) -> (r: RingBufferIterator<T>)
        ensures
            r.ring_buffer == self,
            r.pos == 0,
    {
        RingBufferIterator { ring_buffer: self, pos: 0 }
    }

    /// A cursor for walking and updating the buffer in logical order,
    /// through `get` and `set`.
    pub fn iter_mut(&mut self) -> (r: RingBufferMutIterator)
        ensures
            *final(self) == *old(self),
            r.pos == 0,
    {
        RingBufferMutIterator { pos: 0 }
    }
}

/// A draining cursor that owns its ring buffer.
///
/// Each step takes the element at the next wrapped physical position out
/// of the backing storage with a swap-removal. The swap disturbs the
/// physical order, so later steps can yield elements out of logical
/// order — or, past the first few steps of a longer buffer, ask for a
/// position the shrunken storage no longer has, which the contract
/// excludes call by call.
#[derive(Debug)]
pub struct IntoRingBufferIterator<T> {
    pub ring_buffer: RingBuffer<T>,
    pub pos: usize,
}

impl<T> IntoRingBufferIterator<T> {
    /// The next element by wrapped physical position, or `None` once
    /// `pos` has passed the occupied count.
    pub fn next(&mut self) -> (r: Option<T>)
        requires
            old(self).pos < old(self).ring_buffer.spec_occupied() ==> {
                &&& old(self).ring_buffer.spec_size() > 0
                &&& old(self).ring_buffer.spec_start() + old(self).pos <= usize::MAX
                &&& (old(self).ring_buffer.spec_start() + old(self).pos)
                    % old(self).ring_buffer.spec_size() < old(self).ring_buffer.raw().len()
            },
        ensures
            final(self).ring_buffer.spec_start() == old(self).ring_buffer.spec_start(),
            final(self).ring_buffer.spec_occupied() == old(self).ring_buffer.spec_occupied(),
            final(self).ring_buffer.spec_size() == old(self).ring_buffer.spec_size(),
            match r {
                Some(v) => {
                    let i = (old(self).ring_buffer.spec_start() + old(self).pos)
                        % old(self).ring_buffer.spec_size();
                    &&& old(self).pos < old(self).ring_buffer.spec_occupied()
                    &&& final(self).pos == old(self).pos + 1
                    &&& v == old(self).ring_buffer.raw()[i]
                    &&& final(self).ring_buffer.raw() == old(self).ring_buffer.raw().update(
                        i,
                        old(self).ring_buffer.raw().last(),
                    ).drop_last()
                },
                None => {
                    &&& old(self).pos >= old(self).ring_buffer.spec_occupied()
                    &&& final(self).pos == old(self).pos
                    &&& final(self).ring_buffer.raw() == old(self).ring_buffer.raw()
                },
            },
    {
        if self.pos >= self.ring_buffer.occupied {
            None
        } else {
            let index = (self.ring_buffer.start + self.pos) % self.ring_buffer.size;
            self.pos = self.pos + 1;
            Some(self.ring_buffer.buf.swap_remove(index))
        }
    }
}

/// A read-only cursor over a ring buffer's logical content.
#[derive(Debug)]
pub struct RingBufferIterator<'a, T> {
    pub ring_buffer: &'a RingBuffer<T>,
    pub pos: usize,
}

impl<'a, T> RingBufferIterator<'a, T> {
    /// The next element in logical order, or `None` past the end.
    pub fn next(&mut self) -> (r: Option<&'a T>)
        requires
            old(self).ring_buffer.well_formed(),
        ensures
            final(self).ring_buffer == old(self).ring_buffer,
            match r {
                Some(v) => {
                    &&& old(self).pos < old(self).ring_buffer@.len()
                    &&& *v == old(self).ring_buffer@[old(self).pos as int]
                    &&& final(self).pos == old(self).pos + 1
                },
                None => {
                    &&& old(self).pos >= old(self).ring_buffer@.len()
                    &&& final(self).pos == old(self).pos
                },
            },
    {
        let rb = self.ring_buffer;
        if self.pos >= rb.occupied() {
            None
        } else {
            let v = rb.get(self.pos);
            proof {
                vstd::arithmetic::div_mod::lemma_small_mod(self.pos as nat, rb@.len() as nat);
            }
            self.pos = self.pos + 1;
            Some(v)
        }
    }
}

/// A cursor for walking a ring buffer in logical order while updating it:
/// `next_index` yields the next logical position, to be read or replaced
/// through `get` and `set`.
#[derive(Debug)]
pub struct RingBufferMutIterator {
    pub pos: usize,
}

impl RingBufferMutIterator {
    /// The next logical position of `rb`, or `None` past the end.
    pub fn next_index<T>(&mut self, rb: &RingBuffer<T>) -> (r: Option<usize>)
        requires
            rb.well_formed(),
        ensures
            match r {
                Some(i) => {
                    &&& old(self).pos < rb@.len()
                    &&& i == old(self).pos
                    &&& final(self).pos == old(self).pos + 1
                },
                None => {
                    &&& old(self).pos >= rb@.len()
                    &&& final(self).pos == old(self).pos
                },
            },
    {
        if self.pos >= rb.occupied() {
            None
        } else {
            let i = self.pos;
            self.pos = self.pos + 1;
            Some(i)
        }
    }
}

} // verus!
