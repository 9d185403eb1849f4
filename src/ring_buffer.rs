use vstd::arithmetic::div_mod::{
    lemma_add_mod_noop, lemma_mod_add_multiples_vanish, lemma_small_mod, lemma_sub_mod_noop,
};
use vstd::prelude::*;

verus! {

/// The abstract state of a ring buffer: its fixed slots, the slot that the
/// next `add` writes, and how many of the slots hold live values.
pub struct RingModel<T> {
    pub slots: Seq<T>,
    pub cursor: int,
    pub live: int,
}

impl<T> RingModel<T> {
    pub open spec fn capacity(self) -> int {
        self.slots.len() as int
    }

    pub open spec fn wf(self) -> bool {
        &&& self.capacity() > 0
        &&& 0 <= self.cursor < self.capacity()
        &&& 0 <= self.live <= self.capacity()
    }

    /// The physical slot that a relative offset resolves to.
    pub open spec fn slot_of(self, offset: int) -> int {
        (self.cursor + offset) % self.capacity()
    }

    /// The value at a relative offset: `-1` is the newest value, `0` the
    /// slot that the next `add` overwrites.
    pub open spec fn item(self, offset: int) -> T {
        self.slots[self.slot_of(offset)]
    }

    /// The live values, oldest first.
    pub open spec fn items(self) -> Seq<T> {
        Seq::new(self.live as nat, |j: int| self.item(j - self.live))
    }

    /// The state after `add(v)`.
    pub open spec fn added(self, v: T) -> RingModel<T> {
        RingModel {
            slots: self.slots.update(self.cursor, v),
            cursor: if self.cursor + 1 >= self.capacity() { 0 } else { self.cursor + 1 },
            live: if self.live < self.capacity() { self.live + 1 } else { self.live },
        }
    }

    /// The state after `remove()`.
    pub open spec fn removed(self) -> RingModel<T> {
        RingModel {
            live: if self.live > 0 { self.live - 1 } else { 0 },
            ..self
        }
    }

    /// The state after adding each value of `vs` in turn.
    pub open spec fn added_all(self, vs: Seq<T>) -> RingModel<T>
        decreases vs.len(),
    {
        if vs.len() == 0 {
            self
        } else {
            self.added_all(vs.drop_last()).added(vs.last())
        }
    }
}

/// A fixed-capacity circular buffer addressed relative to the next write.
#[derive(Clone)]
pub struct FixedRingBuffer<T> {
    data: Vec<T>,
    next: usize,
    len: usize,
}

impl<T> View for FixedRingBuffer<T> {
    type V = RingModel<T>;

    closed spec fn view(&self) -> RingModel<T> {
        RingModel { slots: self.data@, cursor: self.next as int, live: self.len as int }
    }
}

impl<T> FixedRingBuffer<T> {
    pub open spec fn wf(&self) -> bool {
        &&& self@.wf()
        &&& self@.capacity() <= isize::MAX
    }
}

impl<T: Clone> FixedRingBuffer<T> {
    /// A buffer of `size` slots, each holding a clone of `init`, with no live value.
    pub fn new(size: usize, init: T) -> (r: Self)
        requires
            0 < size <= isize::MAX,
        ensures
            r.wf(),
            r@.capacity() == size,
            r@.cursor == 0,
            r@.live == 0,
            forall|i: int| 0 <= i < size ==> cloned(init, #[trigger] r@.slots[i]),
    {
        let data = vec![init; size];
        FixedRingBuffer { data, next: 0, len: 0 }
    }
}

impl<T> FixedRingBuffer<T> {
    /// A buffer of `size` slots, each filled by a call of `init`, with no live value.
    pub fn new_with<F: Fn() -> T>(size: usize, init: F) -> (r: Self)
        requires
            0 < size <= isize::MAX,
            call_requires(init, ()),
        ensures
            r.wf(),
            r@.capacity() == size,
            r@.cursor == 0,
            r@.live == 0,
            forall|i: int| 0 <= i < size ==> call_ensures(init, (), #[trigger] r@.slots[i]),
    {
        let mut data: Vec<T> = Vec::with_capacity(size);
        let mut i: usize = 0;
        while i < size
            invariant
                i <= size,
                data@.len() == i,
                call_requires(init, ()),
                forall|j: int| 0 <= j < i ==> call_ensures(init, (), #[trigger] data@[j]),
            decreases size - i,
        {
            let v = init();
            data.push(v);
            i = i + 1;
        }
        FixedRingBuffer { data, next: 0, len: 0 }
    }

    /// Writes `item` into the next slot and advances the cursor; the live
    /// length grows until it reaches the capacity.
    pub fn add(&mut self, item: T)
        requires
            old(self).wf(),
        ensures
            final(self).wf(),
            final(self)@ == old(self)@.added(item),
    {
        self.data.set(self.next, item);
        self.next = self.next + 1;
        if self.next >= self.data.len() {
            self.next = 0;
        }
        if self.len < self.data.len() {
            self.len = self.len + 1;
        }
    }

    /// The most recently written slot, the same as `item(-1)`.
    pub fn last(&self) -> (r: &T)
        requires
            self.wf(),
        ensures
            *r == self@.item(-1),
    {
        self.item(-1)
    }

    /// The live length.
    pub fn size(&self) -> (r: isize)
        requires
            self.wf(),
        ensures
            r == self@.live,
    {
        self.len as isize
    }

    /// The slot at `no` places from the next write, wrapping around in both
    /// directions.
    pub fn item(&self, no: isize) -> (r: &T)
        requires
            self.wf(),
        ensures
            *r == self@.item(no as int),
    {
        let cap = self.data.len();
        let idx: usize = if no >= 0 {
            let k = (no as usize) % cap;
            proof {
                lemma_small_mod(self.next as nat, cap as nat);
                lemma_add_mod_noop(self.next as int, no as int, cap as int);
            }
            (self.next + k) % cap
        } else {
            let mag: u128 = (-(no as i128)) as u128;
            let m = (mag % (cap as u128)) as usize;
            proof {
                lemma_small_mod(self.next as nat, cap as nat);
                lemma_sub_mod_noop(self.next as int, mag as int, cap as int);
                lemma_mod_add_multiples_vanish(self.next - m, cap as int);
            }
            (self.next + (cap - m)) % cap
        };
        &self.data[idx]
    }

    /// Forgets the oldest live value, if there is one; no slot is cleared.
    pub fn remove(&mut self)
        requires
            old(self).wf(),
        ensures
            final(self).wf(),
            final(self)@ == old(self)@.removed(),
    {
        if self.len > 0 {
            self.len = self.len - 1;
        }
    }

    /// A walk over the live values, oldest first.
    pub fn iter<'a>(&'a self) -> (r: FixedRingBufferIterator<'a, T>)
        requires
            self.wf(),
        ensures
            r.buffer() == self,
            r.position() == 0,
    {
        FixedRingBufferIterator::new(self)
    }
}

/// Walks the live values of a buffer from the oldest to the newest.
pub struct FixedRingBufferIterator<'a, T> {
    buf: &'a FixedRingBuffer<T>,
    count: isize,
}

impl<'a, T> FixedRingBufferIterator<'a, T> {
    pub closed spec fn buffer(&self) -> &'a FixedRingBuffer<T> {
        self.buf
    }

    /// How many values have been handed out.
    pub closed spec fn position(&self) -> int {
        self.count as int
    }

    pub fn new(buf: &'a FixedRingBuffer<T>) -> (r: Self)
        ensures
            r.buffer() == buf,
            r.position() == 0,
    {
        FixedRingBufferIterator { buf, count: 0 }
    }

    /// The next live value, or `None` once all of them were handed out.
    pub fn next(&mut self) -> (r: Option<&'a T>)
        requires
            old(self).buffer().wf(),
            0 <= old(self).position() <= old(self).buffer()@.live,
        ensures
            final(self).buffer() == old(self).buffer(),
            old(self).position() < old(self).buffer()@.live ==> {
                &&& r is Some
                &&& *r.unwrap() == old(self).buffer()@.items()[old(self).position()]
                &&& final(self).position() == old(self).position() + 1
            },
            old(self).position() >= old(self).buffer()@.live ==> {
                &&& r is None
                &&& final(self).position() == old(self).position()
            },
    {
        let size = self.buf.size();
        if self.count < size {
            let v = self.buf.item(self.count - size);
            self.count = self.count + 1;
            Some(v)
        } else {
            None
        }
    }
}

/// From a fresh buffer of capacity `n`, after `m` adds the live length is
/// the smaller of `m` and `n`.
pub proof fn lemma_size_after_adds<T>(start: RingModel<T>, vs: Seq<T>)
    requires
        start.wf(),
        start.live == 0,
    ensures
        start.added_all(vs).wf(),
        start.added_all(vs).capacity() == start.capacity(),
        start.added_all(vs).live == if vs.len() < start.capacity() {
            vs.len() as int
        } else {
            start.capacity()
        },
    decreases vs.len(),
{
    if vs.len() > 0 {
        lemma_size_after_adds(start, vs.drop_last());
    }
}

/// After an `add`, the newest value (offset `-1`, which `last` returns) is
/// the value just added.
pub proof fn lemma_last_is_newest<T>(m: RingModel<T>, v: T)
    requires
        m.wf(),
    ensures
        m.added(v).wf(),
        m.added(v).item(-1) == v,
{
    let n = m.added(v);
    if m.cursor + 1 >= m.capacity() {
        assert(n.slot_of(-1) == m.cursor) by {
            lemma_mod_add_multiples_vanish(-1, m.capacity());
            lemma_small_mod((m.capacity() - 1) as nat, m.capacity() as nat);
        }
    } else {
        lemma_small_mod(m.cursor as nat, m.capacity() as nat);
    }
}

/// Offsets that differ by the capacity address the same slot.
pub proof fn lemma_item_periodic<T>(m: RingModel<T>, k: int)
    requires
        m.wf(),
    ensures
        m.item(k) == m.item(k + m.capacity()),
{
    lemma_mod_add_multiples_vanish(m.cursor + k, m.capacity());
    assert(m.cursor + (k + m.capacity()) == m.capacity() + (m.cursor + k));
}

} // verus!
