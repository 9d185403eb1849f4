use crate::touch::{pin_on, TouchStatus, FIRST_PIN, LAST_PIN};
use vstd::prelude::*;

verus! {

proof fn lemma_set_bit(m: u16, i: u16, p: u16)
    requires
        i < 16,
        p < 16,
    ensures
        ((m | (1u16 << i)) >> p) & 1u16 == 1u16 <==> (((m >> p) & 1u16 == 1u16) || p == i),
{
    assert(((m | (1u16 << i)) >> p) & 1u16 == 1u16 <==> (((m >> p) & 1u16 == 1u16) || p == i))
        by (bit_vector)
        requires
            i < 16,
            p < 16,
    ;
}

proof fn lemma_empty_mask(p: u16)
    requires
        p < 16,
    ensures
        (0u16 >> p) & 1u16 != 1u16,
{
    assert((0u16 >> p) & 1u16 != 1u16) by (bit_vector)
        requires
            p < 16,
    ;
}

/// Holds when exactly one pin is touched and it is the given one.
#[derive(Clone, Copy, Debug)]
pub struct OneItemCondition {
    item: u8,
}

impl OneItemCondition {
    pub closed spec fn pin(self) -> u8 {
        self.item
    }

    pub open spec fn holds(self, touch: TouchStatus) -> bool {
        touch.touched_count() == 1 && touch.is_touched(self.pin())
    }

    pub fn new(item: u8) -> (r: Self)
        ensures
            r.pin() == item,
    {
        OneItemCondition { item }
    }

    pub fn applies(&self, touch: &TouchStatus) -> (r: bool)
        ensures
            r == self.holds(*touch),
    {
        let count = touch.count_touched();
        if count == 1 {
            touch.touched(self.item)
        } else {
            false
        }
    }
}

/// Holds when the touched pins are exactly the given set.
#[derive(Clone, Copy, Debug)]
pub struct MultiItemCondition {
    mask: u16,
}

impl MultiItemCondition {
    /// Whether the condition wants `pin` to be touched.
    pub closed spec fn wants(self, pin: u8) -> bool {
        pin_on(self.mask, pin)
    }

    pub open spec fn holds(self, touch: TouchStatus) -> bool {
        forall|p: u8| p <= LAST_PIN ==> (#[trigger] touch.is_touched(p) == self.wants(p))
    }

    /// The condition on the set of `items`, each of which must be a pin.
    pub fn new(items: &[u8]) -> (r: Self)
        requires
            forall|i: int| 0 <= i < items@.len() ==> items@[i] <= LAST_PIN,
        ensures
            forall|p: u8| #[trigger] r.wants(p) <==> (p <= LAST_PIN && items@.contains(p)),
    {
        let mut mask: u16 = 0;
        let mut k: usize = 0;
        proof {
            assert forall|p: u8| p <= LAST_PIN implies !#[trigger] pin_on(0u16, p) by {
                lemma_empty_mask(p as u16);
            }
        }
        while k < items.len()
            invariant
                k <= items@.len(),
                forall|i: int| 0 <= i < items@.len() ==> items@[i] <= LAST_PIN,
                forall|p: u8|
                    p <= LAST_PIN ==> (#[trigger] pin_on(mask, p) <==> items@.subrange(
                        0,
                        k as int,
                    ).contains(p)),
            decreases items@.len() - k,
        {
            let i = items[k];
            let old_mask = mask;
            mask = mask | (1u16 << (i as u16));
            assert forall|p: u8| p <= LAST_PIN implies (#[trigger] pin_on(mask, p)
                <==> items@.subrange(0, k + 1).contains(p)) by {
                lemma_set_bit(old_mask, i as u16, p as u16);
                assert(items@.subrange(0, k + 1) == items@.subrange(0, k as int).push(i));
                let pre = items@.subrange(0, k as int);
                let next = items@.subrange(0, k + 1);
                assert(pin_on(old_mask, p) <==> pre.contains(p));
                assert(pin_on(mask, p) <==> (pin_on(old_mask, p) || p == i));
                if pre.contains(p) {
                    let j = choose|j: int| 0 <= j < pre.len() && pre[j] == p;
                    assert(next[j] == p);
                }
                if p == i {
                    assert(next[k as int] == p);
                }
                if next.contains(p) {
                    let j = choose|j: int| 0 <= j < next.len() && next[j] == p;
                    if j < k {
                        assert(pre[j] == p);
                    }
                }
            }
            k = k + 1;
        }
        proof {
            assert(items@.subrange(0, items@.len() as int) == items@);
            assert forall|p: u8| pin_on(mask, p) <==> (p <= LAST_PIN && items@.contains(p)) by {
                if p > LAST_PIN {
                    assert(!pin_on(mask, p));
                }
            }
        }
        MultiItemCondition { mask }
    }

    pub fn applies(&self, touch: &TouchStatus) -> (r: bool)
        ensures
            r == self.holds(*touch),
    {
        let mut i: u8 = FIRST_PIN;
        while i <= LAST_PIN
            invariant
                i <= LAST_PIN + 1,
                forall|p: u8| p < i ==> (#[trigger] touch.is_touched(p) == self.wants(p)),
            decreases LAST_PIN + 1 - i,
        {
            let is_touched = (self.mask >> (i as u16)) & 1u16 == 1u16;
            if touch.touched(i) != is_touched {
                return false;
            }
            i = i + 1;
        }
        true
    }
}

/// A predicate over one touch reading.
#[derive(Clone, Copy, Debug)]
pub enum Condition {
    OneItem(OneItemCondition),
    MultiItem(MultiItemCondition),
}

impl Condition {
    pub open spec fn holds(self, touch: TouchStatus) -> bool {
        match self {
            Condition::OneItem(c) => c.holds(touch),
            Condition::MultiItem(c) => c.holds(touch),
        }
    }

    pub fn applies(&self, touch: &TouchStatus) -> (r: bool)
        ensures
            r == self.holds(*touch),
    {
        match self {
            Condition::OneItem(c) => c.applies(touch),
            Condition::MultiItem(c) => c.applies(touch),
        }
    }
}

} // verus!
