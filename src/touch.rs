use vstd::prelude::*;

verus! {

/// The number of the first sensor pin.
pub const FIRST_PIN: u8 = 0;

/// The number of the last sensor pin.
pub const LAST_PIN: u8 = 11;

/// Whether bit `pin` of `bits` is set, for the twelve sensor pins.
pub open spec fn pin_on(bits: u16, pin: u8) -> bool {
    pin <= LAST_PIN && (bits >> (pin as u16)) & 1u16 == 1u16
}

/// One reading of the capacitive touch sensor: bit `i` is set when pin `i`
/// is touched.
#[derive(Clone, Copy, Debug, PartialEq, Eq, Structural)]
pub struct TouchStatus {
    pub bits: u16,
}

impl TouchStatus {
    pub fn new(bits: u16) -> (r: Self)
        ensures
            r.bits == bits,
    {
        TouchStatus { bits }
    }

    pub open spec fn is_touched(self, pin: u8) -> bool {
        pin_on(self.bits, pin)
    }

    /// How many of the pins below `n` are touched.
    pub open spec fn count_below(self, n: nat) -> nat
        decreases n,
    {
        if n == 0 {
            0
        } else {
            self.count_below((n - 1) as nat) + if self.is_touched((n - 1) as u8) {
                1nat
            } else {
                0nat
            }
        }
    }

    /// How many pins are touched.
    pub open spec fn touched_count(self) -> nat {
        self.count_below(LAST_PIN as nat + 1)
    }

    /// Whether `pin` is touched; pins past the last one never are.
    pub fn touched(&self, pin: u8) -> (r: bool)
        ensures
            r == self.is_touched(pin),
    {
        if pin <= LAST_PIN {
            (self.bits >> (pin as u16)) & 1u16 == 1u16
        } else {
            false
        }
    }

    /// Whether any bit of the reading is set.
    pub fn was_touched(&self) -> (r: bool)
        ensures
            r == (self.bits > 0),
    {
        self.bits > 0
    }

    /// How many pins are touched.
    pub fn count_touched(&self) -> (r: u8)
        ensures
            r == self.touched_count(),
    {
        let mut n: u8 = 0;
        let mut i: u8 = FIRST_PIN;
        while i <= LAST_PIN
            invariant
                i <= LAST_PIN + 1,
                n == self.count_below(i as nat),
                n <= i,
            decreases LAST_PIN + 1 - i,
        {
            if self.touched(i) {
                n = n + 1;
            }
            i = i + 1;
        }
        n
    }
}

} // verus!
