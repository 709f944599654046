use crate::bvh::{order_key, order_key_of, total_order_lt, SIGN_BIT};
use vstd::prelude::*;

verus! {

/// The bit pattern is a NaN: all exponent bits set and a non-zero fraction.
pub open spec fn is_nan_bits(bits: u64) -> bool {
    bits & 0x7ff0_0000_0000_0000 == 0x7ff0_0000_0000_0000 && bits & 0x000f_ffff_ffff_ffff != 0
}

/// The bit pattern is +0.0 or -0.0.
pub open spec fn is_zero_bits(bits: u64) -> bool {
    bits == 0 || bits == SIGN_BIT
}

/// IEEE 754 `<` on two non-NaN bit patterns: the total order, except that the
/// two zeros compare equal.
pub open spec fn float_lt(a: u64, b: u64) -> bool {
    !(is_zero_bits(a) && is_zero_bits(b)) && total_order_lt(a, b)
}

/// IEEE 754 `==` on two non-NaN bit patterns.
pub open spec fn float_eq(a: u64, b: u64) -> bool {
    a == b || (is_zero_bits(a) && is_zero_bits(b))
}

/// The key that compares f64 values: the order key, with -0.0 taking the key
/// of +0.0.
pub open spec fn value_key_of(bits: u64) -> u64 {
    if bits == SIGN_BIT {
        order_key_of(0)
    } else {
        order_key_of(bits)
    }
}

/// On values that are not NaN, value keys compare exactly as the values do.
pub proof fn lemma_value_key_compares(a: u64, b: u64)
    requires
        !is_nan_bits(a),
        !is_nan_bits(b),
    ensures
        float_lt(a, b) <==> value_key_of(a) < value_key_of(b),
        float_eq(a, b) <==> value_key_of(a) == value_key_of(b),
{
    assert(float_lt(a, b) <==> value_key_of(a) < value_key_of(b)) by (bit_vector);
    assert(float_eq(a, b) <==> value_key_of(a) == value_key_of(b)) by (bit_vector);
}

/// The value key of an f64 given by its bit pattern (`f64::to_bits`).
pub fn value_key(bits: u64) -> (r: u64)
    ensures
        r == value_key_of(bits),
{
    if bits == SIGN_BIT {
        order_key(0)
    } else {
        order_key(bits)
    }
}

/// The bit pattern whose order key is `key` (for a value key, the pattern of
/// the value it came from, with -0.0 given back as +0.0).
pub fn bits_of_key(key: u64) -> (r: u64)
    ensures
        order_key_of(r) == key,
{
    let r = if key >= SIGN_BIT {
        key & !SIGN_BIT
    } else {
        !key
    };
    assert(order_key_of(r) == key) by (bit_vector)
        requires
            r == if key >= SIGN_BIT {
                key & !SIGN_BIT
            } else {
                !key
            },
    ;
    r
}

/// A closed range of f64 values held as their value keys. A range whose `max`
/// lies below its `min` is empty, as the sentinel `min = 1, max = -1` is.
#[derive(Clone, Copy, Debug)]
pub struct KeyInterval {
    pub min: u64,
    pub max: u64,
}

impl KeyInterval {
    /// Key `k` lies in the range, ends included.
    pub open spec fn has(self, k: u64) -> bool {
        self.min <= k <= self.max
    }

    pub open spec fn empty_range(self) -> bool {
        self.max < self.min
    }

    /// Every key of `self` lies in `other`.
    pub open spec fn within(self, other: KeyInterval) -> bool {
        forall|k: u64| #[trigger] self.has(k) ==> other.has(k)
    }

    /// The smallest range holding both: an empty range adds nothing, otherwise
    /// the lower of the mins and the higher of the maxes.
    pub open spec fn merged(a: KeyInterval, b: KeyInterval) -> KeyInterval {
        if a.empty_range() {
            b
        } else if b.empty_range() {
            a
        } else {
            KeyInterval {
                min: if a.min <= b.min { a.min } else { b.min },
                max: if a.max >= b.max { a.max } else { b.max },
            }
        }
    }

    /// Whether the range holds no key at all.
    pub fn is_empty(&self) -> (r: bool)
        ensures
            r == self.empty_range(),
            r <==> forall|k: u64| !(#[trigger] self.has(k)),
    {
        proof {
            if !self.empty_range() {
                assert(self.has(self.min));
            }
        }
        self.max < self.min
    }

    pub fn contains(&self, k: u64) -> (r: bool)
        ensures
            r == self.has(k),
    {
        self.min <= k && k <= self.max
    }

    /// Key `k` lies strictly inside the range.
    pub fn surrounds(&self, k: u64) -> (r: bool)
        ensures
            r == (self.min < k < self.max),
    {
        self.min < k && k < self.max
    }

    pub fn merge(a: KeyInterval, b: KeyInterval) -> (r: KeyInterval)
        ensures
            r == KeyInterval::merged(a, b),
    {
        if a.max < a.min {
            b
        } else if b.max < b.min {
            a
        } else {
            KeyInterval {
                min: if a.min <= b.min { a.min } else { b.min },
                max: if a.max >= b.max { a.max } else { b.max },
            }
        }
    }
}

/// Merging two ranges gives one that holds every key either holds, and lies
/// within every range that holds all of those keys.
pub proof fn lemma_merge_covers_and_is_smallest(a: KeyInterval, b: KeyInterval, c: KeyInterval)
    ensures
        a.within(KeyInterval::merged(a, b)),
        b.within(KeyInterval::merged(a, b)),
        a.within(c) && b.within(c) ==> KeyInterval::merged(a, b).within(c),
{
    let m = KeyInterval::merged(a, b);
    if a.within(c) && b.within(c) && !a.empty_range() && !b.empty_range() {
        assert(a.has(a.min) && a.has(a.max));
        assert(b.has(b.min) && b.has(b.max));
        assert(c.has(m.min) && c.has(m.max));
    }
}

} // verus!
