use vstd::prelude::*;

verus! {

/// A point in simulation time, reduced to what the trajectory logic reads of it:
/// its place in the order of times.
///
/// A finite time carries a rank, and ranks order finite times exactly as the
/// times themselves are ordered (two equal times share a rank). The two
/// infinities lie below and above every finite time. An undefined time (a time
/// that is not a number) is neither before, after nor at any time, itself
/// included.
#[derive(Clone, Copy, Debug, PartialEq, Eq, Structural)]
pub enum TimeKey {
    MinusInfinity,
    Finite(u64),
    PlusInfinity,
    Undefined,
}

impl TimeKey {
    /// Place on the time line, or `None` for an undefined time.
    pub open spec fn position(self) -> Option<int> {
        match self {
            TimeKey::MinusInfinity => Some(-1),
            TimeKey::Finite(rank) => Some(rank as int),
            TimeKey::PlusInfinity => Some(0x1_0000_0000_0000_0000),
            TimeKey::Undefined => None,
        }
    }

    /// `self < other`: both are defined and `self` comes strictly first.
    pub open spec fn precedes(self, other: TimeKey) -> bool {
        &&& self.position() is Some
        &&& other.position() is Some
        &&& self.position().unwrap() < other.position().unwrap()
    }

    /// `self <= other`: both are defined and `self` does not come after `other`.
    pub open spec fn at_or_before(self, other: TimeKey) -> bool {
        &&& self.position() is Some
        &&& other.position() is Some
        &&& self.position().unwrap() <= other.position().unwrap()
    }

    /// One of the two infinities.
    pub open spec fn infinite(self) -> bool {
        self is MinusInfinity || self is PlusInfinity
    }

    /// Whether `self` is strictly before `other`.
    pub fn is_before(&self, other: &TimeKey) -> (r: bool)
        ensures
            r == self.precedes(*other),
    {
        match (*self, *other) {
            (TimeKey::Undefined, _) => false,
            (_, TimeKey::Undefined) => false,
            (TimeKey::MinusInfinity, TimeKey::MinusInfinity) => false,
            (TimeKey::MinusInfinity, _) => true,
            (TimeKey::Finite(_), TimeKey::MinusInfinity) => false,
            (TimeKey::Finite(a), TimeKey::Finite(b)) => a < b,
            (TimeKey::Finite(_), TimeKey::PlusInfinity) => true,
            (TimeKey::PlusInfinity, _) => false,
        }
    }

    /// Whether `self` is at or before `other`.
    pub fn is_at_or_before(&self, other: &TimeKey) -> (r: bool)
        ensures
            r == self.at_or_before(*other),
    {
        match (*self, *other) {
            (TimeKey::Undefined, _) => false,
            (_, TimeKey::Undefined) => false,
            (TimeKey::MinusInfinity, _) => true,
            (TimeKey::Finite(_), TimeKey::MinusInfinity) => false,
            (TimeKey::Finite(a), TimeKey::Finite(b)) => a <= b,
            (TimeKey::Finite(_), TimeKey::PlusInfinity) => true,
            (TimeKey::PlusInfinity, TimeKey::PlusInfinity) => true,
            (TimeKey::PlusInfinity, _) => false,
        }
    }

    /// Whether this time is one of the two infinities.
    pub fn is_infinite(&self) -> (r: bool)
        ensures
            r == self.infinite(),
    {
        match *self {
            TimeKey::MinusInfinity => true,
            TimeKey::PlusInfinity => true,
            _ => false,
        }
    }
}

/// Magnitude field of a 64-bit IEEE 754 binary floating-point pattern: every
/// bit but the sign.
pub open spec fn magnitude_bits(bits: u64) -> u64 {
    bits & 0x7FFF_FFFF_FFFF_FFFF
}

/// Whether the sign bit of the pattern is set.
pub open spec fn sign_bit(bits: u64) -> bool {
    bits >> 63 == 1
}

/// Whether the pattern encodes a number (exponent field not all ones with a
/// nonzero fraction).
pub open spec fn encodes_number(bits: u64) -> bool {
    magnitude_bits(bits) <= 0x7FF0_0000_0000_0000
}

/// Whether the pattern encodes one of the two infinities.
pub open spec fn encodes_infinity(bits: u64) -> bool {
    magnitude_bits(bits) == 0x7FF0_0000_0000_0000
}

/// Place on the line of numbers of the value a non-NaN pattern encodes: in the
/// IEEE 754 binary formats, non-negative values are ordered as their magnitude
/// fields, and a set sign bit mirrors the value below zero (both zeros sit at
/// zero).
pub open spec fn signed_magnitude(bits: u64) -> int {
    if sign_bit(bits) {
        -(magnitude_bits(bits) as int)
    } else {
        magnitude_bits(bits) as int
    }
}

/// The time key of the time whose 64-bit IEEE 754 value has the pattern
/// `bits`: not-a-number gives `Undefined`, the infinities give the two infinite
/// keys, and a finite value gives the rank `2^63 + signed_magnitude(bits)`.
pub open spec fn key_of_bits(bits: u64) -> TimeKey {
    if !encodes_number(bits) {
        TimeKey::Undefined
    } else if encodes_infinity(bits) {
        if sign_bit(bits) {
            TimeKey::MinusInfinity
        } else {
            TimeKey::PlusInfinity
        }
    } else {
        TimeKey::Finite((0x8000_0000_0000_0000 + signed_magnitude(bits)) as u64)
    }
}

/// The time key of a time given by the bit pattern of its 64-bit IEEE 754
/// value.
pub fn time_key_from_bits(bits: u64) -> (key: TimeKey)
    ensures
        key == key_of_bits(bits),
{
    let magnitude = bits & 0x7FFF_FFFF_FFFF_FFFF;
    let negative = bits >> 63 == 1;
    assert(bits & 0x7FFF_FFFF_FFFF_FFFF <= 0x7FFF_FFFF_FFFF_FFFF) by (bit_vector);
    if magnitude > 0x7FF0_0000_0000_0000 {
        TimeKey::Undefined
    } else if magnitude == 0x7FF0_0000_0000_0000 {
        if negative {
            TimeKey::MinusInfinity
        } else {
            TimeKey::PlusInfinity
        }
    } else if negative {
        TimeKey::Finite(0x8000_0000_0000_0000 - magnitude)
    } else {
        TimeKey::Finite(0x8000_0000_0000_0000 + magnitude)
    }
}

/// Keys of values compare as the values do: for two patterns that encode
/// numbers, one key precedes the other exactly when its value is smaller, and
/// is at or before it exactly when its value is not larger (so the two zeros
/// share a place). A not-a-number pattern gives a key that compares with
/// nothing.
pub proof fn lemma_key_of_bits_follows_value_order(a: u64, b: u64)
    ensures
        encodes_number(a) && encodes_number(b) ==> {
            &&& key_of_bits(a).precedes(key_of_bits(b)) <==> signed_magnitude(a)
                < signed_magnitude(b)
            &&& key_of_bits(a).at_or_before(key_of_bits(b)) <==> signed_magnitude(a)
                <= signed_magnitude(b)
        },
        !encodes_number(a) ==> key_of_bits(a) == TimeKey::Undefined,
{
}

/// The order of times by kind: finite times follow their ranks, minus
/// infinity comes before and plus infinity after every finite time, and an
/// undefined time is neither before nor at or before anything.
pub proof fn lemma_time_order_by_kind(a: u64, b: u64, t: TimeKey)
    ensures
        TimeKey::Finite(a).precedes(TimeKey::Finite(b)) <==> a < b,
        TimeKey::Finite(a).at_or_before(TimeKey::Finite(b)) <==> a <= b,
        TimeKey::MinusInfinity.precedes(TimeKey::Finite(a)),
        TimeKey::Finite(a).precedes(TimeKey::PlusInfinity),
        TimeKey::MinusInfinity.precedes(TimeKey::PlusInfinity),
        !TimeKey::Finite(a).at_or_before(TimeKey::MinusInfinity),
        !TimeKey::PlusInfinity.at_or_before(TimeKey::Finite(a)),
        TimeKey::MinusInfinity.at_or_before(TimeKey::MinusInfinity),
        TimeKey::PlusInfinity.at_or_before(TimeKey::PlusInfinity),
        !TimeKey::Undefined.precedes(t) && !t.precedes(TimeKey::Undefined),
        !TimeKey::Undefined.at_or_before(t) && !t.at_or_before(TimeKey::Undefined),
        TimeKey::MinusInfinity.infinite() && TimeKey::PlusInfinity.infinite(),
        !TimeKey::Finite(a).infinite() && !TimeKey::Undefined.infinite(),
{
}

/// Defined times are totally ordered: of two defined times, exactly one comes
/// first or they are at the same place; the order is transitive; and an
/// undefined time is neither before nor at or before anything.
pub proof fn lemma_time_order(a: TimeKey, b: TimeKey, c: TimeKey)
    ensures
        a.position() is Some && b.position() is Some ==> (a.precedes(b) || b.precedes(a)
            || a.position() == b.position()),
        !(a.precedes(b) && b.precedes(a)),
        !a.precedes(a),
        a.precedes(b) && b.precedes(c) ==> a.precedes(c),
        a.at_or_before(b) && b.at_or_before(c) ==> a.at_or_before(c),
        a.precedes(b) ==> a.at_or_before(b),
        a.at_or_before(b) && !a.precedes(b) ==> a == b,
        a is Undefined ==> !a.precedes(b) && !b.precedes(a) && !a.at_or_before(b) && !b.at_or_before(
            a,
        ),
{
}

} // verus!
