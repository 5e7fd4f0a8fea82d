use vstd::prelude::*;

verus! {

/// The sign bit of an IEEE-754 single-precision value.
pub const SIGN_BIT: u32 = 0x8000_0000;

/// The largest magnitude (bits without the sign) that is not a NaN: infinity.
pub const INFINITY_MAGNITUDE: u32 = 0x7f80_0000;

/// True when `bits` encodes a NaN: all exponent bits set and a nonzero fraction.
pub open spec fn is_nan_bits(bits: u32) -> bool {
    bits % SIGN_BIT > INFINITY_MAGNITUDE
}

/// The position of the value encoded by `bits` in the order of `f32` values.
///
/// IEEE-754 stores sign and magnitude apart, and for non-NaN values the
/// magnitude bits, read as an integer, grow with the magnitude. Negating the
/// magnitude of negative values therefore gives an integer whose order is the
/// order of the floats; both zeros land on 0, as `-0.0 == 0.0`.
pub open spec fn rank_of_bits(bits: u32) -> int {
    if bits >= SIGN_BIT {
        -((bits - SIGN_BIT) as int)
    } else {
        bits as int
    }
}

/// The bits of the negated value: the sign bit flipped.
pub open spec fn sign_flipped(bits: u32) -> u32 {
    bits ^ SIGN_BIT
}

/// A non-NaN `f32`, kept as its rank in the order of `f32` values.
///
/// Two keys compare (`<`, `<=`, `==`) exactly as the floats they come from.
#[derive(Clone, Copy, Debug, PartialEq, Eq, Structural)]
pub struct Key {
    pub rank: i32,
}

impl Key {
    /// The rank of a non-NaN float: its magnitude is at most infinity's.
    pub open spec fn wf(self) -> bool {
        -(INFINITY_MAGNITUDE as int) <= self.rank <= INFINITY_MAGNITUDE
    }

    /// The bits of the float this key stands for; rank 0 gives `+0.0`.
    pub open spec fn bits_spec(self) -> u32 {
        if self.rank < 0 {
            (SIGN_BIT - self.rank) as u32
        } else {
            self.rank as u32
        }
    }

    /// The key of the float with these bits, or `None` for a NaN, which has
    /// no place in the order.
    pub fn from_bits(bits: u32) -> (r: Option<Key>)
        ensures
            r is None <==> is_nan_bits(bits),
            r matches Some(k) ==> k.wf() && k.rank == rank_of_bits(bits),
    {
        if bits >= SIGN_BIT {
            let magnitude: u32 = bits - SIGN_BIT;
            if magnitude > INFINITY_MAGNITUDE {
                None
            } else {
                Some(Key { rank: -(magnitude as i32) })
            }
        } else if bits > INFINITY_MAGNITUDE {
            None
        } else {
            Some(Key { rank: bits as i32 })
        }
    }

    /// The bits of the float this key stands for.
    pub fn to_bits(self) -> (r: u32)
        requires
            self.wf(),
        ensures
            r == self.bits_spec(),
    {
        if self.rank < 0 {
            SIGN_BIT + (-self.rank) as u32
        } else {
            self.rank as u32
        }
    }

    /// True when `self` lies in the closed interval `[lo, hi]`.
    pub open spec fn within(self, lo: Key, hi: Key) -> bool {
        lo.rank <= self.rank <= hi.rank
    }
}

/// True when `v` is a number of magnitude below `epsilon`.
pub open spec fn below_magnitude(v: Option<Key>, epsilon: Key) -> bool {
    v matches Some(k) && -epsilon.rank < k.rank < epsilon.rank
}

/// True when each component of a vector is a number of magnitude below
/// `epsilon`: the vector is too short to give a direction.
pub fn near_zero(x: Option<Key>, y: Option<Key>, z: Option<Key>, epsilon: Key) -> (r: bool)
    ensures
        r == (below_magnitude(x, epsilon) && below_magnitude(y, epsilon) && below_magnitude(z, epsilon)),
{
    let below = |v: Option<Key>| -> (b: bool)
        ensures
            b == below_magnitude(v, epsilon),
        {
            match v {
                Some(k) => -(epsilon.rank as i64) < k.rank as i64 && k.rank < epsilon.rank,
                None => false,
            }
        };
    below(x) && below(y) && below(z)
}

/// A key's bits lead back to the key.
pub proof fn lemma_bits_round_trip(k: Key)
    requires
        k.wf(),
    ensures
        !is_nan_bits(k.bits_spec()),
        rank_of_bits(k.bits_spec()) == k.rank,
{
}

/// Negating a float negates its rank: flipping the sign bit keeps a non-NaN
/// value non-NaN and maps its rank `k` to `-k`.
pub proof fn lemma_sign_flip_negates_rank(bits: u32)
    requires
        !is_nan_bits(bits),
    ensures
        !is_nan_bits(sign_flipped(bits)),
        rank_of_bits(sign_flipped(bits)) == -rank_of_bits(bits),
{
    assert(bits >= 0x8000_0000u32 ==> bits ^ 0x8000_0000u32 == bits - 0x8000_0000u32)
        by (bit_vector);
    assert(bits < 0x8000_0000u32 ==> bits ^ 0x8000_0000u32 == bits + 0x8000_0000u32)
        by (bit_vector);
}

} // verus!
