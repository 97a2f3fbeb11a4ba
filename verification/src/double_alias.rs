//! An alias of a double-precision number, held as its IEEE-754 bit
//! pattern. Equality, ordering and hashing deliberately deviate from
//! native float semantics: every NaN collapses to one canonical pattern
//! and the two signed zeros stay distinct, so that hash- and
//! ordering-based containers behave consistently. Converting between the
//! bit pattern and a machine float is the caller's concern.

use vstd::prelude::*;

verus! {

/// The canonical quiet-NaN bit pattern every NaN collapses to.
pub open spec fn canonical_nan() -> u64 {
    0x7ff8000000000000u64
}

/// The bit pattern encodes a NaN: exponent all ones, mantissa non-zero.
pub open spec fn is_nan_bits(b: u64) -> bool {
    (b >> 52) & 0x7ff == 0x7ff && b & 0x000fffffffffffff != 0
}

/// The canonical form of a bit pattern: NaNs collapse, all else is kept —
/// signed zeros included.
pub open spec fn canon_bits(b: u64) -> u64 {
    if is_nan_bits(b) {
        canonical_nan()
    } else {
        b
    }
}

/// Two bit patterns denote equivalent values under the overridden
/// equality: equal after NaN canonicalization.
pub open spec fn double_equiv(x: u64, y: u64) -> bool {
    canon_bits(x) == canon_bits(y)
}

/// The key that orders bit patterns by the IEEE-754 total order: negative
/// values flip entirely, others set the sign bit, making plain unsigned
/// comparison agree with the numeric order.
pub open spec fn total_order_key(b: u64) -> u64 {
    if b & 0x8000000000000000 != 0 {
        !b
    } else {
        b | 0x8000000000000000
    }
}

/// An alias of a double, stored canonicalized: the bit pattern of the
/// number, with every NaN already collapsed. Derived equality, ordering
/// and hashing therefore agree with the overridden semantics.
#[derive(Debug, Clone, Copy, PartialEq, Eq, PartialOrd, Ord, Hash, Structural)]
pub struct DoubleAliasExample {
    /// The canonical IEEE-754 bit pattern.
    pub bits: u64,
}

impl DoubleAliasExample {
    /// The stored pattern is in canonical form.
    pub open spec fn wf(self) -> bool {
        self.bits == canon_bits(self.bits)
    }

    /// Wraps a bit pattern, collapsing any NaN to the canonical one.
    pub fn from_bits(bits: u64) -> (r: DoubleAliasExample)
        ensures
            r.bits == canon_bits(bits),
            r.wf(),
    {
        let nan = (bits >> 52) & 0x7ff == 0x7ff && bits & 0x000fffffffffffff != 0;
        let r = if nan {
            DoubleAliasExample { bits: 0x7ff8000000000000 }
        } else {
            DoubleAliasExample { bits }
        };
        proof {
            lemma_canon_idempotent(bits);
        }
        r
    }

    /// The canonical bit pattern.
    pub fn bits(&self) -> (r: u64)
        ensures
            r == self.bits,
    {
        self.bits
    }

    /// The overridden equality: equivalence of the underlying values.
    pub fn eq_value(&self, other: &DoubleAliasExample) -> (r: bool)
        requires
            self.wf(),
            other.wf(),
        ensures
            r == double_equiv(self.bits, other.bits),
    {
        self.bits == other.bits
    }

    /// The overridden strict order: the IEEE-754 total order on the
    /// canonical patterns.
    pub fn lt_total(&self, other: &DoubleAliasExample) -> (r: bool)
        ensures
            r == (total_order_key(self.bits) < total_order_key(other.bits)),
    {
        let ka = if self.bits & 0x8000000000000000 != 0 {
            !self.bits
        } else {
            self.bits | 0x8000000000000000
        };
        let kb = if other.bits & 0x8000000000000000 != 0 {
            !other.bits
        } else {
            other.bits | 0x8000000000000000
        };
        ka < kb
    }
}

/// Canonicalizing twice changes nothing: the canonical NaN is a NaN.
pub proof fn lemma_canon_idempotent(b: u64)
    ensures
        canon_bits(canon_bits(b)) == canon_bits(b),
{
    assert((0x7ff8000000000000u64 >> 52) & 0x7ff == 0x7ff) by (bit_vector);
    assert(0x7ff8000000000000u64 & 0x000fffffffffffff != 0) by (bit_vector);
}

/// Two values compare equal exactly when the overridden ordering calls
/// them equivalent; since each is stored in canonical form, every derived
/// function of the value — its hash included — then agrees on the two.
pub proof fn lemma_double_alias_equiv_is_equality(a: DoubleAliasExample, b: DoubleAliasExample)
    requires
        a.wf(),
        b.wf(),
    ensures
        double_equiv(a.bits, b.bits) <==> a == b,
{
}

} // verus!
