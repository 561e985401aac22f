use vstd::prelude::*;

verus! {

/// 2^128, the weight of the high half of a wide sum.
pub open spec fn half_weight() -> nat {
    0x1_0000_0000_0000_0000_0000_0000_0000_0000nat
}

/// A sum of products of 64-bit integers, held in 256 bits.
pub struct WideSum {
    hi: u128,
    lo: u128,
}

impl View for WideSum {
    type V = nat;

    closed spec fn view(&self) -> nat {
        self.hi as nat * half_weight() + self.lo as nat
    }
}

/// The product of two 64-bit integers is below 2^128.
pub(crate) proof fn lemma_product_bound(a: u64, b: u64)
    ensures
        (a as nat) * (b as nat) <= u128::MAX,
        (a as nat) * (b as nat) < half_weight(),
{
    assert((a as nat) * (b as nat) <= 0xffff_ffff_ffff_ffff * 0xffff_ffff_ffff_ffff) by (nonlinear_arith)
        requires
            a <= 0xffff_ffff_ffff_ffff,
            b <= 0xffff_ffff_ffff_ffff,
    ;
}

impl WideSum {
    /// The empty sum.
    pub fn zero() -> (s: WideSum)
        ensures
            s@ == 0,
    {
        WideSum { hi: 0, lo: 0 }
    }

    /// Adds the product of two 64-bit integers.
    pub fn add_product(&mut self, a: u64, b: u64)
        requires
            old(self)@ + (a as nat) * (b as nat) < (u128::MAX as nat) * half_weight(),
        ensures
            final(self)@ == old(self)@ + (a as nat) * (b as nat),
    {
        proof {
            lemma_product_bound(a, b);
        }
        let product: u128 = (a as u128) * (b as u128);
        let room: u128 = u128::MAX - self.lo;
        if product <= room {
            self.lo = self.lo + product;
        } else {
            self.lo = product - room - 1;
            self.hi = self.hi + 1;
        }
    }

    /// Whether the sum is at least as large as another.
    pub fn at_least(&self, other: &WideSum) -> (r: bool)
        ensures
            r == (self@ >= other@),
    {
        self.hi > other.hi || (self.hi == other.hi && self.lo >= other.lo)
    }
}

} // verus!
