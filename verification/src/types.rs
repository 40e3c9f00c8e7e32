//! Plain values that the fixtures are made of.

use vstd::prelude::*;

verus! {

/// A 256-bit unsigned integer as eight 32-bit limbs, most significant first.
#[derive(Clone, Copy, Debug, PartialEq, Eq, Hash)]
pub struct U256 {
    pub limbs: [u32; 8],
}

/// A 32-byte value such as a hash or a nullifier.
#[derive(Clone, Copy, Debug, PartialEq, Eq, Hash)]
pub struct Bytes32 {
    pub bytes: [u8; 32],
}

/// A 20-byte account address.
#[derive(Clone, Copy, Debug, PartialEq, Eq, Hash)]
pub struct Address {
    pub bytes: [u8; 20],
}

impl Bytes32 {
    /// Whether every byte is zero: the seed of a hash chain.
    pub open spec fn is_zero(self) -> bool {
        self.bytes@ == Seq::new(32, |i: int| 0u8)
    }

    /// The value whose bytes are all zero.
    pub fn zero() -> (r: Bytes32)
        ensures
            r.is_zero(),
    {
        let r = Bytes32 { bytes: [0u8; 32] };
        proof {
            assert(r.bytes@ =~= Seq::new(32, |i: int| 0u8));
        }
        r
    }
}

/// There is one zero value.
pub proof fn lemma_zero_unique(a: Bytes32, b: Bytes32)
    requires
        a.is_zero(),
        b.is_zero(),
    ensures
        a == b,
{
    assert(a.bytes@ =~= b.bytes@);
    assert(a.bytes == b.bytes);
}

impl U256 {
    /// The integer that the limbs stand for.
    pub open spec fn value(self) -> nat {
        limbs_value(self.limbs@)
    }

    /// The integer one: the placeholder that pads unused key slots.
    pub open spec fn is_dummy_pubkey_spec(self) -> bool {
        self.limbs@ == seq![0u32, 0u32, 0u32, 0u32, 0u32, 0u32, 0u32, 1u32]
    }

    /// The value zero.
    pub fn zero() -> (r: U256)
        ensures
            r.limbs@ == Seq::new(8, |i: int| 0u32),
            r.value() == 0,
    {
        let r = U256 { limbs: [0u32; 8] };
        proof {
            assert(r.limbs@ =~= Seq::new(8, |i: int| 0u32));
            lemma_zero_limbs_value(r.limbs@);
        }
        r
    }

    /// The placeholder key.
    pub fn dummy_pubkey() -> (r: U256)
        ensures
            r.is_dummy_pubkey_spec(),
            r.value() == 1,
    {
        let r = U256 { limbs: [0u32, 0u32, 0u32, 0u32, 0u32, 0u32, 0u32, 1u32] };
        proof {
            assert(r.limbs@ =~= seq![0u32, 0u32, 0u32, 0u32, 0u32, 0u32, 0u32, 1u32]);
            lemma_dummy_value(r.limbs@);
        }
        r
    }

    /// A value that fits in 32 bits.
    pub fn from_u32(x: u32) -> (r: U256)
        ensures
            r.limbs@ == seq![0u32, 0u32, 0u32, 0u32, 0u32, 0u32, 0u32, x],
            r.value() == x,
    {
        let r = U256 { limbs: [0u32, 0u32, 0u32, 0u32, 0u32, 0u32, 0u32, x] };
        proof {
            assert(r.limbs@ =~= seq![0u32, 0u32, 0u32, 0u32, 0u32, 0u32, 0u32, x]);
            lemma_low_limb_value(r.limbs@);
        }
        r
    }

    /// Whether this key is the placeholder.
    pub fn is_dummy_pubkey(&self) -> (r: bool)
        ensures
            r == self.is_dummy_pubkey_spec(),
            r == (self.value() == 1),
    {
        let r = self.limbs[0] == 0 && self.limbs[1] == 0 && self.limbs[2] == 0
            && self.limbs[3] == 0 && self.limbs[4] == 0 && self.limbs[5] == 0
            && self.limbs[6] == 0 && self.limbs[7] == 1;
        proof {
            if r {
                assert(self.limbs@ =~= seq![0u32, 0u32, 0u32, 0u32, 0u32, 0u32, 0u32, 1u32]);
                lemma_dummy_value(self.limbs@);
            } else {
                lemma_value_one_is_dummy(self.limbs@);
            }
        }
        r
    }
}

/// Big-endian value of a sequence of 32-bit limbs.
pub open spec fn limbs_value(limbs: Seq<u32>) -> nat
    decreases limbs.len(),
{
    if limbs.len() == 0 {
        0
    } else {
        limbs_value(limbs.drop_last()) * 0x1_0000_0000 + limbs.last() as nat
    }
}

/// Limbs that are all zero stand for zero.
pub proof fn lemma_zero_limbs_value(limbs: Seq<u32>)
    requires
        forall|i: int| 0 <= i < limbs.len() ==> limbs[i] == 0,
    ensures
        limbs_value(limbs) == 0,
    decreases limbs.len(),
{
    if limbs.len() > 0 {
        lemma_zero_limbs_value(limbs.drop_last());
    }
}

/// With all limbs but the last zero, the value is the last limb.
pub proof fn lemma_low_limb_value(limbs: Seq<u32>)
    requires
        limbs.len() > 0,
        forall|i: int| 0 <= i < limbs.len() - 1 ==> limbs[i] == 0,
    ensures
        limbs_value(limbs) == limbs.last(),
{
    lemma_zero_limbs_value(limbs.drop_last());
}

/// The placeholder limbs stand for one.
pub proof fn lemma_dummy_value(limbs: Seq<u32>)
    requires
        limbs == seq![0u32, 0u32, 0u32, 0u32, 0u32, 0u32, 0u32, 1u32],
    ensures
        limbs_value(limbs) == 1,
{
    lemma_low_limb_value(limbs);
}

/// A limb sequence whose value is zero holds only zeros.
pub proof fn lemma_value_zero_limbs(limbs: Seq<u32>)
    requires
        limbs_value(limbs) == 0,
    ensures
        forall|i: int| 0 <= i < limbs.len() ==> limbs[i] == 0,
    decreases limbs.len(),
{
    if limbs.len() > 0 {
        let head = limbs_value(limbs.drop_last());
        assert(head == 0) by (nonlinear_arith)
            requires
                head * 0x1_0000_0000 + limbs.last() as nat == 0,
        ;
        lemma_value_zero_limbs(limbs.drop_last());
        assert forall|i: int| 0 <= i < limbs.len() implies limbs[i] == 0 by {
            if i < limbs.len() - 1 {
                assert(limbs.drop_last()[i] == 0);
            }
        }
    }
}

/// Eight limbs whose value is one are the placeholder limbs.
pub proof fn lemma_value_one_is_dummy(limbs: Seq<u32>)
    requires
        limbs.len() == 8,
    ensures
        limbs_value(limbs) == 1 ==> limbs == seq![0u32, 0u32, 0u32, 0u32, 0u32, 0u32, 0u32, 1u32],
{
    if limbs_value(limbs) == 1 {
        let head = limbs_value(limbs.drop_last());
        let low = limbs.last() as nat;
        assert(head == 0 && low == 1) by (nonlinear_arith)
            requires
                head * 0x1_0000_0000 + low == 1,
                low < 0x1_0000_0000,
        ;
        lemma_value_zero_limbs(limbs.drop_last());
        assert forall|i: int| 0 <= i < 7 implies limbs[i] == 0 by {
            assert(limbs.drop_last()[i] == 0);
        }
        assert(limbs =~= seq![0u32, 0u32, 0u32, 0u32, 0u32, 0u32, 0u32, 1u32]);
    }
}

} // verus!
