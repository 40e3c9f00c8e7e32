//! The pairing fixture: three random curve points, each by its coordinates.

use vstd::prelude::*;
use ark_bn254::{G1Affine, G2Affine};
use ark_ff::PrimeField;
use ark_std::UniformRand;
use rand::rngs::StdRng;
use crate::types::{limbs_value, U256};

verus! {

/// Three points for a pairing check: a key and two points of the paired
/// group. A point of the first group is its `x` and `y`; a point of the
/// paired group is the imaginary and the real part of its `x`, then those of
/// its `y`.
#[derive(Clone, Copy, Debug, PartialEq, Eq)]
pub struct PairingTestData {
    pub agg_pubkey: [U256; 2],
    pub agg_signature: [U256; 4],
    pub message_point: [U256; 4],
}

impl PairingTestData {
    /// The key is a point of the first curve, and the signature and the
    /// message point are each a point of the paired curve or the identity.
    pub open spec fn on_curves(self) -> bool {
        &&& on_first_curve(self.agg_pubkey[0].value(), self.agg_pubkey[1].value())
        &&& is_paired_point(
            self.agg_signature[1].value(),
            self.agg_signature[0].value(),
            self.agg_signature[3].value(),
            self.agg_signature[2].value(),
        )
        &&& is_paired_point(
            self.message_point[1].value(),
            self.message_point[0].value(),
            self.message_point[3].value(),
            self.message_point[2].value(),
        )
    }

    /// Every coordinate is a member of the base field: below its modulus.
    pub open spec fn in_field(self) -> bool {
        &&& forall|i: int| 0 <= i < 2 ==> (#[trigger] self.agg_pubkey[i]).value() < base_field_modulus()
        &&& forall|i: int|
            0 <= i < 4 ==> (#[trigger] self.agg_signature[i]).value() < base_field_modulus()
        &&& forall|i: int|
            0 <= i < 4 ==> (#[trigger] self.message_point[i]).value() < base_field_modulus()
    }
}

/// The modulus of the field that the coordinates of the points lie in.
pub open spec fn base_field_modulus() -> nat {
    (((0x3064_4e72_e131_a029nat * 0x1_0000_0000_0000_0000 + 0xb850_45b6_8181_585d)
        * 0x1_0000_0000_0000_0000 + 0x9781_6a91_6871_ca8d) * 0x1_0000_0000_0000_0000
        + 0x3c20_8c16_d87c_fd47) as nat
}

/// The real part of the constant of the paired curve.
pub open spec fn paired_curve_b_real() -> nat {
    (((0x2b14_9d40_ceb8_aaaenat * 0x1_0000_0000_0000_0000 + 0x81be_1899_1be0_6ac3)
        * 0x1_0000_0000_0000_0000 + 0xb5b4_c5e5_59db_efa3) * 0x1_0000_0000_0000_0000
        + 0x3267_e6dc_24a1_38e5) as nat
}

/// The imaginary part of the constant of the paired curve.
pub open spec fn paired_curve_b_imaginary() -> nat {
    (((0x0097_13b0_3af0_fed4nat * 0x1_0000_0000_0000_0000 + 0xcd2c_afad_eed8_fdf4)
        * 0x1_0000_0000_0000_0000 + 0xa74f_a084_e52d_1852) * 0x1_0000_0000_0000_0000
        + 0xe4a2_bd06_85c3_15d2) as nat
}

/// Whether `(x, y)` lies on the first curve: `y^2 = x^3 + 3` in the base field.
pub open spec fn on_first_curve(x: nat, y: nat) -> bool {
    (y * y) % base_field_modulus() == (x * x * x + 3) % base_field_modulus()
}

/// Whether the point with `x = x_real + x_imaginary * u` and
/// `y = y_real + y_imaginary * u`, where `u^2 = -1`, lies on the paired
/// curve: `y^2 = x^3 + b`, with `b` the constant of that curve. The real and
/// the imaginary parts of the two sides are compared, each with its
/// subtracted terms moved to the other side.
pub open spec fn on_paired_curve(x_real: nat, x_imaginary: nat, y_real: nat, y_imaginary: nat) -> bool {
    &&& (y_real * y_real + 3 * x_real * x_imaginary * x_imaginary) % base_field_modulus() == (
    y_imaginary * y_imaginary + x_real * x_real * x_real + paired_curve_b_real())
        % base_field_modulus()
    &&& (2 * y_real * y_imaginary + x_imaginary * x_imaginary * x_imaginary) % base_field_modulus()
        == (3 * x_real * x_real * x_imaginary + paired_curve_b_imaginary()) % base_field_modulus()
}

/// Whether the four coordinates are those of a point of the paired curve or
/// of the identity, whose coordinates are all zero.
pub open spec fn is_paired_point(x_real: nat, x_imaginary: nat, y_real: nat, y_imaginary: nat) -> bool {
    on_paired_curve(x_real, x_imaginary, y_real, y_imaginary) || (x_real == 0 && x_imaginary == 0
        && y_real == 0 && y_imaginary == 0)
}

/// `G1Affine::rand`, with each coordinate turned by `PrimeField::into_bigint`
/// into its four 64-bit limbs, least significant first: `x`, then `y`.
/// The claims: `into_bigint` gives an integer below the modulus, and the
/// point drawn lies on the curve: `rand` takes `y` as a square root of
/// `x^3 + 3` and multiplies the point by the cofactor, which is one.
#[verifier::external_body]
fn sample_g1(rng: &mut StdRng) -> (r: [[u64; 4]; 2])
    ensures
        forall|i: int| 0 <= i < 2 ==> le_limbs_value(#[trigger] r[i]) < base_field_modulus(),
        on_first_curve(le_limbs_value(r[0]), le_limbs_value(r[1])),
{
    let p = G1Affine::rand(rng);
    [p.x.into_bigint().0, p.y.into_bigint().0]
}

/// `G2Affine::rand`, with each coordinate turned by `PrimeField::into_bigint`
/// into its four 64-bit limbs, least significant first: the real and the
/// imaginary part of `x`, then those of `y`. The claims: `into_bigint` gives
/// an integer below the modulus, and the point drawn lies on the curve or is
/// the identity: `rand` takes `y` as a square root of `x^3 + b` and
/// multiplies the point by the cofactor, which may give the identity, whose
/// coordinates are zero.
#[verifier::external_body]
fn sample_g2(rng: &mut StdRng) -> (r: [[u64; 4]; 4])
    ensures
        forall|i: int| 0 <= i < 4 ==> le_limbs_value(#[trigger] r[i]) < base_field_modulus(),
        is_paired_point(
            le_limbs_value(r[0]),
            le_limbs_value(r[1]),
            le_limbs_value(r[2]),
            le_limbs_value(r[3]),
        ),
{
    let p = G2Affine::rand(rng);
    [p.x.c0.into_bigint().0, p.x.c1.into_bigint().0, p.y.c0.into_bigint().0, p.y.c1.into_bigint().0]
}

/// The integer that four 64-bit limbs stand for, least significant first.
pub open spec fn le_limbs_value(limbs: [u64; 4]) -> nat {
    (((limbs[3] as nat * 0x1_0000_0000_0000_0000 + limbs[2] as nat) * 0x1_0000_0000_0000_0000
        + limbs[1] as nat) * 0x1_0000_0000_0000_0000 + limbs[0] as nat) as nat
}

/// The value of eight limbs, written out.
pub proof fn lemma_limbs_value_eight(s: Seq<u32>)
    requires
        s.len() == 8,
    ensures
        limbs_value(s) == (((((((s[0] as nat * 0x1_0000_0000 + s[1] as nat) * 0x1_0000_0000
            + s[2] as nat) * 0x1_0000_0000 + s[3] as nat) * 0x1_0000_0000 + s[4] as nat)
            * 0x1_0000_0000 + s[5] as nat) * 0x1_0000_0000 + s[6] as nat) * 0x1_0000_0000
            + s[7] as nat),
{
    let s7 = s.drop_last();
    let s6 = s7.drop_last();
    let s5 = s6.drop_last();
    let s4 = s5.drop_last();
    let s3 = s4.drop_last();
    let s2 = s3.drop_last();
    let s1 = s2.drop_last();
    let s0 = s1.drop_last();
    assert(limbs_value(s0) == 0);
    assert(limbs_value(s1) == s[0] as nat);
    assert(limbs_value(s2) == limbs_value(s1) * 0x1_0000_0000 + s[1] as nat);
    assert(limbs_value(s3) == limbs_value(s2) * 0x1_0000_0000 + s[2] as nat);
    assert(limbs_value(s4) == limbs_value(s3) * 0x1_0000_0000 + s[3] as nat);
    assert(limbs_value(s5) == limbs_value(s4) * 0x1_0000_0000 + s[4] as nat);
    assert(limbs_value(s6) == limbs_value(s5) * 0x1_0000_0000 + s[5] as nat);
    assert(limbs_value(s7) == limbs_value(s6) * 0x1_0000_0000 + s[6] as nat);
    assert(limbs_value(s) == limbs_value(s7) * 0x1_0000_0000 + s[7] as nat);
}

/// The upper half of a 64-bit limb.
fn high_half(x: u64) -> (r: u32)
    ensures
        r == x / 0x1_0000_0000,
{
    assert((x >> 32) == x / 0x1_0000_0000 && (x >> 32) <= 0xffff_ffff) by (bit_vector);
    (x >> 32) as u32
}

/// The lower half of a 64-bit limb.
fn low_half(x: u64) -> (r: u32)
    ensures
        r == x % 0x1_0000_0000,
{
    assert((x & 0xffff_ffff) == x % 0x1_0000_0000 && (x & 0xffff_ffff) <= 0xffff_ffff)
        by (bit_vector);
    (x & 0xffff_ffff) as u32
}

/// The same integer in eight 32-bit limbs, most significant first.
pub fn u256_from_le_limbs(limbs: [u64; 4]) -> (r: U256)
    ensures
        r.value() == le_limbs_value(limbs),
{
    let r = U256 {
        limbs: [
            high_half(limbs[3]),
            low_half(limbs[3]),
            high_half(limbs[2]),
            low_half(limbs[2]),
            high_half(limbs[1]),
            low_half(limbs[1]),
            high_half(limbs[0]),
            low_half(limbs[0]),
        ],
    };
    proof {
        lemma_limbs_value_eight(r.limbs@);
    }
    r
}

/// A point of the first group, from the limbs of its `x` and `y`.
pub fn flat_g1(coordinates: [[u64; 4]; 2]) -> (r: [U256; 2])
    ensures
        r[0].value() == le_limbs_value(coordinates[0]),
        r[1].value() == le_limbs_value(coordinates[1]),
{
    [u256_from_le_limbs(coordinates[0]), u256_from_le_limbs(coordinates[1])]
}

/// A point of the paired group, from the limbs of the real and the imaginary
/// part of its `x`, then those of its `y`: in each pair the imaginary part
/// comes first in the result.
pub fn flat_g2(coordinates: [[u64; 4]; 4]) -> (r: [U256; 4])
    ensures
        r[0].value() == le_limbs_value(coordinates[1]),
        r[1].value() == le_limbs_value(coordinates[0]),
        r[2].value() == le_limbs_value(coordinates[3]),
        r[3].value() == le_limbs_value(coordinates[2]),
{
    [
        u256_from_le_limbs(coordinates[1]),
        u256_from_le_limbs(coordinates[0]),
        u256_from_le_limbs(coordinates[3]),
        u256_from_le_limbs(coordinates[2]),
    ]
}

/// The fixture of three points given by their limbs.
pub fn pairing_test_data(
    agg_pubkey: [[u64; 4]; 2],
    agg_signature: [[u64; 4]; 4],
    message_point: [[u64; 4]; 4],
) -> (data: PairingTestData)
    ensures
        data.agg_pubkey[0].value() == le_limbs_value(agg_pubkey[0]),
        data.agg_pubkey[1].value() == le_limbs_value(agg_pubkey[1]),
        data.agg_signature[0].value() == le_limbs_value(agg_signature[1]),
        data.agg_signature[1].value() == le_limbs_value(agg_signature[0]),
        data.agg_signature[2].value() == le_limbs_value(agg_signature[3]),
        data.agg_signature[3].value() == le_limbs_value(agg_signature[2]),
        data.message_point[0].value() == le_limbs_value(message_point[1]),
        data.message_point[1].value() == le_limbs_value(message_point[0]),
        data.message_point[2].value() == le_limbs_value(message_point[3]),
        data.message_point[3].value() == le_limbs_value(message_point[2]),
{
    PairingTestData {
        agg_pubkey: flat_g1(agg_pubkey),
        agg_signature: flat_g2(agg_signature),
        message_point: flat_g2(message_point),
    }
}

/// Draws the fixture from `rng`: the key first, then the signature, then the
/// message point. Nothing else goes into it. Every coordinate drawn lies in
/// the base field, the key is a point of the first curve, and the signature
/// and the message point are each a point of the paired curve or the identity.
pub fn generate_pairing_test_data(rng: &mut StdRng) -> (data: PairingTestData)
    ensures
        data.in_field(),
        data.on_curves(),
{
    let agg_pubkey = sample_g1(rng);
    let agg_signature = sample_g2(rng);
    let message_point = sample_g2(rng);
    let data = pairing_test_data(agg_pubkey, agg_signature, message_point);
    proof {
        assert(data.agg_pubkey[0].value() < base_field_modulus());
        assert(data.agg_pubkey[1].value() < base_field_modulus());
        assert(data.agg_signature[0].value() == le_limbs_value(agg_signature[1]));
        assert(data.agg_signature[1].value() == le_limbs_value(agg_signature[0]));
        assert(data.agg_signature[2].value() == le_limbs_value(agg_signature[3]));
        assert(data.agg_signature[3].value() == le_limbs_value(agg_signature[2]));
        assert(data.message_point[0].value() == le_limbs_value(message_point[1]));
        assert(data.message_point[1].value() == le_limbs_value(message_point[0]));
        assert(data.message_point[2].value() == le_limbs_value(message_point[3]));
        assert(data.message_point[3].value() == le_limbs_value(message_point[2]));
    }
    data
}

} // verus!
