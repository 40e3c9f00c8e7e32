use ark_bn254::Fq;
use ark_ff::{BigInt, PrimeField};
use test_data_generator::pairing::{
    flat_g1, flat_g2, pairing_test_data, u256_from_le_limbs, PairingTestData,
};
use test_data_generator::rng::{sample_amount, sample_token_index, seeded_rng};
use test_data_generator::types::U256;

const MODULUS: [u32; 8] = [
    0x3064_4e72, 0xe131_a029, 0xb850_45b6, 0x8181_585d, 0x9781_6a91, 0x6871_ca8d, 0x3c20_8c16,
    0xd87c_fd47,
];

fn coordinates(data: &PairingTestData) -> Vec<U256> {
    let mut all = data.agg_pubkey.to_vec();
    all.extend_from_slice(&data.agg_signature);
    all.extend_from_slice(&data.message_point);
    all
}

#[test]
fn generate_pairing_test_data() {
    let mut rng = seeded_rng(0);
    let data = test_data_generator::pairing::generate_pairing_test_data(&mut rng);
    let all = coordinates(&data);
    assert_eq!(all.len(), 10);
    for c in all.iter() {
        assert!(c.limbs < MODULUS);
    }
    assert_ne!(data.agg_signature, data.message_point);
    assert_ne!(data.agg_pubkey[..], data.agg_signature[..2]);
    assert_ne!(data.agg_pubkey[..], data.message_point[..2]);
    assert_ne!(data.agg_pubkey[0], data.agg_pubkey[1]);

    let mut again = seeded_rng(0);
    assert_eq!(test_data_generator::pairing::generate_pairing_test_data(&mut again), data);
}

#[test]
fn pairing_points_do_not_depend_on_other_work() {
    let mut first = seeded_rng(0);
    let alone = test_data_generator::pairing::generate_pairing_test_data(&mut first);

    let mut other = seeded_rng(0);
    for _ in 0..3 {
        let _ = sample_token_index(&mut other);
        let _ = sample_amount(&mut other);
    }
    let mut second = seeded_rng(0);
    let after = test_data_generator::pairing::generate_pairing_test_data(&mut second);
    assert_eq!(alone, after);

    let mut third = seeded_rng(1);
    assert_ne!(test_data_generator::pairing::generate_pairing_test_data(&mut third), alone);
}

#[test]
fn successive_draws_differ() {
    let mut rng = seeded_rng(0);
    let a = test_data_generator::pairing::generate_pairing_test_data(&mut rng);
    let b = test_data_generator::pairing::generate_pairing_test_data(&mut rng);
    assert_ne!(a, b);
}

#[test]
fn limbs_are_reordered_most_significant_first() {
    let x = u256_from_le_limbs([
        0x1111_1111_2222_2222,
        0x3333_3333_4444_4444,
        0x5555_5555_6666_6666,
        0x7777_7777_8888_8888,
    ]);
    assert_eq!(
        x.limbs,
        [
            0x7777_7777, 0x8888_8888, 0x5555_5555, 0x6666_6666, 0x3333_3333, 0x4444_4444,
            0x1111_1111, 0x2222_2222
        ]
    );
    assert_eq!(u256_from_le_limbs([0, 0, 0, 0]), U256::zero());
    assert_eq!(u256_from_le_limbs([1, 0, 0, 0]), U256::dummy_pubkey());
    assert_eq!(u256_from_le_limbs([0xffff_ffff, 0, 0, 0]), U256::from_u32(u32::MAX));
    assert_eq!(u256_from_le_limbs([0x1_0000_0000, 0, 0, 0]).limbs, [0, 0, 0, 0, 0, 0, 1, 0]);
    assert_eq!(u256_from_le_limbs([u64::MAX; 4]).limbs, [u32::MAX; 8]);
    assert_eq!(u256_from_le_limbs([0, 0, 0, 1 << 63]).limbs, [0x8000_0000, 0, 0, 0, 0, 0, 0, 0]);
}

#[test]
fn first_group_point_is_x_then_y() {
    let p = flat_g1([[1, 0, 0, 0], [2, 0, 0, 0]]);
    assert_eq!(p, [U256::from_u32(1), U256::from_u32(2)]);
}

#[test]
fn paired_group_point_puts_the_imaginary_part_first() {
    let p = flat_g2([[1, 0, 0, 0], [2, 0, 0, 0], [3, 0, 0, 0], [4, 0, 0, 0]]);
    assert_eq!(p, [U256::from_u32(2), U256::from_u32(1), U256::from_u32(4), U256::from_u32(3)]);
}

#[test]
fn fixture_of_given_points() {
    let data = pairing_test_data(
        [[1, 0, 0, 0], [2, 0, 0, 0]],
        [[3, 0, 0, 0], [4, 0, 0, 0], [5, 0, 0, 0], [6, 0, 0, 0]],
        [[7, 0, 0, 0], [8, 0, 0, 0], [9, 0, 0, 0], [10, 0, 0, 0]],
    );
    assert_eq!(
        data,
        PairingTestData {
            agg_pubkey: [U256::from_u32(1), U256::from_u32(2)],
            agg_signature: [U256::from_u32(4), U256::from_u32(3), U256::from_u32(6), U256::from_u32(5)],
            message_point: [U256::from_u32(8), U256::from_u32(7), U256::from_u32(10), U256::from_u32(9)],
        }
    );
}

fn field(x: &U256) -> Fq {
    let l = x.limbs;
    let limb = |hi: u32, lo: u32| ((hi as u64) << 32) | lo as u64;
    let value = BigInt::new([limb(l[6], l[7]), limb(l[4], l[5]), limb(l[2], l[3]), limb(l[0], l[1])]);
    Fq::from_bigint(value).expect("a coordinate below the modulus")
}

fn on_first_curve(p: &[U256; 2]) -> bool {
    let (x, y) = (field(&p[0]), field(&p[1]));
    y * y == x * x * x + Fq::from(3u64)
}

fn on_paired_curve(p: &[U256; 4]) -> bool {
    let (x1, x0, y1, y0) = (field(&p[0]), field(&p[1]), field(&p[2]), field(&p[3]));
    let b0: Fq = "19485874751759354771024239261021720505790618469301721065564631296452457478373"
        .parse()
        .ok()
        .expect("a decimal number");
    let b1: Fq = "266929791119991161246907387137283842545076965332900288569378510910307636690"
        .parse()
        .ok()
        .expect("a decimal number");
    let (two, three) = (Fq::from(2u64), Fq::from(3u64));
    y0 * y0 + three * x0 * x1 * x1 == y1 * y1 + x0 * x0 * x0 + b0
        && two * y0 * y1 + x1 * x1 * x1 == three * x0 * x0 * x1 + b1
}

#[test]
fn drawn_points_lie_on_their_curves() {
    for seed in 0..8u64 {
        let mut rng = seeded_rng(seed);
        for _ in 0..4 {
            let data = test_data_generator::pairing::generate_pairing_test_data(&mut rng);
            assert!(on_first_curve(&data.agg_pubkey));
            assert!(on_paired_curve(&data.agg_signature));
            assert!(on_paired_curve(&data.message_point));
            let swapped = [
                data.agg_signature[1],
                data.agg_signature[0],
                data.agg_signature[3],
                data.agg_signature[2],
            ];
            assert!(!on_paired_curve(&swapped));
            assert!(!on_first_curve(&[data.agg_pubkey[1], data.agg_pubkey[0]]));
        }
    }
}

#[test]
fn known_points_and_the_curve_equations() {
    assert!(on_first_curve(&[U256::from_u32(1), U256::from_u32(2)]));
    assert!(!on_first_curve(&[U256::zero(), U256::zero()]));
    assert!(!on_first_curve(&[U256::from_u32(1), U256::from_u32(3)]));
    assert!(!on_paired_curve(&[U256::zero(); 4]));
}
