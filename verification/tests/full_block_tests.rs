use test_data_generator::full_block::{
    block_witness_to_full_block, full_blocks_of, trim_pubkeys, withdrawal_block, Block,
    BlockSignPayload, BlockWitness, SignatureContent,
};
use test_data_generator::types::{Address, Bytes32, U256};

fn key(x: u32) -> U256 {
    U256::from_u32(x)
}

fn trim(packed: &Vec<u32>) -> Vec<u8> {
    packed.iter().take_while(|limb| **limb != 0).flat_map(|limb| limb.to_be_bytes()).collect()
}

fn witness(is_registration_block: bool, block_number: u32, pubkeys: Vec<U256>, ids: Option<Vec<u32>>) -> BlockWitness {
    BlockWitness {
        block: Block {
            prev_block_hash: Bytes32 { bytes: [7u8; 32] },
            deposit_tree_root: Bytes32 { bytes: [8u8; 32] },
            signature_hash: Bytes32 { bytes: [9u8; 32] },
            timestamp: 1_700_000_000,
            block_number,
        },
        signature: SignatureContent {
            block_sign_payload: BlockSignPayload {
                is_registration_block,
                tx_tree_root: Bytes32 { bytes: [1u8; 32] },
                expiry: 0,
                block_builder_address: Address { bytes: [2u8; 20] },
                block_builder_nonce: 0,
            },
            sender_flag: [3u8; 16],
            pubkey_hash: Bytes32 { bytes: [4u8; 32] },
            account_id_hash: Bytes32 { bytes: [5u8; 32] },
            agg_pubkey: [key(10), key(11)],
            agg_signature: [key(12), key(13), key(14), key(15)],
            message_point: [key(16), key(17), key(18), key(19)],
        },
        pubkeys,
        account_id_packed: ids,
    }
}

#[test]
fn dummy_pubkey_is_one() {
    assert!(U256::dummy_pubkey().is_dummy_pubkey());
    assert_eq!(U256::dummy_pubkey(), key(1));
    assert_eq!(U256::dummy_pubkey().limbs, [0, 0, 0, 0, 0, 0, 0, 1]);
    assert!(!U256::zero().is_dummy_pubkey());
    assert!(!key(2).is_dummy_pubkey());
    assert!(!U256 { limbs: [0, 0, 0, 0, 0, 0, 1, 1] }.is_dummy_pubkey());
    assert!(!U256 { limbs: [1, 0, 0, 0, 0, 0, 0, 0] }.is_dummy_pubkey());
    assert!(!U256 { limbs: [1, 0, 0, 0, 0, 0, 0, 1] }.is_dummy_pubkey());
}

#[test]
fn from_u32_fills_the_last_limb() {
    assert_eq!(key(0xdead_beef).limbs, [0, 0, 0, 0, 0, 0, 0, 0xdead_beef]);
    assert_eq!(U256::zero().limbs, [0u32; 8]);
    assert_eq!(Bytes32::zero().bytes, [0u8; 32]);
}

#[test]
fn trim_keeps_real_keys_in_order() {
    let keys = vec![key(5), key(1), key(9), key(1), key(1), key(7)];
    assert_eq!(trim_pubkeys(&keys), vec![key(5), key(9), key(7)]);
    assert_eq!(trim_pubkeys(&Vec::new()), Vec::<U256>::new());
    assert_eq!(trim_pubkeys(&vec![key(1), key(1)]), Vec::<U256>::new());
    assert_eq!(trim_pubkeys(&vec![key(4), key(4)]), vec![key(4), key(4)]);
}

#[test]
fn registration_block_keeps_exactly_the_real_keys() {
    for real in 0..5usize {
        for dummy in 0..5usize {
            let mut keys: Vec<U256> = (0..real).map(|i| key(100 + i as u32)).collect();
            keys.extend((0..dummy).map(|_| U256::dummy_pubkey()));
            let full = block_witness_to_full_block(&witness(true, 1, keys, None), &trim);
            let kept = full.pubkeys.expect("a registration block keeps its keys");
            assert_eq!(kept.len(), real);
            assert!(kept.iter().all(|k| !k.is_dummy_pubkey()));
            let expected: Vec<U256> = (0..real).map(|i| key(100 + i as u32)).collect();
            assert_eq!(kept, expected);
        }
    }
}

#[test]
fn non_registration_block_keeps_no_keys() {
    for dummy in 0..5usize {
        let mut keys = vec![key(42), key(43)];
        keys.extend((0..dummy).map(|_| U256::dummy_pubkey()));
        let full =
            block_witness_to_full_block(&witness(false, 2, keys, Some(vec![2, 0x0102_0304, 0, 0])), &trim);
        assert_eq!(full.pubkeys, None);
        assert_eq!(full.account_ids, Some(vec![0, 0, 0, 2, 1, 2, 3, 4]));
    }
}

#[test]
fn full_block_carries_header_signature_and_account_ids() {
    let w = witness(true, 3, vec![key(1), key(6)], None);
    let full = block_witness_to_full_block(&w, &trim);
    assert_eq!(full.block, w.block);
    assert_eq!(full.signature, w.signature);
    assert_eq!(full.pubkeys, Some(vec![key(6)]));
    assert_eq!(full.account_ids, None);

    let w = witness(false, 4, vec![key(1), key(6)], Some(vec![0, 0, 9]));
    let full = block_witness_to_full_block(&w, &trim);
    assert_eq!(full.block.block_number, 4);
    assert_eq!(full.signature, w.signature);
    assert_eq!(full.account_ids, Some(vec![]));

    let whole = |packed: &Vec<u32>| packed.iter().map(|limb| *limb as u8).collect::<Vec<u8>>();
    let full = block_witness_to_full_block(&w, &whole);
    assert_eq!(full.account_ids, Some(vec![0, 0, 9]));
}

#[test]
fn interleaved_placeholders_are_all_dropped() {
    let keys = vec![key(1), key(30), key(1), key(31), key(1)];
    let full = block_witness_to_full_block(&witness(true, 1, keys, None), &trim);
    assert_eq!(full.pubkeys, Some(vec![key(30), key(31)]));
}

#[test]
fn full_blocks_follow_their_witnesses() {
    let ws = vec![
        witness(true, 1, vec![key(50), key(1)], None),
        witness(false, 2, vec![key(50), key(1)], Some(vec![2, 0, 0])),
        witness(false, 3, vec![key(1), key(1)], Some(vec![0, 0, 0])),
    ];
    let full = full_blocks_of(&ws, &trim);
    assert_eq!(full.len(), 3);
    for (f, w) in full.iter().zip(ws.iter()) {
        assert_eq!(*f, block_witness_to_full_block(w, &trim));
    }
    assert_eq!(full[0].pubkeys, Some(vec![key(50)]));
    assert_eq!(full[1].pubkeys, None);
    assert_eq!(full[2].pubkeys, None);
    assert_eq!(full[0].account_ids, None);
    assert_eq!(full[1].account_ids, Some(vec![0, 0, 0, 2]));
    assert_eq!(full[2].account_ids, Some(vec![]));
    assert_eq!(withdrawal_block(&full).map(|b| b.block.block_number), Some(3));
    assert!(withdrawal_block(&Vec::new()).is_none());
    assert!(full_blocks_of(&Vec::new(), &trim).is_empty());
}

#[test]
fn equal_witnesses_give_equal_full_blocks() {
    for registration in [true, false] {
        let ids = if registration { None } else { Some(vec![2, 3, 0, 7]) };
        let first = witness(registration, 5, vec![key(1), key(8), key(1), key(9)], ids.clone());
        let second = witness(registration, 5, vec![key(1), key(8), key(1), key(9)], ids);
        assert_eq!(first, second);
        let before = first.clone();
        let a = block_witness_to_full_block(&first, &trim);
        let b = block_witness_to_full_block(&second, &trim);
        let again = block_witness_to_full_block(&first, &trim);
        assert_eq!(a, b);
        assert_eq!(a, again);
        assert_eq!(first, before);
    }
}
