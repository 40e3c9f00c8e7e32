//! Compaction of a block witness into the full block that is stored.

use vstd::prelude::*;
use crate::types::{Address, Bytes32, U256};

verus! {

/// The header of a block.
#[derive(Clone, Copy, Debug, PartialEq, Eq)]
pub struct Block {
    pub prev_block_hash: Bytes32,
    pub deposit_tree_root: Bytes32,
    pub signature_hash: Bytes32,
    pub timestamp: u64,
    pub block_number: u32,
}

/// What the signers of a block sign.
#[derive(Clone, Copy, Debug, PartialEq, Eq)]
pub struct BlockSignPayload {
    pub is_registration_block: bool,
    pub tx_tree_root: Bytes32,
    pub expiry: u64,
    pub block_builder_address: Address,
    pub block_builder_nonce: u32,
}

/// The aggregated signature of a block, each curve point by its coordinates.
#[derive(Clone, Copy, Debug, PartialEq, Eq)]
pub struct SignatureContent {
    pub block_sign_payload: BlockSignPayload,
    pub sender_flag: [u8; 16],
    pub pubkey_hash: Bytes32,
    pub account_id_hash: Bytes32,
    pub agg_pubkey: [U256; 2],
    pub agg_signature: [U256; 4],
    pub message_point: [U256; 4],
}

/// A block as its builder hands it out: the header, the signature, one key
/// per signer slot (unused slots hold the placeholder), and, for a block that
/// names its signers by account id, the limbs of the packed ids.
#[derive(Clone, Debug, PartialEq, Eq)]
pub struct BlockWitness {
    pub block: Block,
    pub signature: SignatureContent,
    pub pubkeys: Vec<U256>,
    pub account_id_packed: Option<Vec<u32>>,
}

/// The compact record of a block.
#[derive(Clone, Debug, PartialEq, Eq)]
pub struct FullBlock {
    pub block: Block,
    pub signature: SignatureContent,
    pub pubkeys: Option<Vec<U256>>,
    pub account_ids: Option<Vec<u8>>,
}

/// The keys of `keys` that are no placeholder, in their order.
pub open spec fn real_keys(keys: Seq<U256>) -> Seq<U256> {
    keys.filter(|k: U256| !k.is_dummy_pubkey_spec())
}

/// The placeholders among `keys`.
pub open spec fn dummy_keys(keys: Seq<U256>) -> Seq<U256> {
    keys.filter(|k: U256| k.is_dummy_pubkey_spec())
}

/// The key list of the full block of a witness with these keys.
pub open spec fn trimmed_pubkeys(is_registration_block: bool, keys: Seq<U256>) -> Option<Seq<U256>> {
    if is_registration_block {
        Some(real_keys(keys))
    } else {
        None
    }
}

/// The view of an optional list.
pub open spec fn option_view<T>(v: Option<Vec<T>>) -> Option<Seq<T>> {
    match v {
        Some(x) => Some(x@),
        None => None,
    }
}

/// Copies the keys that are no placeholder.
pub fn trim_pubkeys(pubkeys: &Vec<U256>) -> (r: Vec<U256>)
    ensures
        r@ == real_keys(pubkeys@),
{
    let mut r: Vec<U256> = Vec::new();
    let mut i: usize = 0;
    proof {
        assert(pubkeys@.take(0) =~= Seq::<U256>::empty());
        assert(real_keys(Seq::<U256>::empty()) =~= Seq::<U256>::empty()) by {
            pubkeys@.take(0).lemma_filter_len(|k: U256| !k.is_dummy_pubkey_spec());
        }
    }
    while i < pubkeys.len()
        invariant
            i <= pubkeys.len(),
            r@ == real_keys(pubkeys@.take(i as int)),
        decreases pubkeys.len() - i,
    {
        let key = pubkeys[i];
        proof {
            pubkeys@.lemma_take_succ_push(i as int);
            pubkeys@.take(i as int).lemma_filter_push(key, |k: U256| !k.is_dummy_pubkey_spec());
        }
        if !key.is_dummy_pubkey() {
            r.push(key);
        }
        i += 1;
    }
    proof {
        assert(pubkeys@.take(pubkeys.len() as int) =~= pubkeys@);
    }
    r
}

/// Whether `full_block` is the full block of `block_witness`: header and
/// signature as they are; the keys without the placeholders for a
/// registration block, and no key list for any other; and for the packed
/// account ids, where there are any, the bytes that `trim` gives for them.
pub open spec fn is_full_block_of<F: Fn(&Vec<u32>) -> Vec<u8>>(
    trim: F,
    full_block: FullBlock,
    block_witness: BlockWitness,
) -> bool {
    &&& full_block.block == block_witness.block
    &&& full_block.signature == block_witness.signature
    &&& option_view(full_block.pubkeys) == trimmed_pubkeys(
        block_witness.signature.block_sign_payload.is_registration_block,
        block_witness.pubkeys@,
    )
    &&& match block_witness.account_id_packed {
        Some(packed) => full_block.account_ids is Some && call_ensures(
            trim,
            (&packed,),
            full_block.account_ids.unwrap(),
        ),
        None => full_block.account_ids is None,
    }
}

/// The full block of a witness. The packing of the account ids is not this
/// library's: `trim` turns the packed ids into their trimmed bytes.
pub fn block_witness_to_full_block<F: Fn(&Vec<u32>) -> Vec<u8>>(
    block_witness: &BlockWitness,
    trim: &F,
) -> (full_block: FullBlock)
    requires
        forall|packed: &Vec<u32>| call_requires(*trim, (packed,)),
    ensures
        is_full_block_of(*trim, full_block, *block_witness),
{
    let is_registration_block = block_witness.signature.block_sign_payload.is_registration_block;
    let trimmed_pubkeys = trim_pubkeys(&block_witness.pubkeys);
    let trimmed_account_ids = match &block_witness.account_id_packed {
        Some(ids) => Some(trim(ids)),
        None => None,
    };
    FullBlock {
        block: block_witness.block,
        signature: block_witness.signature,
        pubkeys: if is_registration_block {
            Some(trimmed_pubkeys)
        } else {
            None
        },
        account_ids: trimmed_account_ids,
    }
}

/// The full blocks of the witnesses of a chain, in their order.
pub fn full_blocks_of<F: Fn(&Vec<u32>) -> Vec<u8>>(
    block_witnesses: &Vec<BlockWitness>,
    trim: &F,
) -> (full_blocks: Vec<FullBlock>)
    requires
        forall|packed: &Vec<u32>| call_requires(*trim, (packed,)),
    ensures
        full_blocks@.len() == block_witnesses@.len(),
        forall|i: int|
            0 <= i < block_witnesses@.len() ==> is_full_block_of(
                *trim,
                #[trigger] full_blocks@[i],
                block_witnesses@[i],
            ),
{
    let mut full_blocks: Vec<FullBlock> = Vec::new();
    let mut i: usize = 0;
    while i < block_witnesses.len()
        invariant
            i <= block_witnesses.len(),
            full_blocks@.len() == i,
            forall|packed: &Vec<u32>| call_requires(*trim, (packed,)),
            forall|j: int|
                0 <= j < i ==> is_full_block_of(
                    *trim,
                    #[trigger] full_blocks@[j],
                    block_witnesses@[j],
                ),
        decreases block_witnesses.len() - i,
    {
        let full_block = block_witness_to_full_block(&block_witnesses[i], trim);
        full_blocks.push(full_block);
        i += 1;
    }
    full_blocks
}

/// The block that the withdrawals of a fixture are bound to: the last one,
/// if there is any.
pub fn withdrawal_block(full_blocks: &Vec<FullBlock>) -> (r: Option<&FullBlock>)
    ensures
        full_blocks@.len() == 0 ==> r is None,
        full_blocks@.len() > 0 ==> r == Some(&full_blocks@.last()),
{
    if full_blocks.len() == 0 {
        None
    } else {
        Some(&full_blocks[full_blocks.len() - 1])
    }
}

/// Every key is either real or a placeholder: the real keys and the
/// placeholders together are as many as the keys.
pub proof fn lemma_keys_partition(keys: Seq<U256>)
    ensures
        real_keys(keys).len() + dummy_keys(keys).len() == keys.len(),
    decreases keys.len(),
{
    let is_real = |k: U256| !k.is_dummy_pubkey_spec();
    let is_dummy = |k: U256| k.is_dummy_pubkey_spec();
    if keys.len() == 0 {
        keys.lemma_filter_len(is_real);
        keys.lemma_filter_len(is_dummy);
    } else {
        let init = keys.drop_last();
        lemma_keys_partition(init);
        assert(init.push(keys.last()) =~= keys);
        init.lemma_filter_len_push(is_real, keys.last());
        init.lemma_filter_len_push(is_dummy, keys.last());
    }
}

/// A registration block with `kept` keys that are no placeholder and `padding`
/// placeholders among its slots keeps a list of exactly `kept` keys, none of
/// them a placeholder; any other block keeps no list, whatever its slots hold.
pub proof fn lemma_trimming(is_registration_block: bool, keys: Seq<U256>, kept: nat, padding: nat)
    requires
        keys.len() == kept + padding,
        dummy_keys(keys).len() == padding,
    ensures
        is_registration_block ==> trimmed_pubkeys(is_registration_block, keys) is Some
            && trimmed_pubkeys(is_registration_block, keys).unwrap().len() == kept
            && forall|i: int| 0 <= i < kept ==>
                !(#[trigger] trimmed_pubkeys(is_registration_block, keys).unwrap()[i]).is_dummy_pubkey_spec(),
        !is_registration_block ==> trimmed_pubkeys(is_registration_block, keys) is None,
{
    lemma_keys_partition(keys);
    if is_registration_block {
        let pred = |k: U256| !k.is_dummy_pubkey_spec();
        assert forall|i: int| 0 <= i < real_keys(keys).len() implies !(#[trigger] real_keys(keys)[i]).is_dummy_pubkey_spec() by {
            keys.lemma_filter_pred(pred, i);
        }
    }
}

/// The full block of a registration block whose slots hold `kept` keys that
/// are no placeholder and `padding` placeholders lists exactly `kept` keys;
/// the full block of any other block lists none, whatever its slots hold.
pub proof fn lemma_full_block_pubkeys<F: Fn(&Vec<u32>) -> Vec<u8>>(
    trim: F,
    full_block: FullBlock,
    block_witness: BlockWitness,
    kept: nat,
    padding: nat,
)
    requires
        is_full_block_of(trim, full_block, block_witness),
        block_witness.pubkeys@.len() == kept + padding,
        dummy_keys(block_witness.pubkeys@).len() == padding,
    ensures
        block_witness.signature.block_sign_payload.is_registration_block ==> full_block.pubkeys is Some
            && full_block.pubkeys.unwrap()@.len() == kept
            && full_block.pubkeys.unwrap()@ == real_keys(block_witness.pubkeys@),
        !block_witness.signature.block_sign_payload.is_registration_block ==> full_block.pubkeys is None,
{
    lemma_trimming(
        block_witness.signature.block_sign_payload.is_registration_block,
        block_witness.pubkeys@,
        kept,
        padding,
    );
}

/// Whether `trim` gives one result for one input: whatever it gives for two
/// lists of the same limbs holds the same bytes.
pub open spec fn is_function<F: Fn(&Vec<u32>) -> Vec<u8>>(trim: F) -> bool {
    forall|p: Vec<u32>, q: Vec<u32>, a: Vec<u8>, b: Vec<u8>|
        p@ == q@ && #[trigger] call_ensures(trim, (&p,), a) && #[trigger] call_ensures(
            trim,
            (&q,),
            b,
        ) ==> a@ == b@
}

/// Whether two witnesses hold the same values, field by field.
pub open spec fn same_witness(a: BlockWitness, b: BlockWitness) -> bool {
    &&& a.block == b.block
    &&& a.signature == b.signature
    &&& a.pubkeys@ == b.pubkeys@
    &&& option_view(a.account_id_packed) == option_view(b.account_id_packed)
}

/// Whether two full blocks hold the same values, field by field.
pub open spec fn same_full_block(a: FullBlock, b: FullBlock) -> bool {
    &&& a.block == b.block
    &&& a.signature == b.signature
    &&& option_view(a.pubkeys) == option_view(b.pubkeys)
    &&& option_view(a.account_ids) == option_view(b.account_ids)
}

/// Where the trimming of the account ids is a function, so is the
/// compaction: the full blocks of two witnesses that hold the same values
/// hold the same values.
pub proof fn lemma_compaction_is_a_function<F: Fn(&Vec<u32>) -> Vec<u8>>(
    trim: F,
    first_witness: BlockWitness,
    second_witness: BlockWitness,
    first: FullBlock,
    second: FullBlock,
)
    requires
        is_function(trim),
        same_witness(first_witness, second_witness),
        is_full_block_of(trim, first, first_witness),
        is_full_block_of(trim, second, second_witness),
    ensures
        same_full_block(first, second),
{
    match (first_witness.account_id_packed, second_witness.account_id_packed) {
        (Some(p), Some(q)) => {
            assert(p@ == q@);
            assert(call_ensures(trim, (&p,), first.account_ids.unwrap()));
            assert(call_ensures(trim, (&q,), second.account_ids.unwrap()));
        },
        _ => {},
    }
}

} // verus!
