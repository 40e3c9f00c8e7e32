//! Withdrawals and the hash chain that commits to them.

use vstd::prelude::*;
use rand::rngs::StdRng;
use crate::full_block::Block;
use crate::rng::{sample_amount, sample_token_index, TOKEN_COUNT};
use crate::types::{Address, Bytes32, U256};

verus! {

/// A claim on funds, bound to the block that authorises it.
#[derive(Clone, Copy, Debug, PartialEq, Eq)]
pub struct Withdrawal {
    pub recipient: Address,
    pub token_index: u32,
    pub amount: U256,
    pub nullifier: Bytes32,
    pub block_hash: Bytes32,
    pub block_number: u32,
}

/// The end of a withdrawal chain: its last hash and who may submit it.
#[derive(Clone, Copy, Debug, PartialEq, Eq)]
pub struct ChainEndProofPublicInputs {
    pub last_hash: Bytes32,
    pub aggregator: Address,
}

/// A batch of withdrawals with the end of its chain and the hash of that end.
#[derive(Clone, Debug, PartialEq, Eq)]
pub struct WithdrawalInfo {
    pub withdrawals: Vec<Withdrawal>,
    pub withdrawal_proof_public_inputs: ChainEndProofPublicInputs,
    pub pis_hash: Bytes32,
}

/// The address that aggregates the withdrawals of a fixture.
pub fn default_aggregator() -> (r: Address)
    ensures
        r.bytes@ == seq![
            0xf3u8, 0x9fu8, 0xd6u8, 0xe5u8, 0x1au8, 0xadu8, 0x88u8, 0xf6u8, 0xf4u8, 0xceu8,
            0x6au8, 0xb8u8, 0x82u8, 0x72u8, 0x79u8, 0xcfu8, 0xffu8, 0xb9u8, 0x22u8, 0x66u8,
        ],
{
    let r = Address {
        bytes: [
            0xf3u8, 0x9fu8, 0xd6u8, 0xe5u8, 0x1au8, 0xadu8, 0x88u8, 0xf6u8, 0xf4u8, 0xceu8,
            0x6au8, 0xb8u8, 0x82u8, 0x72u8, 0x79u8, 0xcfu8, 0xffu8, 0xb9u8, 0x22u8, 0x66u8,
        ],
    };
    proof {
        assert(r.bytes@ =~= seq![
            0xf3u8, 0x9fu8, 0xd6u8, 0xe5u8, 0x1au8, 0xadu8, 0x88u8, 0xf6u8, 0xf4u8, 0xceu8,
            0x6au8, 0xb8u8, 0x82u8, 0x72u8, 0x79u8, 0xcfu8, 0xffu8, 0xb9u8, 0x22u8, 0x66u8,
        ]);
    }
    r
}

/// A withdrawal of the given draws, authorised by `block` with hash `block_hash`.
pub fn new_withdrawal(
    recipient: Address,
    token_index: u32,
    amount: U256,
    nullifier: Bytes32,
    block: &Block,
    block_hash: Bytes32,
) -> (w: Withdrawal)
    ensures
        w == (Withdrawal {
            recipient,
            token_index,
            amount,
            nullifier,
            block_hash,
            block_number: block.block_number,
        }),
{
    Withdrawal { recipient, token_index, amount, nullifier, block_hash, block_number: block.block_number }
}

/// The number of withdrawals of a fixture.
pub const WITHDRAWAL_COUNT: usize = 3;

/// Whether `w` is a withdrawal that a fixture may hold for the block with
/// this hash and number: its token is one of the known ones, its amount is at
/// least one and below `u32::MAX`, and it names that block.
pub open spec fn is_fixture_withdrawal(w: Withdrawal, block_hash: Bytes32, block_number: u32) -> bool {
    &&& w.token_index < TOKEN_COUNT
    &&& 1 <= w.amount.value() < u32::MAX
    &&& w.block_hash == block_hash
    &&& w.block_number == block_number
}

/// Whether the recipient of `w` is what a call of `draw_address` gave back,
/// and its nullifier what a call of `draw_nullifier` gave back.
pub open spec fn is_drawn_withdrawal<A, N>(draw_address: A, draw_nullifier: N, w: Withdrawal) -> bool
    where A: Fn(&mut StdRng) -> Address, N: Fn(&mut StdRng) -> Bytes32
{
    &&& exists|r: &mut StdRng| call_ensures(draw_address, (r,), w.recipient)
    &&& exists|r: &mut StdRng| call_ensures(draw_nullifier, (r,), w.nullifier)
}

/// Draws `count` withdrawals authorised by `block`, one after the other; for
/// each the recipient, the token index, the amount and the nullifier, in
/// this order. Recipient and nullifier are what the two draws hand back.
pub fn generate_withdrawals<A, N>(
    rng: &mut StdRng,
    count: usize,
    block: &Block,
    block_hash: Bytes32,
    draw_address: &A,
    draw_nullifier: &N,
) -> (withdrawals: Vec<Withdrawal>) where
    A: Fn(&mut StdRng) -> Address,
    N: Fn(&mut StdRng) -> Bytes32,

    requires
        forall|r: &mut StdRng| call_requires(*draw_address, (r,)),
        forall|r: &mut StdRng| call_requires(*draw_nullifier, (r,)),
    ensures
        withdrawals@.len() == count,
        forall|i: int|
            0 <= i < count ==> is_fixture_withdrawal(
                #[trigger] withdrawals@[i],
                block_hash,
                block.block_number,
            ),
        forall|i: int|
            0 <= i < count ==> is_drawn_withdrawal(
                *draw_address,
                *draw_nullifier,
                #[trigger] withdrawals@[i],
            ),
{
    let mut withdrawals: Vec<Withdrawal> = Vec::new();
    let mut i: usize = 0;
    while i < count
        invariant
            i <= count,
            withdrawals@.len() == i,
            forall|r: &mut StdRng| call_requires(*draw_address, (r,)),
            forall|r: &mut StdRng| call_requires(*draw_nullifier, (r,)),
            forall|j: int|
                0 <= j < i ==> is_fixture_withdrawal(
                    #[trigger] withdrawals@[j],
                    block_hash,
                    block.block_number,
                ),
            forall|j: int|
                0 <= j < i ==> is_drawn_withdrawal(
                    *draw_address,
                    *draw_nullifier,
                    #[trigger] withdrawals@[j],
                ),
        decreases count - i,
    {
        let recipient = draw_address(rng);
        assert(exists|r: &mut StdRng| call_ensures(*draw_address, (r,), recipient));
        let token_index = sample_token_index(rng);
        let amount = sample_amount(rng);
        let nullifier = draw_nullifier(rng);
        assert(exists|r: &mut StdRng| call_ensures(*draw_nullifier, (r,), nullifier));
        let w = new_withdrawal(recipient, token_index, amount, nullifier, block, block_hash);
        assert(w.recipient == recipient && w.nullifier == nullifier);
        assert(exists|r: &mut StdRng| call_ensures(*draw_address, (r,), w.recipient));
        assert(exists|r: &mut StdRng| call_ensures(*draw_nullifier, (r,), w.nullifier));
        assert(is_drawn_withdrawal(*draw_address, *draw_nullifier, w));
        let ghost before = withdrawals@;
        withdrawals.push(w);
        proof {
            assert forall|j: int| 0 <= j < i + 1 implies is_drawn_withdrawal(
                *draw_address,
                *draw_nullifier,
                #[trigger] withdrawals@[j],
            ) by {
                if j < i {
                    assert(withdrawals@[j] == before[j]);
                }
            }
        }
        i += 1;
    }
    withdrawals
}

/// Whether `chain` holds the running hashes of `withdrawals` under `combine`:
/// it starts at zero, and each further entry is what `combine` gave for the
/// next withdrawal and the entry before.
pub open spec fn is_hash_chain<F: Fn(Withdrawal, Bytes32) -> Bytes32>(
    combine: F,
    withdrawals: Seq<Withdrawal>,
    chain: Seq<Bytes32>,
) -> bool {
    &&& chain.len() == withdrawals.len() + 1
    &&& chain[0].is_zero()
    &&& forall|i: int|
        0 <= i < withdrawals.len() ==> call_ensures(
            combine,
            (#[trigger] withdrawals[i], chain[i]),
            chain[i + 1],
        )
}

/// The hash chain over `withdrawals` for a combinator that is the function `h`.
pub open spec fn hash_fold(
    h: spec_fn(Withdrawal, Bytes32) -> Bytes32,
    withdrawals: Seq<Withdrawal>,
    zero: Bytes32,
) -> Bytes32
    decreases withdrawals.len(),
{
    if withdrawals.len() == 0 {
        zero
    } else {
        h(withdrawals.last(), hash_fold(h, withdrawals.drop_last(), zero))
    }
}

/// Folds the withdrawals, first to last, into one hash: starting from zero,
/// each withdrawal is combined with the hash of those before it.
pub fn fold_withdrawals<F: Fn(Withdrawal, Bytes32) -> Bytes32>(
    withdrawals: &Vec<Withdrawal>,
    combine: &F,
) -> (last_hash: Bytes32)
    requires
        forall|w: Withdrawal, prev: Bytes32| call_requires(*combine, (w, prev)),
    ensures
        exists|chain: Seq<Bytes32>|
            #[trigger] is_hash_chain(*combine, withdrawals@, chain) && chain.last() == last_hash,
        withdrawals@.len() == 0 ==> last_hash.is_zero(),
{
    let mut hash = Bytes32::zero();
    let ghost mut chain: Seq<Bytes32> = seq![hash];
    let mut i: usize = 0;
    while i < withdrawals.len()
        invariant
            i <= withdrawals.len(),
            forall|w: Withdrawal, prev: Bytes32| call_requires(*combine, (w, prev)),
            is_hash_chain(*combine, withdrawals@.take(i as int), chain),
            chain.last() == hash,
            i == 0 ==> hash.is_zero(),
        decreases withdrawals.len() - i,
    {
        let next = combine(withdrawals[i], hash);
        proof {
            let before = chain;
            chain = chain.push(next);
            assert forall|j: int| 0 <= j < i + 1 implies call_ensures(
                *combine,
                (#[trigger] withdrawals@.take(i + 1)[j], chain[j]),
                chain[j + 1],
            ) by {
                if j < i {
                    assert(withdrawals@.take(i as int)[j] == withdrawals@.take(i + 1)[j]);
                    assert(before[j] == chain[j]);
                    assert(before[j + 1] == chain[j + 1]);
                }
            }
        }
        hash = next;
        i += 1;
    }
    proof {
        assert(withdrawals@.take(withdrawals.len() as int) =~= withdrawals@);
    }
    hash
}

/// The bundle for `withdrawals`: the list as it is, the end of its hash chain
/// with `aggregator`, and what `hash_pis` gives for that end.
pub fn build_withdrawal_info<F, G>(
    withdrawals: Vec<Withdrawal>,
    aggregator: Address,
    combine: &F,
    hash_pis: &G,
) -> (info: WithdrawalInfo) where
    F: Fn(Withdrawal, Bytes32) -> Bytes32,
    G: Fn(ChainEndProofPublicInputs) -> Bytes32,

    requires
        forall|w: Withdrawal, prev: Bytes32| call_requires(*combine, (w, prev)),
        forall|pis: ChainEndProofPublicInputs| call_requires(*hash_pis, (pis,)),
    ensures
        info.withdrawals@ == withdrawals@,
        info.withdrawal_proof_public_inputs.aggregator == aggregator,
        exists|chain: Seq<Bytes32>|
            #[trigger] is_hash_chain(*combine, withdrawals@, chain) && chain.last()
                == info.withdrawal_proof_public_inputs.last_hash,
        withdrawals@.len() == 0 ==> info.withdrawal_proof_public_inputs.last_hash.is_zero(),
        call_ensures(*hash_pis, (info.withdrawal_proof_public_inputs,), info.pis_hash),
{
    let last_hash = fold_withdrawals(&withdrawals, combine);
    let pis = ChainEndProofPublicInputs { last_hash, aggregator };
    let pis_hash = hash_pis(pis);
    WithdrawalInfo { withdrawals, withdrawal_proof_public_inputs: pis, pis_hash }
}

/// Draws `count` withdrawals authorised by `block` and bundles them: the
/// withdrawals as drawn, the end of their hash chain with `aggregator`, and
/// what `hash_pis` gives for that end.
pub fn generate_withdrawal_info<A, N, F, G>(
    rng: &mut StdRng,
    count: usize,
    block: &Block,
    block_hash: Bytes32,
    aggregator: Address,
    draw_address: &A,
    draw_nullifier: &N,
    combine: &F,
    hash_pis: &G,
) -> (info: WithdrawalInfo) where
    A: Fn(&mut StdRng) -> Address,
    N: Fn(&mut StdRng) -> Bytes32,
    F: Fn(Withdrawal, Bytes32) -> Bytes32,
    G: Fn(ChainEndProofPublicInputs) -> Bytes32,

    requires
        forall|r: &mut StdRng| call_requires(*draw_address, (r,)),
        forall|r: &mut StdRng| call_requires(*draw_nullifier, (r,)),
        forall|w: Withdrawal, prev: Bytes32| call_requires(*combine, (w, prev)),
        forall|pis: ChainEndProofPublicInputs| call_requires(*hash_pis, (pis,)),
    ensures
        info.withdrawals@.len() == count,
        forall|i: int|
            0 <= i < count ==> is_fixture_withdrawal(
                #[trigger] info.withdrawals@[i],
                block_hash,
                block.block_number,
            ),
        forall|i: int|
            0 <= i < count ==> is_drawn_withdrawal(
                *draw_address,
                *draw_nullifier,
                #[trigger] info.withdrawals@[i],
            ),
        info.withdrawal_proof_public_inputs.aggregator == aggregator,
        exists|chain: Seq<Bytes32>|
            #[trigger] is_hash_chain(*combine, info.withdrawals@, chain) && chain.last()
                == info.withdrawal_proof_public_inputs.last_hash,
        count == 0 ==> info.withdrawal_proof_public_inputs.last_hash.is_zero(),
        call_ensures(*hash_pis, (info.withdrawal_proof_public_inputs,), info.pis_hash),
{
    let withdrawals = generate_withdrawals(rng, count, block, block_hash, draw_address, draw_nullifier);
    build_withdrawal_info(withdrawals, aggregator, combine, hash_pis)
}

/// Where the combinator is a function `h`, the last entry of a hash chain is
/// the fold of `h` over the withdrawals from zero.
pub proof fn lemma_chain_is_fold<F: Fn(Withdrawal, Bytes32) -> Bytes32>(
    combine: F,
    h: spec_fn(Withdrawal, Bytes32) -> Bytes32,
    withdrawals: Seq<Withdrawal>,
    chain: Seq<Bytes32>,
)
    requires
        is_hash_chain(combine, withdrawals, chain),
        forall|w: Withdrawal, prev: Bytes32, out: Bytes32| #[trigger]
            call_ensures(combine, (w, prev), out) ==> out == h(w, prev),
    ensures
        chain.last() == hash_fold(h, withdrawals, chain[0]),
    decreases withdrawals.len(),
{
    if withdrawals.len() > 0 {
        let n = withdrawals.len() as int;
        let ws = withdrawals.drop_last();
        let init = chain.drop_last();
        assert forall|i: int| 0 <= i < ws.len() implies call_ensures(
            combine,
            (#[trigger] ws[i], init[i]),
            init[i + 1],
        ) by {
            assert(ws[i] == withdrawals[i]);
        }
        lemma_chain_is_fold(combine, h, ws, init);
        assert(call_ensures(combine, (withdrawals[n - 1], chain[n - 1]), chain[n]));
    }
}

/// Folding no withdrawal gives the seed.
pub proof fn lemma_fold_none(h: spec_fn(Withdrawal, Bytes32) -> Bytes32, zero: Bytes32)
    ensures
        hash_fold(h, Seq::<Withdrawal>::empty(), zero) == zero,
{
}

/// Folding three withdrawals nests the combinator in their order: the first
/// is combined with the seed, the last is outermost.
pub proof fn lemma_fold_three(
    h: spec_fn(Withdrawal, Bytes32) -> Bytes32,
    w1: Withdrawal,
    w2: Withdrawal,
    w3: Withdrawal,
    zero: Bytes32,
)
    ensures
        hash_fold(h, seq![w1, w2, w3], zero) == h(w3, h(w2, h(w1, zero))),
{
    let none = Seq::<Withdrawal>::empty();
    lemma_fold_push(h, none, w1, zero);
    lemma_fold_push(h, none.push(w1), w2, zero);
    lemma_fold_push(h, none.push(w1).push(w2), w3, zero);
    assert(seq![w1, w2, w3] =~= none.push(w1).push(w2).push(w3));
}

/// Folding one withdrawal more combines it with the fold of those before.
pub proof fn lemma_fold_push(
    h: spec_fn(Withdrawal, Bytes32) -> Bytes32,
    withdrawals: Seq<Withdrawal>,
    w: Withdrawal,
    zero: Bytes32,
)
    ensures
        hash_fold(h, withdrawals.push(w), zero) == h(w, hash_fold(h, withdrawals, zero)),
{
    assert(withdrawals.push(w).drop_last() =~= withdrawals);
}

/// The order counts: where the combinator tells a withdrawal on an earlier
/// hash from another one, and tells two earlier hashes apart (it is
/// one-to-one), two withdrawals folded in the other order give another hash.
pub proof fn lemma_fold_order(
    h: spec_fn(Withdrawal, Bytes32) -> Bytes32,
    w1: Withdrawal,
    w2: Withdrawal,
    zero: Bytes32,
)
    requires
        w1 != w2,
        forall|a: Withdrawal, p: Bytes32, b: Withdrawal, q: Bytes32|
            #[trigger] h(a, p) == #[trigger] h(b, q) ==> a == b && p == q,
    ensures
        hash_fold(h, seq![w1, w2], zero) != hash_fold(h, seq![w2, w1], zero),
{
    let none = Seq::<Withdrawal>::empty();
    lemma_fold_push(h, none, w1, zero);
    lemma_fold_push(h, none, w2, zero);
    lemma_fold_push(h, none.push(w1), w2, zero);
    lemma_fold_push(h, none.push(w2), w1, zero);
    assert(seq![w1, w2] =~= none.push(w1).push(w2));
    assert(seq![w2, w1] =~= none.push(w2).push(w1));
}

} // verus!
