//! The witness chain: three blocks, each built against the public inputs
//! that the block before it left.
//!
//! The chain decides what is built next and keeps what was built. Building a
//! witness and deriving its public inputs are the caller's part, handed to
//! `run_chain` as one step; a caller that drives the chain itself asks for
//! the next request, builds against `public_inputs`, and hands witness and
//! derived public inputs to `advance`.

use vstd::prelude::*;

verus! {

/// What the next block of the chain is to be.
#[derive(Clone, Copy, Debug, PartialEq, Eq)]
pub struct BlockRequest {
    /// Whether the block registers the keys of its signers.
    pub is_registration_block: bool,
    /// Whether the block carries the transaction request of the chain; if
    /// not, it carries no transaction at all.
    pub with_transaction: bool,
}

/// The number of blocks of a chain.
pub const CHAIN_LENGTH: usize = 3;

/// The blocks of a chain in their order: a registration block and another
/// block with the one transaction request, then a block without transactions.
pub open spec fn plan() -> Seq<BlockRequest> {
    seq![
        BlockRequest { is_registration_block: true, with_transaction: true },
        BlockRequest { is_registration_block: false, with_transaction: true },
        BlockRequest { is_registration_block: false, with_transaction: false },
    ]
}

/// A chain of block witnesses `W` linked by public inputs `P`.
pub struct WitnessChain<P, W> {
    public_inputs: P,
    witnesses: Vec<W>,
    genesis: Ghost<P>,
    consumed: Ghost<Seq<P>>,
    derived: Ghost<Seq<P>>,
}

impl<P, W> WitnessChain<P, W> {
    /// The witnesses built so far.
    pub closed spec fn witnesses(&self) -> Seq<W> {
        self.witnesses@
    }

    /// The public inputs that the chain started from.
    pub closed spec fn genesis(&self) -> P {
        self.genesis@
    }

    /// For each block built so far, the public inputs it was built against.
    pub closed spec fn consumed(&self) -> Seq<P> {
        self.consumed@
    }

    /// For each block built so far, the public inputs derived from its witness.
    pub closed spec fn derived(&self) -> Seq<P> {
        self.derived@
    }

    /// The public inputs that the next block is built against.
    pub closed spec fn current(&self) -> P {
        self.public_inputs
    }

    /// The chain is no longer than its plan, there is one consumed and one
    /// derived value per block, and the next block is built against the
    /// genesis value or against what the last block left.
    pub open spec fn wf(&self) -> bool {
        &&& self.witnesses().len() <= CHAIN_LENGTH
        &&& self.consumed().len() == self.witnesses().len()
        &&& self.derived().len() == self.witnesses().len()
        &&& self.current() == next_inputs(self.genesis(), self.derived())
        &&& forall|i: int|
            0 <= i < self.consumed().len() ==> #[trigger] self.consumed()[i] == next_inputs(
                self.genesis(),
                self.derived().take(i),
            )
    }

    /// An empty chain that starts from `genesis`.
    pub fn new(genesis: P) -> (chain: Self)
        ensures
            chain.wf(),
            chain.witnesses().len() == 0,
            chain.genesis() == genesis,
            chain.current() == genesis,
    {
        WitnessChain {
            public_inputs: genesis,
            witnesses: Vec::new(),
            genesis: Ghost(genesis),
            consumed: Ghost(Seq::empty()),
            derived: Ghost(Seq::empty()),
        }
    }

    /// The number of blocks built so far.
    pub fn len(&self) -> (n: usize)
        ensures
            n == self.witnesses().len(),
    {
        self.witnesses.len()
    }

    /// Whether every block of the plan is built.
    pub fn is_complete(&self) -> (r: bool)
        ensures
            r == (self.witnesses().len() >= CHAIN_LENGTH),
    {
        self.witnesses.len() >= CHAIN_LENGTH
    }

    /// The block to build next, or `None` once the chain is complete.
    pub fn next_request(&self) -> (r: Option<BlockRequest>)
        ensures
            self.witnesses().len() < CHAIN_LENGTH ==> r == Some(plan()[self.witnesses().len() as int]),
            self.witnesses().len() >= CHAIN_LENGTH ==> r is None,
    {
        let n = self.witnesses.len();
        if n == 0 {
            Some(BlockRequest { is_registration_block: true, with_transaction: true })
        } else if n == 1 {
            Some(BlockRequest { is_registration_block: false, with_transaction: true })
        } else if n == 2 {
            Some(BlockRequest { is_registration_block: false, with_transaction: false })
        } else {
            None
        }
    }

    /// The public inputs to build the next block against.
    pub fn public_inputs(&self) -> (r: &P)
        ensures
            *r == self.current(),
    {
        &self.public_inputs
    }

    /// Takes in the block that was built against `public_inputs`, with the
    /// public inputs derived from it, which the next block is then built
    /// against. A complete chain takes nothing in and answers `false`.
    pub fn advance(&mut self, witness: W, derived: P) -> (taken: bool)
        requires
            old(self).wf(),
        ensures
            final(self).wf(),
            final(self).genesis() == old(self).genesis(),
            taken == (old(self).witnesses().len() < CHAIN_LENGTH),
            taken ==> final(self).witnesses() == old(self).witnesses().push(witness)
                && final(self).consumed() == old(self).consumed().push(old(self).current())
                && final(self).derived() == old(self).derived().push(derived)
                && final(self).current() == derived,
            !taken ==> final(self).witnesses() == old(self).witnesses()
                && final(self).consumed() == old(self).consumed()
                && final(self).derived() == old(self).derived()
                && final(self).current() == old(self).current(),
    {
        if self.witnesses.len() >= CHAIN_LENGTH {
            return false;
        }
        proof {
            let before = self.derived@;
            let after = before.push(derived);
            assert forall|i: int| 0 <= i < self.consumed@.len() + 1 implies #[trigger] self.consumed@.push(
                self.public_inputs,
            )[i] == next_inputs(self.genesis@, after.take(i)) by {
                assert(after.take(i) =~= before.take(i));
                if i == self.consumed@.len() {
                    assert(before.take(i) =~= before);
                }
            }
            self.consumed@ = self.consumed@.push(self.public_inputs);
            self.derived@ = after;
        }
        self.witnesses.push(witness);
        self.public_inputs = derived;
        true
    }

    /// The witnesses of the chain, in the order in which they were built.
    pub fn into_witnesses(self) -> (r: Vec<W>)
        ensures
            r@ == self.witnesses(),
    {
        self.witnesses
    }
}

/// Whether `chain` was built by `step` from the states `states`: block by
/// block, `step` was given the public inputs that the block is built
/// against, the state that the block before left, and the request of the
/// plan, and gave back the witness, the public inputs derived from it and
/// the state for the next block.
pub open spec fn is_chain_run<P, T, W, E, C: Fn(&P, T, BlockRequest) -> Result<(W, P, T), E>>(
    step: C,
    chain: WitnessChain<P, W>,
    states: Seq<T>,
) -> bool {
    &&& chain.wf()
    &&& states.len() == chain.witnesses().len() + 1
    &&& forall|i: int|
        0 <= i < chain.witnesses().len() ==> call_ensures(
            step,
            (&chain.consumed()[i], #[trigger] states[i], plan()[i]),
            Ok::<(W, P, T), E>((chain.witnesses()[i], chain.derived()[i], states[i + 1])),
        )
}

/// Builds the chain: from `genesis` and `state`, one call of `step` per block
/// of the plan, each on what the call before left. The first failure of
/// `step` ends the run with its error, and nothing built so far is handed out.
pub fn run_chain<P, T, W, E, C>(genesis: P, state: T, step: &C) -> (r: Result<
    (WitnessChain<P, W>, T),
    E,
>) where C: Fn(&P, T, BlockRequest) -> Result<(W, P, T), E>
    requires
        forall|p: &P, t: T, request: BlockRequest| call_requires(*step, (p, t, request)),
    ensures
        match r {
            Ok((chain, last)) => {
                &&& chain.genesis() == genesis
                &&& chain.witnesses().len() == CHAIN_LENGTH
                &&& exists|states: Seq<T>|
                    #[trigger] is_chain_run(*step, chain, states) && states[0] == state
                        && states.last() == last
            },
            Err(e) => exists|chain: WitnessChain<P, W>, states: Seq<T>|
                {
                    &&& #[trigger] is_chain_run(*step, chain, states)
                    &&& chain.genesis() == genesis
                    &&& states[0] == state
                    &&& chain.witnesses().len() < CHAIN_LENGTH
                    &&& call_ensures(
                        *step,
                        (&chain.current(), states.last(), plan()[chain.witnesses().len() as int]),
                        Err::<(W, P, T), E>(e),
                    )
                },
        },
{
    let mut chain: WitnessChain<P, W> = WitnessChain::new(genesis);
    let mut current = state;
    let ghost mut states: Seq<T> = seq![current];
    let mut next_request = chain.next_request();
    while next_request.is_some()
        invariant
            forall|p: &P, t: T, request: BlockRequest| call_requires(*step, (p, t, request)),
            is_chain_run(*step, chain, states),
            chain.genesis() == genesis,
            states[0] == state,
            states.last() == current,
            chain.witnesses().len() < CHAIN_LENGTH ==> next_request == Some(
                plan()[chain.witnesses().len() as int],
            ),
            chain.witnesses().len() >= CHAIN_LENGTH ==> next_request is None,
        decreases CHAIN_LENGTH - chain.witnesses().len(),
    {
        let request = next_request.unwrap();
        let ghost before = chain;
        let ghost before_states = states;
        match step(chain.public_inputs(), current, request) {
            Ok((witness, derived, next)) => {
                chain.advance(witness, derived);
                current = next;
                next_request = chain.next_request();
                proof {
                    states = states.push(next);
                    assert forall|i: int| 0 <= i < chain.witnesses().len() implies call_ensures(
                        *step,
                        (&chain.consumed()[i], #[trigger] states[i], plan()[i]),
                        Ok::<(W, P, T), E>((chain.witnesses()[i], chain.derived()[i], states[i + 1])),
                    ) by {
                        if i < before.witnesses().len() {
                            assert(before_states[i] == states[i]);
                            assert(before_states[i + 1] == states[i + 1]);
                            assert(before.consumed()[i] == chain.consumed()[i]);
                            assert(before.witnesses()[i] == chain.witnesses()[i]);
                            assert(before.derived()[i] == chain.derived()[i]);
                        }
                    }
                }
            },
            Err(e) => {
                return Err(e);
            },
        }
    }
    Ok((chain, current))
}

/// The public inputs that a block is built against when the blocks before it
/// left `derived`: the last of them, or `genesis` where there is none.
pub open spec fn next_inputs<P>(genesis: P, derived: Seq<P>) -> P {
    if derived.len() == 0 {
        genesis
    } else {
        derived.last()
    }
}

/// The first block is built against the genesis value, and every later
/// block against exactly the public inputs derived from the block before it.
pub proof fn lemma_chain_linkage<P, W>(chain: &WitnessChain<P, W>, n: int)
    requires
        chain.wf(),
        0 <= n < chain.witnesses().len(),
    ensures
        n == 0 ==> chain.consumed()[n] == chain.genesis(),
        n > 0 ==> chain.consumed()[n] == chain.derived()[n - 1],
        n + 1 == chain.witnesses().len() ==> chain.current() == chain.derived()[n],
{
    assert(chain.consumed()[n] == next_inputs(chain.genesis(), chain.derived().take(n)));
}

/// In a chain built by `step`, the call for each block after the first was
/// given exactly the public inputs that the call before it gave back, and
/// the state that it left; the first call was given the genesis value.
pub proof fn lemma_run_linkage<P, T, W, E, C: Fn(&P, T, BlockRequest) -> Result<(W, P, T), E>>(
    step: C,
    chain: WitnessChain<P, W>,
    states: Seq<T>,
    n: int,
)
    requires
        is_chain_run(step, chain, states),
        0 <= n < chain.witnesses().len(),
    ensures
        call_ensures(
            step,
            (&next_inputs(chain.genesis(), chain.derived().take(n)), states[n], plan()[n]),
            Ok::<(W, P, T), E>((chain.witnesses()[n], chain.derived()[n], states[n + 1])),
        ),
        n > 0 ==> next_inputs(chain.genesis(), chain.derived().take(n)) == chain.derived()[n - 1],
        n == 0 ==> next_inputs(chain.genesis(), chain.derived().take(n)) == chain.genesis(),
{
    lemma_chain_linkage(&chain, n);
    assert(chain.consumed()[n] == next_inputs(chain.genesis(), chain.derived().take(n)));
    assert(call_ensures(
        step,
        (&chain.consumed()[n], states[n], plan()[n]),
        Ok::<(W, P, T), E>((chain.witnesses()[n], chain.derived()[n], states[n + 1])),
    ));
}

/// A complete chain is the plan: a registration block first, no other
/// registration block, and no transaction in the last block.
pub proof fn lemma_plan_shape()
    ensures
        plan().len() == CHAIN_LENGTH,
        plan()[0].is_registration_block && plan()[0].with_transaction,
        !plan()[1].is_registration_block && plan()[1].with_transaction,
        !plan()[2].is_registration_block && !plan()[2].with_transaction,
{
}

} // verus!
