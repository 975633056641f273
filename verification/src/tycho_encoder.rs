//! The encoder that callers hold: one configured strategy, applied to each
//! solution of a list in turn.

use vstd::prelude::*;
use crate::bytes::{zeros, ADDRESS_LEN};
use crate::errors::{EncodingError, ErrorView};
use crate::models::{Chain, Solution, Transaction};
use crate::strategy_encoder::StrategyEncoder;

verus! {

/// Turns solutions into transactions with one strategy.
pub struct EVMTychoEncoder {
    pub chain: Chain,
    pub strategy: StrategyEncoder,
}

/// The address that stands for the chain's native asset.
pub open spec fn native_token() -> Seq<u8> {
    zeros(ADDRESS_LEN as nat)
}

/// The native amount that goes with a solution's call: the given amount where
/// the given token is the native asset, else nothing.
pub open spec fn value_of(solution: &Solution) -> nat {
    if solution.given_token@ == native_token() {
        solution.given_amount as nat
    } else {
        0
    }
}

/// `transaction` is what `strategy` makes of `solution`.
pub open spec fn encodes(strategy: &StrategyEncoder, solution: &Solution, transaction: &Transaction) -> bool {
    &&& strategy.outcome(solution) == Ok::<(Seq<u8>, Seq<u8>), ErrorView>(
        (transaction.data@, transaction.to@),
    )
    &&& transaction.value == value_of(solution)
}

/// Solution `k` is the first that the strategy faults on, and `fault` is its fault.
pub open spec fn first_fault(
    strategy: &StrategyEncoder,
    solutions: Seq<Solution>,
    k: int,
    fault: ErrorView,
) -> bool {
    &&& 0 <= k < solutions.len()
    &&& strategy.outcome(&solutions[k]) == Err::<(Seq<u8>, Seq<u8>), ErrorView>(fault)
    &&& forall|j: int| 0 <= j < k ==> (#[trigger] strategy.outcome(&solutions[j])) is Ok
}

/// Whether `token` is the native asset's address.
fn is_native(token: &Vec<u8>) -> (native: bool)
    ensures
        native == (token@ == native_token()),
{
    if token.len() != ADDRESS_LEN {
        return false;
    }
    let mut i: usize = 0;
    while i < token.len()
        invariant
            i <= token@.len() == ADDRESS_LEN,
            forall|k: int| 0 <= k < i ==> token@[k] == 0u8,
        decreases token@.len() - i,
    {
        if token[i] != 0 {
            assert(native_token()[i as int] == 0u8);
            return false;
        }
        i += 1;
    }
    assert(token@ =~= native_token());
    true
}

impl EVMTychoEncoder {
    pub fn new(chain: Chain, strategy: StrategyEncoder) -> (encoder: Result<Self, EncodingError>)
        ensures
            encoder matches Ok(e) && e.chain == chain && e.strategy == strategy,
    {
        Ok(EVMTychoEncoder { chain, strategy })
    }

    /// Encodes each solution as one transaction, in the order given. The
    /// first solution that cannot be encoded ends the call with its fault,
    /// and nothing else is returned.
    pub fn encode_router_calldata(&self, solutions: Vec<Solution>) -> (transactions: Result<
        Vec<Transaction>,
        EncodingError,
    >)
        ensures
            match transactions {
                Ok(t) => t@.len() == solutions@.len() && forall|i: int|
                    0 <= i < t@.len() ==> encodes(&self.strategy, &solutions@[i], #[trigger] &t@[i]),
                Err(e) => exists|k: int| first_fault(&self.strategy, solutions@, k, e@),
            },
    {
        let mut transactions: Vec<Transaction> = Vec::new();
        let mut i: usize = 0;
        while i < solutions.len()
            invariant
                i <= solutions@.len(),
                transactions@.len() == i,
                forall|k: int|
                    0 <= k < i ==> encodes(&self.strategy, &solutions@[k], #[trigger] &transactions@[k]),
            decreases solutions@.len() - i,
        {
            let solution = &solutions[i];
            let (data, to) = match self.strategy.encode_strategy(solution) {
                Ok(call) => call,
                Err(e) => {
                    assert forall|j: int| 0 <= j < i implies (#[trigger] self.strategy.outcome(
                        &solutions@[j],
                    )) is Ok by {
                        assert(encodes(&self.strategy, &solutions@[j], &transactions@[j]));
                    }
                    assert(first_fault(&self.strategy, solutions@, i as int, e@));
                    return Err(e);
                },
            };
            let value: u128 = if is_native(&solution.given_token) {
                solution.given_amount
            } else {
                0
            };
            transactions.push(Transaction { to, value, data });
            i += 1;
        }
        Ok(transactions)
    }
}

/// Encoding is a function of the strategy and the solution: two transactions
/// made of the same solution by the same strategy hold the same destination,
/// the same value and the same bytes.
pub proof fn lemma_encoding_deterministic(
    strategy: &StrategyEncoder,
    solution: &Solution,
    first: &Transaction,
    second: &Transaction,
)
    requires
        encodes(strategy, solution, first),
        encodes(strategy, solution, second),
    ensures
        first.data@ == second.data@,
        first.to@ == second.to@,
        first.value == second.value,
{
}

/// The transactions of a list follow the solutions' order: where two lists
/// hold the same solution at positions `i` and `j`, the transactions at those
/// positions are the same.
pub proof fn lemma_order_preserved(
    strategy: &StrategyEncoder,
    solutions: Seq<Solution>,
    transactions: Seq<Transaction>,
    other_solutions: Seq<Solution>,
    other_transactions: Seq<Transaction>,
    i: int,
    j: int,
)
    requires
        transactions.len() == solutions.len(),
        other_transactions.len() == other_solutions.len(),
        forall|k: int| 0 <= k < solutions.len() ==> encodes(strategy, &solutions[k], #[trigger] &transactions[k]),
        forall|k: int|
            0 <= k < other_solutions.len() ==> encodes(
                strategy,
                &other_solutions[k],
                #[trigger] &other_transactions[k],
            ),
        0 <= i < solutions.len(),
        0 <= j < other_solutions.len(),
        solutions[i] == other_solutions[j],
    ensures
        transactions[i].data@ == other_transactions[j].data@,
        transactions[i].to@ == other_transactions[j].to@,
        transactions[i].value == other_transactions[j].value,
{
    assert(encodes(strategy, &solutions[i], &transactions[i]));
    assert(encodes(strategy, &other_solutions[j], &other_transactions[j]));
}

} // verus!
