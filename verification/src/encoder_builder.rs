//! Step-by-step construction of an encoder: a chain, then a strategy, then
//! the encoder itself.

use vstd::prelude::*;
use crate::approval::{key_bytes, key_text_valid};
use crate::errors::{EncodingError, ErrorView};
use crate::models::Chain;
use crate::strategy_encoder::{ExecutorStrategyEncoder, SplitSwapStrategyEncoder, StrategyEncoder};
use crate::swap_encoder::{
    entries_distinct, entries_wf, table_from, ExecutorEntry, PackingFormat, SwapEncoder,
    SwapEncoderRegistry,
};
use crate::tycho_encoder::EVMTychoEncoder;

verus! {

/// Collects the chain and the strategy that an encoder is built with.
pub struct EVMEncoderBuilder {
    pub strategy: Option<StrategyEncoder>,
    pub chain: Option<Chain>,
}

/// The executor table that is used where the caller brings none.
pub fn default_executors() -> (entries: Vec<ExecutorEntry>)
    ensures
        entries@.len() == 2,
        entries_wf(entries@),
        entries_distinct(entries@),
        entries@[0].protocol_system@ == "uniswap_v2"@,
        entries@[0].encoder.format == PackingFormat::Pair,
        entries@[1].protocol_system@ == "uniswap_v3"@,
        entries@[1].encoder.format == PackingFormat::FeeTier,
{
    let pair = SwapEncoder {
        executor_address: vec![
            0x5c, 0x2f, 0x5a, 0x71, 0xf6, 0x7c, 0x01, 0x77, 0x51, 0x80,
            0xad, 0xc0, 0x69, 0x09, 0x28, 0x8b, 0x4c, 0x32, 0x93, 0x08,
        ],
        selector: vec![0xbd, 0x06, 0x25, 0xab],
        format: PackingFormat::Pair,
    };
    let fee_tier = SwapEncoder {
        executor_address: vec![
            0x2e, 0x23, 0x42, 0x80, 0xd0, 0x74, 0x4f, 0x3b, 0x6a, 0x1c,
            0x4b, 0x0f, 0x0b, 0x3b, 0x0a, 0x3f, 0x2d, 0x5d, 0x3f, 0x1a,
        ],
        selector: vec![0xbd, 0x06, 0x25, 0xab],
        format: PackingFormat::FeeTier,
    };
    proof {
        reveal_strlit("uniswap_v2");
        reveal_strlit("uniswap_v3");
        assert("uniswap_v2"@[9] != "uniswap_v3"@[9]);
    }
    let mut entries: Vec<ExecutorEntry> = Vec::new();
    entries.push(ExecutorEntry { protocol_system: "uniswap_v2".to_string(), encoder: pair });
    entries.push(ExecutorEntry { protocol_system: "uniswap_v3".to_string(), encoder: fee_tier });
    entries
}

/// The table that a registry is to hold: the caller's, or the one built in.
pub open spec fn chosen_table(executors: Option<Vec<ExecutorEntry>>, table: Map<Seq<char>, SwapEncoder>) -> bool {
    match executors {
        Some(entries) => table == table_from(entries@, 0),
        None => {
            &&& table.dom() =~= set!["uniswap_v2"@, "uniswap_v3"@]
            &&& table["uniswap_v2"@].format == PackingFormat::Pair
            &&& table["uniswap_v3"@].format == PackingFormat::FeeTier
        },
    }
}

/// The chain that is set, or the first chain where none is.
pub open spec fn chain_of(chain: Option<Chain>) -> Chain {
    match chain {
        Some(c) => c,
        None => Chain::Ethereum,
    }
}

/// The caller's table, if one is brought, can be built into a registry.
pub open spec fn table_usable(executors: Option<Vec<ExecutorEntry>>) -> bool {
    executors matches Some(entries) ==> entries_wf(entries@) && entries_distinct(entries@)
}

/// Builds the registry from the caller's table or from the one built in.
fn registry_for(executors: Option<Vec<ExecutorEntry>>) -> (registry: Result<SwapEncoderRegistry, EncodingError>)
    ensures
        match registry {
            Ok(r) => table_usable(executors) && chosen_table(executors, r@) && r.wf(),
            Err(e) => !table_usable(executors) && e@ == ErrorView::FatalError("Malformed executor table"@),
        },
{
    match executors {
        Some(entries) => SwapEncoderRegistry::new(entries),
        None => {
            let entries = default_executors();
            let ghost listed = entries@;
            let registry = SwapEncoderRegistry::new(entries);
            proof {
                reveal_with_fuel(table_from, 3);
                assert(table_from(listed, 2) == Map::<Seq<char>, SwapEncoder>::empty());
            }
            registry
        },
    }
}

impl EVMEncoderBuilder {
    pub fn new() -> (builder: Self)
        ensures
            builder.chain is None,
            builder.strategy is None,
    {
        EVMEncoderBuilder { chain: None, strategy: None }
    }

    pub fn chain(self, chain: Chain) -> (builder: Self)
        ensures
            builder.chain == Some(chain),
            builder.strategy == self.strategy,
    {
        let mut builder = self;
        builder.chain = Some(chain);
        builder
    }

    /// Sets the strategy directly. Not to be combined with the shortcuts
    /// below, each of which sets a strategy of its own.
    pub fn strategy_encoder(self, strategy: StrategyEncoder) -> (builder: Self)
        ensures
            builder.strategy == Some(strategy),
            builder.chain == self.chain,
    {
        let mut builder = self;
        builder.strategy = Some(strategy);
        builder
    }

    /// Shortcut for the router strategy without approval. The chain has to be
    /// set before.
    pub fn tycho_router(self, executors: Option<Vec<ExecutorEntry>>) -> (builder: Result<Self, EncodingError>)
        ensures
            match builder {
                Ok(b) => self.chain is Some && table_usable(executors) && b.chain == self.chain && (
                b.strategy matches Some(StrategyEncoder::SplitSwap(s)) && s.signer is None && s.chain
                    == chain_of(self.chain) && chosen_table(executors, s.registry@) && s.registry.wf()),
                Err(e) => if self.chain is None {
                    e@ == ErrorView::FatalError("Please set the chain before setting the tycho router"@)
                } else {
                    !table_usable(executors) && e@ == ErrorView::FatalError("Malformed executor table"@)
                },
            },
    {
        if let Some(chain) = self.chain {
            let registry = match registry_for(executors) {
                Ok(r) => r,
                Err(e) => {
                    return Err(e);
                },
            };
            let strategy = match SplitSwapStrategyEncoder::new(chain, registry, None) {
                Ok(s) => s,
                Err(e) => {
                    return Err(e);
                },
            };
            Ok(EVMEncoderBuilder { chain: Some(chain), strategy: Some(StrategyEncoder::SplitSwap(strategy)) })
        } else {
            Err(
                EncodingError::FatalError(
                    "Please set the chain before setting the tycho router".to_string(),
                ),
            )
        }
    }

    /// Shortcut for the router strategy with a signed approval. The chain has
    /// to be set before, and the key has to be well formed.
    pub fn tycho_router_with_permit2(
        self,
        executors: Option<Vec<ExecutorEntry>>,
        swapper_pk: String,
    ) -> (builder: Result<Self, EncodingError>)
        ensures
            match builder {
                Ok(b) => self.chain is Some && table_usable(executors) && key_text_valid(
                    vstd::utf8::encode_utf8(swapper_pk@),
                ) && b.chain == self.chain && (b.strategy matches Some(StrategyEncoder::SplitSwap(s))
                    && s.signer_view() == Some(key_bytes(vstd::utf8::encode_utf8(swapper_pk@))) && s.chain
                    == chain_of(self.chain) && chosen_table(executors, s.registry@) && s.registry.wf()),
                Err(e) => if self.chain is None {
                    e@ == ErrorView::FatalError("Please set the chain before setting the tycho router"@)
                } else if !table_usable(executors) {
                    e@ == ErrorView::FatalError("Malformed executor table"@)
                } else {
                    !key_text_valid(vstd::utf8::encode_utf8(swapper_pk@)) && e@ == ErrorView::SigningError
                },
            },
    {
        if let Some(chain) = self.chain {
            let registry = match registry_for(executors) {
                Ok(r) => r,
                Err(e) => {
                    return Err(e);
                },
            };
            let strategy = match SplitSwapStrategyEncoder::new(chain, registry, Some(swapper_pk)) {
                Ok(s) => s,
                Err(e) => {
                    return Err(e);
                },
            };
            Ok(EVMEncoderBuilder { chain: Some(chain), strategy: Some(StrategyEncoder::SplitSwap(strategy)) })
        } else {
            Err(
                EncodingError::FatalError(
                    "Please set the chain before setting the tycho router".to_string(),
                ),
            )
        }
    }

    /// Shortcut for direct execution. The chain has to be set before.
    pub fn direct_execution(self, executors: Option<Vec<ExecutorEntry>>) -> (builder: Result<
        Self,
        EncodingError,
    >)
        ensures
            match builder {
                Ok(b) => self.chain is Some && table_usable(executors) && b.chain == self.chain && (
                b.strategy matches Some(StrategyEncoder::Executor(s)) && chosen_table(
                    executors,
                    s.registry@,
                ) && s.registry.wf()),
                Err(e) => if self.chain is None {
                    e@ == ErrorView::FatalError("Please set the chain before setting the strategy"@)
                } else {
                    !table_usable(executors) && e@ == ErrorView::FatalError("Malformed executor table"@)
                },
            },
    {
        if let Some(chain) = self.chain {
            let registry = match registry_for(executors) {
                Ok(r) => r,
                Err(e) => {
                    return Err(e);
                },
            };
            let strategy = StrategyEncoder::Executor(ExecutorStrategyEncoder::new(registry));
            Ok(EVMEncoderBuilder { chain: Some(chain), strategy: Some(strategy) })
        } else {
            Err(EncodingError::FatalError("Please set the chain before setting the strategy".to_string()))
        }
    }

    /// Builds the encoder from the chain and the strategy, both of which
    /// have to be set.
    pub fn build(self) -> (encoder: Result<EVMTychoEncoder, EncodingError>)
        ensures
            match encoder {
                Ok(e) => self.chain == Some(e.chain) && self.strategy == Some(e.strategy),
                Err(e) => (self.chain is None || self.strategy is None) && e@ == ErrorView::FatalError(
                    "Please set the chain and strategy before building the encoder"@,
                ),
            },
    {
        match (self.chain, self.strategy) {
            (Some(chain), Some(strategy)) => EVMTychoEncoder::new(chain, strategy),
            _ => Err(
                EncodingError::FatalError(
                    "Please set the chain and strategy before building the encoder".to_string(),
                ),
            ),
        }
    }
}

impl Default for EVMEncoderBuilder {
    fn default() -> (builder: Self)
        ensures
            builder.chain is None,
            builder.strategy is None,
    {
        Self::new()
    }
}

} // verus!
