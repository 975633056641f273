//! The data that goes into an encoding and the transaction that comes out.

use vstd::prelude::*;

verus! {

/// Denominator of a split: a split `s` routes `s / SPLIT_ONE` of the remaining
/// input through its swap.
pub const SPLIT_ONE: u32 = 0x00ff_ffff;

/// Denominator of a slippage tolerance, which is given in basis points.
pub const SLIPPAGE_ONE: u32 = 10_000;

/// The chain that the router and the executors live on.
#[derive(Clone, Copy, Debug, PartialEq, Eq, Structural)]
pub enum Chain {
    Ethereum,
    ZkSync,
    Arbitrum,
}

/// A named raw value attached to a liquidity venue.
#[derive(Clone, Debug)]
pub struct StaticAttribute {
    pub name: String,
    pub value: Vec<u8>,
}

/// One instance of a liquidity venue on chain.
#[derive(Clone, Debug)]
pub struct ProtocolComponent {
    pub id: String,
    /// The venue family, by which the encoder is found.
    pub protocol_system: String,
    pub protocol_type_name: String,
    pub chain: Chain,
    pub tokens: Vec<Vec<u8>>,
    pub contract_ids: Vec<Vec<u8>>,
    pub static_attributes: Vec<StaticAttribute>,
}

/// One hop of a trade.
#[derive(Clone, Debug)]
pub struct Swap {
    pub component: ProtocolComponent,
    pub token_in: Vec<u8>,
    pub token_out: Vec<u8>,
    /// Share of the remaining input, over [`SPLIT_ONE`]; zero takes all that
    /// remains.
    pub split: u32,
}

/// The terms of a permission to pull the given token, which are signed along
/// with the token, the amount and the spender.
#[derive(Clone, Copy, Debug, PartialEq, Eq, Structural)]
pub struct PermitTerms {
    /// Counter that keeps a permission from being used twice.
    pub nonce: u64,
    /// Second after which the permission no longer holds.
    pub expiration: u64,
    /// Second after which the signature is no longer accepted.
    pub sig_deadline: u64,
}

/// One complete trade request.
#[derive(Clone, Debug)]
pub struct Solution {
    pub sender: Vec<u8>,
    pub receiver: Vec<u8>,
    pub given_token: Vec<u8>,
    pub given_amount: u128,
    pub checked_token: Vec<u8>,
    pub exact_out: bool,
    /// Tolerated shortfall of the output, in basis points.
    pub slippage: Option<u32>,
    pub expected_amount: Option<u128>,
    pub checked_amount: Option<u128>,
    pub swaps: Vec<Swap>,
    pub router_address: Vec<u8>,
    /// Terms of the signed approval, where the strategy signs one.
    pub permit: Option<PermitTerms>,
}

/// What a venue encoder is told about the trade around its swap.
#[derive(Clone, Debug)]
pub struct EncodingContext {
    pub receiver: Vec<u8>,
    pub exact_out: bool,
    pub router_address: Vec<u8>,
}

/// The fields of a transaction that is ready to be sent.
#[derive(Clone, Debug)]
pub struct Transaction {
    pub to: Vec<u8>,
    pub value: u128,
    pub data: Vec<u8>,
}

impl Chain {
    /// The chain's numeric identifier.
    pub fn id(&self) -> (id: u64)
        ensures
            id == self.spec_id(),
    {
        match self {
            Chain::Ethereum => 1,
            Chain::ZkSync => 324,
            Chain::Arbitrum => 42161,
        }
    }

    pub open spec fn spec_id(&self) -> u64 {
        match self {
            Chain::Ethereum => 1,
            Chain::ZkSync => 324,
            Chain::Arbitrum => 42161,
        }
    }
}

} // verus!
