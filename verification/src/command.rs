//! What a command-line front end asks of the library: which strategy to
//! build, and the text of a transaction's fields.

use vstd::prelude::*;
use vstd::string::StringExecFns;
use crate::approval::key_text_valid;
use crate::encoder_builder::{chain_of, chosen_table, table_usable, EVMEncoderBuilder};
use crate::errors::{EncodingError, ErrorView};
use crate::models::{Chain, Transaction};
use crate::strategy_encoder::StrategyEncoder;
use crate::swap_encoder::ExecutorEntry;
use crate::tycho_encoder::EVMTychoEncoder;

verus! {

/// The strategies that can be asked for, each with the path of an executor
/// table where the built-in one is not wanted.
pub enum Commands {
    /// The router strategy.
    TychoRouter { config_path: Option<String> },
    /// The router strategy with a signed approval of the token transfer.
    TychoRouterPermit2 { config_path: Option<String>, swapper_pk: String },
    /// Direct execution on one venue's executor.
    DirectExecution { config_path: Option<String> },
}

/// What was asked for on the command line.
pub struct Cli {
    pub command: Commands,
}

/// A transaction's fields as text, each in hexadecimal after `0x`.
pub struct TransactionText {
    pub to: String,
    pub value: String,
    pub data: String,
}

/// The encoder has the strategy that the command asks for.
pub open spec fn answers(command: Commands, strategy: StrategyEncoder) -> bool {
    match command {
        Commands::TychoRouter { .. } => strategy matches StrategyEncoder::SplitSwap(s) && s.signer is None,
        Commands::TychoRouterPermit2 { .. } => strategy matches StrategyEncoder::SplitSwap(s)
            && s.signer is Some,
        Commands::DirectExecution { .. } => strategy is Executor,
    }
}

/// The key that the command brings, if it brings one, is well formed.
pub open spec fn key_usable(command: Commands) -> bool {
    command matches Commands::TychoRouterPermit2 { swapper_pk, .. } ==> key_text_valid(
        vstd::utf8::encode_utf8(swapper_pk@),
    )
}

impl Cli {
    /// Builds the encoder that the command asks for, on the first chain, from
    /// the executor table that was read at the command's path, if it names one.
    pub fn encoder(self, executors: Option<Vec<ExecutorEntry>>) -> (encoder: Result<EVMTychoEncoder, EncodingError>)
        ensures
            match encoder {
                Ok(e) => table_usable(executors) && key_usable(self.command) && e.chain == Chain::Ethereum
                    && answers(self.command, e.strategy) && chosen_table(executors, e.strategy.table()),
                Err(e) => if !table_usable(executors) {
                    e@ == ErrorView::FatalError("Malformed executor table"@)
                } else {
                    !key_usable(self.command) && e@ == ErrorView::SigningError
                },
            },
    {
        let builder = EVMEncoderBuilder::new().chain(Chain::Ethereum);
        let configured = match self.command {
            Commands::TychoRouter { config_path: _ } => builder.tycho_router(executors),
            Commands::TychoRouterPermit2 { config_path: _, swapper_pk } => builder.tycho_router_with_permit2(
                executors,
                swapper_pk,
            ),
            Commands::DirectExecution { config_path: _ } => builder.direct_execution(executors),
        };
        match configured {
            Ok(b) => b.build(),
            Err(e) => Err(e),
        }
    }
}

/// The two lower-case hexadecimal digits of each byte, in the bytes' order.
pub open spec fn hex_text(data: Seq<u8>) -> Seq<char> {
    Seq::new(
        2 * data.len(),
        |i: int|
            if i % 2 == 0 {
                "0123456789abcdef"@[(data[i / 2] / 16) as int]
            } else {
                "0123456789abcdef"@[(data[i / 2] % 16) as int]
            },
    )
}

/// The big-endian bytes of a number without leading zero bytes; zero is one
/// zero byte.
pub open spec fn minimal_bytes(n: nat) -> Seq<u8>
    decreases n,
{
    if n < 256 {
        seq![n as u8]
    } else {
        minimal_bytes(n / 256).push((n % 256) as u8)
    }
}

/// Calls `hex::encode`. Trusted: the text holds two lower-case hexadecimal
/// digits for each byte, the high half first, in the bytes' order.
#[verifier::external_body]
fn hex_encode(data: &Vec<u8>) -> (text: String)
    ensures
        text@ == hex_text(data@),
{
    hex::encode(data)
}

/// Writes bytes as hexadecimal text after `0x`.
pub fn hex_field(data: &Vec<u8>) -> (text: String)
    ensures
        text@ == "0x"@ + hex_text(data@),
{
    let digits = hex_encode(data);
    String::from_str("0x").concat(digits.as_str())
}

/// Writes a number as big-endian bytes without leading zero bytes.
pub fn value_bytes(value: u128) -> (bytes: Vec<u8>)
    ensures
        bytes@ == minimal_bytes(value as nat),
    decreases value,
{
    if value < 256 {
        let bytes: Vec<u8> = vec![value as u8];
        assert(bytes@ =~= seq![value as u8]);
        bytes
    } else {
        let mut bytes = value_bytes(value / 256);
        bytes.push((value % 256) as u8);
        bytes
    }
}

/// Writes a transaction's fields as text.
pub fn transaction_text(transaction: &Transaction) -> (text: TransactionText)
    ensures
        text.to@ == "0x"@ + hex_text(transaction.to@),
        text.value@ == "0x"@ + hex_text(minimal_bytes(transaction.value as nat)),
        text.data@ == "0x"@ + hex_text(transaction.data@),
{
    let value = value_bytes(transaction.value);
    TransactionText { to: hex_field(&transaction.to), value: hex_field(&value), data: hex_field(&transaction.data) }
}

} // verus!
