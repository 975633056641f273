//! The strategy encoders, which turn one solution into call data and the
//! address that the call goes to: either through the router, with the swaps
//! laid out as a plan, or straight to one venue's executor.

use vstd::prelude::*;
use crate::bytes::{
    append, append_be, append_left_padded, be_bytes, ADDRESS_LEN, WORD_LEN,
};
use crate::approval::{
    address_word, approval_signature, key_bytes, key_text_valid, parse_private_key, sign_permit, word,
};
use crate::errors::{EncodingError, ErrorView};
use crate::models::{Chain, EncodingContext, PermitTerms, Solution, Swap, SLIPPAGE_ONE};
use crate::swap_encoder::{packable, packed, SwapEncoder, SwapEncoderRegistry};
use crate::validation::{
    get_min_amount_for_solution, min_amount_out, solution_valid, validate_split_percentages,
    validate_swap_path,
};

verus! {

/// Selector of the router's entry point for a plan of swaps.
pub const ROUTER_SWAP_SELECTOR: u32 = 0x0a83_cb08;

/// Selector of the router's entry point for a plan of swaps that comes with a
/// signed approval.
pub const ROUTER_SWAP_PERMIT2_SELECTOR: u32 = 0xd499_aa88;

/// The most swaps that one plan holds: two token slots a swap, one byte a slot.
pub const MAX_SWAPS: usize = 128;

/// Width in bytes of a split in a plan.
pub const SPLIT_LEN: usize = 3;

/// Width in bytes of the length that stands before each entry of a plan.
pub const ENTRY_LEN_LEN: usize = 2;

/// The slot of a token: twice the position of the first swap from `from` on
/// that names it, plus one where that swap puts it out and does not take it in.
pub open spec fn token_slot(swaps: Seq<Swap>, token: Seq<u8>, from: int) -> int
    decreases swaps.len() - from,
{
    if from < 0 || from >= swaps.len() {
        2 * (swaps.len() as int)
    } else if swaps[from].token_in@ == token {
        2 * from
    } else if swaps[from].token_out@ == token {
        2 * from + 1
    } else {
        token_slot(swaps, token, from + 1)
    }
}

/// What stands before a swap's block in the plan: the slots of its two
/// tokens, its split, and the executor's address and selector.
pub open spec fn entry_header(swaps: Seq<Swap>, i: int, encoder: &SwapEncoder) -> Seq<u8> {
    seq![
        token_slot(swaps, swaps[i].token_in@, 0) as u8,
        token_slot(swaps, swaps[i].token_out@, 0) as u8,
    ] + be_bytes(swaps[i].split as nat, SPLIT_LEN as nat) + encoder.executor_address@
        + encoder.selector@
}

/// The plan's entry for swap `i`: its length, its header and its block.
pub open spec fn plan_entry(
    table: Map<Seq<char>, SwapEncoder>,
    swaps: Seq<Swap>,
    receiver: Seq<u8>,
    i: int,
) -> Result<Seq<u8>, ErrorView> {
    let name = swaps[i].component.protocol_system@;
    if !table.contains_key(name) {
        Err(ErrorView::UnsupportedProtocol(name))
    } else if !packable(table[name].format, &swaps[i], receiver) {
        Err(ErrorView::EncodingFailed)
    } else {
        let body = entry_header(swaps, i, &table[name]) + packed(table[name].format, &swaps[i], receiver);
        Ok(be_bytes(body.len(), ENTRY_LEN_LEN as nat) + body)
    }
}

/// The entries of the first `n` swaps, one after the other, or the first
/// fault among them.
pub open spec fn plan(
    table: Map<Seq<char>, SwapEncoder>,
    swaps: Seq<Swap>,
    receiver: Seq<u8>,
    n: nat,
) -> Result<Seq<u8>, ErrorView>
    decreases n,
{
    if n == 0 {
        Ok(Seq::empty())
    } else {
        match plan(table, swaps, receiver, (n - 1) as nat) {
            Err(e) => Err(e),
            Ok(before) => match plan_entry(table, swaps, receiver, n - 1) {
                Err(e) => Err(e),
                Ok(entry) => Ok(before + entry),
            },
        }
    }
}

/// Every address of the solution has its width.
pub open spec fn addresses_whole(solution: &Solution) -> bool {
    &&& solution.sender@.len() == ADDRESS_LEN
    &&& solution.receiver@.len() == ADDRESS_LEN
    &&& solution.given_token@.len() == ADDRESS_LEN
    &&& solution.checked_token@.len() == ADDRESS_LEN
    &&& solution.router_address@.len() == ADDRESS_LEN
}

/// What the router strategies ask of a solution before they encode it.
pub open spec fn routable(solution: &Solution) -> bool {
    &&& solution_valid(solution)
    &&& solution.swaps@.len() <= MAX_SWAPS
    &&& addresses_whole(solution)
}

/// The fixed fields of a call to the router, one word each.
pub open spec fn fixed_fields(solution: &Solution) -> Seq<u8> {
    word(solution.given_amount as nat) + address_word(solution.given_token@) + address_word(
        solution.checked_token@,
    ) + word(
        min_amount_out(solution.checked_amount, solution.expected_amount, solution.slippage),
    ) + word(if solution.exact_out { 1 } else { 0 }) + address_word(solution.sender@)
        + address_word(solution.receiver@)
}

/// The fields of a signed approval in a call: nonce, expiration, deadline
/// of the signature, and the signature.
pub open spec fn approval_fields(terms: PermitTerms, signature: Seq<u8>) -> Seq<u8> {
    word(terms.nonce as nat) + word(terms.expiration as nat) + word(terms.sig_deadline as nat) + signature
}

/// The call to the router: selector, fixed fields, the signed approval where
/// there is one, the plan's length and the plan.
pub open spec fn packed_call(
    solution: &Solution,
    approval: Option<(PermitTerms, Seq<u8>)>,
    swap_plan: Seq<u8>,
) -> Seq<u8> {
    match approval {
        Some((terms, signature)) => be_bytes(ROUTER_SWAP_PERMIT2_SELECTOR as nat, 4) + fixed_fields(
            solution,
        ) + approval_fields(terms, signature) + word(swap_plan.len()) + swap_plan,
        None => be_bytes(ROUTER_SWAP_SELECTOR as nat, 4) + fixed_fields(solution) + word(swap_plan.len())
            + swap_plan,
    }
}

/// The approval that goes into a call: none without a key; with a key, the
/// solution's terms and the key's signature over them, or a signing fault
/// where the solution has no terms or the signing is refused.
pub open spec fn approval_for(signer: Option<Seq<u8>>, solution: &Solution, chain_id: u64) -> Result<
    Option<(PermitTerms, Seq<u8>)>,
    ErrorView,
> {
    match signer {
        None => Ok(None),
        Some(key) => match solution.permit {
            None => Err(ErrorView::SigningError),
            Some(terms) => match approval_signature(key, solution, terms, chain_id) {
                None => Err(ErrorView::SigningError),
                Some(signature) => Ok(Some((terms, signature))),
            },
        },
    }
}

/// The call data for the router, or the fault that stops the encoding.
pub open spec fn router_call(
    table: Map<Seq<char>, SwapEncoder>,
    solution: &Solution,
    signer: Option<Seq<u8>>,
    chain_id: u64,
) -> Result<Seq<u8>, ErrorView> {
    if !routable(solution) {
        Err(ErrorView::InvalidSolution)
    } else {
        match plan(table, solution.swaps@, solution.router_address@, solution.swaps@.len()) {
            Err(e) => Err(e),
            Ok(p) => match approval_for(signer, solution, chain_id) {
                Err(e) => Err(e),
                Ok(approval) => Ok(packed_call(solution, approval, p)),
            },
        }
    }
}

/// The solution is one swap that takes the whole input.
pub open spec fn single_full_swap(solution: &Solution) -> bool {
    solution.swaps@.len() == 1 && solution.swaps@[0].split == 0
}

/// The call data for a venue's executor and the executor's address, or the
/// fault that stops the encoding.
pub open spec fn executor_call(table: Map<Seq<char>, SwapEncoder>, solution: &Solution) -> Result<
    (Seq<u8>, Seq<u8>),
    ErrorView,
> {
    if !single_full_swap(solution) {
        Err(ErrorView::InvalidSolution)
    } else {
        let swap = solution.swaps@[0];
        let name = swap.component.protocol_system@;
        if !table.contains_key(name) {
            Err(ErrorView::UnsupportedProtocol(name))
        } else if !packable(table[name].format, &swap, solution.receiver@) {
            Err(ErrorView::EncodingFailed)
        } else {
            Ok(
                (
                    table[name].selector@ + packed(table[name].format, &swap, solution.receiver@),
                    table[name].executor_address@,
                ),
            )
        }
    }
}

/// Once an entry is at fault, the plan is at that fault however far it goes.
proof fn lemma_plan_fault_stays(
    table: Map<Seq<char>, SwapEncoder>,
    swaps: Seq<Swap>,
    receiver: Seq<u8>,
    m: nat,
    n: nat,
)
    requires
        m <= n,
        plan(table, swaps, receiver, m) is Err,
    ensures
        plan(table, swaps, receiver, n) == plan(table, swaps, receiver, m),
    decreases n,
{
    if m < n {
        lemma_plan_fault_stays(table, swaps, receiver, m, (n - 1) as nat);
    }
}

/// A token that swap `i` names has a slot no further on than that swap.
proof fn lemma_slot_bound(swaps: Seq<Swap>, i: int, from: int)
    requires
        0 <= from <= i < swaps.len(),
    ensures
        0 <= token_slot(swaps, swaps[i].token_in@, from) <= 2 * i,
        0 <= token_slot(swaps, swaps[i].token_out@, from) <= 2 * i + 1,
    decreases i - from,
{
    if from < i {
        lemma_slot_bound(swaps, i, from + 1);
    }
}

/// Finds the slot of a token.
fn slot_of(swaps: &Vec<Swap>, token: &Vec<u8>) -> (slot: usize)
    requires
        swaps@.len() <= MAX_SWAPS,
    ensures
        slot == token_slot(swaps@, token@, 0),
{
    let mut i: usize = 0;
    while i < swaps.len()
        invariant
            i <= swaps@.len() <= MAX_SWAPS,
            token_slot(swaps@, token@, 0) == token_slot(swaps@, token@, i as int),
        decreases swaps@.len() - i,
    {
        if crate::bytes::bytes_eq(&swaps[i].token_in, token) {
            return 2 * i;
        }
        if crate::bytes::bytes_eq(&swaps[i].token_out, token) {
            return 2 * i + 1;
        }
        i += 1;
    }
    2 * swaps.len()
}

/// Lays the swaps out as the router's plan.
fn encode_plan(registry: &SwapEncoderRegistry, swaps: &Vec<Swap>, context: &EncodingContext) -> (out: Result<
    Vec<u8>,
    EncodingError,
>)
    requires
        swaps@.len() <= MAX_SWAPS,
    ensures
        match out {
            Ok(p) => plan(registry@, swaps@, context.receiver@, swaps@.len()) == Ok::<Seq<u8>, ErrorView>(p@),
            Err(e) => plan(registry@, swaps@, context.receiver@, swaps@.len()) == Err::<Seq<u8>, ErrorView>(e@),
        },
{
    let mut out: Vec<u8> = Vec::new();
    let mut i: usize = 0;
    while i < swaps.len()
        invariant
            i <= swaps@.len() <= MAX_SWAPS,
            plan(registry@, swaps@, context.receiver@, i as nat) == Ok::<Seq<u8>, ErrorView>(out@),
        decreases swaps@.len() - i,
    {
        let swap = &swaps[i];
        let encoder = match registry.get_encoder(&swap.component.protocol_system) {
            Ok(e) => e,
            Err(e) => {
                proof {
                    lemma_plan_fault_stays(registry@, swaps@, context.receiver@, (i + 1) as nat, swaps@.len());
                }
                return Err(e);
            },
        };
        let block = match encoder.encode_swap(swap, context) {
            Ok(b) => b,
            Err(e) => {
                proof {
                    lemma_plan_fault_stays(registry@, swaps@, context.receiver@, (i + 1) as nat, swaps@.len());
                }
                return Err(e);
            },
        };
        let slot_in = slot_of(swaps, &swap.token_in);
        let slot_out = slot_of(swaps, &swap.token_out);
        proof {
            lemma_slot_bound(swaps@, i as int, 0);
        }
        let mut body: Vec<u8> = Vec::new();
        body.push(slot_in as u8);
        body.push(slot_out as u8);
        append_be(&mut body, swap.split as u128, SPLIT_LEN);
        append(&mut body, &encoder.executor_address);
        append(&mut body, &encoder.selector);
        append(&mut body, &block);
        let ghost before = out@;
        append_be(&mut out, body.len() as u128, ENTRY_LEN_LEN);
        append(&mut out, &body);
        proof {
            let header = entry_header(swaps@, i as int, encoder);
            assert(body@ == header + block@);
            let entry = be_bytes(body@.len(), ENTRY_LEN_LEN as nat) + body@;
            assert(out@ == before + entry);
            assert(plan_entry(registry@, swaps@, context.receiver@, i as int) == Ok::<Seq<u8>, ErrorView>(entry));
        }
        i += 1;
    }
    Ok(out)
}

/// Appends the fixed fields of a call to the router.
fn append_fixed_fields(out: &mut Vec<u8>, solution: &Solution)
    requires
        addresses_whole(solution),
    ensures
        final(out)@ == old(out)@ + fixed_fields(solution),
{
    let least = get_min_amount_for_solution(solution);
    let flag: u128 = if solution.exact_out {
        1
    } else {
        0
    };
    append_be(out, solution.given_amount, WORD_LEN);
    append_left_padded(out, &solution.given_token, WORD_LEN);
    append_left_padded(out, &solution.checked_token, WORD_LEN);
    append_be(out, least, WORD_LEN);
    append_be(out, flag, WORD_LEN);
    append_left_padded(out, &solution.sender, WORD_LEN);
    append_left_padded(out, &solution.receiver, WORD_LEN);
}

/// Whether every address of the solution has its width.
fn check_addresses(solution: &Solution) -> (ok: bool)
    ensures
        ok == addresses_whole(solution),
{
    solution.sender.len() == ADDRESS_LEN && solution.receiver.len() == ADDRESS_LEN
        && solution.given_token.len() == ADDRESS_LEN && solution.checked_token.len() == ADDRESS_LEN
        && solution.router_address.len() == ADDRESS_LEN
}

/// Whether the router strategies accept the solution.
pub fn validate_solution(solution: &Solution) -> (ok: bool)
    ensures
        ok == routable(solution),
{
    if solution.swaps.len() == 0 || solution.swaps.len() > MAX_SWAPS || solution.given_amount == 0 {
        return false;
    }
    let slippage_fits = match solution.slippage {
        Some(s) => s <= SLIPPAGE_ONE,
        None => true,
    };
    slippage_fits && check_addresses(solution) && validate_split_percentages(&solution.swaps)
        && validate_swap_path(&solution.swaps, &solution.given_token, &solution.checked_token)
}

/// Lays out a call to the router from its parts.
pub fn pack_router_call(solution: &Solution, approval: Option<(PermitTerms, &Vec<u8>)>, swap_plan: &Vec<u8>) -> (data:
    Vec<u8>)
    requires
        addresses_whole(solution),
    ensures
        data@ == packed_call(
            solution,
            match approval {
                Some((terms, signature)) => Some((terms, signature@)),
                None => None,
            },
            swap_plan@,
        ),
{
    let mut data: Vec<u8> = Vec::new();
    match approval {
        Some((terms, signature)) => {
            append_be(&mut data, ROUTER_SWAP_PERMIT2_SELECTOR as u128, 4);
            append_fixed_fields(&mut data, solution);
            append_be(&mut data, terms.nonce as u128, WORD_LEN);
            append_be(&mut data, terms.expiration as u128, WORD_LEN);
            append_be(&mut data, terms.sig_deadline as u128, WORD_LEN);
            append(&mut data, signature);
            proof {
                assert(data@ == be_bytes(ROUTER_SWAP_PERMIT2_SELECTOR as nat, 4) + fixed_fields(solution)
                    + approval_fields(terms, signature@));
            }
        },
        None => {
            append_be(&mut data, ROUTER_SWAP_SELECTOR as u128, 4);
            append_fixed_fields(&mut data, solution);
        },
    }
    append_be(&mut data, swap_plan.len() as u128, WORD_LEN);
    append(&mut data, swap_plan);
    data
}

/// Encodes solutions for the router, which runs a plan of split swaps.
pub struct SplitSwapStrategyEncoder {
    pub chain: Chain,
    pub registry: SwapEncoderRegistry,
    /// The key that signs each solution's approval, where approvals are signed.
    pub signer: Option<Vec<u8>>,
}

/// Encodes solutions of one swap for that swap's executor.
pub struct ExecutorStrategyEncoder {
    pub registry: SwapEncoderRegistry,
}

/// The strategies that an encoder can be built with.
pub enum StrategyEncoder {
    SplitSwap(SplitSwapStrategyEncoder),
    Executor(ExecutorStrategyEncoder),
}

impl SplitSwapStrategyEncoder {
    /// The signing key's bytes, where approvals are signed.
    pub open spec fn signer_view(&self) -> Option<Seq<u8>> {
        match self.signer {
            Some(key) => Some(key@),
            None => None,
        }
    }

    /// Makes the strategy for a chain. With the text of a private key it
    /// signs an approval into every call; a malformed key is a signing fault.
    pub fn new(chain: Chain, registry: SwapEncoderRegistry, swapper_pk: Option<String>) -> (encoder: Result<
        Self,
        EncodingError,
    >)
        ensures
            match encoder {
                Ok(s) => s.chain == chain && s.registry == registry && match swapper_pk {
                    Some(text) => key_text_valid(vstd::utf8::encode_utf8(text@)) && s.signer_view() == Some(
                        key_bytes(vstd::utf8::encode_utf8(text@)),
                    ),
                    None => s.signer is None,
                },
                Err(e) => e@ == ErrorView::SigningError && (swapper_pk matches Some(text)
                    && !key_text_valid(vstd::utf8::encode_utf8(text@))),
            },
    {
        let signer = match swapper_pk {
            Some(text) => match parse_private_key(text.as_str()) {
                Ok(key) => Some(key),
                Err(e) => {
                    return Err(e);
                },
            },
            None => None,
        };
        Ok(SplitSwapStrategyEncoder { chain, registry, signer })
    }

    /// Encodes one solution as a call to the router: the call data and the
    /// router's address.
    pub fn encode_strategy(&self, solution: &Solution) -> (call: Result<(Vec<u8>, Vec<u8>), EncodingError>)
        ensures
            match call {
                Ok((data, to)) => router_call(self.registry@, solution, self.signer_view(), self.chain.spec_id())
                    == Ok::<Seq<u8>, ErrorView>(data@) && to@ == solution.router_address@,
                Err(e) => router_call(self.registry@, solution, self.signer_view(), self.chain.spec_id())
                    == Err::<Seq<u8>, ErrorView>(e@),
            },
    {
        if !validate_solution(solution) {
            return Err(EncodingError::InvalidSolution);
        }
        let context = EncodingContext {
            receiver: copy_bytes(&solution.router_address),
            exact_out: solution.exact_out,
            router_address: copy_bytes(&solution.router_address),
        };
        let swap_plan = match encode_plan(&self.registry, &solution.swaps, &context) {
            Ok(p) => p,
            Err(e) => {
                return Err(e);
            },
        };
        let data = match &self.signer {
            Some(key) => {
                let terms = match solution.permit {
                    Some(t) => t,
                    None => {
                        return Err(EncodingError::SigningError);
                    },
                };
                let signature = match sign_permit(key, solution, terms, self.chain.id()) {
                    Ok(s) => s,
                    Err(e) => {
                        return Err(e);
                    },
                };
                pack_router_call(solution, Some((terms, &signature)), &swap_plan)
            },
            None => pack_router_call(solution, None, &swap_plan),
        };
        Ok((data, copy_bytes(&solution.router_address)))
    }
}

impl ExecutorStrategyEncoder {
    pub fn new(registry: SwapEncoderRegistry) -> (encoder: Self)
        ensures
            encoder.registry == registry,
    {
        ExecutorStrategyEncoder { registry }
    }

    /// Encodes a solution of one swap as a call to that swap's executor: the
    /// call data and the executor's address.
    pub fn encode_strategy(&self, solution: &Solution) -> (call: Result<(Vec<u8>, Vec<u8>), EncodingError>)
        ensures
            match call {
                Ok((data, to)) => executor_call(self.registry@, solution) == Ok::<
                    (Seq<u8>, Seq<u8>),
                    ErrorView,
                >((data@, to@)),
                Err(e) => executor_call(self.registry@, solution) == Err::<(Seq<u8>, Seq<u8>), ErrorView>(
                    e@,
                ),
            },
    {
        if solution.swaps.len() != 1 || solution.swaps[0].split != 0 {
            return Err(EncodingError::InvalidSolution);
        }
        let swap = &solution.swaps[0];
        let encoder = match self.registry.get_encoder(&swap.component.protocol_system) {
            Ok(e) => e,
            Err(e) => {
                return Err(e);
            },
        };
        let context = EncodingContext {
            receiver: copy_bytes(&solution.receiver),
            exact_out: solution.exact_out,
            router_address: copy_bytes(&solution.router_address),
        };
        let block = match encoder.encode_swap(swap, &context) {
            Ok(b) => b,
            Err(e) => {
                return Err(e);
            },
        };
        let mut data: Vec<u8> = Vec::new();
        append(&mut data, &encoder.selector);
        append(&mut data, &block);
        Ok((data, copy_bytes(&encoder.executor_address)))
    }
}

/// A fresh byte string with the bytes of `a`.
fn copy_bytes(a: &Vec<u8>) -> (b: Vec<u8>)
    ensures
        b@ == a@,
{
    let mut b: Vec<u8> = Vec::new();
    append(&mut b, a);
    b
}

impl StrategyEncoder {
    /// The table of venue encoders that the strategy draws on.
    pub open spec fn table(&self) -> Map<Seq<char>, SwapEncoder> {
        match self {
            StrategyEncoder::SplitSwap(s) => s.registry@,
            StrategyEncoder::Executor(s) => s.registry@,
        }
    }

    /// The call data and the destination that the strategy gives for a
    /// solution, or the fault that stops it.
    pub open spec fn outcome(&self, solution: &Solution) -> Result<(Seq<u8>, Seq<u8>), ErrorView> {
        match self {
            StrategyEncoder::SplitSwap(s) => match router_call(
                s.registry@,
                solution,
                s.signer_view(),
                s.chain.spec_id(),
            ) {
                Ok(data) => Ok((data, solution.router_address@)),
                Err(e) => Err(e),
            },
            StrategyEncoder::Executor(s) => executor_call(s.registry@, solution),
        }
    }

    /// Encodes one solution: the call data and the address to send it to.
    pub fn encode_strategy(&self, solution: &Solution) -> (call: Result<(Vec<u8>, Vec<u8>), EncodingError>)
        ensures
            match call {
                Ok((data, to)) => self.outcome(solution) == Ok::<(Seq<u8>, Seq<u8>), ErrorView>((data@, to@)),
                Err(e) => self.outcome(solution) == Err::<(Seq<u8>, Seq<u8>), ErrorView>(e@),
            },
    {
        match self {
            StrategyEncoder::SplitSwap(s) => s.encode_strategy(solution),
            StrategyEncoder::Executor(s) => s.encode_strategy(solution),
        }
    }
}

/// Every swap of the solution names a venue family that the table holds.
pub open spec fn venues_registered(table: Map<Seq<char>, SwapEncoder>, swaps: Seq<Swap>) -> bool {
    forall|i: int| 0 <= i < swaps.len() ==> table.contains_key((#[trigger] swaps[i]).component.protocol_system@)
}

/// A plan that faults on an unsupported venue names a venue family of one of
/// its swaps, and the table does not hold that family.
pub proof fn lemma_unsupported_is_unregistered(
    table: Map<Seq<char>, SwapEncoder>,
    swaps: Seq<Swap>,
    receiver: Seq<u8>,
    n: nat,
    name: Seq<char>,
)
    requires
        n <= swaps.len(),
        plan(table, swaps, receiver, n) == Err::<Seq<u8>, ErrorView>(ErrorView::UnsupportedProtocol(name)),
    ensures
        !table.contains_key(name),
        exists|i: int| 0 <= i < n && (#[trigger] swaps[i]).component.protocol_system@ == name,
    decreases n,
{
    if n > 0 {
        if plan(table, swaps, receiver, (n - 1) as nat) is Err {
            lemma_unsupported_is_unregistered(table, swaps, receiver, (n - 1) as nat, name);
        } else {
            assert(swaps[n - 1].component.protocol_system@ == name);
        }
    }
}

/// Where the plan's first swaps can be encoded and the next names a venue
/// family that the table does not hold, the plan faults on that family.
pub proof fn lemma_unregistered_venue_faults(
    table: Map<Seq<char>, SwapEncoder>,
    swaps: Seq<Swap>,
    receiver: Seq<u8>,
    k: int,
)
    requires
        0 <= k < swaps.len(),
        !table.contains_key(swaps[k].component.protocol_system@),
        forall|j: int| 0 <= j < k ==> (#[trigger] plan_entry(table, swaps, receiver, j)) is Ok,
    ensures
        plan(table, swaps, receiver, swaps.len()) == Err::<Seq<u8>, ErrorView>(
            ErrorView::UnsupportedProtocol(swaps[k].component.protocol_system@),
        ),
{
    lemma_plan_whole(table, swaps, receiver, k as nat);
    lemma_plan_fault_stays(table, swaps, receiver, (k + 1) as nat, swaps.len());
}

/// A plan whose entries can all be encoded can be encoded.
proof fn lemma_plan_whole(table: Map<Seq<char>, SwapEncoder>, swaps: Seq<Swap>, receiver: Seq<u8>, n: nat)
    requires
        n <= swaps.len(),
        forall|j: int| 0 <= j < n ==> (#[trigger] plan_entry(table, swaps, receiver, j)) is Ok,
    ensures
        plan(table, swaps, receiver, n) is Ok,
    decreases n,
{
    if n > 0 {
        lemma_plan_whole(table, swaps, receiver, (n - 1) as nat);
        assert(plan_entry(table, swaps, receiver, n - 1) is Ok);
    }
}

/// A solution whose swaps all name registered venue families is never
/// refused as naming an unsupported one, whatever the strategy.
pub proof fn lemma_registered_venues_supported(strategy: &StrategyEncoder, solution: &Solution)
    requires
        venues_registered(strategy.table(), solution.swaps@),
    ensures
        !(strategy.outcome(solution) matches Err(ErrorView::UnsupportedProtocol(_))),
{
    match strategy {
        StrategyEncoder::SplitSwap(s) => {
            let p = plan(s.registry@, solution.swaps@, solution.router_address@, solution.swaps@.len());
            if let Err(ErrorView::UnsupportedProtocol(name)) = p {
                lemma_unsupported_is_unregistered(
                    s.registry@,
                    solution.swaps@,
                    solution.router_address@,
                    solution.swaps@.len(),
                    name,
                );
            }
        },
        StrategyEncoder::Executor(s) => {
            if single_full_swap(solution) {
                assert(s.registry@.contains_key(solution.swaps@[0].component.protocol_system@));
            }
        },
    }
}

/// A solution that the router strategies accept and whose first swap names a
/// venue family that the table does not hold is refused as naming an
/// unsupported venue; so is a solution of one full swap under direct
/// execution.
pub proof fn lemma_unregistered_first_venue_refused(strategy: &StrategyEncoder, solution: &Solution)
    requires
        solution.swaps@.len() > 0,
        !strategy.table().contains_key(solution.swaps@[0].component.protocol_system@),
        strategy is SplitSwap ==> routable(solution),
        strategy is Executor ==> single_full_swap(solution),
    ensures
        strategy.outcome(solution) == Err::<(Seq<u8>, Seq<u8>), ErrorView>(
            ErrorView::UnsupportedProtocol(solution.swaps@[0].component.protocol_system@),
        ),
{
    match strategy {
        StrategyEncoder::SplitSwap(s) => {
            lemma_unregistered_venue_faults(s.registry@, solution.swaps@, solution.router_address@, 0);
        },
        StrategyEncoder::Executor(s) => {},
    }
}

/// Under direct execution a solution of one full swap goes to the address of
/// its venue's executor.
pub proof fn lemma_direct_goes_to_executor(
    table: Map<Seq<char>, SwapEncoder>,
    solution: &Solution,
    data: Seq<u8>,
    to: Seq<u8>,
)
    requires
        executor_call(table, solution) == Ok::<(Seq<u8>, Seq<u8>), ErrorView>((data, to)),
    ensures
        single_full_swap(solution),
        to == table[solution.swaps@[0].component.protocol_system@].executor_address@,
{
}

} // verus!
