use sha3::Digest;
use tycho_execution::approval::{pack_signature, parse_private_key, permit_digest, sign_permit};
use tycho_execution::command::{hex_field, transaction_text, value_bytes, Cli, Commands};
use tycho_execution::encoder_builder::{default_executors, EVMEncoderBuilder};
use tycho_execution::errors::EncodingError;
use tycho_execution::models::{
    Chain, EncodingContext, PermitTerms, ProtocolComponent, Solution, StaticAttribute, Swap,
    SPLIT_ONE,
};
use tycho_execution::strategy_encoder::{
    pack_router_call, validate_solution, ExecutorStrategyEncoder, SplitSwapStrategyEncoder,
    StrategyEncoder,
};
use tycho_execution::swap_encoder::{
    ExecutorEntry, PackingFormat, SwapEncoder, SwapEncoderRegistry,
};
use tycho_execution::tycho_encoder::EVMTychoEncoder;
use tycho_execution::validation::{
    get_min_amount_for_solution, validate_split_percentages, validate_swap_path,
};

const KEY: &str = "0x4c0883a69102937d6231471b5dbb6204fe5129617082792ae468d01a3f362318";

fn addr(fill: u8) -> Vec<u8> {
    vec![fill; 20]
}

fn word(n: u128) -> Vec<u8> {
    let mut w = vec![0u8; 16];
    w.extend_from_slice(&n.to_be_bytes());
    w
}

fn addr_word(a: &[u8]) -> Vec<u8> {
    let mut w = vec![0u8; 32 - a.len()];
    w.extend_from_slice(a);
    w
}

fn component(system: &str, pool: u8, tokens: Vec<Vec<u8>>) -> ProtocolComponent {
    ProtocolComponent {
        id: format!("pool-{}", pool),
        protocol_system: system.to_string(),
        protocol_type_name: "pool".to_string(),
        chain: Chain::Ethereum,
        tokens,
        contract_ids: vec![addr(pool)],
        static_attributes: vec![StaticAttribute { name: "fee".to_string(), value: vec![0x0b, 0xb8] }],
    }
}

fn swap(system: &str, pool: u8, token_in: u8, token_out: u8, split: u32) -> Swap {
    Swap {
        component: component(system, pool, vec![addr(token_in), addr(token_out)]),
        token_in: addr(token_in),
        token_out: addr(token_out),
        split,
    }
}

fn solution(swaps: Vec<Swap>, given: u8, checked: u8) -> Solution {
    Solution {
        sender: addr(0xa1),
        receiver: addr(0xa2),
        given_token: addr(given),
        given_amount: 1_000_000,
        checked_token: addr(checked),
        exact_out: false,
        slippage: None,
        expected_amount: None,
        checked_amount: Some(990_000),
        swaps,
        router_address: addr(0xee),
        permit: None,
    }
}

fn entry(system: &str, executor: u8, format: PackingFormat) -> ExecutorEntry {
    ExecutorEntry {
        protocol_system: system.to_string(),
        encoder: SwapEncoder {
            executor_address: addr(executor),
            selector: vec![0xde, 0xad, 0xbe, 0xef],
            format,
        },
    }
}

fn table() -> Vec<ExecutorEntry> {
    vec![entry("venue_a", 0xc1, PackingFormat::Pair), entry("venue_b", 0xc2, PackingFormat::FeeTier)]
}

fn router_encoder() -> EVMTychoEncoder {
    EVMEncoderBuilder::new()
        .chain(Chain::Ethereum)
        .tycho_router(Some(table()))
        .unwrap()
        .build()
        .unwrap()
}

fn direct_encoder() -> EVMTychoEncoder {
    EVMEncoderBuilder::new()
        .chain(Chain::Ethereum)
        .direct_execution(Some(table()))
        .unwrap()
        .build()
        .unwrap()
}

fn two_way_split() -> Solution {
    solution(
        vec![swap("venue_a", 0x51, 0x01, 0x02, SPLIT_ONE / 2), swap("venue_b", 0x52, 0x01, 0x02, 0)],
        0x01,
        0x02,
    )
}

#[test]
fn builder_needs_chain_before_router() {
    let built = EVMEncoderBuilder::new().tycho_router(None);
    match built {
        Err(e) => {
            assert!(matches!(e, EncodingError::FatalError(_)));
            assert_eq!(e.message(), "Please set the chain before setting the tycho router");
        }
        Ok(_) => panic!("a router without a chain was accepted"),
    }
}

#[test]
fn builder_needs_chain_before_permit2_router() {
    let built = EVMEncoderBuilder::new().tycho_router_with_permit2(None, KEY.to_string());
    match built {
        Err(e) => assert_eq!(e.message(), "Please set the chain before setting the tycho router"),
        Ok(_) => panic!("a router without a chain was accepted"),
    }
}

#[test]
fn builder_needs_chain_before_direct_execution() {
    let built = EVMEncoderBuilder::default().direct_execution(None);
    match built {
        Err(e) => assert_eq!(e.message(), "Please set the chain before setting the strategy"),
        Ok(_) => panic!("a strategy without a chain was accepted"),
    }
}

#[test]
fn builder_needs_chain_and_strategy() {
    let no_strategy = EVMEncoderBuilder::new().chain(Chain::Ethereum).build();
    match no_strategy {
        Err(e) => {
            assert_eq!(e.message(), "Please set the chain and strategy before building the encoder")
        }
        Ok(_) => panic!("an encoder without a strategy was built"),
    }
    let registry = SwapEncoderRegistry::new(table()).unwrap();
    let no_chain = EVMEncoderBuilder::new()
        .strategy_encoder(StrategyEncoder::Executor(ExecutorStrategyEncoder::new(registry)))
        .build();
    assert!(matches!(no_chain, Err(EncodingError::FatalError(_))));
}

#[test]
fn builder_accepts_strategy_set_by_hand() {
    let registry = SwapEncoderRegistry::new(table()).unwrap();
    let strategy = SplitSwapStrategyEncoder::new(Chain::Ethereum, registry, None).unwrap();
    let encoder = EVMEncoderBuilder::new()
        .chain(Chain::Ethereum)
        .strategy_encoder(StrategyEncoder::SplitSwap(strategy))
        .build()
        .unwrap();
    assert!(encoder.encode_router_calldata(vec![two_way_split()]).is_ok());
}

#[test]
fn builder_refuses_malformed_table() {
    let short = vec![ExecutorEntry {
        protocol_system: "venue_a".to_string(),
        encoder: SwapEncoder {
            executor_address: vec![1, 2, 3],
            selector: vec![0, 0, 0, 0],
            format: PackingFormat::Pair,
        },
    }];
    let built = EVMEncoderBuilder::new().chain(Chain::Ethereum).tycho_router(Some(short));
    match built {
        Err(e) => assert_eq!(e.message(), "Malformed executor table"),
        Ok(_) => panic!("a short executor address was accepted"),
    }
    let twice = vec![entry("venue_a", 1, PackingFormat::Pair), entry("venue_a", 2, PackingFormat::Pair)];
    assert!(matches!(SwapEncoderRegistry::new(twice), Err(EncodingError::FatalError(_))));
    let bad_selector = vec![ExecutorEntry {
        protocol_system: "venue_a".to_string(),
        encoder: SwapEncoder {
            executor_address: addr(1),
            selector: vec![0, 0, 0],
            format: PackingFormat::Pair,
        },
    }];
    assert!(matches!(SwapEncoderRegistry::new(bad_selector), Err(EncodingError::FatalError(_))));
}

#[test]
fn builder_refuses_malformed_key() {
    let built = EVMEncoderBuilder::new()
        .chain(Chain::Ethereum)
        .tycho_router_with_permit2(None, "not a key".to_string());
    assert!(matches!(built, Err(EncodingError::SigningError)));
}

#[test]
fn default_table_names_two_venues() {
    let entries = default_executors();
    assert_eq!(entries.len(), 2);
    assert_eq!(entries[0].protocol_system, "uniswap_v2");
    assert_eq!(entries[0].encoder.format, PackingFormat::Pair);
    assert_eq!(entries[1].protocol_system, "uniswap_v3");
    assert_eq!(entries[1].encoder.format, PackingFormat::FeeTier);
    let registry = SwapEncoderRegistry::new(entries).unwrap();
    assert!(registry.get_encoder(&"uniswap_v2".to_string()).is_ok());
    assert!(matches!(
        registry.get_encoder(&"curve".to_string()),
        Err(EncodingError::UnsupportedProtocol(_))
    ));
}

#[test]
fn registry_finds_the_entry_of_a_family() {
    let registry = SwapEncoderRegistry::new(table()).unwrap();
    let found = registry.get_encoder(&"venue_b".to_string()).unwrap();
    assert_eq!(found.executor_address, addr(0xc2));
    assert_eq!(found.format, PackingFormat::FeeTier);
}

#[test]
fn split_of_half_then_rest_is_valid() {
    let s = two_way_split();
    assert!(validate_split_percentages(&s.swaps));
    assert!(validate_solution(&s));
    let t = router_encoder().encode_router_calldata(vec![s]);
    assert!(t.is_ok());
}

#[test]
fn split_with_share_on_final_swap_is_invalid() {
    let s = solution(
        vec![
            swap("venue_a", 0x51, 0x01, 0x02, SPLIT_ONE / 2),
            swap("venue_b", 0x52, 0x01, 0x02, SPLIT_ONE / 4),
        ],
        0x01,
        0x02,
    );
    assert!(!validate_split_percentages(&s.swaps));
    let t = router_encoder().encode_router_calldata(vec![s]);
    assert!(matches!(t, Err(EncodingError::InvalidSolution)));
}

#[test]
fn split_rules_on_edge_cases() {
    // A single swap has to take everything.
    assert!(validate_split_percentages(&vec![swap("venue_a", 1, 1, 2, 0)]));
    assert!(!validate_split_percentages(&vec![swap("venue_a", 1, 1, 2, 5)]));
    // A swap that is not the last of its token has to name a share.
    assert!(!validate_split_percentages(&vec![swap("venue_a", 1, 1, 2, 0), swap("venue_a", 2, 1, 2, 0)]));
    // A share of one or more is out of range.
    assert!(!validate_split_percentages(&vec![
        swap("venue_a", 1, 1, 2, SPLIT_ONE),
        swap("venue_a", 2, 1, 2, 0)
    ]));
    // Shares that sum to one or more leave nothing for the last swap.
    assert!(!validate_split_percentages(&vec![
        swap("venue_a", 1, 1, 2, SPLIT_ONE / 2 + 1),
        swap("venue_a", 2, 1, 2, SPLIT_ONE / 2),
        swap("venue_a", 3, 1, 2, 0)
    ]));
    assert!(validate_split_percentages(&vec![
        swap("venue_a", 1, 1, 2, SPLIT_ONE / 2),
        swap("venue_a", 2, 1, 2, SPLIT_ONE / 2 - 1),
        swap("venue_a", 3, 1, 2, 0)
    ]));
    // Tokens are told apart: each has its own distribution.
    assert!(validate_split_percentages(&vec![
        swap("venue_a", 1, 1, 2, SPLIT_ONE / 2),
        swap("venue_a", 2, 2, 3, 0),
        swap("venue_a", 3, 1, 3, 0)
    ]));
    assert!(validate_split_percentages(&vec![]));
}

#[test]
fn swap_path_has_to_connect() {
    let hops = vec![swap("venue_a", 1, 1, 2, 0), swap("venue_a", 2, 2, 3, 0)];
    assert!(validate_swap_path(&hops, &addr(1), &addr(3)));
    // The checked token is never put out.
    assert!(!validate_swap_path(&hops, &addr(1), &addr(4)));
    // The first swap does not draw on the given token.
    assert!(!validate_swap_path(&hops, &addr(2), &addr(3)));
    // A swap draws on a token that comes only later.
    let reversed = vec![swap("venue_a", 2, 2, 3, 0), swap("venue_a", 1, 1, 2, 0)];
    assert!(!validate_swap_path(&reversed, &addr(1), &addr(3)));
    assert!(!validate_swap_path(&vec![], &addr(1), &addr(1)));
}

#[test]
fn invalid_solutions_are_refused() {
    let encoder = router_encoder();
    let empty = solution(vec![], 1, 2);
    assert!(matches!(encoder.encode_router_calldata(vec![empty]), Err(EncodingError::InvalidSolution)));
    let mut nothing_given = two_way_split();
    nothing_given.given_amount = 0;
    assert!(matches!(
        encoder.encode_router_calldata(vec![nothing_given]),
        Err(EncodingError::InvalidSolution)
    ));
    let mut too_tolerant = two_way_split();
    too_tolerant.slippage = Some(10_001);
    assert!(matches!(
        encoder.encode_router_calldata(vec![too_tolerant]),
        Err(EncodingError::InvalidSolution)
    ));
    let mut short_address = two_way_split();
    short_address.router_address = vec![1, 2, 3];
    assert!(matches!(
        encoder.encode_router_calldata(vec![short_address]),
        Err(EncodingError::InvalidSolution)
    ));
    let disconnected = solution(vec![swap("venue_a", 1, 3, 4, 0)], 1, 4);
    assert!(matches!(
        encoder.encode_router_calldata(vec![disconnected]),
        Err(EncodingError::InvalidSolution)
    ));
}

#[test]
fn minimum_output_rounds_down() {
    let mut s = two_way_split();
    s.checked_amount = None;
    s.expected_amount = Some(1000);
    s.slippage = Some(100);
    assert_eq!(get_min_amount_for_solution(&s), 990);
    s.expected_amount = Some(999);
    // 999 * 0.99 = 989.01
    assert_eq!(get_min_amount_for_solution(&s), 989);
    s.expected_amount = Some(1);
    assert_eq!(get_min_amount_for_solution(&s), 0);
    s.expected_amount = Some(u128::MAX);
    s.slippage = Some(0);
    assert_eq!(get_min_amount_for_solution(&s), u128::MAX);
    s.slippage = Some(10_000);
    assert_eq!(get_min_amount_for_solution(&s), 0);
    s.slippage = Some(5_000);
    assert_eq!(get_min_amount_for_solution(&s), u128::MAX / 2);
}

#[test]
fn minimum_output_prefers_checked_amount() {
    let mut s = two_way_split();
    s.checked_amount = Some(123);
    s.expected_amount = Some(1000);
    s.slippage = Some(100);
    assert_eq!(get_min_amount_for_solution(&s), 123);
    s.checked_amount = None;
    s.slippage = None;
    assert_eq!(get_min_amount_for_solution(&s), 1000);
    s.expected_amount = None;
    assert_eq!(get_min_amount_for_solution(&s), 0);
}

#[test]
fn venue_encoder_packs_pair_layout() {
    let encoder = SwapEncoder { executor_address: addr(9), selector: vec![1, 2, 3, 4], format: PackingFormat::Pair };
    let context = EncodingContext { receiver: addr(0xa2), exact_out: false, router_address: addr(0xee) };
    let forward = encoder.encode_swap(&swap("venue_a", 0x51, 0x01, 0x02, 0), &context).unwrap();
    let mut expected = addr(0x01);
    expected.extend(addr(0x51));
    expected.extend(addr(0xa2));
    expected.push(1);
    assert_eq!(forward, expected);
    let mut back = swap("venue_a", 0x51, 0x01, 0x02, 0);
    back.token_in = addr(0x02);
    back.token_out = addr(0x01);
    let backward = encoder.encode_swap(&back, &context).unwrap();
    assert_eq!(backward[60], 0);
    assert_eq!(&backward[..20], &addr(0x02)[..]);
}

#[test]
fn venue_encoder_packs_fee_tier_layout() {
    let encoder =
        SwapEncoder { executor_address: addr(9), selector: vec![1, 2, 3, 4], format: PackingFormat::FeeTier };
    let context = EncodingContext { receiver: addr(0xa2), exact_out: false, router_address: addr(0xee) };
    let block = encoder.encode_swap(&swap("venue_b", 0x51, 0x01, 0x02, 0), &context).unwrap();
    let mut expected = addr(0x01);
    expected.extend(addr(0x02));
    expected.extend(vec![0x00, 0x0b, 0xb8]);
    expected.extend(addr(0xa2));
    expected.extend(addr(0x51));
    expected.push(1);
    assert_eq!(block, expected);
}

#[test]
fn venue_encoder_refuses_what_it_cannot_pack() {
    let pair = SwapEncoder { executor_address: addr(9), selector: vec![1, 2, 3, 4], format: PackingFormat::Pair };
    let tier = SwapEncoder { executor_address: addr(9), selector: vec![1, 2, 3, 4], format: PackingFormat::FeeTier };
    let context = EncodingContext { receiver: addr(0xa2), exact_out: false, router_address: addr(0xee) };
    let mut stranger = swap("venue_a", 0x51, 0x01, 0x02, 0);
    stranger.token_in = addr(0x07);
    assert!(matches!(pair.encode_swap(&stranger, &context), Err(EncodingError::EncodingFailed)));
    let mut no_pool = swap("venue_a", 0x51, 0x01, 0x02, 0);
    no_pool.component.contract_ids = vec![];
    assert!(matches!(pair.encode_swap(&no_pool, &context), Err(EncodingError::EncodingFailed)));
    let mut no_fee = swap("venue_b", 0x51, 0x01, 0x02, 0);
    no_fee.component.static_attributes = vec![];
    assert!(matches!(tier.encode_swap(&no_fee, &context), Err(EncodingError::EncodingFailed)));
    assert!(pair.encode_swap(&no_fee, &context).is_ok());
    let mut wide_fee = swap("venue_b", 0x51, 0x01, 0x02, 0);
    wide_fee.component.static_attributes[0].value = vec![1, 2, 3, 4];
    assert!(matches!(tier.encode_swap(&wide_fee, &context), Err(EncodingError::EncodingFailed)));
    let short = EncodingContext { receiver: vec![1], exact_out: false, router_address: addr(0xee) };
    assert!(matches!(
        pair.encode_swap(&swap("venue_a", 0x51, 0x01, 0x02, 0), &short),
        Err(EncodingError::EncodingFailed)
    ));
}

#[test]
fn direct_execution_goes_to_the_executor() {
    let s = solution(vec![swap("venue_a", 0x51, 0x01, 0x02, 0)], 0x01, 0x02);
    let t = direct_encoder().encode_router_calldata(vec![s]).unwrap();
    assert_eq!(t.len(), 1);
    assert_eq!(t[0].to, addr(0xc1));
    assert_ne!(t[0].to, addr(0xee));
    assert_eq!(t[0].value, 0);
    let mut expected = vec![0xde, 0xad, 0xbe, 0xef];
    expected.extend(addr(0x01));
    expected.extend(addr(0x51));
    expected.extend(addr(0xa2));
    expected.push(1);
    assert_eq!(t[0].data, expected);
}

#[test]
fn direct_execution_refuses_more_than_one_full_swap() {
    let encoder = direct_encoder();
    assert!(matches!(
        encoder.encode_router_calldata(vec![two_way_split()]),
        Err(EncodingError::InvalidSolution)
    ));
    let partial = solution(vec![swap("venue_a", 0x51, 0x01, 0x02, 7)], 0x01, 0x02);
    assert!(matches!(encoder.encode_router_calldata(vec![partial]), Err(EncodingError::InvalidSolution)));
    let none = solution(vec![], 0x01, 0x02);
    assert!(matches!(encoder.encode_router_calldata(vec![none]), Err(EncodingError::InvalidSolution)));
}

#[test]
fn unsupported_venue_is_named() {
    let s = solution(vec![swap("venue_z", 0x51, 0x01, 0x02, 0)], 0x01, 0x02);
    for encoder in [router_encoder(), direct_encoder()] {
        match encoder.encode_router_calldata(vec![s.clone()]) {
            Err(EncodingError::UnsupportedProtocol(name)) => assert_eq!(name, "venue_z"),
            other => panic!("expected an unsupported venue, got {:?}", other),
        }
    }
    let known = solution(vec![swap("venue_a", 0x51, 0x01, 0x02, 0)], 0x01, 0x02);
    assert!(router_encoder().encode_router_calldata(vec![known.clone()]).is_ok());
    assert!(direct_encoder().encode_router_calldata(vec![known]).is_ok());
}

#[test]
fn router_call_has_the_stated_layout() {
    let s = two_way_split();
    let t = router_encoder().encode_router_calldata(vec![s]).unwrap();
    assert_eq!(t[0].to, addr(0xee));
    assert_eq!(t[0].value, 0);

    let mut first = vec![0u8, 1u8, 0x7f, 0xff, 0xff];
    first.extend(addr(0xc1));
    first.extend(vec![0xde, 0xad, 0xbe, 0xef]);
    first.extend(addr(0x01));
    first.extend(addr(0x51));
    first.extend(addr(0xee));
    first.push(1);
    let mut second = vec![0u8, 1u8, 0, 0, 0];
    second.extend(addr(0xc2));
    second.extend(vec![0xde, 0xad, 0xbe, 0xef]);
    second.extend(addr(0x01));
    second.extend(addr(0x02));
    second.extend(vec![0x00, 0x0b, 0xb8]);
    second.extend(addr(0xee));
    second.extend(addr(0x52));
    second.push(1);
    let mut plan = vec![0u8, first.len() as u8];
    plan.extend(first);
    plan.extend(vec![0u8, second.len() as u8]);
    plan.extend(second);

    let mut expected = vec![0x0a, 0x83, 0xcb, 0x08];
    expected.extend(word(1_000_000));
    expected.extend(addr_word(&addr(0x01)));
    expected.extend(addr_word(&addr(0x02)));
    expected.extend(word(990_000));
    expected.extend(word(0));
    expected.extend(addr_word(&addr(0xa1)));
    expected.extend(addr_word(&addr(0xa2)));
    expected.extend(word(plan.len() as u128));
    expected.extend(plan);
    assert_eq!(t[0].data, expected);
}

#[test]
fn token_slots_follow_first_use() {
    let s = solution(
        vec![swap("venue_a", 0x51, 0x01, 0x02, 0), swap("venue_a", 0x52, 0x02, 0x03, 0)],
        0x01,
        0x03,
    );
    let t = router_encoder().encode_router_calldata(vec![s]).unwrap();
    let plan_start = 4 + 8 * 32;
    let entry_len = t[0].data[plan_start + 1] as usize;
    // First swap: slots 0 and 1.
    assert_eq!(&t[0].data[plan_start + 2..plan_start + 4], &[0u8, 1u8][..]);
    // Second swap takes in what the first put out (slot 1) and opens slot 3.
    let second = plan_start + 2 + entry_len;
    assert_eq!(&t[0].data[second + 2..second + 4], &[1u8, 3u8][..]);
}

#[test]
fn native_input_carries_value() {
    let s = solution(vec![swap("venue_a", 0x51, 0x00, 0x02, 0)], 0x00, 0x02);
    let t = router_encoder().encode_router_calldata(vec![s]).unwrap();
    assert_eq!(t[0].value, 1_000_000);
}

#[test]
fn encoding_twice_gives_the_same_bytes() {
    let encoder = router_encoder();
    let a = encoder.encode_router_calldata(vec![two_way_split()]).unwrap();
    let b = encoder.encode_router_calldata(vec![two_way_split()]).unwrap();
    assert_eq!(a[0].data, b[0].data);
    assert_eq!(a[0].to, b[0].to);
    let signer = permit_encoder();
    let mut s = two_way_split();
    s.permit = Some(terms());
    let c = signer.encode_router_calldata(vec![s.clone()]).unwrap();
    let d = signer.encode_router_calldata(vec![s]).unwrap();
    assert_eq!(c[0].data, d[0].data);
}

#[test]
fn order_of_solutions_is_kept() {
    let encoder = router_encoder();
    let s1 = two_way_split();
    let s2 = solution(vec![swap("venue_a", 0x53, 0x03, 0x04, 0)], 0x03, 0x04);
    let forward = encoder.encode_router_calldata(vec![s1.clone(), s2.clone()]).unwrap();
    let backward = encoder.encode_router_calldata(vec![s2, s1]).unwrap();
    assert_eq!(forward.len(), 2);
    assert_eq!(backward.len(), 2);
    assert_ne!(forward[0].data, forward[1].data);
    assert_eq!(forward[0].data, backward[1].data);
    assert_eq!(forward[1].data, backward[0].data);
}

#[test]
fn first_fault_ends_the_call() {
    let encoder = router_encoder();
    let good = two_way_split();
    let unknown = solution(vec![swap("venue_z", 0x51, 0x01, 0x02, 0)], 0x01, 0x02);
    let invalid = solution(vec![], 0x01, 0x02);
    let r = encoder.encode_router_calldata(vec![good.clone(), unknown.clone(), invalid.clone()]);
    assert!(matches!(r, Err(EncodingError::UnsupportedProtocol(_))));
    let r = encoder.encode_router_calldata(vec![good, invalid, unknown]);
    assert!(matches!(r, Err(EncodingError::InvalidSolution)));
    assert_eq!(encoder.encode_router_calldata(vec![]).unwrap().len(), 0);
}

fn terms() -> PermitTerms {
    PermitTerms { nonce: 7, expiration: 1_800_000_000, sig_deadline: 1_700_000_000 }
}

fn permit_encoder() -> EVMTychoEncoder {
    EVMEncoderBuilder::new()
        .chain(Chain::Ethereum)
        .tycho_router_with_permit2(Some(table()), KEY.to_string())
        .unwrap()
        .build()
        .unwrap()
}

fn keccak(data: &[u8]) -> Vec<u8> {
    sha3::Keccak256::digest(data).to_vec()
}

#[test]
fn key_text_is_read_as_hex() {
    let key = parse_private_key(KEY).unwrap();
    assert_eq!(key.len(), 32);
    assert_eq!(key[0], 0x4c);
    assert_eq!(key[1], 0x08);
    assert_eq!(key[31], 0x18);
    assert_eq!(parse_private_key(&KEY[2..]).unwrap(), key);
    assert_eq!(parse_private_key(&KEY.to_uppercase().replace("0X", "0x")).unwrap(), key);
    assert!(matches!(parse_private_key(""), Err(EncodingError::SigningError)));
    assert!(matches!(parse_private_key(&KEY[..65]), Err(EncodingError::SigningError)));
    assert!(matches!(parse_private_key(&KEY.replace('4', "g")), Err(EncodingError::SigningError)));
}

#[test]
fn permit_digest_is_the_typed_data_hash() {
    let mut s = two_way_split();
    s.permit = Some(terms());
    let digest = permit_digest(&s, terms(), 1);
    assert_eq!(digest.len(), 32);

    let mut domain = keccak(b"EIP712Domain(string name,uint256 chainId,address verifyingContract)");
    domain.extend(keccak(b"Permit2"));
    domain.extend(word(1));
    domain.extend(addr_word(&[
        0x00, 0x00, 0x00, 0x00, 0x00, 0x22, 0xd4, 0x73, 0x03, 0x0f, 0x11, 0x6d, 0xde, 0xe9, 0xf6, 0xb4,
        0x3a, 0xc7, 0x8b, 0xa3,
    ]));
    let details_type = b"PermitDetails(address token,uint160 amount,uint48 expiration,uint48 nonce)";
    let mut details = keccak(details_type);
    details.extend(addr_word(&addr(0x01)));
    details.extend(word(1_000_000));
    details.extend(word(1_800_000_000));
    details.extend(word(7));
    let mut single_type = b"PermitSingle(PermitDetails details,address spender,uint256 sigDeadline)".to_vec();
    single_type.extend_from_slice(details_type);
    let mut permit = keccak(&single_type);
    permit.extend(keccak(&details));
    permit.extend(addr_word(&addr(0xee)));
    permit.extend(word(1_700_000_000));
    let mut message = vec![0x19, 0x01];
    message.extend(keccak(&domain));
    message.extend(keccak(&permit));
    assert_eq!(digest, keccak(&message));

    // Another chain gives another hash.
    assert_ne!(permit_digest(&s, terms(), 42161), digest);
}

#[test]
fn signed_approval_recovers_to_the_signer() {
    let mut s = two_way_split();
    s.permit = Some(terms());
    let t = permit_encoder().encode_router_calldata(vec![s.clone()]).unwrap();
    let data = &t[0].data;
    assert_eq!(&data[..4], &[0xd4, 0x99, 0xaa, 0x88][..]);
    let at = 4 + 7 * 32;
    assert_eq!(&data[at..at + 32], &word(7)[..]);
    assert_eq!(&data[at + 32..at + 64], &word(1_800_000_000)[..]);
    assert_eq!(&data[at + 64..at + 96], &word(1_700_000_000)[..]);
    let signature = &data[at + 96..at + 96 + 65];
    assert!(signature[64] == 27 || signature[64] == 28);

    let key = parse_private_key(KEY).unwrap();
    let digest = permit_digest(&s, terms(), 1);
    let signing_key = k256::ecdsa::SigningKey::from_slice(&key).unwrap();
    let parsed = k256::ecdsa::Signature::from_slice(&signature[..64]).unwrap();
    let id = k256::ecdsa::RecoveryId::from_byte(signature[64] - 27).unwrap();
    let recovered = k256::ecdsa::VerifyingKey::recover_from_prehash(&digest, &parsed, id).unwrap();
    assert_eq!(&recovered, signing_key.verifying_key());

    assert_eq!(sign_permit(&key, &s, terms(), 1).unwrap(), signature.to_vec());
}

#[test]
fn signing_faults_are_reported() {
    let encoder = permit_encoder();
    // No terms to sign.
    let r = encoder.encode_router_calldata(vec![two_way_split()]);
    assert!(matches!(r, Err(EncodingError::SigningError)));
    // A key that is no scalar of the curve.
    let mut s = two_way_split();
    s.permit = Some(terms());
    let zero = vec![0u8; 32];
    assert!(matches!(sign_permit(&zero, &s, terms(), 1), Err(EncodingError::SigningError)));
    let zero_text = "00".repeat(32);
    let built = EVMEncoderBuilder::new()
        .chain(Chain::Ethereum)
        .tycho_router_with_permit2(Some(table()), zero_text)
        .unwrap()
        .build()
        .unwrap();
    assert!(matches!(built.encode_router_calldata(vec![s]), Err(EncodingError::SigningError)));
}

#[test]
fn signature_ends_in_recovery_byte() {
    let scalars = vec![0x11u8; 64];
    let packed = pack_signature(&scalars, 1);
    assert_eq!(packed.len(), 65);
    assert_eq!(&packed[..64], &scalars[..]);
    assert_eq!(packed[64], 28);
    assert_eq!(pack_signature(&scalars, 0)[64], 27);
}

#[test]
fn router_call_is_packed_from_its_parts() {
    let s = two_way_split();
    let plan = vec![1u8, 2, 3];
    let plain = pack_router_call(&s, None, &plan);
    assert_eq!(plain.len(), 4 + 7 * 32 + 32 + 3);
    assert_eq!(&plain[plain.len() - 3..], &plan[..]);
    let signature = vec![0x22u8; 65];
    let signed = pack_router_call(&s, Some((terms(), &signature)), &plan);
    assert_eq!(signed.len(), 4 + 7 * 32 + 3 * 32 + 65 + 32 + 3);
    assert_eq!(&signed[4 + 10 * 32..4 + 10 * 32 + 65], &signature[..]);
}

#[test]
fn error_messages_read_plainly() {
    assert_eq!(EncodingError::InvalidSolution.message(), "invalid solution");
    assert_eq!(EncodingError::SigningError.message(), "signing failed");
    assert_eq!(EncodingError::EncodingFailed.message(), "swap could not be encoded");
    assert_eq!(EncodingError::UnsupportedProtocol("x".to_string()).message(), "x");
    assert_eq!(Chain::Ethereum.id(), 1);
    assert_eq!(Chain::Arbitrum.id(), 42161);
}

#[test]
fn command_picks_the_strategy() {
    let direct = Cli { command: Commands::DirectExecution { config_path: None } }.encoder(Some(table())).unwrap();
    assert!(matches!(direct.strategy, StrategyEncoder::Executor(_)));
    let router = Cli { command: Commands::TychoRouter { config_path: None } }.encoder(None).unwrap();
    assert!(matches!(&router.strategy, StrategyEncoder::SplitSwap(s) if s.signer.is_none()));
    assert_eq!(router.chain, Chain::Ethereum);
    let signing = Cli {
        command: Commands::TychoRouterPermit2 { config_path: None, swapper_pk: KEY.to_string() },
    }
    .encoder(Some(table()))
    .unwrap();
    assert!(matches!(&signing.strategy, StrategyEncoder::SplitSwap(s) if s.signer.is_some()));
    let bad_key = Cli {
        command: Commands::TychoRouterPermit2 { config_path: None, swapper_pk: "0x12".to_string() },
    }
    .encoder(Some(table()));
    assert!(matches!(bad_key, Err(EncodingError::SigningError)));
    let bad_table = Cli { command: Commands::TychoRouter { config_path: None } }
        .encoder(Some(vec![entry("venue_a", 1, PackingFormat::Pair), entry("venue_a", 1, PackingFormat::Pair)]));
    assert!(matches!(bad_table, Err(EncodingError::FatalError(_))));
}

#[test]
fn fields_are_written_in_hex() {
    assert_eq!(hex_field(&vec![1, 2, 3, 15, 16]), "0x0102030f10");
    assert_eq!(hex_field(&vec![]), "0x");
    assert_eq!(hex_field(&vec![0xab, 0xcd, 0xef]), "0xabcdef");
    assert_eq!(value_bytes(0), vec![0]);
    assert_eq!(value_bytes(255), vec![255]);
    assert_eq!(value_bytes(256), vec![1, 0]);
    assert_eq!(value_bytes(1_000_000), vec![0x0f, 0x42, 0x40]);
    assert_eq!(value_bytes(u128::MAX), vec![0xff; 16]);
    let s = solution(vec![swap("venue_a", 0x51, 0x00, 0x02, 0)], 0x00, 0x02);
    let t = direct_encoder().encode_router_calldata(vec![s]).unwrap();
    let text = transaction_text(&t[0]);
    assert_eq!(text.to, format!("0x{}", "c1".repeat(20)));
    assert_eq!(text.value, "0x0f4240");
    assert!(text.data.starts_with("0xdeadbeef0000"));
}

#[test]
fn layout_tags_are_read() {
    assert_eq!(PackingFormat::from_tag(&"pair".to_string()), Some(PackingFormat::Pair));
    assert_eq!(PackingFormat::from_tag(&"fee_tier".to_string()), Some(PackingFormat::FeeTier));
    assert_eq!(PackingFormat::from_tag(&"Pair".to_string()), None);
    assert_eq!(PackingFormat::from_tag(&"".to_string()), None);
}
