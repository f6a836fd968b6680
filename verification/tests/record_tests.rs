use jupiter_swap_api_client::decimal::Decimal;
use jupiter_swap_api_client::errors::DecodeError;
use jupiter_swap_api_client::json::JsonMember;
use jupiter_swap_api_client::json::JsonValue;
use jupiter_swap_api_client::pubkey::Pubkey;
use jupiter_swap_api_client::quote::InstructionVersion;
use jupiter_swap_api_client::quote::InternalQuoteRequest;
use jupiter_swap_api_client::quote::PlatformFee;
use jupiter_swap_api_client::quote::QuoteRequest;
use jupiter_swap_api_client::quote::QuoteResponse;
use jupiter_swap_api_client::quote::SwapMode;
use jupiter_swap_api_client::route_plan_with_metadata::RoutePlanStep;
use jupiter_swap_api_client::route_plan_with_metadata::SwapInfo;

const WSOL: &str = "So11111111111111111111111111111111111111112";
const USDC: &str = "EPjFWdd5AufqSSqeM2qN1xzybapC8G4wEGGkZwyTDt1v";
const AMM: &str = "675kPX9MHTjS2zt1qfr1NYHuzeLXfQM9H24wFSUt1Mp8";

fn key(s: &str) -> Pubkey {
    Pubkey::from_base58(s).unwrap()
}

fn obj_keys(v: &JsonValue) -> Vec<String> {
    match v {
        JsonValue::Obj(ms) => ms.iter().map(|m| m.key.clone()).collect(),
        _ => panic!("expected an object"),
    }
}

fn member(key: &str, value: JsonValue) -> JsonMember {
    JsonMember { key: key.to_string(), value }
}

fn s(text: &str) -> JsonValue {
    JsonValue::Str(text.to_string())
}

fn sample_request() -> QuoteRequest {
    QuoteRequest {
        input_mint: key(WSOL),
        output_mint: key(USDC),
        amount: 1_000_000,
        slippage_bps: 50,
        swap_mode: Some(SwapMode::ExactIn),
        dexes: Some("Raydium,Orca".to_string()),
        excluded_dexes: None,
        restrict_intermediate_tokens: Some(true),
        only_direct_routes: None,
        as_legacy_transaction: Some(false),
        platform_fee_bps: Some(20),
        max_accounts: Some(64),
        instruction_version: Some(InstructionVersion::V2),
    }
}

fn sample_swap_info() -> SwapInfo {
    SwapInfo {
        amm_key: key(AMM),
        label: "ExampleDex".to_string(),
        input_mint: key(WSOL),
        output_mint: key(USDC),
        in_amount: 1_000_000,
        out_amount: 998_500,
        fee_amount: Some(1_500),
        fee_mint: Some(key(WSOL)),
    }
}

fn sample_response() -> QuoteResponse {
    QuoteResponse {
        input_mint: key(WSOL),
        in_amount: 1_000_000,
        output_mint: key(USDC),
        out_amount: 998_500,
        other_amount_threshold: 993_508,
        swap_mode: SwapMode::ExactIn,
        slippage_bps: 50,
        platform_fee: Some(PlatformFee { amount: 200, fee_bps: 2 }),
        price_impact_pct: Decimal::new(false, 15, 4).unwrap(),
        route_plan: vec![RoutePlanStep { swap_info: sample_swap_info(), percent: 100, bps: Some(10) }],
        context_slot: 277_930_679,
        time_taken: Decimal::new(false, 23, 3).unwrap(),
    }
}

#[test]
fn request_round_trips_with_options_set() {
    let q = sample_request();
    let wire = q.to_json();
    let back = QuoteRequest::from_json(&wire).unwrap();
    assert_eq!(back, q);
}

#[test]
fn request_round_trips_with_options_unset_and_boundary_amounts() {
    for amount in [0u64, u64::MAX] {
        let mut q = QuoteRequest::default();
        q.amount = amount;
        let wire = q.to_json();
        let back = QuoteRequest::from_json(&wire).unwrap();
        assert_eq!(back, q);
        assert_eq!(back.amount, amount);
    }
}

#[test]
fn request_omits_absent_optional_fields() {
    let q = QuoteRequest::default();
    let keys = obj_keys(&q.to_json());
    assert_eq!(keys, vec!["inputMint", "outputMint", "amount", "slippageBps"]);
    let full = sample_request();
    let keys = obj_keys(&full.to_json());
    assert!(keys.contains(&"dexes".to_string()));
    assert!(!keys.contains(&"excludedDexes".to_string()));
    assert!(!keys.contains(&"onlyDirectRoutes".to_string()));
}

#[test]
fn request_default_has_recommended_slippage() {
    let q = QuoteRequest::default();
    assert_eq!(q.amount, 0);
    assert_eq!(q.slippage_bps, 50);
    assert!(q.swap_mode.is_none());
    assert!(q.instruction_version.is_none());
    assert_eq!(q.input_mint.to_base58(), "11111111111111111111111111111111");
    let i = InternalQuoteRequest::default();
    assert_eq!(i.slippage_bps, 0);
}

#[test]
fn narrowing_conversion_preserves_fields() {
    let q = sample_request();
    let i = InternalQuoteRequest::from(q.clone());
    assert_eq!(i.input_mint, q.input_mint);
    assert_eq!(i.output_mint, q.output_mint);
    assert_eq!(i.amount, q.amount);
    assert_eq!(i.slippage_bps, q.slippage_bps);
    assert_eq!(i.swap_mode, q.swap_mode);
    assert_eq!(i.dexes, q.dexes);
    assert_eq!(i.excluded_dexes, q.excluded_dexes);
    assert_eq!(i.restrict_intermediate_tokens, q.restrict_intermediate_tokens);
    assert_eq!(i.only_direct_routes, q.only_direct_routes);
    assert_eq!(i.as_legacy_transaction, q.as_legacy_transaction);
    assert_eq!(i.platform_fee_bps, q.platform_fee_bps);
    assert_eq!(i.max_accounts, q.max_accounts);
    assert_eq!(i.instruction_version, q.instruction_version);
    assert_eq!(obj_keys(&i.to_json()), obj_keys(&q.to_json()));
}

#[test]
fn response_round_trips_with_fee_and_plan() {
    let r = sample_response();
    let wire = r.to_json();
    let back = QuoteResponse::from_json(&wire).unwrap();
    assert_eq!(back, r);
}

#[test]
fn response_round_trips_without_optional_fields() {
    let mut r = sample_response();
    r.platform_fee = None;
    r.route_plan[0].bps = None;
    r.route_plan[0].swap_info.fee_amount = None;
    r.route_plan[0].swap_info.fee_mint = None;
    let wire = r.to_json();
    let keys = obj_keys(&wire);
    assert!(!keys.contains(&"platformFee".to_string()));
    let back = QuoteResponse::from_json(&wire).unwrap();
    assert_eq!(back, r);
}

#[test]
fn swap_info_omits_absent_fee_fields() {
    let mut si = sample_swap_info();
    si.fee_amount = None;
    si.fee_mint = None;
    let keys = obj_keys(&si.to_json());
    assert!(!keys.contains(&"feeAmount".to_string()));
    assert!(!keys.contains(&"feeMint".to_string()));
    let with = sample_swap_info();
    let keys = obj_keys(&with.to_json());
    assert!(keys.contains(&"feeAmount".to_string()));
    assert!(keys.contains(&"feeMint".to_string()));
}

fn minimal_response_members() -> Vec<JsonMember> {
    vec![
        member("inputMint", s(WSOL)),
        member("inAmount", s("1000000")),
        member("outputMint", s(USDC)),
        member("outAmount", s("998500")),
        member("otherAmountThreshold", s("993508")),
        member("swapMode", s("ExactIn")),
        member("slippageBps", JsonValue::UInt(50)),
        member("priceImpactPct", s("0.0015")),
        member(
            "routePlan",
            JsonValue::Arr(vec![JsonValue::Obj(vec![
                member(
                    "swapInfo",
                    JsonValue::Obj(vec![
                        member("ammKey", s(AMM)),
                        member("label", s("ExampleDex")),
                        member("inputMint", s(WSOL)),
                        member("outputMint", s(USDC)),
                        member("inAmount", s("1000000")),
                        member("outAmount", s("998500")),
                    ]),
                ),
                member("percent", JsonValue::UInt(100)),
            ])]),
        ),
    ]
}

#[test]
fn response_defaults_apply_only_on_absence() {
    let payload = JsonValue::Obj(minimal_response_members());
    let r = QuoteResponse::from_json(&payload).unwrap();
    assert_eq!(r.context_slot, 0);
    assert_eq!(r.time_taken, Decimal::zero());
}

#[test]
fn example_payload_decodes_end_to_end() {
    let payload = JsonValue::Obj(minimal_response_members());
    let r = QuoteResponse::from_json(&payload).unwrap();
    assert_eq!(r.in_amount, 1_000_000);
    assert_eq!(r.out_amount, 998_500);
    assert_eq!(r.slippage_bps, 50);
    assert_eq!(r.swap_mode, SwapMode::ExactIn);
    assert_eq!(r.route_plan.len(), 1);
    let step = &r.route_plan[0];
    assert_eq!(step.percent, 100);
    assert!(step.bps.is_none());
    assert_eq!(step.swap_info.label, "ExampleDex");
    assert_eq!(step.swap_info.in_amount, 1_000_000);
    assert_eq!(step.swap_info.out_amount, 998_500);
    assert!(step.swap_info.fee_amount.is_none());
    assert!(step.swap_info.fee_mint.is_none());
    assert_eq!(step.swap_info.input_mint.to_base58(), WSOL);
}

#[test]
fn malformed_amount_is_a_format_error() {
    let mut ms = minimal_response_members();
    ms[1] = member("inAmount", s("12a4"));
    let err = QuoteResponse::from_json(&JsonValue::Obj(ms)).unwrap_err();
    match err {
        DecodeError::Format { field, raw } => {
            assert_eq!(field, "inAmount");
            assert_eq!(raw, "12a4");
        },
        _ => panic!("expected a format error"),
    }
}

#[test]
fn missing_mandatory_field_is_reported() {
    let ms: Vec<JsonMember> = minimal_response_members().into_iter().skip(1).collect();
    let err = QuoteResponse::from_json(&JsonValue::Obj(ms)).unwrap_err();
    match err {
        DecodeError::MissingField { field } => assert_eq!(field, "inputMint"),
        _ => panic!("expected a missing-field error"),
    }
}

#[test]
fn unknown_swap_mode_is_an_enum_error() {
    let mut ms = minimal_response_members();
    ms[5] = member("swapMode", s("Sideways"));
    let err = QuoteResponse::from_json(&JsonValue::Obj(ms)).unwrap_err();
    match err {
        DecodeError::UnknownEnumValue { field, raw } => {
            assert_eq!(field, "swapMode");
            assert_eq!(raw, "Sideways");
        },
        _ => panic!("expected an unknown-value error"),
    }
}

#[test]
fn wrong_shape_is_a_type_error() {
    let mut ms = minimal_response_members();
    ms[6] = member("slippageBps", s("50"));
    let err = QuoteResponse::from_json(&JsonValue::Obj(ms)).unwrap_err();
    assert!(matches!(err, DecodeError::WrongType { .. }));
}

#[test]
fn bad_base58_identifier_is_a_format_error() {
    let mut ms = minimal_response_members();
    ms[0] = member("inputMint", s("not-base58!"));
    let err = QuoteResponse::from_json(&JsonValue::Obj(ms)).unwrap_err();
    match err {
        DecodeError::Format { field, raw } => {
            assert_eq!(field, "inputMint");
            assert_eq!(raw, "not-base58!");
        },
        _ => panic!("expected a format error"),
    }
}

#[test]
fn platform_fee_round_trips() {
    let pf = PlatformFee { amount: 200, fee_bps: 2 };
    let wire = pf.to_json();
    assert_eq!(PlatformFee::from_json(&wire).unwrap(), pf);
}

#[test]
fn time_taken_decodes_from_plain_integer() {
    let mut ms = minimal_response_members();
    ms.push(member("timeTaken", JsonValue::UInt(2)));
    ms.push(member("contextSlot", JsonValue::UInt(7)));
    let r = QuoteResponse::from_json(&JsonValue::Obj(ms)).unwrap();
    assert_eq!(r.time_taken, Decimal::new(false, 2, 0).unwrap());
    assert_eq!(r.context_slot, 7);
}
