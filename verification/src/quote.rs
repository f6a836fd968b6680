//! Quote records: the request a client sends to the quote service and the
//! response it receives, with their wire codecs. Amounts cross the wire as
//! decimal strings, identifiers as base58 strings, enumerations as their
//! variant names; optional fields set to `None` are omitted from the
//! encoding altogether, and the two defaulted response fields fall back to
//! zero only when genuinely absent, never on a malformed value.

use crate::decimal::Decimal;
use crate::decimal::lemma_decimal_round_trip;
use crate::decimal::spec_decimal_str;
use crate::digits::dec_of;
use crate::digits::lemma_dec_of_val;
use crate::digits::u64_to_dec;
use crate::errors::DecodeError;
use crate::errors::ErrView;
use crate::fields::field_decimal;
use crate::fields::field_decimal_default;
use crate::fields::field_opt_bool;
use crate::fields::field_opt_str;
use crate::fields::field_opt_uint;
use crate::fields::field_pubkey;
use crate::fields::field_u64_default;
use crate::fields::field_u64_str;
use crate::fields::field_uint;
use crate::fields::has_key;
use crate::fields::lemma_lookup_absent;
use crate::fields::lemma_lookup_split;
use crate::fields::lemma_opt_member;
use crate::fields::lemma_concat_opt_none;
use crate::fields::opt_member;
use crate::fields::push_member;
use crate::fields::spec_field_decimal;
use crate::fields::spec_field_decimal_default;
use crate::fields::spec_field_opt_bool;
use crate::fields::spec_field_opt_str;
use crate::fields::spec_field_opt_uint;
use crate::fields::spec_field_pubkey;
use crate::fields::spec_field_u64_default;
use crate::fields::spec_field_u64_str;
use crate::fields::spec_field_uint;
use crate::json::JVal;
use crate::json::JsonMember;
use crate::json::JsonValue;
use crate::json::lemma_view_unfold;
use crate::json::lookup;
use crate::json::members_view;
use crate::json::obj_get;
use crate::json::str_eq;
use crate::pubkey::Pubkey;
use crate::pubkey::PubkeyV;
use crate::route_plan_with_metadata::RoutePlanStepV;
use crate::route_plan_with_metadata::RoutePlanWithMetadata;
use crate::route_plan_with_metadata::lemma_route_plan_round_trip;
use crate::route_plan_with_metadata::route_plan_from_json;
use crate::route_plan_with_metadata::route_plan_to_json;
use crate::route_plan_with_metadata::spec_dec_route_plan;
use crate::route_plan_with_metadata::spec_enc_route_plan;
use crate::route_plan_with_metadata::steps_view;
use vstd::prelude::*;

verus! {

broadcast use vstd::string::group_string_axioms;

/// The direction of the swap: which side of the trade is fixed.
#[derive(Clone, Copy, PartialEq, Eq, Structural, Debug)]
pub enum SwapMode {
    /// The input amount is fixed; slippage falls on the output.
    ExactIn,
    /// The output amount is fixed; slippage falls on the input.
    ExactOut,
}

impl Default for SwapMode {
    /// The default direction fixes the input amount.
    fn default() -> (r: SwapMode)
        ensures
            r == SwapMode::ExactIn,
    {
        SwapMode::ExactIn
    }
}

/// The wire text of a swap direction.
pub open spec fn spec_enc_swap_mode(m: SwapMode) -> Seq<char> {
    match m {
        SwapMode::ExactIn => "ExactIn"@,
        SwapMode::ExactOut => "ExactOut"@,
    }
}

/// What a wire text means as a swap direction: exactly the two variant
/// names, and nothing else.
pub open spec fn spec_parse_swap_mode(s: Seq<char>) -> Option<SwapMode> {
    if s == "ExactIn"@ {
        Some(SwapMode::ExactIn)
    } else if s == "ExactOut"@ {
        Some(SwapMode::ExactOut)
    } else {
        None
    }
}

impl SwapMode {
    /// The wire text of the direction.
    pub fn as_str(&self) -> (r: &'static str)
        ensures
            r@ == spec_enc_swap_mode(*self),
    {
        match self {
            SwapMode::ExactIn => "ExactIn",
            SwapMode::ExactOut => "ExactOut",
        }
    }

    /// Parses a wire text into a direction; any text outside the recognized
    /// set fails with an unknown-value error carrying the raw text.
    pub fn from_str(s: &str) -> (r: Result<SwapMode, DecodeError>)
        ensures
            match r {
                Ok(m) => spec_parse_swap_mode(s@) == Some(m),
                Err(e) => spec_parse_swap_mode(s@) is None && e@ == (ErrView::UnknownEnumValue {
                    field: "swapMode"@,
                    raw: s@,
                }),
            },
    {
        if str_eq(s, "ExactIn") {
            Ok(SwapMode::ExactIn)
        } else if str_eq(s, "ExactOut") {
            Ok(SwapMode::ExactOut)
        } else {
            Err(DecodeError::UnknownEnumValue { field: "swapMode".to_owned(), raw: s.to_owned() })
        }
    }
}

/// The two direction texts name their own variants, and each other's nothing.
pub proof fn lemma_swap_mode_round_trip(m: SwapMode)
    ensures
        spec_parse_swap_mode(spec_enc_swap_mode(m)) == Some(m),
{
    reveal_strlit("ExactIn");
    reveal_strlit("ExactOut");
    assert("ExactIn"@.len() == 7);
    assert("ExactOut"@.len() == 8);
}

/// The swap program instruction version to target.
#[derive(Clone, Copy, PartialEq, Eq, Structural, Debug)]
pub enum InstructionVersion {
    /// The first instruction format.
    V1,
    /// The second instruction format.
    V2,
}

impl Default for InstructionVersion {
    /// The default targets the first instruction format.
    fn default() -> (r: InstructionVersion)
        ensures
            r == InstructionVersion::V1,
    {
        InstructionVersion::V1
    }
}

/// The wire text of an instruction version.
pub open spec fn spec_enc_instruction_version(v: InstructionVersion) -> Seq<char> {
    match v {
        InstructionVersion::V1 => "V1"@,
        InstructionVersion::V2 => "V2"@,
    }
}

/// What a wire text means as an instruction version.
pub open spec fn spec_parse_instruction_version(s: Seq<char>) -> Option<InstructionVersion> {
    if s == "V1"@ {
        Some(InstructionVersion::V1)
    } else if s == "V2"@ {
        Some(InstructionVersion::V2)
    } else {
        None
    }
}

impl InstructionVersion {
    /// The wire text of the version.
    pub fn as_str(&self) -> (r: &'static str)
        ensures
            r@ == spec_enc_instruction_version(*self),
    {
        match self {
            InstructionVersion::V1 => "V1",
            InstructionVersion::V2 => "V2",
        }
    }

    /// Parses a wire text into a version; any text outside the recognized
    /// set fails with an unknown-value error carrying the raw text.
    pub fn from_str(s: &str) -> (r: Result<InstructionVersion, DecodeError>)
        ensures
            match r {
                Ok(v) => spec_parse_instruction_version(s@) == Some(v),
                Err(e) => spec_parse_instruction_version(s@) is None && e@
                    == (ErrView::UnknownEnumValue { field: "instructionVersion"@, raw: s@ }),
            },
    {
        if str_eq(s, "V1") {
            Ok(InstructionVersion::V1)
        } else if str_eq(s, "V2") {
            Ok(InstructionVersion::V2)
        } else {
            Err(
                DecodeError::UnknownEnumValue {
                    field: "instructionVersion".to_owned(),
                    raw: s.to_owned(),
                },
            )
        }
    }
}

/// The two version texts name their own variants, and each other's nothing.
pub proof fn lemma_instruction_version_round_trip(v: InstructionVersion)
    ensures
        spec_parse_instruction_version(spec_enc_instruction_version(v)) == Some(v),
{
    reveal_strlit("V1");
    reveal_strlit("V2");
    assert("V1"@[1] == '1');
    assert("V2"@[1] == '2');
}

/// An optional field carrying a swap direction text.
pub open spec fn spec_field_opt_swap_mode(ps: Seq<(Seq<char>, JVal)>, key: Seq<char>) -> Result<
    Option<SwapMode>,
    ErrView,
> {
    match lookup(ps, key) {
        None => Ok(None),
        Some(JVal::Str(s)) => match spec_parse_swap_mode(s) {
            Some(m) => Ok(Some(m)),
            None => Err(ErrView::UnknownEnumValue { field: "swapMode"@, raw: s }),
        },
        Some(_) => Err(ErrView::WrongType { field: key }),
    }
}

/// A mandatory field carrying a swap direction text.
pub open spec fn spec_field_swap_mode(ps: Seq<(Seq<char>, JVal)>, key: Seq<char>) -> Result<
    SwapMode,
    ErrView,
> {
    match lookup(ps, key) {
        None => Err(ErrView::MissingField { field: key }),
        Some(JVal::Str(s)) => match spec_parse_swap_mode(s) {
            Some(m) => Ok(m),
            None => Err(ErrView::UnknownEnumValue { field: "swapMode"@, raw: s }),
        },
        Some(_) => Err(ErrView::WrongType { field: key }),
    }
}

/// An optional field carrying an instruction version text.
pub open spec fn spec_field_opt_instruction_version(
    ps: Seq<(Seq<char>, JVal)>,
    key: Seq<char>,
) -> Result<Option<InstructionVersion>, ErrView> {
    match lookup(ps, key) {
        None => Ok(None),
        Some(JVal::Str(s)) => match spec_parse_instruction_version(s) {
            Some(v) => Ok(Some(v)),
            None => Err(ErrView::UnknownEnumValue { field: "instructionVersion"@, raw: s }),
        },
        Some(_) => Err(ErrView::WrongType { field: key }),
    }
}

/// Reads an optional swap direction field; absence is `None`.
fn field_opt_swap_mode(ms: &Vec<JsonMember>, key: &str) -> (r: Result<Option<SwapMode>, DecodeError>)
    ensures
        match r {
            Ok(v) => spec_field_opt_swap_mode(members_view(ms@), key@) == Ok::<_, ErrView>(v),
            Err(e) => spec_field_opt_swap_mode(members_view(ms@), key@) == Err::<
                Option<SwapMode>,
                ErrView,
            >(e@),
        },
{
    match obj_get(ms, key) {
        None => Ok(None),
        Some(JsonValue::Str(s)) => match SwapMode::from_str(s.as_str()) {
            Ok(m) => Ok(Some(m)),
            Err(e) => Err(e),
        },
        Some(_) => Err(DecodeError::WrongType { field: key.to_owned() }),
    }
}

/// Reads a mandatory swap direction field.
fn field_swap_mode(ms: &Vec<JsonMember>, key: &str) -> (r: Result<SwapMode, DecodeError>)
    ensures
        match r {
            Ok(v) => spec_field_swap_mode(members_view(ms@), key@) == Ok::<_, ErrView>(v),
            Err(e) => spec_field_swap_mode(members_view(ms@), key@) == Err::<SwapMode, ErrView>(e@),
        },
{
    match obj_get(ms, key) {
        None => Err(DecodeError::MissingField { field: key.to_owned() }),
        Some(JsonValue::Str(s)) => match SwapMode::from_str(s.as_str()) {
            Ok(m) => Ok(m),
            Err(e) => Err(e),
        },
        Some(_) => Err(DecodeError::WrongType { field: key.to_owned() }),
    }
}

/// Reads an optional instruction version field; absence is `None`.
fn field_opt_instruction_version(ms: &Vec<JsonMember>, key: &str) -> (r: Result<
    Option<InstructionVersion>,
    DecodeError,
>)
    ensures
        match r {
            Ok(v) => spec_field_opt_instruction_version(members_view(ms@), key@) == Ok::<
                _,
                ErrView,
            >(v),
            Err(e) => spec_field_opt_instruction_version(members_view(ms@), key@) == Err::<
                Option<InstructionVersion>,
                ErrView,
            >(e@),
        },
{
    match obj_get(ms, key) {
        None => Ok(None),
        Some(JsonValue::Str(s)) => match InstructionVersion::from_str(s.as_str()) {
            Ok(v) => Ok(Some(v)),
            Err(e) => Err(e),
        },
        Some(_) => Err(DecodeError::WrongType { field: key.to_owned() }),
    }
}

/// The fee the routing platform charges on a swap.
#[derive(Clone, Copy, PartialEq, Eq, Structural, Debug)]
pub struct PlatformFee {
    /// The fee amount, in the fee asset's smallest unit.
    pub amount: u64,
    /// The fee rate, in basis points.
    pub fee_bps: u16,
}

/// The wire members of a platform fee, in encoding order.
pub open spec fn spec_platform_fee_members(x: PlatformFee) -> Seq<(Seq<char>, JVal)> {
    opt_member("amount"@, Some(JVal::Str(dec_of(x.amount as nat)))) + opt_member(
        "feeBps"@,
        Some(JVal::UInt(x.fee_bps as u64)),
    )
}

/// The wire value of a platform fee.
pub open spec fn spec_enc_platform_fee(x: PlatformFee) -> JVal {
    JVal::Obj(spec_platform_fee_members(x))
}

/// What a wire value means as a platform fee.
pub open spec fn spec_dec_platform_fee(v: JVal) -> Result<PlatformFee, ErrView> {
    match v {
        JVal::Obj(ps) => match spec_field_u64_str(ps, "amount"@) {
            Err(e) => Err(e),
            Ok(amount) => match spec_field_uint(ps, "feeBps"@, u16::MAX as u64) {
                Err(e) => Err(e),
                Ok(fee_bps) => Ok(PlatformFee { amount, fee_bps: fee_bps as u16 }),
            },
        },
        _ => Err(ErrView::WrongType { field: "platformFee"@ }),
    }
}

impl PlatformFee {
    /// Encodes the fee for the wire: the amount as a decimal string, the rate
    /// as a plain integer.
    pub fn to_json(&self) -> (r: JsonValue)
        ensures
            r@ == spec_enc_platform_fee(*self),
    {
        let mut ms: Vec<JsonMember> = Vec::new();
        ms.push(JsonMember { key: "amount".to_owned(), value: JsonValue::Str(u64_to_dec(self.amount)) });
        ms.push(JsonMember { key: "feeBps".to_owned(), value: JsonValue::UInt(self.fee_bps as u64) });
        let ghost msv = ms@;
        let r = JsonValue::Obj(ms);
        proof {
            lemma_view_unfold(&r);
            assert(members_view(msv) =~= spec_platform_fee_members(*self));
        }
        r
    }

    /// Decodes a fee from a wire value, failing on the first absent or
    /// malformed field.
    pub fn from_json(v: &JsonValue) -> (r: Result<PlatformFee, DecodeError>)
        ensures
            match r {
                Ok(x) => spec_dec_platform_fee(v@) == Ok::<_, ErrView>(x),
                Err(e) => spec_dec_platform_fee(v@) == Err::<PlatformFee, ErrView>(e@),
            },
    {
        match v {
            JsonValue::Obj(ms) => {
                proof {
                    lemma_view_unfold(v);
                }
                let amount = match field_u64_str(ms, "amount") {
                    Ok(x) => x,
                    Err(e) => {
                        return Err(e);
                    },
                };
                let fee_bps = match field_uint(ms, "feeBps", u16::MAX as u64) {
                    Ok(x) => x as u16,
                    Err(e) => {
                        return Err(e);
                    },
                };
                Ok(PlatformFee { amount, fee_bps })
            },
            _ => Err(DecodeError::WrongType { field: "platformFee".to_owned() }),
        }
    }
}

/// An optional field carrying a nested platform fee object.
pub open spec fn spec_field_opt_platform_fee(ps: Seq<(Seq<char>, JVal)>, key: Seq<char>) -> Result<
    Option<PlatformFee>,
    ErrView,
> {
    match lookup(ps, key) {
        None => Ok(None),
        Some(v) => match spec_dec_platform_fee(v) {
            Ok(pf) => Ok(Some(pf)),
            Err(e) => Err(e),
        },
    }
}

/// Reads an optional nested platform fee; absence is `None`.
fn field_opt_platform_fee(ms: &Vec<JsonMember>, key: &str) -> (r: Result<
    Option<PlatformFee>,
    DecodeError,
>)
    ensures
        match r {
            Ok(v) => spec_field_opt_platform_fee(members_view(ms@), key@) == Ok::<_, ErrView>(v),
            Err(e) => spec_field_opt_platform_fee(members_view(ms@), key@) == Err::<
                Option<PlatformFee>,
                ErrView,
            >(e@),
        },
{
    match obj_get(ms, key) {
        None => Ok(None),
        Some(v) => match PlatformFee::from_json(v) {
            Ok(pf) => Ok(Some(pf)),
            Err(e) => Err(e),
        },
    }
}

/// Encoding a platform fee and decoding the wire value gives back the same
/// fee.
pub proof fn lemma_platform_fee_round_trip(x: PlatformFee)
    ensures
        spec_dec_platform_fee(spec_enc_platform_fee(x)) == Ok::<_, ErrView>(x),
{
    let k1 = "amount"@;
    let k2 = "feeBps"@;
    reveal_strlit("amount");
    reveal_strlit("feeBps");
    assert(k1 != k2) by {
        assert(k1[0] == 'a');
        assert(k2[0] == 'f');
    }
    let v1 = Some(JVal::Str(dec_of(x.amount as nat)));
    let v2 = Some(JVal::UInt(x.fee_bps as u64));
    let m1 = opt_member(k1, v1);
    let m2 = opt_member(k2, v2);
    lemma_opt_member(k1, k1, v1);
    lemma_opt_member(k2, k1, v2);
    lemma_lookup_absent(m2, k1);
    lemma_lookup_split(m1, m2, k1);
    lemma_opt_member(k1, k2, v1);
    lemma_opt_member(k2, k2, v2);
    lemma_lookup_absent(m1, k2);
    lemma_lookup_split(m1, m2, k2);
    lemma_dec_of_val(x.amount as nat);
}

/// Parameters a client sends to obtain a swap quote and route plan.
#[derive(Clone, PartialEq, Eq, Debug)]
pub struct QuoteRequest {
    /// The asset being given.
    pub input_mint: Pubkey,
    /// The asset wanted back.
    pub output_mint: Pubkey,
    /// The fixed amount, on the side `swap_mode` names.
    pub amount: u64,
    /// The allowed price slippage, in basis points.
    pub slippage_bps: u16,
    /// The swap direction; the service takes ExactIn when absent.
    pub swap_mode: Option<SwapMode>,
    /// Comma-separated venue labels to include in the search.
    pub dexes: Option<String>,
    /// Comma-separated venue labels to exclude from the search.
    pub excluded_dexes: Option<String>,
    /// Restricts intermediate assets to a known-liquid set.
    pub restrict_intermediate_tokens: Option<bool>,
    /// Restricts routing to direct pair swaps.
    pub only_direct_routes: Option<bool>,
    /// Asks for a route that fits a legacy transaction.
    pub as_legacy_transaction: Option<bool>,
    /// A platform fee to collect, in basis points.
    pub platform_fee_bps: Option<u16>,
    /// A cap on the number of accounts the route may touch.
    pub max_accounts: Option<usize>,
    /// The instruction format to target; the service takes V1 when absent.
    pub instruction_version: Option<InstructionVersion>,
}

/// The mathematical face of a quote request.
pub struct QuoteRequestV {
    pub input_mint: PubkeyV,
    pub output_mint: PubkeyV,
    pub amount: u64,
    pub slippage_bps: u16,
    pub swap_mode: Option<SwapMode>,
    pub dexes: Option<Seq<char>>,
    pub excluded_dexes: Option<Seq<char>>,
    pub restrict_intermediate_tokens: Option<bool>,
    pub only_direct_routes: Option<bool>,
    pub as_legacy_transaction: Option<bool>,
    pub platform_fee_bps: Option<u16>,
    pub max_accounts: Option<usize>,
    pub instruction_version: Option<InstructionVersion>,
}

impl QuoteRequestV {
    /// Both identifiers carry their canonical text.
    pub open spec fn wf(&self) -> bool {
        self.input_mint.wf() && self.output_mint.wf()
    }
}

impl View for QuoteRequest {
    type V = QuoteRequestV;

    open spec fn view(&self) -> QuoteRequestV {
        QuoteRequestV {
            input_mint: self.input_mint@,
            output_mint: self.output_mint@,
            amount: self.amount,
            slippage_bps: self.slippage_bps,
            swap_mode: self.swap_mode,
            dexes: match self.dexes {
                Some(s) => Some(s@),
                None => None,
            },
            excluded_dexes: match self.excluded_dexes {
                Some(s) => Some(s@),
                None => None,
            },
            restrict_intermediate_tokens: self.restrict_intermediate_tokens,
            only_direct_routes: self.only_direct_routes,
            as_legacy_transaction: self.as_legacy_transaction,
            platform_fee_bps: self.platform_fee_bps,
            max_accounts: self.max_accounts,
            instruction_version: self.instruction_version,
        }
    }
}

/// The wire members of a quote request, in encoding order; every optional
/// field set to `None` contributes nothing.
pub open spec fn spec_request_members(x: QuoteRequestV) -> Seq<(Seq<char>, JVal)> {
    opt_member("inputMint"@, Some(JVal::Str(x.input_mint.text))) + opt_member(
        "outputMint"@,
        Some(JVal::Str(x.output_mint.text)),
    ) + opt_member("amount"@, Some(JVal::Str(dec_of(x.amount as nat)))) + opt_member(
        "slippageBps"@,
        Some(JVal::UInt(x.slippage_bps as u64)),
    ) + opt_member(
        "swapMode"@,
        match x.swap_mode {
            Some(m) => Some(JVal::Str(spec_enc_swap_mode(m))),
            None => None,
        },
    ) + opt_member(
        "dexes"@,
        match x.dexes {
            Some(s) => Some(JVal::Str(s)),
            None => None,
        },
    ) + opt_member(
        "excludedDexes"@,
        match x.excluded_dexes {
            Some(s) => Some(JVal::Str(s)),
            None => None,
        },
    ) + opt_member(
        "restrictIntermediateTokens"@,
        match x.restrict_intermediate_tokens {
            Some(b) => Some(JVal::Bool(b)),
            None => None,
        },
    ) + opt_member(
        "onlyDirectRoutes"@,
        match x.only_direct_routes {
            Some(b) => Some(JVal::Bool(b)),
            None => None,
        },
    ) + opt_member(
        "asLegacyTransaction"@,
        match x.as_legacy_transaction {
            Some(b) => Some(JVal::Bool(b)),
            None => None,
        },
    ) + opt_member(
        "platformFeeBps"@,
        match x.platform_fee_bps {
            Some(v) => Some(JVal::UInt(v as u64)),
            None => None,
        },
    ) + opt_member(
        "maxAccounts"@,
        match x.max_accounts {
            Some(v) => Some(JVal::UInt(v as u64)),
            None => None,
        },
    ) + opt_member(
        "instructionVersion"@,
        match x.instruction_version {
            Some(v) => Some(JVal::Str(spec_enc_instruction_version(v))),
            None => None,
        },
    )
}

/// The wire value of a quote request.
pub open spec fn spec_enc_request(x: QuoteRequestV) -> JVal {
    JVal::Obj(spec_request_members(x))
}

/// What a wire value means as a quote request.
pub open spec fn spec_dec_request(v: JVal) -> Result<QuoteRequestV, ErrView> {
    match v {
        JVal::Obj(ps) => match spec_field_pubkey(ps, "inputMint"@) {
            Err(e) => Err(e),
            Ok(input_mint) => match spec_field_pubkey(ps, "outputMint"@) {
                Err(e) => Err(e),
                Ok(output_mint) => match spec_field_u64_str(ps, "amount"@) {
                    Err(e) => Err(e),
                    Ok(amount) => match spec_field_uint(ps, "slippageBps"@, u16::MAX as u64) {
                        Err(e) => Err(e),
                        Ok(slippage_bps) => match spec_field_opt_swap_mode(ps, "swapMode"@) {
                            Err(e) => Err(e),
                            Ok(swap_mode) => match spec_field_opt_str(ps, "dexes"@) {
                                Err(e) => Err(e),
                                Ok(dexes) => match spec_field_opt_str(ps, "excludedDexes"@) {
                                    Err(e) => Err(e),
                                    Ok(excluded_dexes) => match spec_dec_request_rest(
                                        ps,
                                        input_mint,
                                        output_mint,
                                        amount,
                                        slippage_bps as u16,
                                        swap_mode,
                                        dexes,
                                        excluded_dexes,
                                    ) {
                                        Err(e) => Err(e),
                                        Ok(x) => Ok(x),
                                    },
                                },
                            },
                        },
                    },
                },
            },
        },
        _ => Err(ErrView::WrongType { field: "quoteRequest"@ }),
    }
}

/// The tail of the request decoding: the boolean flags, the fee and account
/// caps, and the instruction version.
pub open spec fn spec_dec_request_rest(
    ps: Seq<(Seq<char>, JVal)>,
    input_mint: PubkeyV,
    output_mint: PubkeyV,
    amount: u64,
    slippage_bps: u16,
    swap_mode: Option<SwapMode>,
    dexes: Option<Seq<char>>,
    excluded_dexes: Option<Seq<char>>,
) -> Result<QuoteRequestV, ErrView> {
    match spec_field_opt_bool(ps, "restrictIntermediateTokens"@) {
        Err(e) => Err(e),
        Ok(restrict_intermediate_tokens) => match spec_field_opt_bool(ps, "onlyDirectRoutes"@) {
            Err(e) => Err(e),
            Ok(only_direct_routes) => match spec_field_opt_bool(ps, "asLegacyTransaction"@) {
                Err(e) => Err(e),
                Ok(as_legacy_transaction) => match spec_field_opt_uint(
                    ps,
                    "platformFeeBps"@,
                    u16::MAX as u64,
                ) {
                    Err(e) => Err(e),
                    Ok(platform_fee_bps) => match spec_field_opt_uint(
                        ps,
                        "maxAccounts"@,
                        usize::MAX as u64,
                    ) {
                        Err(e) => Err(e),
                        Ok(max_accounts) => match spec_field_opt_instruction_version(
                            ps,
                            "instructionVersion"@,
                        ) {
                            Err(e) => Err(e),
                            Ok(instruction_version) => Ok(
                                QuoteRequestV {
                                    input_mint,
                                    output_mint,
                                    amount,
                                    slippage_bps,
                                    swap_mode,
                                    dexes,
                                    excluded_dexes,
                                    restrict_intermediate_tokens,
                                    only_direct_routes,
                                    as_legacy_transaction,
                                    platform_fee_bps: match platform_fee_bps {
                                        Some(v) => Some(v as u16),
                                        None => None,
                                    },
                                    max_accounts: match max_accounts {
                                        Some(v) => Some(v as usize),
                                        None => None,
                                    },
                                    instruction_version,
                                },
                            ),
                        },
                    },
                },
            },
        },
    }
}

/// Fills a vector of thirty-two zero bytes: the default identifier.
fn zero_bytes_32() -> (r: Vec<u8>)
    ensures
        r@ =~= Seq::new(32, |i: int| 0u8),
{
    let mut b: Vec<u8> = Vec::new();
    let mut i: usize = 0;
    while i < 32
        invariant
            0 <= i <= 32,
            b@.len() == i,
            forall|j: int| 0 <= j < i ==> b@[j] == 0u8,
        decreases 32 - i,
    {
        b.push(0);
        i = i + 1;
    }
    b
}

impl Default for QuoteRequest {
    /// The default request: zero identifiers, zero amount, the recommended
    /// fifty basis points of slippage, and every optional field unset.
    fn default() -> (r: QuoteRequest)
        ensures
            r@.input_mint.wf(),
            r@.input_mint.bytes =~= Seq::new(32, |i: int| 0u8),
            r@.output_mint.wf(),
            r@.output_mint.bytes =~= Seq::new(32, |i: int| 0u8),
            r@.amount == 0,
            r@.slippage_bps == 50,
            r@.swap_mode is None,
            r@.dexes is None,
            r@.excluded_dexes is None,
            r@.restrict_intermediate_tokens is None,
            r@.only_direct_routes is None,
            r@.as_legacy_transaction is None,
            r@.platform_fee_bps is None,
            r@.max_accounts is None,
            r@.instruction_version is None,
    {
        let input_mint = match Pubkey::from_bytes(zero_bytes_32()) {
            Some(p) => p,
            None => vstd::pervasive::unreached(),
        };
        let output_mint = match Pubkey::from_bytes(zero_bytes_32()) {
            Some(p) => p,
            None => vstd::pervasive::unreached(),
        };
        QuoteRequest {
            input_mint,
            output_mint,
            amount: 0,
            slippage_bps: 50,
            swap_mode: None,
            dexes: None,
            excluded_dexes: None,
            restrict_intermediate_tokens: None,
            only_direct_routes: None,
            as_legacy_transaction: None,
            platform_fee_bps: None,
            max_accounts: None,
            instruction_version: None,
        }
    }
}

    /// Appends the first run of optional members: the direction, the two
/// venue filters, and the first two boolean flags.
#[verifier::rlimit(100)]
#[verifier::spinoff_prover]
fn push_options_a(
    ms: &mut Vec<JsonMember>,
    swap_mode: &Option<SwapMode>,
    dexes: &Option<String>,
    excluded_dexes: &Option<String>,
    restrict_intermediate_tokens: &Option<bool>,
    only_direct_routes: &Option<bool>,
)
    ensures
        members_view(final(ms)@) == members_view(old(ms)@) + opt_member(
            "swapMode"@,
            match *swap_mode {
                Some(m) => Some(JVal::Str(spec_enc_swap_mode(m))),
                None => None,
            },
        ) + opt_member(
            "dexes"@,
            match *dexes {
                Some(s) => Some(JVal::Str(s@)),
                None => None,
            },
        ) + opt_member(
            "excludedDexes"@,
            match *excluded_dexes {
                Some(s) => Some(JVal::Str(s@)),
                None => None,
            },
        ) + opt_member(
            "restrictIntermediateTokens"@,
            match *restrict_intermediate_tokens {
                Some(b) => Some(JVal::Bool(b)),
                None => None,
            },
        ) + opt_member(
            "onlyDirectRoutes"@,
            match *only_direct_routes {
                Some(b) => Some(JVal::Bool(b)),
                None => None,
            },
        ),
{
    let ghost g4 = members_view(ms@);
    match swap_mode {
        Some(m) => {
            push_member(ms, "swapMode", JsonValue::Str(m.as_str().to_owned()));
        },
        None => {
            proof {
                lemma_concat_opt_none(g4, "swapMode"@);
            }
        },
    }
    let ghost g5 = members_view(ms@);
    match dexes {
        Some(s) => {
            push_member(ms, "dexes", JsonValue::Str(s.clone()));
        },
        None => {
            proof {
                lemma_concat_opt_none(g5, "dexes"@);
            }
        },
    }
    let ghost g6 = members_view(ms@);
    match excluded_dexes {
        Some(s) => {
            push_member(ms, "excludedDexes", JsonValue::Str(s.clone()));
        },
        None => {
            proof {
                lemma_concat_opt_none(g6, "excludedDexes"@);
            }
        },
    }
    let ghost g7 = members_view(ms@);
    match restrict_intermediate_tokens {
        Some(b) => {
            push_member(ms, "restrictIntermediateTokens", JsonValue::Bool(*b));
        },
        None => {
            proof {
                lemma_concat_opt_none(g7, "restrictIntermediateTokens"@);
            }
        },
    }
    let ghost g8 = members_view(ms@);
    match only_direct_routes {
        Some(b) => {
            push_member(ms, "onlyDirectRoutes", JsonValue::Bool(*b));
        },
        None => {
            proof {
                lemma_concat_opt_none(g8, "onlyDirectRoutes"@);
            }
        },
    }
}

/// Appends the second run of optional members: the legacy-transaction
/// flag, the fee and account caps, and the instruction version.
#[verifier::rlimit(100)]
#[verifier::spinoff_prover]
fn push_options_b(
    ms: &mut Vec<JsonMember>,
    as_legacy_transaction: &Option<bool>,
    platform_fee_bps: &Option<u16>,
    max_accounts: &Option<usize>,
    instruction_version: &Option<InstructionVersion>,
)
    ensures
        members_view(final(ms)@) == members_view(old(ms)@) + opt_member(
            "asLegacyTransaction"@,
            match *as_legacy_transaction {
                Some(b) => Some(JVal::Bool(b)),
                None => None,
            },
        ) + opt_member(
            "platformFeeBps"@,
            match *platform_fee_bps {
                Some(v) => Some(JVal::UInt(v as u64)),
                None => None,
            },
        ) + opt_member(
            "maxAccounts"@,
            match *max_accounts {
                Some(v) => Some(JVal::UInt(v as u64)),
                None => None,
            },
        ) + opt_member(
            "instructionVersion"@,
            match *instruction_version {
                Some(v) => Some(JVal::Str(spec_enc_instruction_version(v))),
                None => None,
            },
        ),
{
    let ghost g9 = members_view(ms@);
    match as_legacy_transaction {
        Some(b) => {
            push_member(ms, "asLegacyTransaction", JsonValue::Bool(*b));
        },
        None => {
            proof {
                lemma_concat_opt_none(g9, "asLegacyTransaction"@);
            }
        },
    }
    let ghost g10 = members_view(ms@);
    match platform_fee_bps {
        Some(v) => {
            push_member(ms, "platformFeeBps", JsonValue::UInt(*v as u64));
        },
        None => {
            proof {
                lemma_concat_opt_none(g10, "platformFeeBps"@);
            }
        },
    }
    let ghost g11 = members_view(ms@);
    match max_accounts {
        Some(v) => {
            push_member(ms, "maxAccounts", JsonValue::UInt(*v as u64));
        },
        None => {
            proof {
                lemma_concat_opt_none(g11, "maxAccounts"@);
            }
        },
    }
    let ghost g12 = members_view(ms@);
    match instruction_version {
        Some(v) => {
            push_member(ms, "instructionVersion", JsonValue::Str(v.as_str().to_owned()));
        },
        None => {
            proof {
                lemma_concat_opt_none(g12, "instructionVersion"@);
            }
        },
    }
}

impl QuoteRequest {
    /// Encodes the request for the wire; every optional field set to `None`
    /// puts no member in the object at all.
    #[verifier::rlimit(100)]
    #[verifier::spinoff_prover]
    pub fn to_json(&self) -> (r: JsonValue)
        ensures
            r@ == spec_enc_request(self@),
    {
        let mut ms: Vec<JsonMember> = Vec::new();
        proof {
            assert(members_view(ms@) =~= Seq::<(Seq<char>, JVal)>::empty());
        }
        push_member(&mut ms, "inputMint", JsonValue::Str(self.input_mint.to_base58()));
        push_member(&mut ms, "outputMint", JsonValue::Str(self.output_mint.to_base58()));
        push_member(&mut ms, "amount", JsonValue::Str(u64_to_dec(self.amount)));
        push_member(&mut ms, "slippageBps", JsonValue::UInt(self.slippage_bps as u64));
        let ghost g4 = members_view(ms@);
        push_options_a(
            &mut ms,
            &self.swap_mode,
            &self.dexes,
            &self.excluded_dexes,
            &self.restrict_intermediate_tokens,
            &self.only_direct_routes,
        );
        push_options_b(
            &mut ms,
            &self.as_legacy_transaction,
            &self.platform_fee_bps,
            &self.max_accounts,
            &self.instruction_version,
        );
        let r = JsonValue::Obj(ms);
        proof {
            lemma_view_unfold(&r);
            assert(g4 =~= opt_member("inputMint"@, Some(JVal::Str(self@.input_mint.text)))
                + opt_member("outputMint"@, Some(JVal::Str(self@.output_mint.text))) + opt_member(
                "amount"@,
                Some(JVal::Str(dec_of(self@.amount as nat))),
            ) + opt_member("slippageBps"@, Some(JVal::UInt(self@.slippage_bps as u64))));
        }
        r
    }

    /// Decodes a request from a wire value, failing on the first field that
    /// is absent or malformed; no partial record is ever built.
    pub fn from_json(v: &JsonValue) -> (r: Result<QuoteRequest, DecodeError>)
        ensures
            match r {
                Ok(x) => spec_dec_request(v@) == Ok::<_, ErrView>(x@) && x@.wf(),
                Err(e) => spec_dec_request(v@) == Err::<QuoteRequestV, ErrView>(e@),
            },
    {
        match v {
            JsonValue::Obj(ms) => {
                proof {
                    lemma_view_unfold(v);
                }
                let input_mint = match field_pubkey(ms, "inputMint") {
                    Ok(x) => x,
                    Err(e) => {
                        return Err(e);
                    },
                };
                let output_mint = match field_pubkey(ms, "outputMint") {
                    Ok(x) => x,
                    Err(e) => {
                        return Err(e);
                    },
                };
                let amount = match field_u64_str(ms, "amount") {
                    Ok(x) => x,
                    Err(e) => {
                        return Err(e);
                    },
                };
                let slippage_bps = match field_uint(ms, "slippageBps", u16::MAX as u64) {
                    Ok(x) => x as u16,
                    Err(e) => {
                        return Err(e);
                    },
                };
                let swap_mode = match field_opt_swap_mode(ms, "swapMode") {
                    Ok(x) => x,
                    Err(e) => {
                        return Err(e);
                    },
                };
                let dexes = match field_opt_str(ms, "dexes") {
                    Ok(x) => x,
                    Err(e) => {
                        return Err(e);
                    },
                };
                let excluded_dexes = match field_opt_str(ms, "excludedDexes") {
                    Ok(x) => x,
                    Err(e) => {
                        return Err(e);
                    },
                };
                let restrict_intermediate_tokens = match field_opt_bool(
                    ms,
                    "restrictIntermediateTokens",
                ) {
                    Ok(x) => x,
                    Err(e) => {
                        return Err(e);
                    },
                };
                let only_direct_routes = match field_opt_bool(ms, "onlyDirectRoutes") {
                    Ok(x) => x,
                    Err(e) => {
                        return Err(e);
                    },
                };
                let as_legacy_transaction = match field_opt_bool(ms, "asLegacyTransaction") {
                    Ok(x) => x,
                    Err(e) => {
                        return Err(e);
                    },
                };
                let platform_fee_bps = match field_opt_uint(ms, "platformFeeBps", u16::MAX as u64) {
                    Ok(Some(x)) => Some(x as u16),
                    Ok(None) => None,
                    Err(e) => {
                        return Err(e);
                    },
                };
                let max_accounts = match field_opt_uint(ms, "maxAccounts", usize::MAX as u64) {
                    Ok(Some(x)) => Some(x as usize),
                    Ok(None) => None,
                    Err(e) => {
                        return Err(e);
                    },
                };
                let instruction_version = match field_opt_instruction_version(
                    ms,
                    "instructionVersion",
                ) {
                    Ok(x) => x,
                    Err(e) => {
                        return Err(e);
                    },
                };
                Ok(
                    QuoteRequest {
                        input_mint,
                        output_mint,
                        amount,
                        slippage_bps,
                        swap_mode,
                        dexes,
                        excluded_dexes,
                        restrict_intermediate_tokens,
                        only_direct_routes,
                        as_legacy_transaction,
                        platform_fee_bps,
                        max_accounts,
                        instruction_version,
                    },
                )
            },
            _ => Err(DecodeError::WrongType { field: "quoteRequest".to_owned() }),
        }
    }
}

/// Encoding a quote request and decoding the wire value gives back the same
/// request, optional fields in either state included, amounts at the
/// boundaries included.
#[verifier::rlimit(100)]
#[verifier::spinoff_prover]
pub proof fn lemma_request_round_trip(x: QuoteRequestV)
    requires
        x.wf(),
    ensures
        spec_dec_request(spec_enc_request(x)) == Ok::<_, ErrView>(x),
{    lemma_req_lookup_1(x);
    lemma_req_lookup_2(x);
    lemma_req_lookup_3(x);
    lemma_req_lookup_4(x);
    lemma_req_lookup_5(x);
    lemma_req_lookup_6(x);
    lemma_req_lookup_7(x);
    lemma_req_lookup_8(x);
    lemma_req_lookup_9(x);
    lemma_req_lookup_10(x);
    lemma_req_lookup_11(x);
    lemma_req_lookup_12(x);
    lemma_req_lookup_13(x);
    lemma_dec_of_val(x.amount as nat);
    if let Some(m) = x.swap_mode {
        lemma_swap_mode_round_trip(m);
    }
    if let Some(iv) = x.instruction_version {
        lemma_instruction_version_round_trip(iv);
    }
}

/// Omission: a request with an optional field set to `None` carries no
/// member under that field's key in its encoding at all.
#[verifier::rlimit(100)]
#[verifier::spinoff_prover]
pub proof fn lemma_request_omission(x: QuoteRequestV)
    ensures
        x.swap_mode is None ==> !has_key(spec_request_members(x), "swapMode"@),
        x.dexes is None ==> !has_key(spec_request_members(x), "dexes"@),
        x.excluded_dexes is None ==> !has_key(spec_request_members(x), "excludedDexes"@),
        x.restrict_intermediate_tokens is None ==> !has_key(
            spec_request_members(x),
            "restrictIntermediateTokens"@,
        ),
        x.only_direct_routes is None ==> !has_key(spec_request_members(x), "onlyDirectRoutes"@),
        x.as_legacy_transaction is None ==> !has_key(
            spec_request_members(x),
            "asLegacyTransaction"@,
        ),
        x.platform_fee_bps is None ==> !has_key(spec_request_members(x), "platformFeeBps"@),
        x.max_accounts is None ==> !has_key(spec_request_members(x), "maxAccounts"@),
        x.instruction_version is None ==> !has_key(
            spec_request_members(x),
            "instructionVersion"@,
        ),
{    lemma_req_lookup_1(x);
    lemma_req_lookup_2(x);
    lemma_req_lookup_3(x);
    lemma_req_lookup_4(x);
    lemma_req_lookup_5(x);
    lemma_req_lookup_6(x);
    lemma_req_lookup_7(x);
    lemma_req_lookup_8(x);
    lemma_req_lookup_9(x);
    lemma_req_lookup_10(x);
    lemma_req_lookup_11(x);
    lemma_req_lookup_12(x);
    lemma_req_lookup_13(x);
}


/// The value of an optional member, as lookup reports it.
pub open spec fn opt_val(v: Option<JVal>) -> Option<JVal> {
    v
}

/// Where the inputMint member stands in an encoded request.
#[verifier::spinoff_prover]
proof fn lemma_req_lookup_1(x: QuoteRequestV)
    ensures
        lookup(spec_request_members(x), "inputMint"@) == opt_val(Some(JVal::Str(x.input_mint.text))),
        has_key(spec_request_members(x), "inputMint"@) == ((Some(JVal::Str(x.input_mint.text))) is Some),
{
    let k1 = "inputMint"@;
    let k2 = "outputMint"@;
    let k3 = "amount"@;
    let k4 = "slippageBps"@;
    let k5 = "swapMode"@;
    let k6 = "dexes"@;
    let k7 = "excludedDexes"@;
    let k8 = "restrictIntermediateTokens"@;
    let k9 = "onlyDirectRoutes"@;
    let k10 = "asLegacyTransaction"@;
    let k11 = "platformFeeBps"@;
    let k12 = "maxAccounts"@;
    let k13 = "instructionVersion"@;
    reveal_strlit("inputMint");
    reveal_strlit("outputMint");
    reveal_strlit("amount");
    reveal_strlit("slippageBps");
    reveal_strlit("swapMode");
    reveal_strlit("dexes");
    reveal_strlit("excludedDexes");
    reveal_strlit("restrictIntermediateTokens");
    reveal_strlit("onlyDirectRoutes");
    reveal_strlit("asLegacyTransaction");
    reveal_strlit("platformFeeBps");
    reveal_strlit("maxAccounts");
    reveal_strlit("instructionVersion");
    assert(k2 != k1) by {
        assert(k2.len() == 10);
        assert(k1.len() == 9);
    }
    assert(k3 != k1) by {
        assert(k3.len() == 6);
        assert(k1.len() == 9);
    }
    assert(k4 != k1) by {
        assert(k4.len() == 11);
        assert(k1.len() == 9);
    }
    assert(k5 != k1) by {
        assert(k5.len() == 8);
        assert(k1.len() == 9);
    }
    assert(k6 != k1) by {
        assert(k6.len() == 5);
        assert(k1.len() == 9);
    }
    assert(k7 != k1) by {
        assert(k7.len() == 13);
        assert(k1.len() == 9);
    }
    assert(k8 != k1) by {
        assert(k8.len() == 26);
        assert(k1.len() == 9);
    }
    assert(k9 != k1) by {
        assert(k9.len() == 16);
        assert(k1.len() == 9);
    }
    assert(k10 != k1) by {
        assert(k10.len() == 19);
        assert(k1.len() == 9);
    }
    assert(k11 != k1) by {
        assert(k11.len() == 14);
        assert(k1.len() == 9);
    }
    assert(k12 != k1) by {
        assert(k12.len() == 11);
        assert(k1.len() == 9);
    }
    assert(k13 != k1) by {
        assert(k13.len() == 18);
        assert(k1.len() == 9);
    }
    let v1 = Some(JVal::Str(x.input_mint.text));
    let v2 = Some(JVal::Str(x.output_mint.text));
    let v3 = Some(JVal::Str(dec_of(x.amount as nat)));
    let v4 = Some(JVal::UInt(x.slippage_bps as u64));
    let v5 = match x.swap_mode {
        Some(m) => Some(JVal::Str(spec_enc_swap_mode(m))),
        None => None,
    };
    let v6 = match x.dexes {
        Some(s) => Some(JVal::Str(s)),
        None => None,
    };
    let v7 = match x.excluded_dexes {
        Some(s) => Some(JVal::Str(s)),
        None => None,
    };
    let v8 = match x.restrict_intermediate_tokens {
        Some(b) => Some(JVal::Bool(b)),
        None => None,
    };
    let v9 = match x.only_direct_routes {
        Some(b) => Some(JVal::Bool(b)),
        None => None,
    };
    let v10 = match x.as_legacy_transaction {
        Some(b) => Some(JVal::Bool(b)),
        None => None,
    };
    let v11 = match x.platform_fee_bps {
        Some(v) => Some(JVal::UInt(v as u64)),
        None => None,
    };
    let v12 = match x.max_accounts {
        Some(v) => Some(JVal::UInt(v as u64)),
        None => None,
    };
    let v13 = match x.instruction_version {
        Some(v) => Some(JVal::Str(spec_enc_instruction_version(v))),
        None => None,
    };
    let m1 = opt_member(k1, v1);
    let m2 = opt_member(k2, v2);
    let m3 = opt_member(k3, v3);
    let m4 = opt_member(k4, v4);
    let m5 = opt_member(k5, v5);
    let m6 = opt_member(k6, v6);
    let m7 = opt_member(k7, v7);
    let m8 = opt_member(k8, v8);
    let m9 = opt_member(k9, v9);
    let m10 = opt_member(k10, v10);
    let m11 = opt_member(k11, v11);
    let m12 = opt_member(k12, v12);
    let m13 = opt_member(k13, v13);
    let p2 = m1 + m2;
    let p3 = p2 + m3;
    let p4 = p3 + m4;
    let p5 = p4 + m5;
    let p6 = p5 + m6;
    let p7 = p6 + m7;
    let p8 = p7 + m8;
    let p9 = p8 + m9;
    let p10 = p9 + m10;
    let p11 = p10 + m11;
    let p12 = p11 + m12;
    let p13 = p12 + m13;
    assert(spec_request_members(x) == p13);
    lemma_opt_member(k1, k1, v1);
    lemma_opt_member(k2, k1, v2);
    lemma_opt_member(k3, k1, v3);
    lemma_opt_member(k4, k1, v4);
    lemma_opt_member(k5, k1, v5);
    lemma_opt_member(k6, k1, v6);
    lemma_opt_member(k7, k1, v7);
    lemma_opt_member(k8, k1, v8);
    lemma_opt_member(k9, k1, v9);
    lemma_opt_member(k10, k1, v10);
    lemma_opt_member(k11, k1, v11);
    lemma_opt_member(k12, k1, v12);
    lemma_opt_member(k13, k1, v13);
    lemma_lookup_absent(m2, k1);
    lemma_lookup_absent(m3, k1);
    lemma_lookup_absent(m4, k1);
    lemma_lookup_absent(m5, k1);
    lemma_lookup_absent(m6, k1);
    lemma_lookup_absent(m7, k1);
    lemma_lookup_absent(m8, k1);
    lemma_lookup_absent(m9, k1);
    lemma_lookup_absent(m10, k1);
    lemma_lookup_absent(m11, k1);
    lemma_lookup_absent(m12, k1);
    lemma_lookup_absent(m13, k1);
    lemma_lookup_split(m1, m2, k1);
    lemma_lookup_split(p2, m3, k1);
    lemma_lookup_split(p3, m4, k1);
    lemma_lookup_split(p4, m5, k1);
    lemma_lookup_split(p5, m6, k1);
    lemma_lookup_split(p6, m7, k1);
    lemma_lookup_split(p7, m8, k1);
    lemma_lookup_split(p8, m9, k1);
    lemma_lookup_split(p9, m10, k1);
    lemma_lookup_split(p10, m11, k1);
    lemma_lookup_split(p11, m12, k1);
    lemma_lookup_split(p12, m13, k1);
}

/// Where the outputMint member stands in an encoded request.
#[verifier::spinoff_prover]
proof fn lemma_req_lookup_2(x: QuoteRequestV)
    ensures
        lookup(spec_request_members(x), "outputMint"@) == opt_val(Some(JVal::Str(x.output_mint.text))),
        has_key(spec_request_members(x), "outputMint"@) == ((Some(JVal::Str(x.output_mint.text))) is Some),
{
    let k1 = "inputMint"@;
    let k2 = "outputMint"@;
    let k3 = "amount"@;
    let k4 = "slippageBps"@;
    let k5 = "swapMode"@;
    let k6 = "dexes"@;
    let k7 = "excludedDexes"@;
    let k8 = "restrictIntermediateTokens"@;
    let k9 = "onlyDirectRoutes"@;
    let k10 = "asLegacyTransaction"@;
    let k11 = "platformFeeBps"@;
    let k12 = "maxAccounts"@;
    let k13 = "instructionVersion"@;
    reveal_strlit("inputMint");
    reveal_strlit("outputMint");
    reveal_strlit("amount");
    reveal_strlit("slippageBps");
    reveal_strlit("swapMode");
    reveal_strlit("dexes");
    reveal_strlit("excludedDexes");
    reveal_strlit("restrictIntermediateTokens");
    reveal_strlit("onlyDirectRoutes");
    reveal_strlit("asLegacyTransaction");
    reveal_strlit("platformFeeBps");
    reveal_strlit("maxAccounts");
    reveal_strlit("instructionVersion");
    assert(k1 != k2) by {
        assert(k1.len() == 9);
        assert(k2.len() == 10);
    }
    assert(k3 != k2) by {
        assert(k3.len() == 6);
        assert(k2.len() == 10);
    }
    assert(k4 != k2) by {
        assert(k4.len() == 11);
        assert(k2.len() == 10);
    }
    assert(k5 != k2) by {
        assert(k5.len() == 8);
        assert(k2.len() == 10);
    }
    assert(k6 != k2) by {
        assert(k6.len() == 5);
        assert(k2.len() == 10);
    }
    assert(k7 != k2) by {
        assert(k7.len() == 13);
        assert(k2.len() == 10);
    }
    assert(k8 != k2) by {
        assert(k8.len() == 26);
        assert(k2.len() == 10);
    }
    assert(k9 != k2) by {
        assert(k9.len() == 16);
        assert(k2.len() == 10);
    }
    assert(k10 != k2) by {
        assert(k10.len() == 19);
        assert(k2.len() == 10);
    }
    assert(k11 != k2) by {
        assert(k11.len() == 14);
        assert(k2.len() == 10);
    }
    assert(k12 != k2) by {
        assert(k12.len() == 11);
        assert(k2.len() == 10);
    }
    assert(k13 != k2) by {
        assert(k13.len() == 18);
        assert(k2.len() == 10);
    }
    let v1 = Some(JVal::Str(x.input_mint.text));
    let v2 = Some(JVal::Str(x.output_mint.text));
    let v3 = Some(JVal::Str(dec_of(x.amount as nat)));
    let v4 = Some(JVal::UInt(x.slippage_bps as u64));
    let v5 = match x.swap_mode {
        Some(m) => Some(JVal::Str(spec_enc_swap_mode(m))),
        None => None,
    };
    let v6 = match x.dexes {
        Some(s) => Some(JVal::Str(s)),
        None => None,
    };
    let v7 = match x.excluded_dexes {
        Some(s) => Some(JVal::Str(s)),
        None => None,
    };
    let v8 = match x.restrict_intermediate_tokens {
        Some(b) => Some(JVal::Bool(b)),
        None => None,
    };
    let v9 = match x.only_direct_routes {
        Some(b) => Some(JVal::Bool(b)),
        None => None,
    };
    let v10 = match x.as_legacy_transaction {
        Some(b) => Some(JVal::Bool(b)),
        None => None,
    };
    let v11 = match x.platform_fee_bps {
        Some(v) => Some(JVal::UInt(v as u64)),
        None => None,
    };
    let v12 = match x.max_accounts {
        Some(v) => Some(JVal::UInt(v as u64)),
        None => None,
    };
    let v13 = match x.instruction_version {
        Some(v) => Some(JVal::Str(spec_enc_instruction_version(v))),
        None => None,
    };
    let m1 = opt_member(k1, v1);
    let m2 = opt_member(k2, v2);
    let m3 = opt_member(k3, v3);
    let m4 = opt_member(k4, v4);
    let m5 = opt_member(k5, v5);
    let m6 = opt_member(k6, v6);
    let m7 = opt_member(k7, v7);
    let m8 = opt_member(k8, v8);
    let m9 = opt_member(k9, v9);
    let m10 = opt_member(k10, v10);
    let m11 = opt_member(k11, v11);
    let m12 = opt_member(k12, v12);
    let m13 = opt_member(k13, v13);
    let p2 = m1 + m2;
    let p3 = p2 + m3;
    let p4 = p3 + m4;
    let p5 = p4 + m5;
    let p6 = p5 + m6;
    let p7 = p6 + m7;
    let p8 = p7 + m8;
    let p9 = p8 + m9;
    let p10 = p9 + m10;
    let p11 = p10 + m11;
    let p12 = p11 + m12;
    let p13 = p12 + m13;
    assert(spec_request_members(x) == p13);
    lemma_opt_member(k1, k2, v1);
    lemma_opt_member(k2, k2, v2);
    lemma_opt_member(k3, k2, v3);
    lemma_opt_member(k4, k2, v4);
    lemma_opt_member(k5, k2, v5);
    lemma_opt_member(k6, k2, v6);
    lemma_opt_member(k7, k2, v7);
    lemma_opt_member(k8, k2, v8);
    lemma_opt_member(k9, k2, v9);
    lemma_opt_member(k10, k2, v10);
    lemma_opt_member(k11, k2, v11);
    lemma_opt_member(k12, k2, v12);
    lemma_opt_member(k13, k2, v13);
    lemma_lookup_absent(m1, k2);
    lemma_lookup_absent(m3, k2);
    lemma_lookup_absent(m4, k2);
    lemma_lookup_absent(m5, k2);
    lemma_lookup_absent(m6, k2);
    lemma_lookup_absent(m7, k2);
    lemma_lookup_absent(m8, k2);
    lemma_lookup_absent(m9, k2);
    lemma_lookup_absent(m10, k2);
    lemma_lookup_absent(m11, k2);
    lemma_lookup_absent(m12, k2);
    lemma_lookup_absent(m13, k2);
    lemma_lookup_split(m1, m2, k2);
    lemma_lookup_split(p2, m3, k2);
    lemma_lookup_split(p3, m4, k2);
    lemma_lookup_split(p4, m5, k2);
    lemma_lookup_split(p5, m6, k2);
    lemma_lookup_split(p6, m7, k2);
    lemma_lookup_split(p7, m8, k2);
    lemma_lookup_split(p8, m9, k2);
    lemma_lookup_split(p9, m10, k2);
    lemma_lookup_split(p10, m11, k2);
    lemma_lookup_split(p11, m12, k2);
    lemma_lookup_split(p12, m13, k2);
}

/// Where the amount member stands in an encoded request.
#[verifier::spinoff_prover]
proof fn lemma_req_lookup_3(x: QuoteRequestV)
    ensures
        lookup(spec_request_members(x), "amount"@) == opt_val(Some(JVal::Str(dec_of(x.amount as nat)))),
        has_key(spec_request_members(x), "amount"@) == ((Some(JVal::Str(dec_of(x.amount as nat)))) is Some),
{
    let k1 = "inputMint"@;
    let k2 = "outputMint"@;
    let k3 = "amount"@;
    let k4 = "slippageBps"@;
    let k5 = "swapMode"@;
    let k6 = "dexes"@;
    let k7 = "excludedDexes"@;
    let k8 = "restrictIntermediateTokens"@;
    let k9 = "onlyDirectRoutes"@;
    let k10 = "asLegacyTransaction"@;
    let k11 = "platformFeeBps"@;
    let k12 = "maxAccounts"@;
    let k13 = "instructionVersion"@;
    reveal_strlit("inputMint");
    reveal_strlit("outputMint");
    reveal_strlit("amount");
    reveal_strlit("slippageBps");
    reveal_strlit("swapMode");
    reveal_strlit("dexes");
    reveal_strlit("excludedDexes");
    reveal_strlit("restrictIntermediateTokens");
    reveal_strlit("onlyDirectRoutes");
    reveal_strlit("asLegacyTransaction");
    reveal_strlit("platformFeeBps");
    reveal_strlit("maxAccounts");
    reveal_strlit("instructionVersion");
    assert(k1 != k3) by {
        assert(k1.len() == 9);
        assert(k3.len() == 6);
    }
    assert(k2 != k3) by {
        assert(k2.len() == 10);
        assert(k3.len() == 6);
    }
    assert(k4 != k3) by {
        assert(k4.len() == 11);
        assert(k3.len() == 6);
    }
    assert(k5 != k3) by {
        assert(k5.len() == 8);
        assert(k3.len() == 6);
    }
    assert(k6 != k3) by {
        assert(k6.len() == 5);
        assert(k3.len() == 6);
    }
    assert(k7 != k3) by {
        assert(k7.len() == 13);
        assert(k3.len() == 6);
    }
    assert(k8 != k3) by {
        assert(k8.len() == 26);
        assert(k3.len() == 6);
    }
    assert(k9 != k3) by {
        assert(k9.len() == 16);
        assert(k3.len() == 6);
    }
    assert(k10 != k3) by {
        assert(k10.len() == 19);
        assert(k3.len() == 6);
    }
    assert(k11 != k3) by {
        assert(k11.len() == 14);
        assert(k3.len() == 6);
    }
    assert(k12 != k3) by {
        assert(k12.len() == 11);
        assert(k3.len() == 6);
    }
    assert(k13 != k3) by {
        assert(k13.len() == 18);
        assert(k3.len() == 6);
    }
    let v1 = Some(JVal::Str(x.input_mint.text));
    let v2 = Some(JVal::Str(x.output_mint.text));
    let v3 = Some(JVal::Str(dec_of(x.amount as nat)));
    let v4 = Some(JVal::UInt(x.slippage_bps as u64));
    let v5 = match x.swap_mode {
        Some(m) => Some(JVal::Str(spec_enc_swap_mode(m))),
        None => None,
    };
    let v6 = match x.dexes {
        Some(s) => Some(JVal::Str(s)),
        None => None,
    };
    let v7 = match x.excluded_dexes {
        Some(s) => Some(JVal::Str(s)),
        None => None,
    };
    let v8 = match x.restrict_intermediate_tokens {
        Some(b) => Some(JVal::Bool(b)),
        None => None,
    };
    let v9 = match x.only_direct_routes {
        Some(b) => Some(JVal::Bool(b)),
        None => None,
    };
    let v10 = match x.as_legacy_transaction {
        Some(b) => Some(JVal::Bool(b)),
        None => None,
    };
    let v11 = match x.platform_fee_bps {
        Some(v) => Some(JVal::UInt(v as u64)),
        None => None,
    };
    let v12 = match x.max_accounts {
        Some(v) => Some(JVal::UInt(v as u64)),
        None => None,
    };
    let v13 = match x.instruction_version {
        Some(v) => Some(JVal::Str(spec_enc_instruction_version(v))),
        None => None,
    };
    let m1 = opt_member(k1, v1);
    let m2 = opt_member(k2, v2);
    let m3 = opt_member(k3, v3);
    let m4 = opt_member(k4, v4);
    let m5 = opt_member(k5, v5);
    let m6 = opt_member(k6, v6);
    let m7 = opt_member(k7, v7);
    let m8 = opt_member(k8, v8);
    let m9 = opt_member(k9, v9);
    let m10 = opt_member(k10, v10);
    let m11 = opt_member(k11, v11);
    let m12 = opt_member(k12, v12);
    let m13 = opt_member(k13, v13);
    let p2 = m1 + m2;
    let p3 = p2 + m3;
    let p4 = p3 + m4;
    let p5 = p4 + m5;
    let p6 = p5 + m6;
    let p7 = p6 + m7;
    let p8 = p7 + m8;
    let p9 = p8 + m9;
    let p10 = p9 + m10;
    let p11 = p10 + m11;
    let p12 = p11 + m12;
    let p13 = p12 + m13;
    assert(spec_request_members(x) == p13);
    lemma_opt_member(k1, k3, v1);
    lemma_opt_member(k2, k3, v2);
    lemma_opt_member(k3, k3, v3);
    lemma_opt_member(k4, k3, v4);
    lemma_opt_member(k5, k3, v5);
    lemma_opt_member(k6, k3, v6);
    lemma_opt_member(k7, k3, v7);
    lemma_opt_member(k8, k3, v8);
    lemma_opt_member(k9, k3, v9);
    lemma_opt_member(k10, k3, v10);
    lemma_opt_member(k11, k3, v11);
    lemma_opt_member(k12, k3, v12);
    lemma_opt_member(k13, k3, v13);
    lemma_lookup_absent(m1, k3);
    lemma_lookup_absent(m2, k3);
    lemma_lookup_absent(m4, k3);
    lemma_lookup_absent(m5, k3);
    lemma_lookup_absent(m6, k3);
    lemma_lookup_absent(m7, k3);
    lemma_lookup_absent(m8, k3);
    lemma_lookup_absent(m9, k3);
    lemma_lookup_absent(m10, k3);
    lemma_lookup_absent(m11, k3);
    lemma_lookup_absent(m12, k3);
    lemma_lookup_absent(m13, k3);
    lemma_lookup_split(m1, m2, k3);
    lemma_lookup_split(p2, m3, k3);
    lemma_lookup_split(p3, m4, k3);
    lemma_lookup_split(p4, m5, k3);
    lemma_lookup_split(p5, m6, k3);
    lemma_lookup_split(p6, m7, k3);
    lemma_lookup_split(p7, m8, k3);
    lemma_lookup_split(p8, m9, k3);
    lemma_lookup_split(p9, m10, k3);
    lemma_lookup_split(p10, m11, k3);
    lemma_lookup_split(p11, m12, k3);
    lemma_lookup_split(p12, m13, k3);
}

/// Where the slippageBps member stands in an encoded request.
#[verifier::spinoff_prover]
proof fn lemma_req_lookup_4(x: QuoteRequestV)
    ensures
        lookup(spec_request_members(x), "slippageBps"@) == opt_val(Some(JVal::UInt(x.slippage_bps as u64))),
        has_key(spec_request_members(x), "slippageBps"@) == ((Some(JVal::UInt(x.slippage_bps as u64))) is Some),
{
    let k1 = "inputMint"@;
    let k2 = "outputMint"@;
    let k3 = "amount"@;
    let k4 = "slippageBps"@;
    let k5 = "swapMode"@;
    let k6 = "dexes"@;
    let k7 = "excludedDexes"@;
    let k8 = "restrictIntermediateTokens"@;
    let k9 = "onlyDirectRoutes"@;
    let k10 = "asLegacyTransaction"@;
    let k11 = "platformFeeBps"@;
    let k12 = "maxAccounts"@;
    let k13 = "instructionVersion"@;
    reveal_strlit("inputMint");
    reveal_strlit("outputMint");
    reveal_strlit("amount");
    reveal_strlit("slippageBps");
    reveal_strlit("swapMode");
    reveal_strlit("dexes");
    reveal_strlit("excludedDexes");
    reveal_strlit("restrictIntermediateTokens");
    reveal_strlit("onlyDirectRoutes");
    reveal_strlit("asLegacyTransaction");
    reveal_strlit("platformFeeBps");
    reveal_strlit("maxAccounts");
    reveal_strlit("instructionVersion");
    assert(k1 != k4) by {
        assert(k1.len() == 9);
        assert(k4.len() == 11);
    }
    assert(k2 != k4) by {
        assert(k2.len() == 10);
        assert(k4.len() == 11);
    }
    assert(k3 != k4) by {
        assert(k3.len() == 6);
        assert(k4.len() == 11);
    }
    assert(k5 != k4) by {
        assert(k5.len() == 8);
        assert(k4.len() == 11);
    }
    assert(k6 != k4) by {
        assert(k6.len() == 5);
        assert(k4.len() == 11);
    }
    assert(k7 != k4) by {
        assert(k7.len() == 13);
        assert(k4.len() == 11);
    }
    assert(k8 != k4) by {
        assert(k8.len() == 26);
        assert(k4.len() == 11);
    }
    assert(k9 != k4) by {
        assert(k9.len() == 16);
        assert(k4.len() == 11);
    }
    assert(k10 != k4) by {
        assert(k10.len() == 19);
        assert(k4.len() == 11);
    }
    assert(k11 != k4) by {
        assert(k11.len() == 14);
        assert(k4.len() == 11);
    }
    assert(k12 != k4) by {
        assert(k12[0] == 'm');
        assert(k4[0] == 's');
    }
    assert(k13 != k4) by {
        assert(k13.len() == 18);
        assert(k4.len() == 11);
    }
    let v1 = Some(JVal::Str(x.input_mint.text));
    let v2 = Some(JVal::Str(x.output_mint.text));
    let v3 = Some(JVal::Str(dec_of(x.amount as nat)));
    let v4 = Some(JVal::UInt(x.slippage_bps as u64));
    let v5 = match x.swap_mode {
        Some(m) => Some(JVal::Str(spec_enc_swap_mode(m))),
        None => None,
    };
    let v6 = match x.dexes {
        Some(s) => Some(JVal::Str(s)),
        None => None,
    };
    let v7 = match x.excluded_dexes {
        Some(s) => Some(JVal::Str(s)),
        None => None,
    };
    let v8 = match x.restrict_intermediate_tokens {
        Some(b) => Some(JVal::Bool(b)),
        None => None,
    };
    let v9 = match x.only_direct_routes {
        Some(b) => Some(JVal::Bool(b)),
        None => None,
    };
    let v10 = match x.as_legacy_transaction {
        Some(b) => Some(JVal::Bool(b)),
        None => None,
    };
    let v11 = match x.platform_fee_bps {
        Some(v) => Some(JVal::UInt(v as u64)),
        None => None,
    };
    let v12 = match x.max_accounts {
        Some(v) => Some(JVal::UInt(v as u64)),
        None => None,
    };
    let v13 = match x.instruction_version {
        Some(v) => Some(JVal::Str(spec_enc_instruction_version(v))),
        None => None,
    };
    let m1 = opt_member(k1, v1);
    let m2 = opt_member(k2, v2);
    let m3 = opt_member(k3, v3);
    let m4 = opt_member(k4, v4);
    let m5 = opt_member(k5, v5);
    let m6 = opt_member(k6, v6);
    let m7 = opt_member(k7, v7);
    let m8 = opt_member(k8, v8);
    let m9 = opt_member(k9, v9);
    let m10 = opt_member(k10, v10);
    let m11 = opt_member(k11, v11);
    let m12 = opt_member(k12, v12);
    let m13 = opt_member(k13, v13);
    let p2 = m1 + m2;
    let p3 = p2 + m3;
    let p4 = p3 + m4;
    let p5 = p4 + m5;
    let p6 = p5 + m6;
    let p7 = p6 + m7;
    let p8 = p7 + m8;
    let p9 = p8 + m9;
    let p10 = p9 + m10;
    let p11 = p10 + m11;
    let p12 = p11 + m12;
    let p13 = p12 + m13;
    assert(spec_request_members(x) == p13);
    lemma_opt_member(k1, k4, v1);
    lemma_opt_member(k2, k4, v2);
    lemma_opt_member(k3, k4, v3);
    lemma_opt_member(k4, k4, v4);
    lemma_opt_member(k5, k4, v5);
    lemma_opt_member(k6, k4, v6);
    lemma_opt_member(k7, k4, v7);
    lemma_opt_member(k8, k4, v8);
    lemma_opt_member(k9, k4, v9);
    lemma_opt_member(k10, k4, v10);
    lemma_opt_member(k11, k4, v11);
    lemma_opt_member(k12, k4, v12);
    lemma_opt_member(k13, k4, v13);
    lemma_lookup_absent(m1, k4);
    lemma_lookup_absent(m2, k4);
    lemma_lookup_absent(m3, k4);
    lemma_lookup_absent(m5, k4);
    lemma_lookup_absent(m6, k4);
    lemma_lookup_absent(m7, k4);
    lemma_lookup_absent(m8, k4);
    lemma_lookup_absent(m9, k4);
    lemma_lookup_absent(m10, k4);
    lemma_lookup_absent(m11, k4);
    lemma_lookup_absent(m12, k4);
    lemma_lookup_absent(m13, k4);
    lemma_lookup_split(m1, m2, k4);
    lemma_lookup_split(p2, m3, k4);
    lemma_lookup_split(p3, m4, k4);
    lemma_lookup_split(p4, m5, k4);
    lemma_lookup_split(p5, m6, k4);
    lemma_lookup_split(p6, m7, k4);
    lemma_lookup_split(p7, m8, k4);
    lemma_lookup_split(p8, m9, k4);
    lemma_lookup_split(p9, m10, k4);
    lemma_lookup_split(p10, m11, k4);
    lemma_lookup_split(p11, m12, k4);
    lemma_lookup_split(p12, m13, k4);
}

/// Where the swapMode member stands in an encoded request.
#[verifier::spinoff_prover]
proof fn lemma_req_lookup_5(x: QuoteRequestV)
    ensures
        lookup(spec_request_members(x), "swapMode"@) == opt_val(match x.swap_mode {
        Some(m) => Some(JVal::Str(spec_enc_swap_mode(m))),
        None => None,
    }),
        has_key(spec_request_members(x), "swapMode"@) == ((match x.swap_mode {
        Some(m) => Some(JVal::Str(spec_enc_swap_mode(m))),
        None => None,
    }) is Some),
{
    let k1 = "inputMint"@;
    let k2 = "outputMint"@;
    let k3 = "amount"@;
    let k4 = "slippageBps"@;
    let k5 = "swapMode"@;
    let k6 = "dexes"@;
    let k7 = "excludedDexes"@;
    let k8 = "restrictIntermediateTokens"@;
    let k9 = "onlyDirectRoutes"@;
    let k10 = "asLegacyTransaction"@;
    let k11 = "platformFeeBps"@;
    let k12 = "maxAccounts"@;
    let k13 = "instructionVersion"@;
    reveal_strlit("inputMint");
    reveal_strlit("outputMint");
    reveal_strlit("amount");
    reveal_strlit("slippageBps");
    reveal_strlit("swapMode");
    reveal_strlit("dexes");
    reveal_strlit("excludedDexes");
    reveal_strlit("restrictIntermediateTokens");
    reveal_strlit("onlyDirectRoutes");
    reveal_strlit("asLegacyTransaction");
    reveal_strlit("platformFeeBps");
    reveal_strlit("maxAccounts");
    reveal_strlit("instructionVersion");
    assert(k1 != k5) by {
        assert(k1.len() == 9);
        assert(k5.len() == 8);
    }
    assert(k2 != k5) by {
        assert(k2.len() == 10);
        assert(k5.len() == 8);
    }
    assert(k3 != k5) by {
        assert(k3.len() == 6);
        assert(k5.len() == 8);
    }
    assert(k4 != k5) by {
        assert(k4.len() == 11);
        assert(k5.len() == 8);
    }
    assert(k6 != k5) by {
        assert(k6.len() == 5);
        assert(k5.len() == 8);
    }
    assert(k7 != k5) by {
        assert(k7.len() == 13);
        assert(k5.len() == 8);
    }
    assert(k8 != k5) by {
        assert(k8.len() == 26);
        assert(k5.len() == 8);
    }
    assert(k9 != k5) by {
        assert(k9.len() == 16);
        assert(k5.len() == 8);
    }
    assert(k10 != k5) by {
        assert(k10.len() == 19);
        assert(k5.len() == 8);
    }
    assert(k11 != k5) by {
        assert(k11.len() == 14);
        assert(k5.len() == 8);
    }
    assert(k12 != k5) by {
        assert(k12.len() == 11);
        assert(k5.len() == 8);
    }
    assert(k13 != k5) by {
        assert(k13.len() == 18);
        assert(k5.len() == 8);
    }
    let v1 = Some(JVal::Str(x.input_mint.text));
    let v2 = Some(JVal::Str(x.output_mint.text));
    let v3 = Some(JVal::Str(dec_of(x.amount as nat)));
    let v4 = Some(JVal::UInt(x.slippage_bps as u64));
    let v5 = match x.swap_mode {
        Some(m) => Some(JVal::Str(spec_enc_swap_mode(m))),
        None => None,
    };
    let v6 = match x.dexes {
        Some(s) => Some(JVal::Str(s)),
        None => None,
    };
    let v7 = match x.excluded_dexes {
        Some(s) => Some(JVal::Str(s)),
        None => None,
    };
    let v8 = match x.restrict_intermediate_tokens {
        Some(b) => Some(JVal::Bool(b)),
        None => None,
    };
    let v9 = match x.only_direct_routes {
        Some(b) => Some(JVal::Bool(b)),
        None => None,
    };
    let v10 = match x.as_legacy_transaction {
        Some(b) => Some(JVal::Bool(b)),
        None => None,
    };
    let v11 = match x.platform_fee_bps {
        Some(v) => Some(JVal::UInt(v as u64)),
        None => None,
    };
    let v12 = match x.max_accounts {
        Some(v) => Some(JVal::UInt(v as u64)),
        None => None,
    };
    let v13 = match x.instruction_version {
        Some(v) => Some(JVal::Str(spec_enc_instruction_version(v))),
        None => None,
    };
    let m1 = opt_member(k1, v1);
    let m2 = opt_member(k2, v2);
    let m3 = opt_member(k3, v3);
    let m4 = opt_member(k4, v4);
    let m5 = opt_member(k5, v5);
    let m6 = opt_member(k6, v6);
    let m7 = opt_member(k7, v7);
    let m8 = opt_member(k8, v8);
    let m9 = opt_member(k9, v9);
    let m10 = opt_member(k10, v10);
    let m11 = opt_member(k11, v11);
    let m12 = opt_member(k12, v12);
    let m13 = opt_member(k13, v13);
    let p2 = m1 + m2;
    let p3 = p2 + m3;
    let p4 = p3 + m4;
    let p5 = p4 + m5;
    let p6 = p5 + m6;
    let p7 = p6 + m7;
    let p8 = p7 + m8;
    let p9 = p8 + m9;
    let p10 = p9 + m10;
    let p11 = p10 + m11;
    let p12 = p11 + m12;
    let p13 = p12 + m13;
    assert(spec_request_members(x) == p13);
    lemma_opt_member(k1, k5, v1);
    lemma_opt_member(k2, k5, v2);
    lemma_opt_member(k3, k5, v3);
    lemma_opt_member(k4, k5, v4);
    lemma_opt_member(k5, k5, v5);
    lemma_opt_member(k6, k5, v6);
    lemma_opt_member(k7, k5, v7);
    lemma_opt_member(k8, k5, v8);
    lemma_opt_member(k9, k5, v9);
    lemma_opt_member(k10, k5, v10);
    lemma_opt_member(k11, k5, v11);
    lemma_opt_member(k12, k5, v12);
    lemma_opt_member(k13, k5, v13);
    lemma_lookup_absent(m1, k5);
    lemma_lookup_absent(m2, k5);
    lemma_lookup_absent(m3, k5);
    lemma_lookup_absent(m4, k5);
    lemma_lookup_absent(m6, k5);
    lemma_lookup_absent(m7, k5);
    lemma_lookup_absent(m8, k5);
    lemma_lookup_absent(m9, k5);
    lemma_lookup_absent(m10, k5);
    lemma_lookup_absent(m11, k5);
    lemma_lookup_absent(m12, k5);
    lemma_lookup_absent(m13, k5);
    if v5 is None {
        lemma_lookup_absent(m5, k5);
    }
    lemma_lookup_split(m1, m2, k5);
    lemma_lookup_split(p2, m3, k5);
    lemma_lookup_split(p3, m4, k5);
    lemma_lookup_split(p4, m5, k5);
    lemma_lookup_split(p5, m6, k5);
    lemma_lookup_split(p6, m7, k5);
    lemma_lookup_split(p7, m8, k5);
    lemma_lookup_split(p8, m9, k5);
    lemma_lookup_split(p9, m10, k5);
    lemma_lookup_split(p10, m11, k5);
    lemma_lookup_split(p11, m12, k5);
    lemma_lookup_split(p12, m13, k5);
}

/// Where the dexes member stands in an encoded request.
#[verifier::spinoff_prover]
proof fn lemma_req_lookup_6(x: QuoteRequestV)
    ensures
        lookup(spec_request_members(x), "dexes"@) == opt_val(match x.dexes {
        Some(s) => Some(JVal::Str(s)),
        None => None,
    }),
        has_key(spec_request_members(x), "dexes"@) == ((match x.dexes {
        Some(s) => Some(JVal::Str(s)),
        None => None,
    }) is Some),
{
    let k1 = "inputMint"@;
    let k2 = "outputMint"@;
    let k3 = "amount"@;
    let k4 = "slippageBps"@;
    let k5 = "swapMode"@;
    let k6 = "dexes"@;
    let k7 = "excludedDexes"@;
    let k8 = "restrictIntermediateTokens"@;
    let k9 = "onlyDirectRoutes"@;
    let k10 = "asLegacyTransaction"@;
    let k11 = "platformFeeBps"@;
    let k12 = "maxAccounts"@;
    let k13 = "instructionVersion"@;
    reveal_strlit("inputMint");
    reveal_strlit("outputMint");
    reveal_strlit("amount");
    reveal_strlit("slippageBps");
    reveal_strlit("swapMode");
    reveal_strlit("dexes");
    reveal_strlit("excludedDexes");
    reveal_strlit("restrictIntermediateTokens");
    reveal_strlit("onlyDirectRoutes");
    reveal_strlit("asLegacyTransaction");
    reveal_strlit("platformFeeBps");
    reveal_strlit("maxAccounts");
    reveal_strlit("instructionVersion");
    assert(k1 != k6) by {
        assert(k1.len() == 9);
        assert(k6.len() == 5);
    }
    assert(k2 != k6) by {
        assert(k2.len() == 10);
        assert(k6.len() == 5);
    }
    assert(k3 != k6) by {
        assert(k3.len() == 6);
        assert(k6.len() == 5);
    }
    assert(k4 != k6) by {
        assert(k4.len() == 11);
        assert(k6.len() == 5);
    }
    assert(k5 != k6) by {
        assert(k5.len() == 8);
        assert(k6.len() == 5);
    }
    assert(k7 != k6) by {
        assert(k7.len() == 13);
        assert(k6.len() == 5);
    }
    assert(k8 != k6) by {
        assert(k8.len() == 26);
        assert(k6.len() == 5);
    }
    assert(k9 != k6) by {
        assert(k9.len() == 16);
        assert(k6.len() == 5);
    }
    assert(k10 != k6) by {
        assert(k10.len() == 19);
        assert(k6.len() == 5);
    }
    assert(k11 != k6) by {
        assert(k11.len() == 14);
        assert(k6.len() == 5);
    }
    assert(k12 != k6) by {
        assert(k12.len() == 11);
        assert(k6.len() == 5);
    }
    assert(k13 != k6) by {
        assert(k13.len() == 18);
        assert(k6.len() == 5);
    }
    let v1 = Some(JVal::Str(x.input_mint.text));
    let v2 = Some(JVal::Str(x.output_mint.text));
    let v3 = Some(JVal::Str(dec_of(x.amount as nat)));
    let v4 = Some(JVal::UInt(x.slippage_bps as u64));
    let v5 = match x.swap_mode {
        Some(m) => Some(JVal::Str(spec_enc_swap_mode(m))),
        None => None,
    };
    let v6 = match x.dexes {
        Some(s) => Some(JVal::Str(s)),
        None => None,
    };
    let v7 = match x.excluded_dexes {
        Some(s) => Some(JVal::Str(s)),
        None => None,
    };
    let v8 = match x.restrict_intermediate_tokens {
        Some(b) => Some(JVal::Bool(b)),
        None => None,
    };
    let v9 = match x.only_direct_routes {
        Some(b) => Some(JVal::Bool(b)),
        None => None,
    };
    let v10 = match x.as_legacy_transaction {
        Some(b) => Some(JVal::Bool(b)),
        None => None,
    };
    let v11 = match x.platform_fee_bps {
        Some(v) => Some(JVal::UInt(v as u64)),
        None => None,
    };
    let v12 = match x.max_accounts {
        Some(v) => Some(JVal::UInt(v as u64)),
        None => None,
    };
    let v13 = match x.instruction_version {
        Some(v) => Some(JVal::Str(spec_enc_instruction_version(v))),
        None => None,
    };
    let m1 = opt_member(k1, v1);
    let m2 = opt_member(k2, v2);
    let m3 = opt_member(k3, v3);
    let m4 = opt_member(k4, v4);
    let m5 = opt_member(k5, v5);
    let m6 = opt_member(k6, v6);
    let m7 = opt_member(k7, v7);
    let m8 = opt_member(k8, v8);
    let m9 = opt_member(k9, v9);
    let m10 = opt_member(k10, v10);
    let m11 = opt_member(k11, v11);
    let m12 = opt_member(k12, v12);
    let m13 = opt_member(k13, v13);
    let p2 = m1 + m2;
    let p3 = p2 + m3;
    let p4 = p3 + m4;
    let p5 = p4 + m5;
    let p6 = p5 + m6;
    let p7 = p6 + m7;
    let p8 = p7 + m8;
    let p9 = p8 + m9;
    let p10 = p9 + m10;
    let p11 = p10 + m11;
    let p12 = p11 + m12;
    let p13 = p12 + m13;
    assert(spec_request_members(x) == p13);
    lemma_opt_member(k1, k6, v1);
    lemma_opt_member(k2, k6, v2);
    lemma_opt_member(k3, k6, v3);
    lemma_opt_member(k4, k6, v4);
    lemma_opt_member(k5, k6, v5);
    lemma_opt_member(k6, k6, v6);
    lemma_opt_member(k7, k6, v7);
    lemma_opt_member(k8, k6, v8);
    lemma_opt_member(k9, k6, v9);
    lemma_opt_member(k10, k6, v10);
    lemma_opt_member(k11, k6, v11);
    lemma_opt_member(k12, k6, v12);
    lemma_opt_member(k13, k6, v13);
    lemma_lookup_absent(m1, k6);
    lemma_lookup_absent(m2, k6);
    lemma_lookup_absent(m3, k6);
    lemma_lookup_absent(m4, k6);
    lemma_lookup_absent(m5, k6);
    lemma_lookup_absent(m7, k6);
    lemma_lookup_absent(m8, k6);
    lemma_lookup_absent(m9, k6);
    lemma_lookup_absent(m10, k6);
    lemma_lookup_absent(m11, k6);
    lemma_lookup_absent(m12, k6);
    lemma_lookup_absent(m13, k6);
    if v6 is None {
        lemma_lookup_absent(m6, k6);
    }
    lemma_lookup_split(m1, m2, k6);
    lemma_lookup_split(p2, m3, k6);
    lemma_lookup_split(p3, m4, k6);
    lemma_lookup_split(p4, m5, k6);
    lemma_lookup_split(p5, m6, k6);
    lemma_lookup_split(p6, m7, k6);
    lemma_lookup_split(p7, m8, k6);
    lemma_lookup_split(p8, m9, k6);
    lemma_lookup_split(p9, m10, k6);
    lemma_lookup_split(p10, m11, k6);
    lemma_lookup_split(p11, m12, k6);
    lemma_lookup_split(p12, m13, k6);
}

/// Where the excludedDexes member stands in an encoded request.
#[verifier::spinoff_prover]
proof fn lemma_req_lookup_7(x: QuoteRequestV)
    ensures
        lookup(spec_request_members(x), "excludedDexes"@) == opt_val(match x.excluded_dexes {
        Some(s) => Some(JVal::Str(s)),
        None => None,
    }),
        has_key(spec_request_members(x), "excludedDexes"@) == ((match x.excluded_dexes {
        Some(s) => Some(JVal::Str(s)),
        None => None,
    }) is Some),
{
    let k1 = "inputMint"@;
    let k2 = "outputMint"@;
    let k3 = "amount"@;
    let k4 = "slippageBps"@;
    let k5 = "swapMode"@;
    let k6 = "dexes"@;
    let k7 = "excludedDexes"@;
    let k8 = "restrictIntermediateTokens"@;
    let k9 = "onlyDirectRoutes"@;
    let k10 = "asLegacyTransaction"@;
    let k11 = "platformFeeBps"@;
    let k12 = "maxAccounts"@;
    let k13 = "instructionVersion"@;
    reveal_strlit("inputMint");
    reveal_strlit("outputMint");
    reveal_strlit("amount");
    reveal_strlit("slippageBps");
    reveal_strlit("swapMode");
    reveal_strlit("dexes");
    reveal_strlit("excludedDexes");
    reveal_strlit("restrictIntermediateTokens");
    reveal_strlit("onlyDirectRoutes");
    reveal_strlit("asLegacyTransaction");
    reveal_strlit("platformFeeBps");
    reveal_strlit("maxAccounts");
    reveal_strlit("instructionVersion");
    assert(k1 != k7) by {
        assert(k1.len() == 9);
        assert(k7.len() == 13);
    }
    assert(k2 != k7) by {
        assert(k2.len() == 10);
        assert(k7.len() == 13);
    }
    assert(k3 != k7) by {
        assert(k3.len() == 6);
        assert(k7.len() == 13);
    }
    assert(k4 != k7) by {
        assert(k4.len() == 11);
        assert(k7.len() == 13);
    }
    assert(k5 != k7) by {
        assert(k5.len() == 8);
        assert(k7.len() == 13);
    }
    assert(k6 != k7) by {
        assert(k6.len() == 5);
        assert(k7.len() == 13);
    }
    assert(k8 != k7) by {
        assert(k8.len() == 26);
        assert(k7.len() == 13);
    }
    assert(k9 != k7) by {
        assert(k9.len() == 16);
        assert(k7.len() == 13);
    }
    assert(k10 != k7) by {
        assert(k10.len() == 19);
        assert(k7.len() == 13);
    }
    assert(k11 != k7) by {
        assert(k11.len() == 14);
        assert(k7.len() == 13);
    }
    assert(k12 != k7) by {
        assert(k12.len() == 11);
        assert(k7.len() == 13);
    }
    assert(k13 != k7) by {
        assert(k13.len() == 18);
        assert(k7.len() == 13);
    }
    let v1 = Some(JVal::Str(x.input_mint.text));
    let v2 = Some(JVal::Str(x.output_mint.text));
    let v3 = Some(JVal::Str(dec_of(x.amount as nat)));
    let v4 = Some(JVal::UInt(x.slippage_bps as u64));
    let v5 = match x.swap_mode {
        Some(m) => Some(JVal::Str(spec_enc_swap_mode(m))),
        None => None,
    };
    let v6 = match x.dexes {
        Some(s) => Some(JVal::Str(s)),
        None => None,
    };
    let v7 = match x.excluded_dexes {
        Some(s) => Some(JVal::Str(s)),
        None => None,
    };
    let v8 = match x.restrict_intermediate_tokens {
        Some(b) => Some(JVal::Bool(b)),
        None => None,
    };
    let v9 = match x.only_direct_routes {
        Some(b) => Some(JVal::Bool(b)),
        None => None,
    };
    let v10 = match x.as_legacy_transaction {
        Some(b) => Some(JVal::Bool(b)),
        None => None,
    };
    let v11 = match x.platform_fee_bps {
        Some(v) => Some(JVal::UInt(v as u64)),
        None => None,
    };
    let v12 = match x.max_accounts {
        Some(v) => Some(JVal::UInt(v as u64)),
        None => None,
    };
    let v13 = match x.instruction_version {
        Some(v) => Some(JVal::Str(spec_enc_instruction_version(v))),
        None => None,
    };
    let m1 = opt_member(k1, v1);
    let m2 = opt_member(k2, v2);
    let m3 = opt_member(k3, v3);
    let m4 = opt_member(k4, v4);
    let m5 = opt_member(k5, v5);
    let m6 = opt_member(k6, v6);
    let m7 = opt_member(k7, v7);
    let m8 = opt_member(k8, v8);
    let m9 = opt_member(k9, v9);
    let m10 = opt_member(k10, v10);
    let m11 = opt_member(k11, v11);
    let m12 = opt_member(k12, v12);
    let m13 = opt_member(k13, v13);
    let p2 = m1 + m2;
    let p3 = p2 + m3;
    let p4 = p3 + m4;
    let p5 = p4 + m5;
    let p6 = p5 + m6;
    let p7 = p6 + m7;
    let p8 = p7 + m8;
    let p9 = p8 + m9;
    let p10 = p9 + m10;
    let p11 = p10 + m11;
    let p12 = p11 + m12;
    let p13 = p12 + m13;
    assert(spec_request_members(x) == p13);
    lemma_opt_member(k1, k7, v1);
    lemma_opt_member(k2, k7, v2);
    lemma_opt_member(k3, k7, v3);
    lemma_opt_member(k4, k7, v4);
    lemma_opt_member(k5, k7, v5);
    lemma_opt_member(k6, k7, v6);
    lemma_opt_member(k7, k7, v7);
    lemma_opt_member(k8, k7, v8);
    lemma_opt_member(k9, k7, v9);
    lemma_opt_member(k10, k7, v10);
    lemma_opt_member(k11, k7, v11);
    lemma_opt_member(k12, k7, v12);
    lemma_opt_member(k13, k7, v13);
    lemma_lookup_absent(m1, k7);
    lemma_lookup_absent(m2, k7);
    lemma_lookup_absent(m3, k7);
    lemma_lookup_absent(m4, k7);
    lemma_lookup_absent(m5, k7);
    lemma_lookup_absent(m6, k7);
    lemma_lookup_absent(m8, k7);
    lemma_lookup_absent(m9, k7);
    lemma_lookup_absent(m10, k7);
    lemma_lookup_absent(m11, k7);
    lemma_lookup_absent(m12, k7);
    lemma_lookup_absent(m13, k7);
    if v7 is None {
        lemma_lookup_absent(m7, k7);
    }
    lemma_lookup_split(m1, m2, k7);
    lemma_lookup_split(p2, m3, k7);
    lemma_lookup_split(p3, m4, k7);
    lemma_lookup_split(p4, m5, k7);
    lemma_lookup_split(p5, m6, k7);
    lemma_lookup_split(p6, m7, k7);
    lemma_lookup_split(p7, m8, k7);
    lemma_lookup_split(p8, m9, k7);
    lemma_lookup_split(p9, m10, k7);
    lemma_lookup_split(p10, m11, k7);
    lemma_lookup_split(p11, m12, k7);
    lemma_lookup_split(p12, m13, k7);
}

/// Where the restrictIntermediateTokens member stands in an encoded request.
#[verifier::spinoff_prover]
proof fn lemma_req_lookup_8(x: QuoteRequestV)
    ensures
        lookup(spec_request_members(x), "restrictIntermediateTokens"@) == opt_val(match x.restrict_intermediate_tokens {
        Some(b) => Some(JVal::Bool(b)),
        None => None,
    }),
        has_key(spec_request_members(x), "restrictIntermediateTokens"@) == ((match x.restrict_intermediate_tokens {
        Some(b) => Some(JVal::Bool(b)),
        None => None,
    }) is Some),
{
    let k1 = "inputMint"@;
    let k2 = "outputMint"@;
    let k3 = "amount"@;
    let k4 = "slippageBps"@;
    let k5 = "swapMode"@;
    let k6 = "dexes"@;
    let k7 = "excludedDexes"@;
    let k8 = "restrictIntermediateTokens"@;
    let k9 = "onlyDirectRoutes"@;
    let k10 = "asLegacyTransaction"@;
    let k11 = "platformFeeBps"@;
    let k12 = "maxAccounts"@;
    let k13 = "instructionVersion"@;
    reveal_strlit("inputMint");
    reveal_strlit("outputMint");
    reveal_strlit("amount");
    reveal_strlit("slippageBps");
    reveal_strlit("swapMode");
    reveal_strlit("dexes");
    reveal_strlit("excludedDexes");
    reveal_strlit("restrictIntermediateTokens");
    reveal_strlit("onlyDirectRoutes");
    reveal_strlit("asLegacyTransaction");
    reveal_strlit("platformFeeBps");
    reveal_strlit("maxAccounts");
    reveal_strlit("instructionVersion");
    assert(k1 != k8) by {
        assert(k1.len() == 9);
        assert(k8.len() == 26);
    }
    assert(k2 != k8) by {
        assert(k2.len() == 10);
        assert(k8.len() == 26);
    }
    assert(k3 != k8) by {
        assert(k3.len() == 6);
        assert(k8.len() == 26);
    }
    assert(k4 != k8) by {
        assert(k4.len() == 11);
        assert(k8.len() == 26);
    }
    assert(k5 != k8) by {
        assert(k5.len() == 8);
        assert(k8.len() == 26);
    }
    assert(k6 != k8) by {
        assert(k6.len() == 5);
        assert(k8.len() == 26);
    }
    assert(k7 != k8) by {
        assert(k7.len() == 13);
        assert(k8.len() == 26);
    }
    assert(k9 != k8) by {
        assert(k9.len() == 16);
        assert(k8.len() == 26);
    }
    assert(k10 != k8) by {
        assert(k10.len() == 19);
        assert(k8.len() == 26);
    }
    assert(k11 != k8) by {
        assert(k11.len() == 14);
        assert(k8.len() == 26);
    }
    assert(k12 != k8) by {
        assert(k12.len() == 11);
        assert(k8.len() == 26);
    }
    assert(k13 != k8) by {
        assert(k13.len() == 18);
        assert(k8.len() == 26);
    }
    let v1 = Some(JVal::Str(x.input_mint.text));
    let v2 = Some(JVal::Str(x.output_mint.text));
    let v3 = Some(JVal::Str(dec_of(x.amount as nat)));
    let v4 = Some(JVal::UInt(x.slippage_bps as u64));
    let v5 = match x.swap_mode {
        Some(m) => Some(JVal::Str(spec_enc_swap_mode(m))),
        None => None,
    };
    let v6 = match x.dexes {
        Some(s) => Some(JVal::Str(s)),
        None => None,
    };
    let v7 = match x.excluded_dexes {
        Some(s) => Some(JVal::Str(s)),
        None => None,
    };
    let v8 = match x.restrict_intermediate_tokens {
        Some(b) => Some(JVal::Bool(b)),
        None => None,
    };
    let v9 = match x.only_direct_routes {
        Some(b) => Some(JVal::Bool(b)),
        None => None,
    };
    let v10 = match x.as_legacy_transaction {
        Some(b) => Some(JVal::Bool(b)),
        None => None,
    };
    let v11 = match x.platform_fee_bps {
        Some(v) => Some(JVal::UInt(v as u64)),
        None => None,
    };
    let v12 = match x.max_accounts {
        Some(v) => Some(JVal::UInt(v as u64)),
        None => None,
    };
    let v13 = match x.instruction_version {
        Some(v) => Some(JVal::Str(spec_enc_instruction_version(v))),
        None => None,
    };
    let m1 = opt_member(k1, v1);
    let m2 = opt_member(k2, v2);
    let m3 = opt_member(k3, v3);
    let m4 = opt_member(k4, v4);
    let m5 = opt_member(k5, v5);
    let m6 = opt_member(k6, v6);
    let m7 = opt_member(k7, v7);
    let m8 = opt_member(k8, v8);
    let m9 = opt_member(k9, v9);
    let m10 = opt_member(k10, v10);
    let m11 = opt_member(k11, v11);
    let m12 = opt_member(k12, v12);
    let m13 = opt_member(k13, v13);
    let p2 = m1 + m2;
    let p3 = p2 + m3;
    let p4 = p3 + m4;
    let p5 = p4 + m5;
    let p6 = p5 + m6;
    let p7 = p6 + m7;
    let p8 = p7 + m8;
    let p9 = p8 + m9;
    let p10 = p9 + m10;
    let p11 = p10 + m11;
    let p12 = p11 + m12;
    let p13 = p12 + m13;
    assert(spec_request_members(x) == p13);
    lemma_opt_member(k1, k8, v1);
    lemma_opt_member(k2, k8, v2);
    lemma_opt_member(k3, k8, v3);
    lemma_opt_member(k4, k8, v4);
    lemma_opt_member(k5, k8, v5);
    lemma_opt_member(k6, k8, v6);
    lemma_opt_member(k7, k8, v7);
    lemma_opt_member(k8, k8, v8);
    lemma_opt_member(k9, k8, v9);
    lemma_opt_member(k10, k8, v10);
    lemma_opt_member(k11, k8, v11);
    lemma_opt_member(k12, k8, v12);
    lemma_opt_member(k13, k8, v13);
    lemma_lookup_absent(m1, k8);
    lemma_lookup_absent(m2, k8);
    lemma_lookup_absent(m3, k8);
    lemma_lookup_absent(m4, k8);
    lemma_lookup_absent(m5, k8);
    lemma_lookup_absent(m6, k8);
    lemma_lookup_absent(m7, k8);
    lemma_lookup_absent(m9, k8);
    lemma_lookup_absent(m10, k8);
    lemma_lookup_absent(m11, k8);
    lemma_lookup_absent(m12, k8);
    lemma_lookup_absent(m13, k8);
    if v8 is None {
        lemma_lookup_absent(m8, k8);
    }
    lemma_lookup_split(m1, m2, k8);
    lemma_lookup_split(p2, m3, k8);
    lemma_lookup_split(p3, m4, k8);
    lemma_lookup_split(p4, m5, k8);
    lemma_lookup_split(p5, m6, k8);
    lemma_lookup_split(p6, m7, k8);
    lemma_lookup_split(p7, m8, k8);
    lemma_lookup_split(p8, m9, k8);
    lemma_lookup_split(p9, m10, k8);
    lemma_lookup_split(p10, m11, k8);
    lemma_lookup_split(p11, m12, k8);
    lemma_lookup_split(p12, m13, k8);
}

/// Where the onlyDirectRoutes member stands in an encoded request.
#[verifier::spinoff_prover]
proof fn lemma_req_lookup_9(x: QuoteRequestV)
    ensures
        lookup(spec_request_members(x), "onlyDirectRoutes"@) == opt_val(match x.only_direct_routes {
        Some(b) => Some(JVal::Bool(b)),
        None => None,
    }),
        has_key(spec_request_members(x), "onlyDirectRoutes"@) == ((match x.only_direct_routes {
        Some(b) => Some(JVal::Bool(b)),
        None => None,
    }) is Some),
{
    let k1 = "inputMint"@;
    let k2 = "outputMint"@;
    let k3 = "amount"@;
    let k4 = "slippageBps"@;
    let k5 = "swapMode"@;
    let k6 = "dexes"@;
    let k7 = "excludedDexes"@;
    let k8 = "restrictIntermediateTokens"@;
    let k9 = "onlyDirectRoutes"@;
    let k10 = "asLegacyTransaction"@;
    let k11 = "platformFeeBps"@;
    let k12 = "maxAccounts"@;
    let k13 = "instructionVersion"@;
    reveal_strlit("inputMint");
    reveal_strlit("outputMint");
    reveal_strlit("amount");
    reveal_strlit("slippageBps");
    reveal_strlit("swapMode");
    reveal_strlit("dexes");
    reveal_strlit("excludedDexes");
    reveal_strlit("restrictIntermediateTokens");
    reveal_strlit("onlyDirectRoutes");
    reveal_strlit("asLegacyTransaction");
    reveal_strlit("platformFeeBps");
    reveal_strlit("maxAccounts");
    reveal_strlit("instructionVersion");
    assert(k1 != k9) by {
        assert(k1.len() == 9);
        assert(k9.len() == 16);
    }
    assert(k2 != k9) by {
        assert(k2.len() == 10);
        assert(k9.len() == 16);
    }
    assert(k3 != k9) by {
        assert(k3.len() == 6);
        assert(k9.len() == 16);
    }
    assert(k4 != k9) by {
        assert(k4.len() == 11);
        assert(k9.len() == 16);
    }
    assert(k5 != k9) by {
        assert(k5.len() == 8);
        assert(k9.len() == 16);
    }
    assert(k6 != k9) by {
        assert(k6.len() == 5);
        assert(k9.len() == 16);
    }
    assert(k7 != k9) by {
        assert(k7.len() == 13);
        assert(k9.len() == 16);
    }
    assert(k8 != k9) by {
        assert(k8.len() == 26);
        assert(k9.len() == 16);
    }
    assert(k10 != k9) by {
        assert(k10.len() == 19);
        assert(k9.len() == 16);
    }
    assert(k11 != k9) by {
        assert(k11.len() == 14);
        assert(k9.len() == 16);
    }
    assert(k12 != k9) by {
        assert(k12.len() == 11);
        assert(k9.len() == 16);
    }
    assert(k13 != k9) by {
        assert(k13.len() == 18);
        assert(k9.len() == 16);
    }
    let v1 = Some(JVal::Str(x.input_mint.text));
    let v2 = Some(JVal::Str(x.output_mint.text));
    let v3 = Some(JVal::Str(dec_of(x.amount as nat)));
    let v4 = Some(JVal::UInt(x.slippage_bps as u64));
    let v5 = match x.swap_mode {
        Some(m) => Some(JVal::Str(spec_enc_swap_mode(m))),
        None => None,
    };
    let v6 = match x.dexes {
        Some(s) => Some(JVal::Str(s)),
        None => None,
    };
    let v7 = match x.excluded_dexes {
        Some(s) => Some(JVal::Str(s)),
        None => None,
    };
    let v8 = match x.restrict_intermediate_tokens {
        Some(b) => Some(JVal::Bool(b)),
        None => None,
    };
    let v9 = match x.only_direct_routes {
        Some(b) => Some(JVal::Bool(b)),
        None => None,
    };
    let v10 = match x.as_legacy_transaction {
        Some(b) => Some(JVal::Bool(b)),
        None => None,
    };
    let v11 = match x.platform_fee_bps {
        Some(v) => Some(JVal::UInt(v as u64)),
        None => None,
    };
    let v12 = match x.max_accounts {
        Some(v) => Some(JVal::UInt(v as u64)),
        None => None,
    };
    let v13 = match x.instruction_version {
        Some(v) => Some(JVal::Str(spec_enc_instruction_version(v))),
        None => None,
    };
    let m1 = opt_member(k1, v1);
    let m2 = opt_member(k2, v2);
    let m3 = opt_member(k3, v3);
    let m4 = opt_member(k4, v4);
    let m5 = opt_member(k5, v5);
    let m6 = opt_member(k6, v6);
    let m7 = opt_member(k7, v7);
    let m8 = opt_member(k8, v8);
    let m9 = opt_member(k9, v9);
    let m10 = opt_member(k10, v10);
    let m11 = opt_member(k11, v11);
    let m12 = opt_member(k12, v12);
    let m13 = opt_member(k13, v13);
    let p2 = m1 + m2;
    let p3 = p2 + m3;
    let p4 = p3 + m4;
    let p5 = p4 + m5;
    let p6 = p5 + m6;
    let p7 = p6 + m7;
    let p8 = p7 + m8;
    let p9 = p8 + m9;
    let p10 = p9 + m10;
    let p11 = p10 + m11;
    let p12 = p11 + m12;
    let p13 = p12 + m13;
    assert(spec_request_members(x) == p13);
    lemma_opt_member(k1, k9, v1);
    lemma_opt_member(k2, k9, v2);
    lemma_opt_member(k3, k9, v3);
    lemma_opt_member(k4, k9, v4);
    lemma_opt_member(k5, k9, v5);
    lemma_opt_member(k6, k9, v6);
    lemma_opt_member(k7, k9, v7);
    lemma_opt_member(k8, k9, v8);
    lemma_opt_member(k9, k9, v9);
    lemma_opt_member(k10, k9, v10);
    lemma_opt_member(k11, k9, v11);
    lemma_opt_member(k12, k9, v12);
    lemma_opt_member(k13, k9, v13);
    lemma_lookup_absent(m1, k9);
    lemma_lookup_absent(m2, k9);
    lemma_lookup_absent(m3, k9);
    lemma_lookup_absent(m4, k9);
    lemma_lookup_absent(m5, k9);
    lemma_lookup_absent(m6, k9);
    lemma_lookup_absent(m7, k9);
    lemma_lookup_absent(m8, k9);
    lemma_lookup_absent(m10, k9);
    lemma_lookup_absent(m11, k9);
    lemma_lookup_absent(m12, k9);
    lemma_lookup_absent(m13, k9);
    if v9 is None {
        lemma_lookup_absent(m9, k9);
    }
    lemma_lookup_split(m1, m2, k9);
    lemma_lookup_split(p2, m3, k9);
    lemma_lookup_split(p3, m4, k9);
    lemma_lookup_split(p4, m5, k9);
    lemma_lookup_split(p5, m6, k9);
    lemma_lookup_split(p6, m7, k9);
    lemma_lookup_split(p7, m8, k9);
    lemma_lookup_split(p8, m9, k9);
    lemma_lookup_split(p9, m10, k9);
    lemma_lookup_split(p10, m11, k9);
    lemma_lookup_split(p11, m12, k9);
    lemma_lookup_split(p12, m13, k9);
}

/// Where the asLegacyTransaction member stands in an encoded request.
#[verifier::spinoff_prover]
proof fn lemma_req_lookup_10(x: QuoteRequestV)
    ensures
        lookup(spec_request_members(x), "asLegacyTransaction"@) == opt_val(match x.as_legacy_transaction {
        Some(b) => Some(JVal::Bool(b)),
        None => None,
    }),
        has_key(spec_request_members(x), "asLegacyTransaction"@) == ((match x.as_legacy_transaction {
        Some(b) => Some(JVal::Bool(b)),
        None => None,
    }) is Some),
{
    let k1 = "inputMint"@;
    let k2 = "outputMint"@;
    let k3 = "amount"@;
    let k4 = "slippageBps"@;
    let k5 = "swapMode"@;
    let k6 = "dexes"@;
    let k7 = "excludedDexes"@;
    let k8 = "restrictIntermediateTokens"@;
    let k9 = "onlyDirectRoutes"@;
    let k10 = "asLegacyTransaction"@;
    let k11 = "platformFeeBps"@;
    let k12 = "maxAccounts"@;
    let k13 = "instructionVersion"@;
    reveal_strlit("inputMint");
    reveal_strlit("outputMint");
    reveal_strlit("amount");
    reveal_strlit("slippageBps");
    reveal_strlit("swapMode");
    reveal_strlit("dexes");
    reveal_strlit("excludedDexes");
    reveal_strlit("restrictIntermediateTokens");
    reveal_strlit("onlyDirectRoutes");
    reveal_strlit("asLegacyTransaction");
    reveal_strlit("platformFeeBps");
    reveal_strlit("maxAccounts");
    reveal_strlit("instructionVersion");
    assert(k1 != k10) by {
        assert(k1.len() == 9);
        assert(k10.len() == 19);
    }
    assert(k2 != k10) by {
        assert(k2.len() == 10);
        assert(k10.len() == 19);
    }
    assert(k3 != k10) by {
        assert(k3.len() == 6);
        assert(k10.len() == 19);
    }
    assert(k4 != k10) by {
        assert(k4.len() == 11);
        assert(k10.len() == 19);
    }
    assert(k5 != k10) by {
        assert(k5.len() == 8);
        assert(k10.len() == 19);
    }
    assert(k6 != k10) by {
        assert(k6.len() == 5);
        assert(k10.len() == 19);
    }
    assert(k7 != k10) by {
        assert(k7.len() == 13);
        assert(k10.len() == 19);
    }
    assert(k8 != k10) by {
        assert(k8.len() == 26);
        assert(k10.len() == 19);
    }
    assert(k9 != k10) by {
        assert(k9.len() == 16);
        assert(k10.len() == 19);
    }
    assert(k11 != k10) by {
        assert(k11.len() == 14);
        assert(k10.len() == 19);
    }
    assert(k12 != k10) by {
        assert(k12.len() == 11);
        assert(k10.len() == 19);
    }
    assert(k13 != k10) by {
        assert(k13.len() == 18);
        assert(k10.len() == 19);
    }
    let v1 = Some(JVal::Str(x.input_mint.text));
    let v2 = Some(JVal::Str(x.output_mint.text));
    let v3 = Some(JVal::Str(dec_of(x.amount as nat)));
    let v4 = Some(JVal::UInt(x.slippage_bps as u64));
    let v5 = match x.swap_mode {
        Some(m) => Some(JVal::Str(spec_enc_swap_mode(m))),
        None => None,
    };
    let v6 = match x.dexes {
        Some(s) => Some(JVal::Str(s)),
        None => None,
    };
    let v7 = match x.excluded_dexes {
        Some(s) => Some(JVal::Str(s)),
        None => None,
    };
    let v8 = match x.restrict_intermediate_tokens {
        Some(b) => Some(JVal::Bool(b)),
        None => None,
    };
    let v9 = match x.only_direct_routes {
        Some(b) => Some(JVal::Bool(b)),
        None => None,
    };
    let v10 = match x.as_legacy_transaction {
        Some(b) => Some(JVal::Bool(b)),
        None => None,
    };
    let v11 = match x.platform_fee_bps {
        Some(v) => Some(JVal::UInt(v as u64)),
        None => None,
    };
    let v12 = match x.max_accounts {
        Some(v) => Some(JVal::UInt(v as u64)),
        None => None,
    };
    let v13 = match x.instruction_version {
        Some(v) => Some(JVal::Str(spec_enc_instruction_version(v))),
        None => None,
    };
    let m1 = opt_member(k1, v1);
    let m2 = opt_member(k2, v2);
    let m3 = opt_member(k3, v3);
    let m4 = opt_member(k4, v4);
    let m5 = opt_member(k5, v5);
    let m6 = opt_member(k6, v6);
    let m7 = opt_member(k7, v7);
    let m8 = opt_member(k8, v8);
    let m9 = opt_member(k9, v9);
    let m10 = opt_member(k10, v10);
    let m11 = opt_member(k11, v11);
    let m12 = opt_member(k12, v12);
    let m13 = opt_member(k13, v13);
    let p2 = m1 + m2;
    let p3 = p2 + m3;
    let p4 = p3 + m4;
    let p5 = p4 + m5;
    let p6 = p5 + m6;
    let p7 = p6 + m7;
    let p8 = p7 + m8;
    let p9 = p8 + m9;
    let p10 = p9 + m10;
    let p11 = p10 + m11;
    let p12 = p11 + m12;
    let p13 = p12 + m13;
    assert(spec_request_members(x) == p13);
    lemma_opt_member(k1, k10, v1);
    lemma_opt_member(k2, k10, v2);
    lemma_opt_member(k3, k10, v3);
    lemma_opt_member(k4, k10, v4);
    lemma_opt_member(k5, k10, v5);
    lemma_opt_member(k6, k10, v6);
    lemma_opt_member(k7, k10, v7);
    lemma_opt_member(k8, k10, v8);
    lemma_opt_member(k9, k10, v9);
    lemma_opt_member(k10, k10, v10);
    lemma_opt_member(k11, k10, v11);
    lemma_opt_member(k12, k10, v12);
    lemma_opt_member(k13, k10, v13);
    lemma_lookup_absent(m1, k10);
    lemma_lookup_absent(m2, k10);
    lemma_lookup_absent(m3, k10);
    lemma_lookup_absent(m4, k10);
    lemma_lookup_absent(m5, k10);
    lemma_lookup_absent(m6, k10);
    lemma_lookup_absent(m7, k10);
    lemma_lookup_absent(m8, k10);
    lemma_lookup_absent(m9, k10);
    lemma_lookup_absent(m11, k10);
    lemma_lookup_absent(m12, k10);
    lemma_lookup_absent(m13, k10);
    if v10 is None {
        lemma_lookup_absent(m10, k10);
    }
    lemma_lookup_split(m1, m2, k10);
    lemma_lookup_split(p2, m3, k10);
    lemma_lookup_split(p3, m4, k10);
    lemma_lookup_split(p4, m5, k10);
    lemma_lookup_split(p5, m6, k10);
    lemma_lookup_split(p6, m7, k10);
    lemma_lookup_split(p7, m8, k10);
    lemma_lookup_split(p8, m9, k10);
    lemma_lookup_split(p9, m10, k10);
    lemma_lookup_split(p10, m11, k10);
    lemma_lookup_split(p11, m12, k10);
    lemma_lookup_split(p12, m13, k10);
}

/// Where the platformFeeBps member stands in an encoded request.
#[verifier::spinoff_prover]
proof fn lemma_req_lookup_11(x: QuoteRequestV)
    ensures
        lookup(spec_request_members(x), "platformFeeBps"@) == opt_val(match x.platform_fee_bps {
        Some(v) => Some(JVal::UInt(v as u64)),
        None => None,
    }),
        has_key(spec_request_members(x), "platformFeeBps"@) == ((match x.platform_fee_bps {
        Some(v) => Some(JVal::UInt(v as u64)),
        None => None,
    }) is Some),
{
    let k1 = "inputMint"@;
    let k2 = "outputMint"@;
    let k3 = "amount"@;
    let k4 = "slippageBps"@;
    let k5 = "swapMode"@;
    let k6 = "dexes"@;
    let k7 = "excludedDexes"@;
    let k8 = "restrictIntermediateTokens"@;
    let k9 = "onlyDirectRoutes"@;
    let k10 = "asLegacyTransaction"@;
    let k11 = "platformFeeBps"@;
    let k12 = "maxAccounts"@;
    let k13 = "instructionVersion"@;
    reveal_strlit("inputMint");
    reveal_strlit("outputMint");
    reveal_strlit("amount");
    reveal_strlit("slippageBps");
    reveal_strlit("swapMode");
    reveal_strlit("dexes");
    reveal_strlit("excludedDexes");
    reveal_strlit("restrictIntermediateTokens");
    reveal_strlit("onlyDirectRoutes");
    reveal_strlit("asLegacyTransaction");
    reveal_strlit("platformFeeBps");
    reveal_strlit("maxAccounts");
    reveal_strlit("instructionVersion");
    assert(k1 != k11) by {
        assert(k1.len() == 9);
        assert(k11.len() == 14);
    }
    assert(k2 != k11) by {
        assert(k2.len() == 10);
        assert(k11.len() == 14);
    }
    assert(k3 != k11) by {
        assert(k3.len() == 6);
        assert(k11.len() == 14);
    }
    assert(k4 != k11) by {
        assert(k4.len() == 11);
        assert(k11.len() == 14);
    }
    assert(k5 != k11) by {
        assert(k5.len() == 8);
        assert(k11.len() == 14);
    }
    assert(k6 != k11) by {
        assert(k6.len() == 5);
        assert(k11.len() == 14);
    }
    assert(k7 != k11) by {
        assert(k7.len() == 13);
        assert(k11.len() == 14);
    }
    assert(k8 != k11) by {
        assert(k8.len() == 26);
        assert(k11.len() == 14);
    }
    assert(k9 != k11) by {
        assert(k9.len() == 16);
        assert(k11.len() == 14);
    }
    assert(k10 != k11) by {
        assert(k10.len() == 19);
        assert(k11.len() == 14);
    }
    assert(k12 != k11) by {
        assert(k12.len() == 11);
        assert(k11.len() == 14);
    }
    assert(k13 != k11) by {
        assert(k13.len() == 18);
        assert(k11.len() == 14);
    }
    let v1 = Some(JVal::Str(x.input_mint.text));
    let v2 = Some(JVal::Str(x.output_mint.text));
    let v3 = Some(JVal::Str(dec_of(x.amount as nat)));
    let v4 = Some(JVal::UInt(x.slippage_bps as u64));
    let v5 = match x.swap_mode {
        Some(m) => Some(JVal::Str(spec_enc_swap_mode(m))),
        None => None,
    };
    let v6 = match x.dexes {
        Some(s) => Some(JVal::Str(s)),
        None => None,
    };
    let v7 = match x.excluded_dexes {
        Some(s) => Some(JVal::Str(s)),
        None => None,
    };
    let v8 = match x.restrict_intermediate_tokens {
        Some(b) => Some(JVal::Bool(b)),
        None => None,
    };
    let v9 = match x.only_direct_routes {
        Some(b) => Some(JVal::Bool(b)),
        None => None,
    };
    let v10 = match x.as_legacy_transaction {
        Some(b) => Some(JVal::Bool(b)),
        None => None,
    };
    let v11 = match x.platform_fee_bps {
        Some(v) => Some(JVal::UInt(v as u64)),
        None => None,
    };
    let v12 = match x.max_accounts {
        Some(v) => Some(JVal::UInt(v as u64)),
        None => None,
    };
    let v13 = match x.instruction_version {
        Some(v) => Some(JVal::Str(spec_enc_instruction_version(v))),
        None => None,
    };
    let m1 = opt_member(k1, v1);
    let m2 = opt_member(k2, v2);
    let m3 = opt_member(k3, v3);
    let m4 = opt_member(k4, v4);
    let m5 = opt_member(k5, v5);
    let m6 = opt_member(k6, v6);
    let m7 = opt_member(k7, v7);
    let m8 = opt_member(k8, v8);
    let m9 = opt_member(k9, v9);
    let m10 = opt_member(k10, v10);
    let m11 = opt_member(k11, v11);
    let m12 = opt_member(k12, v12);
    let m13 = opt_member(k13, v13);
    let p2 = m1 + m2;
    let p3 = p2 + m3;
    let p4 = p3 + m4;
    let p5 = p4 + m5;
    let p6 = p5 + m6;
    let p7 = p6 + m7;
    let p8 = p7 + m8;
    let p9 = p8 + m9;
    let p10 = p9 + m10;
    let p11 = p10 + m11;
    let p12 = p11 + m12;
    let p13 = p12 + m13;
    assert(spec_request_members(x) == p13);
    lemma_opt_member(k1, k11, v1);
    lemma_opt_member(k2, k11, v2);
    lemma_opt_member(k3, k11, v3);
    lemma_opt_member(k4, k11, v4);
    lemma_opt_member(k5, k11, v5);
    lemma_opt_member(k6, k11, v6);
    lemma_opt_member(k7, k11, v7);
    lemma_opt_member(k8, k11, v8);
    lemma_opt_member(k9, k11, v9);
    lemma_opt_member(k10, k11, v10);
    lemma_opt_member(k11, k11, v11);
    lemma_opt_member(k12, k11, v12);
    lemma_opt_member(k13, k11, v13);
    lemma_lookup_absent(m1, k11);
    lemma_lookup_absent(m2, k11);
    lemma_lookup_absent(m3, k11);
    lemma_lookup_absent(m4, k11);
    lemma_lookup_absent(m5, k11);
    lemma_lookup_absent(m6, k11);
    lemma_lookup_absent(m7, k11);
    lemma_lookup_absent(m8, k11);
    lemma_lookup_absent(m9, k11);
    lemma_lookup_absent(m10, k11);
    lemma_lookup_absent(m12, k11);
    lemma_lookup_absent(m13, k11);
    if v11 is None {
        lemma_lookup_absent(m11, k11);
    }
    lemma_lookup_split(m1, m2, k11);
    lemma_lookup_split(p2, m3, k11);
    lemma_lookup_split(p3, m4, k11);
    lemma_lookup_split(p4, m5, k11);
    lemma_lookup_split(p5, m6, k11);
    lemma_lookup_split(p6, m7, k11);
    lemma_lookup_split(p7, m8, k11);
    lemma_lookup_split(p8, m9, k11);
    lemma_lookup_split(p9, m10, k11);
    lemma_lookup_split(p10, m11, k11);
    lemma_lookup_split(p11, m12, k11);
    lemma_lookup_split(p12, m13, k11);
}

/// Where the maxAccounts member stands in an encoded request.
#[verifier::spinoff_prover]
proof fn lemma_req_lookup_12(x: QuoteRequestV)
    ensures
        lookup(spec_request_members(x), "maxAccounts"@) == opt_val(match x.max_accounts {
        Some(v) => Some(JVal::UInt(v as u64)),
        None => None,
    }),
        has_key(spec_request_members(x), "maxAccounts"@) == ((match x.max_accounts {
        Some(v) => Some(JVal::UInt(v as u64)),
        None => None,
    }) is Some),
{
    let k1 = "inputMint"@;
    let k2 = "outputMint"@;
    let k3 = "amount"@;
    let k4 = "slippageBps"@;
    let k5 = "swapMode"@;
    let k6 = "dexes"@;
    let k7 = "excludedDexes"@;
    let k8 = "restrictIntermediateTokens"@;
    let k9 = "onlyDirectRoutes"@;
    let k10 = "asLegacyTransaction"@;
    let k11 = "platformFeeBps"@;
    let k12 = "maxAccounts"@;
    let k13 = "instructionVersion"@;
    reveal_strlit("inputMint");
    reveal_strlit("outputMint");
    reveal_strlit("amount");
    reveal_strlit("slippageBps");
    reveal_strlit("swapMode");
    reveal_strlit("dexes");
    reveal_strlit("excludedDexes");
    reveal_strlit("restrictIntermediateTokens");
    reveal_strlit("onlyDirectRoutes");
    reveal_strlit("asLegacyTransaction");
    reveal_strlit("platformFeeBps");
    reveal_strlit("maxAccounts");
    reveal_strlit("instructionVersion");
    assert(k1 != k12) by {
        assert(k1.len() == 9);
        assert(k12.len() == 11);
    }
    assert(k2 != k12) by {
        assert(k2.len() == 10);
        assert(k12.len() == 11);
    }
    assert(k3 != k12) by {
        assert(k3.len() == 6);
        assert(k12.len() == 11);
    }
    assert(k4 != k12) by {
        assert(k4[0] == 's');
        assert(k12[0] == 'm');
    }
    assert(k5 != k12) by {
        assert(k5.len() == 8);
        assert(k12.len() == 11);
    }
    assert(k6 != k12) by {
        assert(k6.len() == 5);
        assert(k12.len() == 11);
    }
    assert(k7 != k12) by {
        assert(k7.len() == 13);
        assert(k12.len() == 11);
    }
    assert(k8 != k12) by {
        assert(k8.len() == 26);
        assert(k12.len() == 11);
    }
    assert(k9 != k12) by {
        assert(k9.len() == 16);
        assert(k12.len() == 11);
    }
    assert(k10 != k12) by {
        assert(k10.len() == 19);
        assert(k12.len() == 11);
    }
    assert(k11 != k12) by {
        assert(k11.len() == 14);
        assert(k12.len() == 11);
    }
    assert(k13 != k12) by {
        assert(k13.len() == 18);
        assert(k12.len() == 11);
    }
    let v1 = Some(JVal::Str(x.input_mint.text));
    let v2 = Some(JVal::Str(x.output_mint.text));
    let v3 = Some(JVal::Str(dec_of(x.amount as nat)));
    let v4 = Some(JVal::UInt(x.slippage_bps as u64));
    let v5 = match x.swap_mode {
        Some(m) => Some(JVal::Str(spec_enc_swap_mode(m))),
        None => None,
    };
    let v6 = match x.dexes {
        Some(s) => Some(JVal::Str(s)),
        None => None,
    };
    let v7 = match x.excluded_dexes {
        Some(s) => Some(JVal::Str(s)),
        None => None,
    };
    let v8 = match x.restrict_intermediate_tokens {
        Some(b) => Some(JVal::Bool(b)),
        None => None,
    };
    let v9 = match x.only_direct_routes {
        Some(b) => Some(JVal::Bool(b)),
        None => None,
    };
    let v10 = match x.as_legacy_transaction {
        Some(b) => Some(JVal::Bool(b)),
        None => None,
    };
    let v11 = match x.platform_fee_bps {
        Some(v) => Some(JVal::UInt(v as u64)),
        None => None,
    };
    let v12 = match x.max_accounts {
        Some(v) => Some(JVal::UInt(v as u64)),
        None => None,
    };
    let v13 = match x.instruction_version {
        Some(v) => Some(JVal::Str(spec_enc_instruction_version(v))),
        None => None,
    };
    let m1 = opt_member(k1, v1);
    let m2 = opt_member(k2, v2);
    let m3 = opt_member(k3, v3);
    let m4 = opt_member(k4, v4);
    let m5 = opt_member(k5, v5);
    let m6 = opt_member(k6, v6);
    let m7 = opt_member(k7, v7);
    let m8 = opt_member(k8, v8);
    let m9 = opt_member(k9, v9);
    let m10 = opt_member(k10, v10);
    let m11 = opt_member(k11, v11);
    let m12 = opt_member(k12, v12);
    let m13 = opt_member(k13, v13);
    let p2 = m1 + m2;
    let p3 = p2 + m3;
    let p4 = p3 + m4;
    let p5 = p4 + m5;
    let p6 = p5 + m6;
    let p7 = p6 + m7;
    let p8 = p7 + m8;
    let p9 = p8 + m9;
    let p10 = p9 + m10;
    let p11 = p10 + m11;
    let p12 = p11 + m12;
    let p13 = p12 + m13;
    assert(spec_request_members(x) == p13);
    lemma_opt_member(k1, k12, v1);
    lemma_opt_member(k2, k12, v2);
    lemma_opt_member(k3, k12, v3);
    lemma_opt_member(k4, k12, v4);
    lemma_opt_member(k5, k12, v5);
    lemma_opt_member(k6, k12, v6);
    lemma_opt_member(k7, k12, v7);
    lemma_opt_member(k8, k12, v8);
    lemma_opt_member(k9, k12, v9);
    lemma_opt_member(k10, k12, v10);
    lemma_opt_member(k11, k12, v11);
    lemma_opt_member(k12, k12, v12);
    lemma_opt_member(k13, k12, v13);
    lemma_lookup_absent(m1, k12);
    lemma_lookup_absent(m2, k12);
    lemma_lookup_absent(m3, k12);
    lemma_lookup_absent(m4, k12);
    lemma_lookup_absent(m5, k12);
    lemma_lookup_absent(m6, k12);
    lemma_lookup_absent(m7, k12);
    lemma_lookup_absent(m8, k12);
    lemma_lookup_absent(m9, k12);
    lemma_lookup_absent(m10, k12);
    lemma_lookup_absent(m11, k12);
    lemma_lookup_absent(m13, k12);
    if v12 is None {
        lemma_lookup_absent(m12, k12);
    }
    lemma_lookup_split(m1, m2, k12);
    lemma_lookup_split(p2, m3, k12);
    lemma_lookup_split(p3, m4, k12);
    lemma_lookup_split(p4, m5, k12);
    lemma_lookup_split(p5, m6, k12);
    lemma_lookup_split(p6, m7, k12);
    lemma_lookup_split(p7, m8, k12);
    lemma_lookup_split(p8, m9, k12);
    lemma_lookup_split(p9, m10, k12);
    lemma_lookup_split(p10, m11, k12);
    lemma_lookup_split(p11, m12, k12);
    lemma_lookup_split(p12, m13, k12);
}

/// Where the instructionVersion member stands in an encoded request.
#[verifier::spinoff_prover]
proof fn lemma_req_lookup_13(x: QuoteRequestV)
    ensures
        lookup(spec_request_members(x), "instructionVersion"@) == opt_val(match x.instruction_version {
        Some(v) => Some(JVal::Str(spec_enc_instruction_version(v))),
        None => None,
    }),
        has_key(spec_request_members(x), "instructionVersion"@) == ((match x.instruction_version {
        Some(v) => Some(JVal::Str(spec_enc_instruction_version(v))),
        None => None,
    }) is Some),
{
    let k1 = "inputMint"@;
    let k2 = "outputMint"@;
    let k3 = "amount"@;
    let k4 = "slippageBps"@;
    let k5 = "swapMode"@;
    let k6 = "dexes"@;
    let k7 = "excludedDexes"@;
    let k8 = "restrictIntermediateTokens"@;
    let k9 = "onlyDirectRoutes"@;
    let k10 = "asLegacyTransaction"@;
    let k11 = "platformFeeBps"@;
    let k12 = "maxAccounts"@;
    let k13 = "instructionVersion"@;
    reveal_strlit("inputMint");
    reveal_strlit("outputMint");
    reveal_strlit("amount");
    reveal_strlit("slippageBps");
    reveal_strlit("swapMode");
    reveal_strlit("dexes");
    reveal_strlit("excludedDexes");
    reveal_strlit("restrictIntermediateTokens");
    reveal_strlit("onlyDirectRoutes");
    reveal_strlit("asLegacyTransaction");
    reveal_strlit("platformFeeBps");
    reveal_strlit("maxAccounts");
    reveal_strlit("instructionVersion");
    assert(k1 != k13) by {
        assert(k1.len() == 9);
        assert(k13.len() == 18);
    }
    assert(k2 != k13) by {
        assert(k2.len() == 10);
        assert(k13.len() == 18);
    }
    assert(k3 != k13) by {
        assert(k3.len() == 6);
        assert(k13.len() == 18);
    }
    assert(k4 != k13) by {
        assert(k4.len() == 11);
        assert(k13.len() == 18);
    }
    assert(k5 != k13) by {
        assert(k5.len() == 8);
        assert(k13.len() == 18);
    }
    assert(k6 != k13) by {
        assert(k6.len() == 5);
        assert(k13.len() == 18);
    }
    assert(k7 != k13) by {
        assert(k7.len() == 13);
        assert(k13.len() == 18);
    }
    assert(k8 != k13) by {
        assert(k8.len() == 26);
        assert(k13.len() == 18);
    }
    assert(k9 != k13) by {
        assert(k9.len() == 16);
        assert(k13.len() == 18);
    }
    assert(k10 != k13) by {
        assert(k10.len() == 19);
        assert(k13.len() == 18);
    }
    assert(k11 != k13) by {
        assert(k11.len() == 14);
        assert(k13.len() == 18);
    }
    assert(k12 != k13) by {
        assert(k12.len() == 11);
        assert(k13.len() == 18);
    }
    let v1 = Some(JVal::Str(x.input_mint.text));
    let v2 = Some(JVal::Str(x.output_mint.text));
    let v3 = Some(JVal::Str(dec_of(x.amount as nat)));
    let v4 = Some(JVal::UInt(x.slippage_bps as u64));
    let v5 = match x.swap_mode {
        Some(m) => Some(JVal::Str(spec_enc_swap_mode(m))),
        None => None,
    };
    let v6 = match x.dexes {
        Some(s) => Some(JVal::Str(s)),
        None => None,
    };
    let v7 = match x.excluded_dexes {
        Some(s) => Some(JVal::Str(s)),
        None => None,
    };
    let v8 = match x.restrict_intermediate_tokens {
        Some(b) => Some(JVal::Bool(b)),
        None => None,
    };
    let v9 = match x.only_direct_routes {
        Some(b) => Some(JVal::Bool(b)),
        None => None,
    };
    let v10 = match x.as_legacy_transaction {
        Some(b) => Some(JVal::Bool(b)),
        None => None,
    };
    let v11 = match x.platform_fee_bps {
        Some(v) => Some(JVal::UInt(v as u64)),
        None => None,
    };
    let v12 = match x.max_accounts {
        Some(v) => Some(JVal::UInt(v as u64)),
        None => None,
    };
    let v13 = match x.instruction_version {
        Some(v) => Some(JVal::Str(spec_enc_instruction_version(v))),
        None => None,
    };
    let m1 = opt_member(k1, v1);
    let m2 = opt_member(k2, v2);
    let m3 = opt_member(k3, v3);
    let m4 = opt_member(k4, v4);
    let m5 = opt_member(k5, v5);
    let m6 = opt_member(k6, v6);
    let m7 = opt_member(k7, v7);
    let m8 = opt_member(k8, v8);
    let m9 = opt_member(k9, v9);
    let m10 = opt_member(k10, v10);
    let m11 = opt_member(k11, v11);
    let m12 = opt_member(k12, v12);
    let m13 = opt_member(k13, v13);
    let p2 = m1 + m2;
    let p3 = p2 + m3;
    let p4 = p3 + m4;
    let p5 = p4 + m5;
    let p6 = p5 + m6;
    let p7 = p6 + m7;
    let p8 = p7 + m8;
    let p9 = p8 + m9;
    let p10 = p9 + m10;
    let p11 = p10 + m11;
    let p12 = p11 + m12;
    let p13 = p12 + m13;
    assert(spec_request_members(x) == p13);
    lemma_opt_member(k1, k13, v1);
    lemma_opt_member(k2, k13, v2);
    lemma_opt_member(k3, k13, v3);
    lemma_opt_member(k4, k13, v4);
    lemma_opt_member(k5, k13, v5);
    lemma_opt_member(k6, k13, v6);
    lemma_opt_member(k7, k13, v7);
    lemma_opt_member(k8, k13, v8);
    lemma_opt_member(k9, k13, v9);
    lemma_opt_member(k10, k13, v10);
    lemma_opt_member(k11, k13, v11);
    lemma_opt_member(k12, k13, v12);
    lemma_opt_member(k13, k13, v13);
    lemma_lookup_absent(m1, k13);
    lemma_lookup_absent(m2, k13);
    lemma_lookup_absent(m3, k13);
    lemma_lookup_absent(m4, k13);
    lemma_lookup_absent(m5, k13);
    lemma_lookup_absent(m6, k13);
    lemma_lookup_absent(m7, k13);
    lemma_lookup_absent(m8, k13);
    lemma_lookup_absent(m9, k13);
    lemma_lookup_absent(m10, k13);
    lemma_lookup_absent(m11, k13);
    lemma_lookup_absent(m12, k13);
    if v13 is None {
        lemma_lookup_absent(m13, k13);
    }
    lemma_lookup_split(m1, m2, k13);
    lemma_lookup_split(p2, m3, k13);
    lemma_lookup_split(p3, m4, k13);
    lemma_lookup_split(p4, m5, k13);
    lemma_lookup_split(p5, m6, k13);
    lemma_lookup_split(p6, m7, k13);
    lemma_lookup_split(p7, m8, k13);
    lemma_lookup_split(p8, m9, k13);
    lemma_lookup_split(p9, m10, k13);
    lemma_lookup_split(p10, m11, k13);
    lemma_lookup_split(p11, m12, k13);
    lemma_lookup_split(p12, m13, k13);
}


/// The internal request record handed to the routing engine: the same fields
/// as the client request, narrowed to what the engine consumes.
#[derive(Clone, PartialEq, Eq, Debug)]
pub struct InternalQuoteRequest {
    /// The asset being given.
    pub input_mint: Pubkey,
    /// The asset wanted back.
    pub output_mint: Pubkey,
    /// The fixed amount, on the side `swap_mode` names.
    pub amount: u64,
    /// The allowed price slippage, in basis points.
    pub slippage_bps: u16,
    /// The swap direction.
    pub swap_mode: Option<SwapMode>,
    /// Comma-separated venue labels to include in the search.
    pub dexes: Option<String>,
    /// Comma-separated venue labels to exclude from the search.
    pub excluded_dexes: Option<String>,
    /// Restricts intermediate assets to a known-liquid set.
    pub restrict_intermediate_tokens: Option<bool>,
    /// Restricts routing to direct pair swaps.
    pub only_direct_routes: Option<bool>,
    /// Asks for a route that fits a legacy transaction.
    pub as_legacy_transaction: Option<bool>,
    /// A platform fee to collect, in basis points.
    pub platform_fee_bps: Option<u16>,
    /// A cap on the number of accounts the route may touch.
    pub max_accounts: Option<usize>,
    /// The instruction format to target.
    pub instruction_version: Option<InstructionVersion>,
}

impl View for InternalQuoteRequest {
    type V = QuoteRequestV;

    open spec fn view(&self) -> QuoteRequestV {
        QuoteRequestV {
            input_mint: self.input_mint@,
            output_mint: self.output_mint@,
            amount: self.amount,
            slippage_bps: self.slippage_bps,
            swap_mode: self.swap_mode,
            dexes: match self.dexes {
                Some(s) => Some(s@),
                None => None,
            },
            excluded_dexes: match self.excluded_dexes {
                Some(s) => Some(s@),
                None => None,
            },
            restrict_intermediate_tokens: self.restrict_intermediate_tokens,
            only_direct_routes: self.only_direct_routes,
            as_legacy_transaction: self.as_legacy_transaction,
            platform_fee_bps: self.platform_fee_bps,
            max_accounts: self.max_accounts,
            instruction_version: self.instruction_version,
        }
    }
}

impl Default for InternalQuoteRequest {
    /// The default internal request: zero identifiers and every other field
    /// at its zero or unset state.
    fn default() -> (r: InternalQuoteRequest)
        ensures
            r@.input_mint.wf(),
            r@.output_mint.wf(),
            r@.amount == 0,
            r@.slippage_bps == 0,
            r@.swap_mode is None,
            r@.dexes is None,
            r@.excluded_dexes is None,
            r@.restrict_intermediate_tokens is None,
            r@.only_direct_routes is None,
            r@.as_legacy_transaction is None,
            r@.platform_fee_bps is None,
            r@.max_accounts is None,
            r@.instruction_version is None,
    {
        let input_mint = match Pubkey::from_bytes(zero_bytes_32()) {
            Some(p) => p,
            None => vstd::pervasive::unreached(),
        };
        let output_mint = match Pubkey::from_bytes(zero_bytes_32()) {
            Some(p) => p,
            None => vstd::pervasive::unreached(),
        };
        InternalQuoteRequest {
            input_mint,
            output_mint,
            amount: 0,
            slippage_bps: 0,
            swap_mode: None,
            dexes: None,
            excluded_dexes: None,
            restrict_intermediate_tokens: None,
            only_direct_routes: None,
            as_legacy_transaction: None,
            platform_fee_bps: None,
            max_accounts: None,
            instruction_version: None,
        }
    }
}

impl From<QuoteRequest> for InternalQuoteRequest {
    /// Narrows a client request to the internal record, moving every shared
    /// field across unchanged.
    fn from(request: QuoteRequest) -> (r: InternalQuoteRequest) {
        InternalQuoteRequest {
            input_mint: request.input_mint,
            output_mint: request.output_mint,
            amount: request.amount,
            slippage_bps: request.slippage_bps,
            swap_mode: request.swap_mode,
            dexes: request.dexes,
            excluded_dexes: request.excluded_dexes,
            restrict_intermediate_tokens: request.restrict_intermediate_tokens,
            only_direct_routes: request.only_direct_routes,
            as_legacy_transaction: request.as_legacy_transaction,
            platform_fee_bps: request.platform_fee_bps,
            max_accounts: request.max_accounts,
            instruction_version: request.instruction_version,
        }
    }
}

impl vstd::std_specs::convert::FromSpecImpl<QuoteRequest> for InternalQuoteRequest {
    open spec fn obeys_from_spec() -> bool {
        true
    }

    open spec fn from_spec(request: QuoteRequest) -> InternalQuoteRequest {
        InternalQuoteRequest {
            input_mint: request.input_mint,
            output_mint: request.output_mint,
            amount: request.amount,
            slippage_bps: request.slippage_bps,
            swap_mode: request.swap_mode,
            dexes: request.dexes,
            excluded_dexes: request.excluded_dexes,
            restrict_intermediate_tokens: request.restrict_intermediate_tokens,
            only_direct_routes: request.only_direct_routes,
            as_legacy_transaction: request.as_legacy_transaction,
            platform_fee_bps: request.platform_fee_bps,
            max_accounts: request.max_accounts,
            instruction_version: request.instruction_version,
        }
    }
}

/// Narrowing a client request to the internal record preserves every shared
/// field's value unchanged: the two records have the same mathematical face.
pub proof fn lemma_narrowing_preserves_fields(request: QuoteRequest)
    ensures
        <InternalQuoteRequest as vstd::std_specs::convert::FromSpec<QuoteRequest>>::from_spec(
            request,
        )@ == request@,
{
}

impl InternalQuoteRequest {
    /// Encodes the internal request for the wire, exactly as the client
    /// request encodes: the two records share one wire form.
    #[verifier::rlimit(100)]
    #[verifier::spinoff_prover]
    pub fn to_json(&self) -> (r: JsonValue)
        ensures
            r@ == spec_enc_request(self@),
    {
        let mut ms: Vec<JsonMember> = Vec::new();
        proof {
            assert(members_view(ms@) =~= Seq::<(Seq<char>, JVal)>::empty());
        }
        push_member(&mut ms, "inputMint", JsonValue::Str(self.input_mint.to_base58()));
        push_member(&mut ms, "outputMint", JsonValue::Str(self.output_mint.to_base58()));
        push_member(&mut ms, "amount", JsonValue::Str(u64_to_dec(self.amount)));
        push_member(&mut ms, "slippageBps", JsonValue::UInt(self.slippage_bps as u64));
        let ghost g4 = members_view(ms@);
        push_options_a(
            &mut ms,
            &self.swap_mode,
            &self.dexes,
            &self.excluded_dexes,
            &self.restrict_intermediate_tokens,
            &self.only_direct_routes,
        );
        push_options_b(
            &mut ms,
            &self.as_legacy_transaction,
            &self.platform_fee_bps,
            &self.max_accounts,
            &self.instruction_version,
        );
        let r = JsonValue::Obj(ms);
        proof {
            lemma_view_unfold(&r);
            assert(g4 =~= opt_member("inputMint"@, Some(JVal::Str(self@.input_mint.text)))
                + opt_member("outputMint"@, Some(JVal::Str(self@.output_mint.text))) + opt_member(
                "amount"@,
                Some(JVal::Str(dec_of(self@.amount as nat))),
            ) + opt_member("slippageBps"@, Some(JVal::UInt(self@.slippage_bps as u64))));
        }
        r
    }
}

/// The final response: the best quote found and the plan to execute it.
#[derive(Clone, PartialEq, Eq, Debug)]
pub struct QuoteResponse {
    /// The asset the user gives.
    pub input_mint: Pubkey,
    /// The input amount the route needs.
    pub in_amount: u64,
    /// The asset the user receives.
    pub output_mint: Pubkey,
    /// The output amount the route yields.
    pub out_amount: u64,
    /// The threshold on the non-fixed side, used for slippage checks.
    pub other_amount_threshold: u64,
    /// The direction the quote was computed for.
    pub swap_mode: SwapMode,
    /// The slippage the quote was computed with, in basis points.
    pub slippage_bps: u16,
    /// The platform fee collected, if any.
    pub platform_fee: Option<PlatformFee>,
    /// The price impact of the swap, as an exact decimal percentage.
    pub price_impact_pct: Decimal,
    /// The ordered hops that make up the route.
    pub route_plan: RoutePlanWithMetadata,
    /// The ledger slot the quote was computed at; zero when absent.
    pub context_slot: u64,
    /// The time the quote took, in seconds, as an exact decimal; zero when
    /// absent.
    pub time_taken: Decimal,
}

/// The mathematical face of a quote response.
pub struct QuoteResponseV {
    pub input_mint: PubkeyV,
    pub in_amount: u64,
    pub output_mint: PubkeyV,
    pub out_amount: u64,
    pub other_amount_threshold: u64,
    pub swap_mode: SwapMode,
    pub slippage_bps: u16,
    pub platform_fee: Option<PlatformFee>,
    pub price_impact_pct: Decimal,
    pub route_plan: Seq<RoutePlanStepV>,
    pub context_slot: u64,
    pub time_taken: Decimal,
}

impl QuoteResponseV {
    /// Identifiers carry their canonical text, the decimals lie within the
    /// type's bounds, and every hop is well-formed.
    pub open spec fn wf(&self) -> bool {
        &&& self.input_mint.wf()
        &&& self.output_mint.wf()
        &&& self.price_impact_pct.wf()
        &&& self.time_taken.wf()
        &&& forall|i: int| 0 <= i < self.route_plan.len() ==> (#[trigger] self.route_plan[i]).wf()
    }
}

impl View for QuoteResponse {
    type V = QuoteResponseV;

    open spec fn view(&self) -> QuoteResponseV {
        QuoteResponseV {
            input_mint: self.input_mint@,
            in_amount: self.in_amount,
            output_mint: self.output_mint@,
            out_amount: self.out_amount,
            other_amount_threshold: self.other_amount_threshold,
            swap_mode: self.swap_mode,
            slippage_bps: self.slippage_bps,
            platform_fee: self.platform_fee,
            price_impact_pct: self.price_impact_pct,
            route_plan: steps_view(self.route_plan@),
            context_slot: self.context_slot,
            time_taken: self.time_taken,
        }
    }
}

/// The wire members of a quote response, in encoding order; an absent
/// platform fee contributes nothing, and the slot and elapsed-time members
/// are always written.
pub open spec fn spec_response_members(x: QuoteResponseV) -> Seq<(Seq<char>, JVal)> {
    opt_member("inputMint"@, Some(JVal::Str(x.input_mint.text))) + opt_member("inAmount"@, Some(JVal::Str(dec_of(x.in_amount as nat)))) + opt_member(
        "outputMint"@,
        Some(JVal::Str(x.output_mint.text)),
    ) + opt_member("outAmount"@, Some(JVal::Str(dec_of(x.out_amount as nat)))) + opt_member("otherAmountThreshold"@, Some(JVal::Str(dec_of(x.other_amount_threshold as nat)))) + opt_member(
        "swapMode"@,
        Some(JVal::Str(spec_enc_swap_mode(x.swap_mode))),
    ) + opt_member("slippageBps"@, Some(JVal::UInt(x.slippage_bps as u64))) + opt_member(
        "platformFee"@,
        match x.platform_fee {
        Some(pf) => Some(spec_enc_platform_fee(pf)),
        None => None,
    },
    ) + opt_member("priceImpactPct"@, Some(JVal::Str(spec_decimal_str(x.price_impact_pct)))) + opt_member("routePlan"@, Some(JVal::Arr(spec_enc_route_plan(x.route_plan)))) + opt_member(
        "contextSlot"@,
        Some(JVal::UInt(x.context_slot)),
    ) + opt_member("timeTaken"@, Some(JVal::Dec(x.time_taken)))
}

/// The wire value of a quote response.
pub open spec fn spec_enc_response(x: QuoteResponseV) -> JVal {
    JVal::Obj(spec_response_members(x))
}

/// What a wire value means as a quote response.
pub open spec fn spec_dec_response(v: JVal) -> Result<QuoteResponseV, ErrView> {
    match v {
        JVal::Obj(ps) => match spec_field_pubkey(ps, "inputMint"@) {
            Err(e) => Err(e),
            Ok(input_mint) => match spec_field_u64_str(ps, "inAmount"@) {
                Err(e) => Err(e),
                Ok(in_amount) => match spec_field_pubkey(ps, "outputMint"@) {
                    Err(e) => Err(e),
                    Ok(output_mint) => match spec_field_u64_str(ps, "outAmount"@) {
                        Err(e) => Err(e),
                        Ok(out_amount) => match spec_field_u64_str(ps, "otherAmountThreshold"@) {
                            Err(e) => Err(e),
                            Ok(other_amount_threshold) => match spec_field_swap_mode(
                                ps,
                                "swapMode"@,
                            ) {
                                Err(e) => Err(e),
                                Ok(swap_mode) => match spec_dec_response_rest(
                                    ps,
                                    input_mint,
                                    in_amount,
                                    output_mint,
                                    out_amount,
                                    other_amount_threshold,
                                    swap_mode,
                                ) {
                                    Err(e) => Err(e),
                                    Ok(x) => Ok(x),
                                },
                            },
                        },
                    },
                },
            },
        },
        _ => Err(ErrView::WrongType { field: "quoteResponse"@ }),
    }
}

/// The tail of the response decoding: the slippage, the optional fee, the
/// price impact, the route plan, and the two defaulted fields.
pub open spec fn spec_dec_response_rest(
    ps: Seq<(Seq<char>, JVal)>,
    input_mint: PubkeyV,
    in_amount: u64,
    output_mint: PubkeyV,
    out_amount: u64,
    other_amount_threshold: u64,
    swap_mode: SwapMode,
) -> Result<QuoteResponseV, ErrView> {
    match spec_field_uint(ps, "slippageBps"@, u16::MAX as u64) {
        Err(e) => Err(e),
        Ok(slippage_bps) => match spec_field_opt_platform_fee(ps, "platformFee"@) {
            Err(e) => Err(e),
            Ok(platform_fee) => match spec_field_decimal(ps, "priceImpactPct"@) {
                Err(e) => Err(e),
                Ok(price_impact_pct) => match lookup(ps, "routePlan"@) {
                    None => Err(ErrView::MissingField { field: "routePlan"@ }),
                    Some(rv) => match spec_dec_route_plan(rv) {
                        Err(e) => Err(e),
                        Ok(route_plan) => match spec_field_u64_default(ps, "contextSlot"@) {
                            Err(e) => Err(e),
                            Ok(context_slot) => match spec_field_decimal_default(
                                ps,
                                "timeTaken"@,
                            ) {
                                Err(e) => Err(e),
                                Ok(time_taken) => Ok(
                                    QuoteResponseV {
                                        input_mint,
                                        in_amount,
                                        output_mint,
                                        out_amount,
                                        other_amount_threshold,
                                        swap_mode,
                                        slippage_bps: slippage_bps as u16,
                                        platform_fee,
                                        price_impact_pct,
                                        route_plan,
                                        context_slot,
                                        time_taken,
                                    },
                                ),
                            },
                        },
                    },
                },
            },
        },
    }
}

impl QuoteResponse {
    /// Encodes the response for the wire; an absent platform fee puts no
    /// member in the object at all.
    #[verifier::rlimit(100)]
    #[verifier::spinoff_prover]
    pub fn to_json(&self) -> (r: JsonValue)
        requires
            self@.price_impact_pct.wf(),
        ensures
            r@ == spec_enc_response(self@),
    {
        let mut ms: Vec<JsonMember> = Vec::new();
        proof {
            assert(members_view(ms@) =~= Seq::<(Seq<char>, JVal)>::empty());
        }
        push_member(&mut ms, "inputMint", JsonValue::Str(self.input_mint.to_base58()));
        push_member(&mut ms, "inAmount", JsonValue::Str(u64_to_dec(self.in_amount)));
        push_member(&mut ms, "outputMint", JsonValue::Str(self.output_mint.to_base58()));
        push_member(&mut ms, "outAmount", JsonValue::Str(u64_to_dec(self.out_amount)));
        push_member(
            &mut ms,
            "otherAmountThreshold",
            JsonValue::Str(u64_to_dec(self.other_amount_threshold)),
        );
        push_member(&mut ms, "swapMode", JsonValue::Str(self.swap_mode.as_str().to_owned()));
        push_member(&mut ms, "slippageBps", JsonValue::UInt(self.slippage_bps as u64));
        let ghost g7 = members_view(ms@);
        match self.platform_fee {
            Some(pf) => {
                push_member(&mut ms, "platformFee", pf.to_json());
            },
            None => {
                proof {
                    lemma_concat_opt_none(g7, "platformFee"@);
                }
            },
        }
        let ghost g8 = members_view(ms@);
        assert(g8 == g7 + opt_member(
            "platformFee"@,
            match self@.platform_fee {
                Some(pf) => Some(spec_enc_platform_fee(pf)),
                None => None,
            },
        ));
        push_member(&mut ms, "priceImpactPct", JsonValue::Str(self.price_impact_pct.to_wire()));
        push_member(&mut ms, "routePlan", route_plan_to_json(&self.route_plan));
        push_member(&mut ms, "contextSlot", JsonValue::UInt(self.context_slot));
        push_member(&mut ms, "timeTaken", JsonValue::Dec(self.time_taken));
        let r = JsonValue::Obj(ms);
        proof {
            lemma_view_unfold(&r);
            assert(g7 =~= opt_member("inputMint"@, Some(JVal::Str(self@.input_mint.text)))
                + opt_member("inAmount"@, Some(JVal::Str(dec_of(self@.in_amount as nat))))
                + opt_member("outputMint"@, Some(JVal::Str(self@.output_mint.text))) + opt_member(
                "outAmount"@,
                Some(JVal::Str(dec_of(self@.out_amount as nat))),
            ) + opt_member(
                "otherAmountThreshold"@,
                Some(JVal::Str(dec_of(self@.other_amount_threshold as nat))),
            ) + opt_member("swapMode"@, Some(JVal::Str(spec_enc_swap_mode(self@.swap_mode))))
                + opt_member("slippageBps"@, Some(JVal::UInt(self@.slippage_bps as u64))));
        }
        r
    }

    /// Decodes a response from a wire value, failing on the first field that
    /// is absent or malformed; the two defaulted fields fall back to zero on
    /// genuine absence only, and no partial record is ever built.
    pub fn from_json(v: &JsonValue) -> (r: Result<QuoteResponse, DecodeError>)
        ensures
            match r {
                Ok(x) => spec_dec_response(v@) == Ok::<_, ErrView>(x@),
                Err(e) => spec_dec_response(v@) == Err::<QuoteResponseV, ErrView>(e@),
            },
    {
        match v {
            JsonValue::Obj(ms) => {
                proof {
                    lemma_view_unfold(v);
                }
                let input_mint = match field_pubkey(ms, "inputMint") {
                    Ok(x) => x,
                    Err(e) => {
                        return Err(e);
                    },
                };
                let in_amount = match field_u64_str(ms, "inAmount") {
                    Ok(x) => x,
                    Err(e) => {
                        return Err(e);
                    },
                };
                let output_mint = match field_pubkey(ms, "outputMint") {
                    Ok(x) => x,
                    Err(e) => {
                        return Err(e);
                    },
                };
                let out_amount = match field_u64_str(ms, "outAmount") {
                    Ok(x) => x,
                    Err(e) => {
                        return Err(e);
                    },
                };
                let other_amount_threshold = match field_u64_str(ms, "otherAmountThreshold") {
                    Ok(x) => x,
                    Err(e) => {
                        return Err(e);
                    },
                };
                let swap_mode = match field_swap_mode(ms, "swapMode") {
                    Ok(x) => x,
                    Err(e) => {
                        return Err(e);
                    },
                };
                let slippage_bps = match field_uint(ms, "slippageBps", u16::MAX as u64) {
                    Ok(x) => x as u16,
                    Err(e) => {
                        return Err(e);
                    },
                };
                let platform_fee = match field_opt_platform_fee(ms, "platformFee") {
                    Ok(x) => x,
                    Err(e) => {
                        return Err(e);
                    },
                };
                let price_impact_pct = match field_decimal(ms, "priceImpactPct") {
                    Ok(x) => x,
                    Err(e) => {
                        return Err(e);
                    },
                };
                let route_plan = match obj_get(ms, "routePlan") {
                    None => {
                        return Err(DecodeError::MissingField { field: "routePlan".to_owned() });
                    },
                    Some(rv) => match route_plan_from_json(rv) {
                        Ok(x) => x,
                        Err(e) => {
                            return Err(e);
                        },
                    },
                };
                let context_slot = match field_u64_default(ms, "contextSlot") {
                    Ok(x) => x,
                    Err(e) => {
                        return Err(e);
                    },
                };
                let time_taken = match field_decimal_default(ms, "timeTaken") {
                    Ok(x) => x,
                    Err(e) => {
                        return Err(e);
                    },
                };
                Ok(
                    QuoteResponse {
                        input_mint,
                        in_amount,
                        output_mint,
                        out_amount,
                        other_amount_threshold,
                        swap_mode,
                        slippage_bps,
                        platform_fee,
                        price_impact_pct,
                        route_plan,
                        context_slot,
                        time_taken,
                    },
                )
            },
            _ => Err(DecodeError::WrongType { field: "quoteResponse".to_owned() }),
        }
    }
}

/// Encoding a well-formed quote response and decoding the wire value gives
/// back the same response, field for field: amounts, identifiers, the fee in
/// either state, the exact decimals, and the route plan in order.
#[verifier::rlimit(100)]
#[verifier::spinoff_prover]
pub proof fn lemma_response_round_trip(x: QuoteResponseV)
    requires
        x.wf(),
    ensures
        spec_dec_response(spec_enc_response(x)) == Ok::<_, ErrView>(x),
{
    lemma_resp_lookup_1(x);
    lemma_resp_lookup_2(x);
    lemma_resp_lookup_3(x);
    lemma_resp_lookup_4(x);
    lemma_resp_lookup_5(x);
    lemma_resp_lookup_6(x);
    lemma_resp_lookup_7(x);
    lemma_resp_lookup_8(x);
    lemma_resp_lookup_9(x);
    lemma_resp_lookup_10(x);
    lemma_resp_lookup_11(x);
    lemma_resp_lookup_12(x);
    lemma_dec_of_val(x.in_amount as nat);
    lemma_dec_of_val(x.out_amount as nat);
    lemma_dec_of_val(x.other_amount_threshold as nat);
    lemma_swap_mode_round_trip(x.swap_mode);
    if let Some(pf) = x.platform_fee {
        lemma_platform_fee_round_trip(pf);
    }
    lemma_decimal_round_trip(x.price_impact_pct);
    lemma_route_plan_round_trip(x.route_plan);
}

/// Defaults: a response payload without a slot member decodes to slot zero,
/// and one without an elapsed-time member decodes to time zero; both only on
/// genuine absence, never on a malformed value.
pub proof fn lemma_response_defaults(ps: Seq<(Seq<char>, JVal)>, x: QuoteResponseV)
    requires
        spec_dec_response(JVal::Obj(ps)) == Ok::<_, ErrView>(x),
    ensures
        !has_key(ps, "contextSlot"@) ==> x.context_slot == 0,
        !has_key(ps, "timeTaken"@) ==> x.time_taken == (Decimal {
            negative: false,
            mantissa: 0,
            scale: 0,
        }),
{
    if !has_key(ps, "contextSlot"@) {
        lemma_lookup_absent(ps, "contextSlot"@);
    }
    if !has_key(ps, "timeTaken"@) {
        lemma_lookup_absent(ps, "timeTaken"@);
    }
}

/// Where the inputMint member stands in an encoded response.
#[verifier::spinoff_prover]
proof fn lemma_resp_lookup_1(x: QuoteResponseV)
    ensures
        lookup(spec_response_members(x), "inputMint"@) == opt_val(Some(JVal::Str(x.input_mint.text))),
        has_key(spec_response_members(x), "inputMint"@) == ((Some(JVal::Str(x.input_mint.text))) is Some),
{
    let k1 = "inputMint"@;
    let k2 = "inAmount"@;
    let k3 = "outputMint"@;
    let k4 = "outAmount"@;
    let k5 = "otherAmountThreshold"@;
    let k6 = "swapMode"@;
    let k7 = "slippageBps"@;
    let k8 = "platformFee"@;
    let k9 = "priceImpactPct"@;
    let k10 = "routePlan"@;
    let k11 = "contextSlot"@;
    let k12 = "timeTaken"@;
    reveal_strlit("inputMint");
    reveal_strlit("inAmount");
    reveal_strlit("outputMint");
    reveal_strlit("outAmount");
    reveal_strlit("otherAmountThreshold");
    reveal_strlit("swapMode");
    reveal_strlit("slippageBps");
    reveal_strlit("platformFee");
    reveal_strlit("priceImpactPct");
    reveal_strlit("routePlan");
    reveal_strlit("contextSlot");
    reveal_strlit("timeTaken");
    assert(k2 != k1) by {
        assert(k2.len() == 8);
        assert(k1.len() == 9);
    }
    assert(k3 != k1) by {
        assert(k3.len() == 10);
        assert(k1.len() == 9);
    }
    assert(k4 != k1) by {
        assert(k4[0] == 'o');
        assert(k1[0] == 'i');
    }
    assert(k5 != k1) by {
        assert(k5.len() == 20);
        assert(k1.len() == 9);
    }
    assert(k6 != k1) by {
        assert(k6.len() == 8);
        assert(k1.len() == 9);
    }
    assert(k7 != k1) by {
        assert(k7.len() == 11);
        assert(k1.len() == 9);
    }
    assert(k8 != k1) by {
        assert(k8.len() == 11);
        assert(k1.len() == 9);
    }
    assert(k9 != k1) by {
        assert(k9.len() == 14);
        assert(k1.len() == 9);
    }
    assert(k10 != k1) by {
        assert(k10[0] == 'r');
        assert(k1[0] == 'i');
    }
    assert(k11 != k1) by {
        assert(k11.len() == 11);
        assert(k1.len() == 9);
    }
    assert(k12 != k1) by {
        assert(k12[0] == 't');
        assert(k1[0] == 'i');
    }
    let v1 = Some(JVal::Str(x.input_mint.text));
    let v2 = Some(JVal::Str(dec_of(x.in_amount as nat)));
    let v3 = Some(JVal::Str(x.output_mint.text));
    let v4 = Some(JVal::Str(dec_of(x.out_amount as nat)));
    let v5 = Some(JVal::Str(dec_of(x.other_amount_threshold as nat)));
    let v6 = Some(JVal::Str(spec_enc_swap_mode(x.swap_mode)));
    let v7 = Some(JVal::UInt(x.slippage_bps as u64));
    let v8 = match x.platform_fee {
        Some(pf) => Some(spec_enc_platform_fee(pf)),
        None => None,
    };
    let v9 = Some(JVal::Str(spec_decimal_str(x.price_impact_pct)));
    let v10 = Some(JVal::Arr(spec_enc_route_plan(x.route_plan)));
    let v11 = Some(JVal::UInt(x.context_slot));
    let v12 = Some(JVal::Dec(x.time_taken));
    let m1 = opt_member(k1, v1);
    let m2 = opt_member(k2, v2);
    let m3 = opt_member(k3, v3);
    let m4 = opt_member(k4, v4);
    let m5 = opt_member(k5, v5);
    let m6 = opt_member(k6, v6);
    let m7 = opt_member(k7, v7);
    let m8 = opt_member(k8, v8);
    let m9 = opt_member(k9, v9);
    let m10 = opt_member(k10, v10);
    let m11 = opt_member(k11, v11);
    let m12 = opt_member(k12, v12);
    let p2 = m1 + m2;
    let p3 = p2 + m3;
    let p4 = p3 + m4;
    let p5 = p4 + m5;
    let p6 = p5 + m6;
    let p7 = p6 + m7;
    let p8 = p7 + m8;
    let p9 = p8 + m9;
    let p10 = p9 + m10;
    let p11 = p10 + m11;
    let p12 = p11 + m12;
    assert(spec_response_members(x) == p12);
    lemma_opt_member(k1, k1, v1);
    lemma_opt_member(k2, k1, v2);
    lemma_opt_member(k3, k1, v3);
    lemma_opt_member(k4, k1, v4);
    lemma_opt_member(k5, k1, v5);
    lemma_opt_member(k6, k1, v6);
    lemma_opt_member(k7, k1, v7);
    lemma_opt_member(k8, k1, v8);
    lemma_opt_member(k9, k1, v9);
    lemma_opt_member(k10, k1, v10);
    lemma_opt_member(k11, k1, v11);
    lemma_opt_member(k12, k1, v12);
    lemma_lookup_absent(m2, k1);
    lemma_lookup_absent(m3, k1);
    lemma_lookup_absent(m4, k1);
    lemma_lookup_absent(m5, k1);
    lemma_lookup_absent(m6, k1);
    lemma_lookup_absent(m7, k1);
    lemma_lookup_absent(m8, k1);
    lemma_lookup_absent(m9, k1);
    lemma_lookup_absent(m10, k1);
    lemma_lookup_absent(m11, k1);
    lemma_lookup_absent(m12, k1);
    lemma_lookup_split(m1, m2, k1);
    lemma_lookup_split(p2, m3, k1);
    lemma_lookup_split(p3, m4, k1);
    lemma_lookup_split(p4, m5, k1);
    lemma_lookup_split(p5, m6, k1);
    lemma_lookup_split(p6, m7, k1);
    lemma_lookup_split(p7, m8, k1);
    lemma_lookup_split(p8, m9, k1);
    lemma_lookup_split(p9, m10, k1);
    lemma_lookup_split(p10, m11, k1);
    lemma_lookup_split(p11, m12, k1);
}

/// Where the inAmount member stands in an encoded response.
#[verifier::spinoff_prover]
proof fn lemma_resp_lookup_2(x: QuoteResponseV)
    ensures
        lookup(spec_response_members(x), "inAmount"@) == opt_val(Some(JVal::Str(dec_of(x.in_amount as nat)))),
        has_key(spec_response_members(x), "inAmount"@) == ((Some(JVal::Str(dec_of(x.in_amount as nat)))) is Some),
{
    let k1 = "inputMint"@;
    let k2 = "inAmount"@;
    let k3 = "outputMint"@;
    let k4 = "outAmount"@;
    let k5 = "otherAmountThreshold"@;
    let k6 = "swapMode"@;
    let k7 = "slippageBps"@;
    let k8 = "platformFee"@;
    let k9 = "priceImpactPct"@;
    let k10 = "routePlan"@;
    let k11 = "contextSlot"@;
    let k12 = "timeTaken"@;
    reveal_strlit("inputMint");
    reveal_strlit("inAmount");
    reveal_strlit("outputMint");
    reveal_strlit("outAmount");
    reveal_strlit("otherAmountThreshold");
    reveal_strlit("swapMode");
    reveal_strlit("slippageBps");
    reveal_strlit("platformFee");
    reveal_strlit("priceImpactPct");
    reveal_strlit("routePlan");
    reveal_strlit("contextSlot");
    reveal_strlit("timeTaken");
    assert(k1 != k2) by {
        assert(k1.len() == 9);
        assert(k2.len() == 8);
    }
    assert(k3 != k2) by {
        assert(k3.len() == 10);
        assert(k2.len() == 8);
    }
    assert(k4 != k2) by {
        assert(k4.len() == 9);
        assert(k2.len() == 8);
    }
    assert(k5 != k2) by {
        assert(k5.len() == 20);
        assert(k2.len() == 8);
    }
    assert(k6 != k2) by {
        assert(k6[0] == 's');
        assert(k2[0] == 'i');
    }
    assert(k7 != k2) by {
        assert(k7.len() == 11);
        assert(k2.len() == 8);
    }
    assert(k8 != k2) by {
        assert(k8.len() == 11);
        assert(k2.len() == 8);
    }
    assert(k9 != k2) by {
        assert(k9.len() == 14);
        assert(k2.len() == 8);
    }
    assert(k10 != k2) by {
        assert(k10.len() == 9);
        assert(k2.len() == 8);
    }
    assert(k11 != k2) by {
        assert(k11.len() == 11);
        assert(k2.len() == 8);
    }
    assert(k12 != k2) by {
        assert(k12.len() == 9);
        assert(k2.len() == 8);
    }
    let v1 = Some(JVal::Str(x.input_mint.text));
    let v2 = Some(JVal::Str(dec_of(x.in_amount as nat)));
    let v3 = Some(JVal::Str(x.output_mint.text));
    let v4 = Some(JVal::Str(dec_of(x.out_amount as nat)));
    let v5 = Some(JVal::Str(dec_of(x.other_amount_threshold as nat)));
    let v6 = Some(JVal::Str(spec_enc_swap_mode(x.swap_mode)));
    let v7 = Some(JVal::UInt(x.slippage_bps as u64));
    let v8 = match x.platform_fee {
        Some(pf) => Some(spec_enc_platform_fee(pf)),
        None => None,
    };
    let v9 = Some(JVal::Str(spec_decimal_str(x.price_impact_pct)));
    let v10 = Some(JVal::Arr(spec_enc_route_plan(x.route_plan)));
    let v11 = Some(JVal::UInt(x.context_slot));
    let v12 = Some(JVal::Dec(x.time_taken));
    let m1 = opt_member(k1, v1);
    let m2 = opt_member(k2, v2);
    let m3 = opt_member(k3, v3);
    let m4 = opt_member(k4, v4);
    let m5 = opt_member(k5, v5);
    let m6 = opt_member(k6, v6);
    let m7 = opt_member(k7, v7);
    let m8 = opt_member(k8, v8);
    let m9 = opt_member(k9, v9);
    let m10 = opt_member(k10, v10);
    let m11 = opt_member(k11, v11);
    let m12 = opt_member(k12, v12);
    let p2 = m1 + m2;
    let p3 = p2 + m3;
    let p4 = p3 + m4;
    let p5 = p4 + m5;
    let p6 = p5 + m6;
    let p7 = p6 + m7;
    let p8 = p7 + m8;
    let p9 = p8 + m9;
    let p10 = p9 + m10;
    let p11 = p10 + m11;
    let p12 = p11 + m12;
    assert(spec_response_members(x) == p12);
    lemma_opt_member(k1, k2, v1);
    lemma_opt_member(k2, k2, v2);
    lemma_opt_member(k3, k2, v3);
    lemma_opt_member(k4, k2, v4);
    lemma_opt_member(k5, k2, v5);
    lemma_opt_member(k6, k2, v6);
    lemma_opt_member(k7, k2, v7);
    lemma_opt_member(k8, k2, v8);
    lemma_opt_member(k9, k2, v9);
    lemma_opt_member(k10, k2, v10);
    lemma_opt_member(k11, k2, v11);
    lemma_opt_member(k12, k2, v12);
    lemma_lookup_absent(m1, k2);
    lemma_lookup_absent(m3, k2);
    lemma_lookup_absent(m4, k2);
    lemma_lookup_absent(m5, k2);
    lemma_lookup_absent(m6, k2);
    lemma_lookup_absent(m7, k2);
    lemma_lookup_absent(m8, k2);
    lemma_lookup_absent(m9, k2);
    lemma_lookup_absent(m10, k2);
    lemma_lookup_absent(m11, k2);
    lemma_lookup_absent(m12, k2);
    lemma_lookup_split(m1, m2, k2);
    lemma_lookup_split(p2, m3, k2);
    lemma_lookup_split(p3, m4, k2);
    lemma_lookup_split(p4, m5, k2);
    lemma_lookup_split(p5, m6, k2);
    lemma_lookup_split(p6, m7, k2);
    lemma_lookup_split(p7, m8, k2);
    lemma_lookup_split(p8, m9, k2);
    lemma_lookup_split(p9, m10, k2);
    lemma_lookup_split(p10, m11, k2);
    lemma_lookup_split(p11, m12, k2);
}

/// Where the outputMint member stands in an encoded response.
#[verifier::spinoff_prover]
proof fn lemma_resp_lookup_3(x: QuoteResponseV)
    ensures
        lookup(spec_response_members(x), "outputMint"@) == opt_val(Some(JVal::Str(x.output_mint.text))),
        has_key(spec_response_members(x), "outputMint"@) == ((Some(JVal::Str(x.output_mint.text))) is Some),
{
    let k1 = "inputMint"@;
    let k2 = "inAmount"@;
    let k3 = "outputMint"@;
    let k4 = "outAmount"@;
    let k5 = "otherAmountThreshold"@;
    let k6 = "swapMode"@;
    let k7 = "slippageBps"@;
    let k8 = "platformFee"@;
    let k9 = "priceImpactPct"@;
    let k10 = "routePlan"@;
    let k11 = "contextSlot"@;
    let k12 = "timeTaken"@;
    reveal_strlit("inputMint");
    reveal_strlit("inAmount");
    reveal_strlit("outputMint");
    reveal_strlit("outAmount");
    reveal_strlit("otherAmountThreshold");
    reveal_strlit("swapMode");
    reveal_strlit("slippageBps");
    reveal_strlit("platformFee");
    reveal_strlit("priceImpactPct");
    reveal_strlit("routePlan");
    reveal_strlit("contextSlot");
    reveal_strlit("timeTaken");
    assert(k1 != k3) by {
        assert(k1.len() == 9);
        assert(k3.len() == 10);
    }
    assert(k2 != k3) by {
        assert(k2.len() == 8);
        assert(k3.len() == 10);
    }
    assert(k4 != k3) by {
        assert(k4.len() == 9);
        assert(k3.len() == 10);
    }
    assert(k5 != k3) by {
        assert(k5.len() == 20);
        assert(k3.len() == 10);
    }
    assert(k6 != k3) by {
        assert(k6.len() == 8);
        assert(k3.len() == 10);
    }
    assert(k7 != k3) by {
        assert(k7.len() == 11);
        assert(k3.len() == 10);
    }
    assert(k8 != k3) by {
        assert(k8.len() == 11);
        assert(k3.len() == 10);
    }
    assert(k9 != k3) by {
        assert(k9.len() == 14);
        assert(k3.len() == 10);
    }
    assert(k10 != k3) by {
        assert(k10.len() == 9);
        assert(k3.len() == 10);
    }
    assert(k11 != k3) by {
        assert(k11.len() == 11);
        assert(k3.len() == 10);
    }
    assert(k12 != k3) by {
        assert(k12.len() == 9);
        assert(k3.len() == 10);
    }
    let v1 = Some(JVal::Str(x.input_mint.text));
    let v2 = Some(JVal::Str(dec_of(x.in_amount as nat)));
    let v3 = Some(JVal::Str(x.output_mint.text));
    let v4 = Some(JVal::Str(dec_of(x.out_amount as nat)));
    let v5 = Some(JVal::Str(dec_of(x.other_amount_threshold as nat)));
    let v6 = Some(JVal::Str(spec_enc_swap_mode(x.swap_mode)));
    let v7 = Some(JVal::UInt(x.slippage_bps as u64));
    let v8 = match x.platform_fee {
        Some(pf) => Some(spec_enc_platform_fee(pf)),
        None => None,
    };
    let v9 = Some(JVal::Str(spec_decimal_str(x.price_impact_pct)));
    let v10 = Some(JVal::Arr(spec_enc_route_plan(x.route_plan)));
    let v11 = Some(JVal::UInt(x.context_slot));
    let v12 = Some(JVal::Dec(x.time_taken));
    let m1 = opt_member(k1, v1);
    let m2 = opt_member(k2, v2);
    let m3 = opt_member(k3, v3);
    let m4 = opt_member(k4, v4);
    let m5 = opt_member(k5, v5);
    let m6 = opt_member(k6, v6);
    let m7 = opt_member(k7, v7);
    let m8 = opt_member(k8, v8);
    let m9 = opt_member(k9, v9);
    let m10 = opt_member(k10, v10);
    let m11 = opt_member(k11, v11);
    let m12 = opt_member(k12, v12);
    let p2 = m1 + m2;
    let p3 = p2 + m3;
    let p4 = p3 + m4;
    let p5 = p4 + m5;
    let p6 = p5 + m6;
    let p7 = p6 + m7;
    let p8 = p7 + m8;
    let p9 = p8 + m9;
    let p10 = p9 + m10;
    let p11 = p10 + m11;
    let p12 = p11 + m12;
    assert(spec_response_members(x) == p12);
    lemma_opt_member(k1, k3, v1);
    lemma_opt_member(k2, k3, v2);
    lemma_opt_member(k3, k3, v3);
    lemma_opt_member(k4, k3, v4);
    lemma_opt_member(k5, k3, v5);
    lemma_opt_member(k6, k3, v6);
    lemma_opt_member(k7, k3, v7);
    lemma_opt_member(k8, k3, v8);
    lemma_opt_member(k9, k3, v9);
    lemma_opt_member(k10, k3, v10);
    lemma_opt_member(k11, k3, v11);
    lemma_opt_member(k12, k3, v12);
    lemma_lookup_absent(m1, k3);
    lemma_lookup_absent(m2, k3);
    lemma_lookup_absent(m4, k3);
    lemma_lookup_absent(m5, k3);
    lemma_lookup_absent(m6, k3);
    lemma_lookup_absent(m7, k3);
    lemma_lookup_absent(m8, k3);
    lemma_lookup_absent(m9, k3);
    lemma_lookup_absent(m10, k3);
    lemma_lookup_absent(m11, k3);
    lemma_lookup_absent(m12, k3);
    lemma_lookup_split(m1, m2, k3);
    lemma_lookup_split(p2, m3, k3);
    lemma_lookup_split(p3, m4, k3);
    lemma_lookup_split(p4, m5, k3);
    lemma_lookup_split(p5, m6, k3);
    lemma_lookup_split(p6, m7, k3);
    lemma_lookup_split(p7, m8, k3);
    lemma_lookup_split(p8, m9, k3);
    lemma_lookup_split(p9, m10, k3);
    lemma_lookup_split(p10, m11, k3);
    lemma_lookup_split(p11, m12, k3);
}

/// Where the outAmount member stands in an encoded response.
#[verifier::spinoff_prover]
proof fn lemma_resp_lookup_4(x: QuoteResponseV)
    ensures
        lookup(spec_response_members(x), "outAmount"@) == opt_val(Some(JVal::Str(dec_of(x.out_amount as nat)))),
        has_key(spec_response_members(x), "outAmount"@) == ((Some(JVal::Str(dec_of(x.out_amount as nat)))) is Some),
{
    let k1 = "inputMint"@;
    let k2 = "inAmount"@;
    let k3 = "outputMint"@;
    let k4 = "outAmount"@;
    let k5 = "otherAmountThreshold"@;
    let k6 = "swapMode"@;
    let k7 = "slippageBps"@;
    let k8 = "platformFee"@;
    let k9 = "priceImpactPct"@;
    let k10 = "routePlan"@;
    let k11 = "contextSlot"@;
    let k12 = "timeTaken"@;
    reveal_strlit("inputMint");
    reveal_strlit("inAmount");
    reveal_strlit("outputMint");
    reveal_strlit("outAmount");
    reveal_strlit("otherAmountThreshold");
    reveal_strlit("swapMode");
    reveal_strlit("slippageBps");
    reveal_strlit("platformFee");
    reveal_strlit("priceImpactPct");
    reveal_strlit("routePlan");
    reveal_strlit("contextSlot");
    reveal_strlit("timeTaken");
    assert(k1 != k4) by {
        assert(k1[0] == 'i');
        assert(k4[0] == 'o');
    }
    assert(k2 != k4) by {
        assert(k2.len() == 8);
        assert(k4.len() == 9);
    }
    assert(k3 != k4) by {
        assert(k3.len() == 10);
        assert(k4.len() == 9);
    }
    assert(k5 != k4) by {
        assert(k5.len() == 20);
        assert(k4.len() == 9);
    }
    assert(k6 != k4) by {
        assert(k6.len() == 8);
        assert(k4.len() == 9);
    }
    assert(k7 != k4) by {
        assert(k7.len() == 11);
        assert(k4.len() == 9);
    }
    assert(k8 != k4) by {
        assert(k8.len() == 11);
        assert(k4.len() == 9);
    }
    assert(k9 != k4) by {
        assert(k9.len() == 14);
        assert(k4.len() == 9);
    }
    assert(k10 != k4) by {
        assert(k10[0] == 'r');
        assert(k4[0] == 'o');
    }
    assert(k11 != k4) by {
        assert(k11.len() == 11);
        assert(k4.len() == 9);
    }
    assert(k12 != k4) by {
        assert(k12[0] == 't');
        assert(k4[0] == 'o');
    }
    let v1 = Some(JVal::Str(x.input_mint.text));
    let v2 = Some(JVal::Str(dec_of(x.in_amount as nat)));
    let v3 = Some(JVal::Str(x.output_mint.text));
    let v4 = Some(JVal::Str(dec_of(x.out_amount as nat)));
    let v5 = Some(JVal::Str(dec_of(x.other_amount_threshold as nat)));
    let v6 = Some(JVal::Str(spec_enc_swap_mode(x.swap_mode)));
    let v7 = Some(JVal::UInt(x.slippage_bps as u64));
    let v8 = match x.platform_fee {
        Some(pf) => Some(spec_enc_platform_fee(pf)),
        None => None,
    };
    let v9 = Some(JVal::Str(spec_decimal_str(x.price_impact_pct)));
    let v10 = Some(JVal::Arr(spec_enc_route_plan(x.route_plan)));
    let v11 = Some(JVal::UInt(x.context_slot));
    let v12 = Some(JVal::Dec(x.time_taken));
    let m1 = opt_member(k1, v1);
    let m2 = opt_member(k2, v2);
    let m3 = opt_member(k3, v3);
    let m4 = opt_member(k4, v4);
    let m5 = opt_member(k5, v5);
    let m6 = opt_member(k6, v6);
    let m7 = opt_member(k7, v7);
    let m8 = opt_member(k8, v8);
    let m9 = opt_member(k9, v9);
    let m10 = opt_member(k10, v10);
    let m11 = opt_member(k11, v11);
    let m12 = opt_member(k12, v12);
    let p2 = m1 + m2;
    let p3 = p2 + m3;
    let p4 = p3 + m4;
    let p5 = p4 + m5;
    let p6 = p5 + m6;
    let p7 = p6 + m7;
    let p8 = p7 + m8;
    let p9 = p8 + m9;
    let p10 = p9 + m10;
    let p11 = p10 + m11;
    let p12 = p11 + m12;
    assert(spec_response_members(x) == p12);
    lemma_opt_member(k1, k4, v1);
    lemma_opt_member(k2, k4, v2);
    lemma_opt_member(k3, k4, v3);
    lemma_opt_member(k4, k4, v4);
    lemma_opt_member(k5, k4, v5);
    lemma_opt_member(k6, k4, v6);
    lemma_opt_member(k7, k4, v7);
    lemma_opt_member(k8, k4, v8);
    lemma_opt_member(k9, k4, v9);
    lemma_opt_member(k10, k4, v10);
    lemma_opt_member(k11, k4, v11);
    lemma_opt_member(k12, k4, v12);
    lemma_lookup_absent(m1, k4);
    lemma_lookup_absent(m2, k4);
    lemma_lookup_absent(m3, k4);
    lemma_lookup_absent(m5, k4);
    lemma_lookup_absent(m6, k4);
    lemma_lookup_absent(m7, k4);
    lemma_lookup_absent(m8, k4);
    lemma_lookup_absent(m9, k4);
    lemma_lookup_absent(m10, k4);
    lemma_lookup_absent(m11, k4);
    lemma_lookup_absent(m12, k4);
    lemma_lookup_split(m1, m2, k4);
    lemma_lookup_split(p2, m3, k4);
    lemma_lookup_split(p3, m4, k4);
    lemma_lookup_split(p4, m5, k4);
    lemma_lookup_split(p5, m6, k4);
    lemma_lookup_split(p6, m7, k4);
    lemma_lookup_split(p7, m8, k4);
    lemma_lookup_split(p8, m9, k4);
    lemma_lookup_split(p9, m10, k4);
    lemma_lookup_split(p10, m11, k4);
    lemma_lookup_split(p11, m12, k4);
}

/// Where the otherAmountThreshold member stands in an encoded response.
#[verifier::spinoff_prover]
proof fn lemma_resp_lookup_5(x: QuoteResponseV)
    ensures
        lookup(spec_response_members(x), "otherAmountThreshold"@) == opt_val(Some(JVal::Str(dec_of(x.other_amount_threshold as nat)))),
        has_key(spec_response_members(x), "otherAmountThreshold"@) == ((Some(JVal::Str(dec_of(x.other_amount_threshold as nat)))) is Some),
{
    let k1 = "inputMint"@;
    let k2 = "inAmount"@;
    let k3 = "outputMint"@;
    let k4 = "outAmount"@;
    let k5 = "otherAmountThreshold"@;
    let k6 = "swapMode"@;
    let k7 = "slippageBps"@;
    let k8 = "platformFee"@;
    let k9 = "priceImpactPct"@;
    let k10 = "routePlan"@;
    let k11 = "contextSlot"@;
    let k12 = "timeTaken"@;
    reveal_strlit("inputMint");
    reveal_strlit("inAmount");
    reveal_strlit("outputMint");
    reveal_strlit("outAmount");
    reveal_strlit("otherAmountThreshold");
    reveal_strlit("swapMode");
    reveal_strlit("slippageBps");
    reveal_strlit("platformFee");
    reveal_strlit("priceImpactPct");
    reveal_strlit("routePlan");
    reveal_strlit("contextSlot");
    reveal_strlit("timeTaken");
    assert(k1 != k5) by {
        assert(k1.len() == 9);
        assert(k5.len() == 20);
    }
    assert(k2 != k5) by {
        assert(k2.len() == 8);
        assert(k5.len() == 20);
    }
    assert(k3 != k5) by {
        assert(k3.len() == 10);
        assert(k5.len() == 20);
    }
    assert(k4 != k5) by {
        assert(k4.len() == 9);
        assert(k5.len() == 20);
    }
    assert(k6 != k5) by {
        assert(k6.len() == 8);
        assert(k5.len() == 20);
    }
    assert(k7 != k5) by {
        assert(k7.len() == 11);
        assert(k5.len() == 20);
    }
    assert(k8 != k5) by {
        assert(k8.len() == 11);
        assert(k5.len() == 20);
    }
    assert(k9 != k5) by {
        assert(k9.len() == 14);
        assert(k5.len() == 20);
    }
    assert(k10 != k5) by {
        assert(k10.len() == 9);
        assert(k5.len() == 20);
    }
    assert(k11 != k5) by {
        assert(k11.len() == 11);
        assert(k5.len() == 20);
    }
    assert(k12 != k5) by {
        assert(k12.len() == 9);
        assert(k5.len() == 20);
    }
    let v1 = Some(JVal::Str(x.input_mint.text));
    let v2 = Some(JVal::Str(dec_of(x.in_amount as nat)));
    let v3 = Some(JVal::Str(x.output_mint.text));
    let v4 = Some(JVal::Str(dec_of(x.out_amount as nat)));
    let v5 = Some(JVal::Str(dec_of(x.other_amount_threshold as nat)));
    let v6 = Some(JVal::Str(spec_enc_swap_mode(x.swap_mode)));
    let v7 = Some(JVal::UInt(x.slippage_bps as u64));
    let v8 = match x.platform_fee {
        Some(pf) => Some(spec_enc_platform_fee(pf)),
        None => None,
    };
    let v9 = Some(JVal::Str(spec_decimal_str(x.price_impact_pct)));
    let v10 = Some(JVal::Arr(spec_enc_route_plan(x.route_plan)));
    let v11 = Some(JVal::UInt(x.context_slot));
    let v12 = Some(JVal::Dec(x.time_taken));
    let m1 = opt_member(k1, v1);
    let m2 = opt_member(k2, v2);
    let m3 = opt_member(k3, v3);
    let m4 = opt_member(k4, v4);
    let m5 = opt_member(k5, v5);
    let m6 = opt_member(k6, v6);
    let m7 = opt_member(k7, v7);
    let m8 = opt_member(k8, v8);
    let m9 = opt_member(k9, v9);
    let m10 = opt_member(k10, v10);
    let m11 = opt_member(k11, v11);
    let m12 = opt_member(k12, v12);
    let p2 = m1 + m2;
    let p3 = p2 + m3;
    let p4 = p3 + m4;
    let p5 = p4 + m5;
    let p6 = p5 + m6;
    let p7 = p6 + m7;
    let p8 = p7 + m8;
    let p9 = p8 + m9;
    let p10 = p9 + m10;
    let p11 = p10 + m11;
    let p12 = p11 + m12;
    assert(spec_response_members(x) == p12);
    lemma_opt_member(k1, k5, v1);
    lemma_opt_member(k2, k5, v2);
    lemma_opt_member(k3, k5, v3);
    lemma_opt_member(k4, k5, v4);
    lemma_opt_member(k5, k5, v5);
    lemma_opt_member(k6, k5, v6);
    lemma_opt_member(k7, k5, v7);
    lemma_opt_member(k8, k5, v8);
    lemma_opt_member(k9, k5, v9);
    lemma_opt_member(k10, k5, v10);
    lemma_opt_member(k11, k5, v11);
    lemma_opt_member(k12, k5, v12);
    lemma_lookup_absent(m1, k5);
    lemma_lookup_absent(m2, k5);
    lemma_lookup_absent(m3, k5);
    lemma_lookup_absent(m4, k5);
    lemma_lookup_absent(m6, k5);
    lemma_lookup_absent(m7, k5);
    lemma_lookup_absent(m8, k5);
    lemma_lookup_absent(m9, k5);
    lemma_lookup_absent(m10, k5);
    lemma_lookup_absent(m11, k5);
    lemma_lookup_absent(m12, k5);
    lemma_lookup_split(m1, m2, k5);
    lemma_lookup_split(p2, m3, k5);
    lemma_lookup_split(p3, m4, k5);
    lemma_lookup_split(p4, m5, k5);
    lemma_lookup_split(p5, m6, k5);
    lemma_lookup_split(p6, m7, k5);
    lemma_lookup_split(p7, m8, k5);
    lemma_lookup_split(p8, m9, k5);
    lemma_lookup_split(p9, m10, k5);
    lemma_lookup_split(p10, m11, k5);
    lemma_lookup_split(p11, m12, k5);
}

/// Where the swapMode member stands in an encoded response.
#[verifier::spinoff_prover]
proof fn lemma_resp_lookup_6(x: QuoteResponseV)
    ensures
        lookup(spec_response_members(x), "swapMode"@) == opt_val(Some(JVal::Str(spec_enc_swap_mode(x.swap_mode)))),
        has_key(spec_response_members(x), "swapMode"@) == ((Some(JVal::Str(spec_enc_swap_mode(x.swap_mode)))) is Some),
{
    let k1 = "inputMint"@;
    let k2 = "inAmount"@;
    let k3 = "outputMint"@;
    let k4 = "outAmount"@;
    let k5 = "otherAmountThreshold"@;
    let k6 = "swapMode"@;
    let k7 = "slippageBps"@;
    let k8 = "platformFee"@;
    let k9 = "priceImpactPct"@;
    let k10 = "routePlan"@;
    let k11 = "contextSlot"@;
    let k12 = "timeTaken"@;
    reveal_strlit("inputMint");
    reveal_strlit("inAmount");
    reveal_strlit("outputMint");
    reveal_strlit("outAmount");
    reveal_strlit("otherAmountThreshold");
    reveal_strlit("swapMode");
    reveal_strlit("slippageBps");
    reveal_strlit("platformFee");
    reveal_strlit("priceImpactPct");
    reveal_strlit("routePlan");
    reveal_strlit("contextSlot");
    reveal_strlit("timeTaken");
    assert(k1 != k6) by {
        assert(k1.len() == 9);
        assert(k6.len() == 8);
    }
    assert(k2 != k6) by {
        assert(k2[0] == 'i');
        assert(k6[0] == 's');
    }
    assert(k3 != k6) by {
        assert(k3.len() == 10);
        assert(k6.len() == 8);
    }
    assert(k4 != k6) by {
        assert(k4.len() == 9);
        assert(k6.len() == 8);
    }
    assert(k5 != k6) by {
        assert(k5.len() == 20);
        assert(k6.len() == 8);
    }
    assert(k7 != k6) by {
        assert(k7.len() == 11);
        assert(k6.len() == 8);
    }
    assert(k8 != k6) by {
        assert(k8.len() == 11);
        assert(k6.len() == 8);
    }
    assert(k9 != k6) by {
        assert(k9.len() == 14);
        assert(k6.len() == 8);
    }
    assert(k10 != k6) by {
        assert(k10.len() == 9);
        assert(k6.len() == 8);
    }
    assert(k11 != k6) by {
        assert(k11.len() == 11);
        assert(k6.len() == 8);
    }
    assert(k12 != k6) by {
        assert(k12.len() == 9);
        assert(k6.len() == 8);
    }
    let v1 = Some(JVal::Str(x.input_mint.text));
    let v2 = Some(JVal::Str(dec_of(x.in_amount as nat)));
    let v3 = Some(JVal::Str(x.output_mint.text));
    let v4 = Some(JVal::Str(dec_of(x.out_amount as nat)));
    let v5 = Some(JVal::Str(dec_of(x.other_amount_threshold as nat)));
    let v6 = Some(JVal::Str(spec_enc_swap_mode(x.swap_mode)));
    let v7 = Some(JVal::UInt(x.slippage_bps as u64));
    let v8 = match x.platform_fee {
        Some(pf) => Some(spec_enc_platform_fee(pf)),
        None => None,
    };
    let v9 = Some(JVal::Str(spec_decimal_str(x.price_impact_pct)));
    let v10 = Some(JVal::Arr(spec_enc_route_plan(x.route_plan)));
    let v11 = Some(JVal::UInt(x.context_slot));
    let v12 = Some(JVal::Dec(x.time_taken));
    let m1 = opt_member(k1, v1);
    let m2 = opt_member(k2, v2);
    let m3 = opt_member(k3, v3);
    let m4 = opt_member(k4, v4);
    let m5 = opt_member(k5, v5);
    let m6 = opt_member(k6, v6);
    let m7 = opt_member(k7, v7);
    let m8 = opt_member(k8, v8);
    let m9 = opt_member(k9, v9);
    let m10 = opt_member(k10, v10);
    let m11 = opt_member(k11, v11);
    let m12 = opt_member(k12, v12);
    let p2 = m1 + m2;
    let p3 = p2 + m3;
    let p4 = p3 + m4;
    let p5 = p4 + m5;
    let p6 = p5 + m6;
    let p7 = p6 + m7;
    let p8 = p7 + m8;
    let p9 = p8 + m9;
    let p10 = p9 + m10;
    let p11 = p10 + m11;
    let p12 = p11 + m12;
    assert(spec_response_members(x) == p12);
    lemma_opt_member(k1, k6, v1);
    lemma_opt_member(k2, k6, v2);
    lemma_opt_member(k3, k6, v3);
    lemma_opt_member(k4, k6, v4);
    lemma_opt_member(k5, k6, v5);
    lemma_opt_member(k6, k6, v6);
    lemma_opt_member(k7, k6, v7);
    lemma_opt_member(k8, k6, v8);
    lemma_opt_member(k9, k6, v9);
    lemma_opt_member(k10, k6, v10);
    lemma_opt_member(k11, k6, v11);
    lemma_opt_member(k12, k6, v12);
    lemma_lookup_absent(m1, k6);
    lemma_lookup_absent(m2, k6);
    lemma_lookup_absent(m3, k6);
    lemma_lookup_absent(m4, k6);
    lemma_lookup_absent(m5, k6);
    lemma_lookup_absent(m7, k6);
    lemma_lookup_absent(m8, k6);
    lemma_lookup_absent(m9, k6);
    lemma_lookup_absent(m10, k6);
    lemma_lookup_absent(m11, k6);
    lemma_lookup_absent(m12, k6);
    lemma_lookup_split(m1, m2, k6);
    lemma_lookup_split(p2, m3, k6);
    lemma_lookup_split(p3, m4, k6);
    lemma_lookup_split(p4, m5, k6);
    lemma_lookup_split(p5, m6, k6);
    lemma_lookup_split(p6, m7, k6);
    lemma_lookup_split(p7, m8, k6);
    lemma_lookup_split(p8, m9, k6);
    lemma_lookup_split(p9, m10, k6);
    lemma_lookup_split(p10, m11, k6);
    lemma_lookup_split(p11, m12, k6);
}

/// Where the slippageBps member stands in an encoded response.
#[verifier::spinoff_prover]
proof fn lemma_resp_lookup_7(x: QuoteResponseV)
    ensures
        lookup(spec_response_members(x), "slippageBps"@) == opt_val(Some(JVal::UInt(x.slippage_bps as u64))),
        has_key(spec_response_members(x), "slippageBps"@) == ((Some(JVal::UInt(x.slippage_bps as u64))) is Some),
{
    let k1 = "inputMint"@;
    let k2 = "inAmount"@;
    let k3 = "outputMint"@;
    let k4 = "outAmount"@;
    let k5 = "otherAmountThreshold"@;
    let k6 = "swapMode"@;
    let k7 = "slippageBps"@;
    let k8 = "platformFee"@;
    let k9 = "priceImpactPct"@;
    let k10 = "routePlan"@;
    let k11 = "contextSlot"@;
    let k12 = "timeTaken"@;
    reveal_strlit("inputMint");
    reveal_strlit("inAmount");
    reveal_strlit("outputMint");
    reveal_strlit("outAmount");
    reveal_strlit("otherAmountThreshold");
    reveal_strlit("swapMode");
    reveal_strlit("slippageBps");
    reveal_strlit("platformFee");
    reveal_strlit("priceImpactPct");
    reveal_strlit("routePlan");
    reveal_strlit("contextSlot");
    reveal_strlit("timeTaken");
    assert(k1 != k7) by {
        assert(k1.len() == 9);
        assert(k7.len() == 11);
    }
    assert(k2 != k7) by {
        assert(k2.len() == 8);
        assert(k7.len() == 11);
    }
    assert(k3 != k7) by {
        assert(k3.len() == 10);
        assert(k7.len() == 11);
    }
    assert(k4 != k7) by {
        assert(k4.len() == 9);
        assert(k7.len() == 11);
    }
    assert(k5 != k7) by {
        assert(k5.len() == 20);
        assert(k7.len() == 11);
    }
    assert(k6 != k7) by {
        assert(k6.len() == 8);
        assert(k7.len() == 11);
    }
    assert(k8 != k7) by {
        assert(k8[0] == 'p');
        assert(k7[0] == 's');
    }
    assert(k9 != k7) by {
        assert(k9.len() == 14);
        assert(k7.len() == 11);
    }
    assert(k10 != k7) by {
        assert(k10.len() == 9);
        assert(k7.len() == 11);
    }
    assert(k11 != k7) by {
        assert(k11[0] == 'c');
        assert(k7[0] == 's');
    }
    assert(k12 != k7) by {
        assert(k12.len() == 9);
        assert(k7.len() == 11);
    }
    let v1 = Some(JVal::Str(x.input_mint.text));
    let v2 = Some(JVal::Str(dec_of(x.in_amount as nat)));
    let v3 = Some(JVal::Str(x.output_mint.text));
    let v4 = Some(JVal::Str(dec_of(x.out_amount as nat)));
    let v5 = Some(JVal::Str(dec_of(x.other_amount_threshold as nat)));
    let v6 = Some(JVal::Str(spec_enc_swap_mode(x.swap_mode)));
    let v7 = Some(JVal::UInt(x.slippage_bps as u64));
    let v8 = match x.platform_fee {
        Some(pf) => Some(spec_enc_platform_fee(pf)),
        None => None,
    };
    let v9 = Some(JVal::Str(spec_decimal_str(x.price_impact_pct)));
    let v10 = Some(JVal::Arr(spec_enc_route_plan(x.route_plan)));
    let v11 = Some(JVal::UInt(x.context_slot));
    let v12 = Some(JVal::Dec(x.time_taken));
    let m1 = opt_member(k1, v1);
    let m2 = opt_member(k2, v2);
    let m3 = opt_member(k3, v3);
    let m4 = opt_member(k4, v4);
    let m5 = opt_member(k5, v5);
    let m6 = opt_member(k6, v6);
    let m7 = opt_member(k7, v7);
    let m8 = opt_member(k8, v8);
    let m9 = opt_member(k9, v9);
    let m10 = opt_member(k10, v10);
    let m11 = opt_member(k11, v11);
    let m12 = opt_member(k12, v12);
    let p2 = m1 + m2;
    let p3 = p2 + m3;
    let p4 = p3 + m4;
    let p5 = p4 + m5;
    let p6 = p5 + m6;
    let p7 = p6 + m7;
    let p8 = p7 + m8;
    let p9 = p8 + m9;
    let p10 = p9 + m10;
    let p11 = p10 + m11;
    let p12 = p11 + m12;
    assert(spec_response_members(x) == p12);
    lemma_opt_member(k1, k7, v1);
    lemma_opt_member(k2, k7, v2);
    lemma_opt_member(k3, k7, v3);
    lemma_opt_member(k4, k7, v4);
    lemma_opt_member(k5, k7, v5);
    lemma_opt_member(k6, k7, v6);
    lemma_opt_member(k7, k7, v7);
    lemma_opt_member(k8, k7, v8);
    lemma_opt_member(k9, k7, v9);
    lemma_opt_member(k10, k7, v10);
    lemma_opt_member(k11, k7, v11);
    lemma_opt_member(k12, k7, v12);
    lemma_lookup_absent(m1, k7);
    lemma_lookup_absent(m2, k7);
    lemma_lookup_absent(m3, k7);
    lemma_lookup_absent(m4, k7);
    lemma_lookup_absent(m5, k7);
    lemma_lookup_absent(m6, k7);
    lemma_lookup_absent(m8, k7);
    lemma_lookup_absent(m9, k7);
    lemma_lookup_absent(m10, k7);
    lemma_lookup_absent(m11, k7);
    lemma_lookup_absent(m12, k7);
    lemma_lookup_split(m1, m2, k7);
    lemma_lookup_split(p2, m3, k7);
    lemma_lookup_split(p3, m4, k7);
    lemma_lookup_split(p4, m5, k7);
    lemma_lookup_split(p5, m6, k7);
    lemma_lookup_split(p6, m7, k7);
    lemma_lookup_split(p7, m8, k7);
    lemma_lookup_split(p8, m9, k7);
    lemma_lookup_split(p9, m10, k7);
    lemma_lookup_split(p10, m11, k7);
    lemma_lookup_split(p11, m12, k7);
}

/// Where the platformFee member stands in an encoded response.
#[verifier::spinoff_prover]
proof fn lemma_resp_lookup_8(x: QuoteResponseV)
    ensures
        lookup(spec_response_members(x), "platformFee"@) == opt_val(match x.platform_fee {
        Some(pf) => Some(spec_enc_platform_fee(pf)),
        None => None,
    }),
        has_key(spec_response_members(x), "platformFee"@) == ((match x.platform_fee {
        Some(pf) => Some(spec_enc_platform_fee(pf)),
        None => None,
    }) is Some),
{
    let k1 = "inputMint"@;
    let k2 = "inAmount"@;
    let k3 = "outputMint"@;
    let k4 = "outAmount"@;
    let k5 = "otherAmountThreshold"@;
    let k6 = "swapMode"@;
    let k7 = "slippageBps"@;
    let k8 = "platformFee"@;
    let k9 = "priceImpactPct"@;
    let k10 = "routePlan"@;
    let k11 = "contextSlot"@;
    let k12 = "timeTaken"@;
    reveal_strlit("inputMint");
    reveal_strlit("inAmount");
    reveal_strlit("outputMint");
    reveal_strlit("outAmount");
    reveal_strlit("otherAmountThreshold");
    reveal_strlit("swapMode");
    reveal_strlit("slippageBps");
    reveal_strlit("platformFee");
    reveal_strlit("priceImpactPct");
    reveal_strlit("routePlan");
    reveal_strlit("contextSlot");
    reveal_strlit("timeTaken");
    assert(k1 != k8) by {
        assert(k1.len() == 9);
        assert(k8.len() == 11);
    }
    assert(k2 != k8) by {
        assert(k2.len() == 8);
        assert(k8.len() == 11);
    }
    assert(k3 != k8) by {
        assert(k3.len() == 10);
        assert(k8.len() == 11);
    }
    assert(k4 != k8) by {
        assert(k4.len() == 9);
        assert(k8.len() == 11);
    }
    assert(k5 != k8) by {
        assert(k5.len() == 20);
        assert(k8.len() == 11);
    }
    assert(k6 != k8) by {
        assert(k6.len() == 8);
        assert(k8.len() == 11);
    }
    assert(k7 != k8) by {
        assert(k7[0] == 's');
        assert(k8[0] == 'p');
    }
    assert(k9 != k8) by {
        assert(k9.len() == 14);
        assert(k8.len() == 11);
    }
    assert(k10 != k8) by {
        assert(k10.len() == 9);
        assert(k8.len() == 11);
    }
    assert(k11 != k8) by {
        assert(k11[0] == 'c');
        assert(k8[0] == 'p');
    }
    assert(k12 != k8) by {
        assert(k12.len() == 9);
        assert(k8.len() == 11);
    }
    let v1 = Some(JVal::Str(x.input_mint.text));
    let v2 = Some(JVal::Str(dec_of(x.in_amount as nat)));
    let v3 = Some(JVal::Str(x.output_mint.text));
    let v4 = Some(JVal::Str(dec_of(x.out_amount as nat)));
    let v5 = Some(JVal::Str(dec_of(x.other_amount_threshold as nat)));
    let v6 = Some(JVal::Str(spec_enc_swap_mode(x.swap_mode)));
    let v7 = Some(JVal::UInt(x.slippage_bps as u64));
    let v8 = match x.platform_fee {
        Some(pf) => Some(spec_enc_platform_fee(pf)),
        None => None,
    };
    let v9 = Some(JVal::Str(spec_decimal_str(x.price_impact_pct)));
    let v10 = Some(JVal::Arr(spec_enc_route_plan(x.route_plan)));
    let v11 = Some(JVal::UInt(x.context_slot));
    let v12 = Some(JVal::Dec(x.time_taken));
    let m1 = opt_member(k1, v1);
    let m2 = opt_member(k2, v2);
    let m3 = opt_member(k3, v3);
    let m4 = opt_member(k4, v4);
    let m5 = opt_member(k5, v5);
    let m6 = opt_member(k6, v6);
    let m7 = opt_member(k7, v7);
    let m8 = opt_member(k8, v8);
    let m9 = opt_member(k9, v9);
    let m10 = opt_member(k10, v10);
    let m11 = opt_member(k11, v11);
    let m12 = opt_member(k12, v12);
    let p2 = m1 + m2;
    let p3 = p2 + m3;
    let p4 = p3 + m4;
    let p5 = p4 + m5;
    let p6 = p5 + m6;
    let p7 = p6 + m7;
    let p8 = p7 + m8;
    let p9 = p8 + m9;
    let p10 = p9 + m10;
    let p11 = p10 + m11;
    let p12 = p11 + m12;
    assert(spec_response_members(x) == p12);
    lemma_opt_member(k1, k8, v1);
    lemma_opt_member(k2, k8, v2);
    lemma_opt_member(k3, k8, v3);
    lemma_opt_member(k4, k8, v4);
    lemma_opt_member(k5, k8, v5);
    lemma_opt_member(k6, k8, v6);
    lemma_opt_member(k7, k8, v7);
    lemma_opt_member(k8, k8, v8);
    lemma_opt_member(k9, k8, v9);
    lemma_opt_member(k10, k8, v10);
    lemma_opt_member(k11, k8, v11);
    lemma_opt_member(k12, k8, v12);
    lemma_lookup_absent(m1, k8);
    lemma_lookup_absent(m2, k8);
    lemma_lookup_absent(m3, k8);
    lemma_lookup_absent(m4, k8);
    lemma_lookup_absent(m5, k8);
    lemma_lookup_absent(m6, k8);
    lemma_lookup_absent(m7, k8);
    lemma_lookup_absent(m9, k8);
    lemma_lookup_absent(m10, k8);
    lemma_lookup_absent(m11, k8);
    lemma_lookup_absent(m12, k8);
    if v8 is None {
        lemma_lookup_absent(m8, k8);
    }
    lemma_lookup_split(m1, m2, k8);
    lemma_lookup_split(p2, m3, k8);
    lemma_lookup_split(p3, m4, k8);
    lemma_lookup_split(p4, m5, k8);
    lemma_lookup_split(p5, m6, k8);
    lemma_lookup_split(p6, m7, k8);
    lemma_lookup_split(p7, m8, k8);
    lemma_lookup_split(p8, m9, k8);
    lemma_lookup_split(p9, m10, k8);
    lemma_lookup_split(p10, m11, k8);
    lemma_lookup_split(p11, m12, k8);
}

/// Where the priceImpactPct member stands in an encoded response.
#[verifier::spinoff_prover]
proof fn lemma_resp_lookup_9(x: QuoteResponseV)
    ensures
        lookup(spec_response_members(x), "priceImpactPct"@) == opt_val(Some(JVal::Str(spec_decimal_str(x.price_impact_pct)))),
        has_key(spec_response_members(x), "priceImpactPct"@) == ((Some(JVal::Str(spec_decimal_str(x.price_impact_pct)))) is Some),
{
    let k1 = "inputMint"@;
    let k2 = "inAmount"@;
    let k3 = "outputMint"@;
    let k4 = "outAmount"@;
    let k5 = "otherAmountThreshold"@;
    let k6 = "swapMode"@;
    let k7 = "slippageBps"@;
    let k8 = "platformFee"@;
    let k9 = "priceImpactPct"@;
    let k10 = "routePlan"@;
    let k11 = "contextSlot"@;
    let k12 = "timeTaken"@;
    reveal_strlit("inputMint");
    reveal_strlit("inAmount");
    reveal_strlit("outputMint");
    reveal_strlit("outAmount");
    reveal_strlit("otherAmountThreshold");
    reveal_strlit("swapMode");
    reveal_strlit("slippageBps");
    reveal_strlit("platformFee");
    reveal_strlit("priceImpactPct");
    reveal_strlit("routePlan");
    reveal_strlit("contextSlot");
    reveal_strlit("timeTaken");
    assert(k1 != k9) by {
        assert(k1.len() == 9);
        assert(k9.len() == 14);
    }
    assert(k2 != k9) by {
        assert(k2.len() == 8);
        assert(k9.len() == 14);
    }
    assert(k3 != k9) by {
        assert(k3.len() == 10);
        assert(k9.len() == 14);
    }
    assert(k4 != k9) by {
        assert(k4.len() == 9);
        assert(k9.len() == 14);
    }
    assert(k5 != k9) by {
        assert(k5.len() == 20);
        assert(k9.len() == 14);
    }
    assert(k6 != k9) by {
        assert(k6.len() == 8);
        assert(k9.len() == 14);
    }
    assert(k7 != k9) by {
        assert(k7.len() == 11);
        assert(k9.len() == 14);
    }
    assert(k8 != k9) by {
        assert(k8.len() == 11);
        assert(k9.len() == 14);
    }
    assert(k10 != k9) by {
        assert(k10.len() == 9);
        assert(k9.len() == 14);
    }
    assert(k11 != k9) by {
        assert(k11.len() == 11);
        assert(k9.len() == 14);
    }
    assert(k12 != k9) by {
        assert(k12.len() == 9);
        assert(k9.len() == 14);
    }
    let v1 = Some(JVal::Str(x.input_mint.text));
    let v2 = Some(JVal::Str(dec_of(x.in_amount as nat)));
    let v3 = Some(JVal::Str(x.output_mint.text));
    let v4 = Some(JVal::Str(dec_of(x.out_amount as nat)));
    let v5 = Some(JVal::Str(dec_of(x.other_amount_threshold as nat)));
    let v6 = Some(JVal::Str(spec_enc_swap_mode(x.swap_mode)));
    let v7 = Some(JVal::UInt(x.slippage_bps as u64));
    let v8 = match x.platform_fee {
        Some(pf) => Some(spec_enc_platform_fee(pf)),
        None => None,
    };
    let v9 = Some(JVal::Str(spec_decimal_str(x.price_impact_pct)));
    let v10 = Some(JVal::Arr(spec_enc_route_plan(x.route_plan)));
    let v11 = Some(JVal::UInt(x.context_slot));
    let v12 = Some(JVal::Dec(x.time_taken));
    let m1 = opt_member(k1, v1);
    let m2 = opt_member(k2, v2);
    let m3 = opt_member(k3, v3);
    let m4 = opt_member(k4, v4);
    let m5 = opt_member(k5, v5);
    let m6 = opt_member(k6, v6);
    let m7 = opt_member(k7, v7);
    let m8 = opt_member(k8, v8);
    let m9 = opt_member(k9, v9);
    let m10 = opt_member(k10, v10);
    let m11 = opt_member(k11, v11);
    let m12 = opt_member(k12, v12);
    let p2 = m1 + m2;
    let p3 = p2 + m3;
    let p4 = p3 + m4;
    let p5 = p4 + m5;
    let p6 = p5 + m6;
    let p7 = p6 + m7;
    let p8 = p7 + m8;
    let p9 = p8 + m9;
    let p10 = p9 + m10;
    let p11 = p10 + m11;
    let p12 = p11 + m12;
    assert(spec_response_members(x) == p12);
    lemma_opt_member(k1, k9, v1);
    lemma_opt_member(k2, k9, v2);
    lemma_opt_member(k3, k9, v3);
    lemma_opt_member(k4, k9, v4);
    lemma_opt_member(k5, k9, v5);
    lemma_opt_member(k6, k9, v6);
    lemma_opt_member(k7, k9, v7);
    lemma_opt_member(k8, k9, v8);
    lemma_opt_member(k9, k9, v9);
    lemma_opt_member(k10, k9, v10);
    lemma_opt_member(k11, k9, v11);
    lemma_opt_member(k12, k9, v12);
    lemma_lookup_absent(m1, k9);
    lemma_lookup_absent(m2, k9);
    lemma_lookup_absent(m3, k9);
    lemma_lookup_absent(m4, k9);
    lemma_lookup_absent(m5, k9);
    lemma_lookup_absent(m6, k9);
    lemma_lookup_absent(m7, k9);
    lemma_lookup_absent(m8, k9);
    lemma_lookup_absent(m10, k9);
    lemma_lookup_absent(m11, k9);
    lemma_lookup_absent(m12, k9);
    lemma_lookup_split(m1, m2, k9);
    lemma_lookup_split(p2, m3, k9);
    lemma_lookup_split(p3, m4, k9);
    lemma_lookup_split(p4, m5, k9);
    lemma_lookup_split(p5, m6, k9);
    lemma_lookup_split(p6, m7, k9);
    lemma_lookup_split(p7, m8, k9);
    lemma_lookup_split(p8, m9, k9);
    lemma_lookup_split(p9, m10, k9);
    lemma_lookup_split(p10, m11, k9);
    lemma_lookup_split(p11, m12, k9);
}

/// Where the routePlan member stands in an encoded response.
#[verifier::spinoff_prover]
proof fn lemma_resp_lookup_10(x: QuoteResponseV)
    ensures
        lookup(spec_response_members(x), "routePlan"@) == opt_val(Some(JVal::Arr(spec_enc_route_plan(x.route_plan)))),
        has_key(spec_response_members(x), "routePlan"@) == ((Some(JVal::Arr(spec_enc_route_plan(x.route_plan)))) is Some),
{
    let k1 = "inputMint"@;
    let k2 = "inAmount"@;
    let k3 = "outputMint"@;
    let k4 = "outAmount"@;
    let k5 = "otherAmountThreshold"@;
    let k6 = "swapMode"@;
    let k7 = "slippageBps"@;
    let k8 = "platformFee"@;
    let k9 = "priceImpactPct"@;
    let k10 = "routePlan"@;
    let k11 = "contextSlot"@;
    let k12 = "timeTaken"@;
    reveal_strlit("inputMint");
    reveal_strlit("inAmount");
    reveal_strlit("outputMint");
    reveal_strlit("outAmount");
    reveal_strlit("otherAmountThreshold");
    reveal_strlit("swapMode");
    reveal_strlit("slippageBps");
    reveal_strlit("platformFee");
    reveal_strlit("priceImpactPct");
    reveal_strlit("routePlan");
    reveal_strlit("contextSlot");
    reveal_strlit("timeTaken");
    assert(k1 != k10) by {
        assert(k1[0] == 'i');
        assert(k10[0] == 'r');
    }
    assert(k2 != k10) by {
        assert(k2.len() == 8);
        assert(k10.len() == 9);
    }
    assert(k3 != k10) by {
        assert(k3.len() == 10);
        assert(k10.len() == 9);
    }
    assert(k4 != k10) by {
        assert(k4[0] == 'o');
        assert(k10[0] == 'r');
    }
    assert(k5 != k10) by {
        assert(k5.len() == 20);
        assert(k10.len() == 9);
    }
    assert(k6 != k10) by {
        assert(k6.len() == 8);
        assert(k10.len() == 9);
    }
    assert(k7 != k10) by {
        assert(k7.len() == 11);
        assert(k10.len() == 9);
    }
    assert(k8 != k10) by {
        assert(k8.len() == 11);
        assert(k10.len() == 9);
    }
    assert(k9 != k10) by {
        assert(k9.len() == 14);
        assert(k10.len() == 9);
    }
    assert(k11 != k10) by {
        assert(k11.len() == 11);
        assert(k10.len() == 9);
    }
    assert(k12 != k10) by {
        assert(k12[0] == 't');
        assert(k10[0] == 'r');
    }
    let v1 = Some(JVal::Str(x.input_mint.text));
    let v2 = Some(JVal::Str(dec_of(x.in_amount as nat)));
    let v3 = Some(JVal::Str(x.output_mint.text));
    let v4 = Some(JVal::Str(dec_of(x.out_amount as nat)));
    let v5 = Some(JVal::Str(dec_of(x.other_amount_threshold as nat)));
    let v6 = Some(JVal::Str(spec_enc_swap_mode(x.swap_mode)));
    let v7 = Some(JVal::UInt(x.slippage_bps as u64));
    let v8 = match x.platform_fee {
        Some(pf) => Some(spec_enc_platform_fee(pf)),
        None => None,
    };
    let v9 = Some(JVal::Str(spec_decimal_str(x.price_impact_pct)));
    let v10 = Some(JVal::Arr(spec_enc_route_plan(x.route_plan)));
    let v11 = Some(JVal::UInt(x.context_slot));
    let v12 = Some(JVal::Dec(x.time_taken));
    let m1 = opt_member(k1, v1);
    let m2 = opt_member(k2, v2);
    let m3 = opt_member(k3, v3);
    let m4 = opt_member(k4, v4);
    let m5 = opt_member(k5, v5);
    let m6 = opt_member(k6, v6);
    let m7 = opt_member(k7, v7);
    let m8 = opt_member(k8, v8);
    let m9 = opt_member(k9, v9);
    let m10 = opt_member(k10, v10);
    let m11 = opt_member(k11, v11);
    let m12 = opt_member(k12, v12);
    let p2 = m1 + m2;
    let p3 = p2 + m3;
    let p4 = p3 + m4;
    let p5 = p4 + m5;
    let p6 = p5 + m6;
    let p7 = p6 + m7;
    let p8 = p7 + m8;
    let p9 = p8 + m9;
    let p10 = p9 + m10;
    let p11 = p10 + m11;
    let p12 = p11 + m12;
    assert(spec_response_members(x) == p12);
    lemma_opt_member(k1, k10, v1);
    lemma_opt_member(k2, k10, v2);
    lemma_opt_member(k3, k10, v3);
    lemma_opt_member(k4, k10, v4);
    lemma_opt_member(k5, k10, v5);
    lemma_opt_member(k6, k10, v6);
    lemma_opt_member(k7, k10, v7);
    lemma_opt_member(k8, k10, v8);
    lemma_opt_member(k9, k10, v9);
    lemma_opt_member(k10, k10, v10);
    lemma_opt_member(k11, k10, v11);
    lemma_opt_member(k12, k10, v12);
    lemma_lookup_absent(m1, k10);
    lemma_lookup_absent(m2, k10);
    lemma_lookup_absent(m3, k10);
    lemma_lookup_absent(m4, k10);
    lemma_lookup_absent(m5, k10);
    lemma_lookup_absent(m6, k10);
    lemma_lookup_absent(m7, k10);
    lemma_lookup_absent(m8, k10);
    lemma_lookup_absent(m9, k10);
    lemma_lookup_absent(m11, k10);
    lemma_lookup_absent(m12, k10);
    lemma_lookup_split(m1, m2, k10);
    lemma_lookup_split(p2, m3, k10);
    lemma_lookup_split(p3, m4, k10);
    lemma_lookup_split(p4, m5, k10);
    lemma_lookup_split(p5, m6, k10);
    lemma_lookup_split(p6, m7, k10);
    lemma_lookup_split(p7, m8, k10);
    lemma_lookup_split(p8, m9, k10);
    lemma_lookup_split(p9, m10, k10);
    lemma_lookup_split(p10, m11, k10);
    lemma_lookup_split(p11, m12, k10);
}

/// Where the contextSlot member stands in an encoded response.
#[verifier::spinoff_prover]
proof fn lemma_resp_lookup_11(x: QuoteResponseV)
    ensures
        lookup(spec_response_members(x), "contextSlot"@) == opt_val(Some(JVal::UInt(x.context_slot))),
        has_key(spec_response_members(x), "contextSlot"@) == ((Some(JVal::UInt(x.context_slot))) is Some),
{
    let k1 = "inputMint"@;
    let k2 = "inAmount"@;
    let k3 = "outputMint"@;
    let k4 = "outAmount"@;
    let k5 = "otherAmountThreshold"@;
    let k6 = "swapMode"@;
    let k7 = "slippageBps"@;
    let k8 = "platformFee"@;
    let k9 = "priceImpactPct"@;
    let k10 = "routePlan"@;
    let k11 = "contextSlot"@;
    let k12 = "timeTaken"@;
    reveal_strlit("inputMint");
    reveal_strlit("inAmount");
    reveal_strlit("outputMint");
    reveal_strlit("outAmount");
    reveal_strlit("otherAmountThreshold");
    reveal_strlit("swapMode");
    reveal_strlit("slippageBps");
    reveal_strlit("platformFee");
    reveal_strlit("priceImpactPct");
    reveal_strlit("routePlan");
    reveal_strlit("contextSlot");
    reveal_strlit("timeTaken");
    assert(k1 != k11) by {
        assert(k1.len() == 9);
        assert(k11.len() == 11);
    }
    assert(k2 != k11) by {
        assert(k2.len() == 8);
        assert(k11.len() == 11);
    }
    assert(k3 != k11) by {
        assert(k3.len() == 10);
        assert(k11.len() == 11);
    }
    assert(k4 != k11) by {
        assert(k4.len() == 9);
        assert(k11.len() == 11);
    }
    assert(k5 != k11) by {
        assert(k5.len() == 20);
        assert(k11.len() == 11);
    }
    assert(k6 != k11) by {
        assert(k6.len() == 8);
        assert(k11.len() == 11);
    }
    assert(k7 != k11) by {
        assert(k7[0] == 's');
        assert(k11[0] == 'c');
    }
    assert(k8 != k11) by {
        assert(k8[0] == 'p');
        assert(k11[0] == 'c');
    }
    assert(k9 != k11) by {
        assert(k9.len() == 14);
        assert(k11.len() == 11);
    }
    assert(k10 != k11) by {
        assert(k10.len() == 9);
        assert(k11.len() == 11);
    }
    assert(k12 != k11) by {
        assert(k12.len() == 9);
        assert(k11.len() == 11);
    }
    let v1 = Some(JVal::Str(x.input_mint.text));
    let v2 = Some(JVal::Str(dec_of(x.in_amount as nat)));
    let v3 = Some(JVal::Str(x.output_mint.text));
    let v4 = Some(JVal::Str(dec_of(x.out_amount as nat)));
    let v5 = Some(JVal::Str(dec_of(x.other_amount_threshold as nat)));
    let v6 = Some(JVal::Str(spec_enc_swap_mode(x.swap_mode)));
    let v7 = Some(JVal::UInt(x.slippage_bps as u64));
    let v8 = match x.platform_fee {
        Some(pf) => Some(spec_enc_platform_fee(pf)),
        None => None,
    };
    let v9 = Some(JVal::Str(spec_decimal_str(x.price_impact_pct)));
    let v10 = Some(JVal::Arr(spec_enc_route_plan(x.route_plan)));
    let v11 = Some(JVal::UInt(x.context_slot));
    let v12 = Some(JVal::Dec(x.time_taken));
    let m1 = opt_member(k1, v1);
    let m2 = opt_member(k2, v2);
    let m3 = opt_member(k3, v3);
    let m4 = opt_member(k4, v4);
    let m5 = opt_member(k5, v5);
    let m6 = opt_member(k6, v6);
    let m7 = opt_member(k7, v7);
    let m8 = opt_member(k8, v8);
    let m9 = opt_member(k9, v9);
    let m10 = opt_member(k10, v10);
    let m11 = opt_member(k11, v11);
    let m12 = opt_member(k12, v12);
    let p2 = m1 + m2;
    let p3 = p2 + m3;
    let p4 = p3 + m4;
    let p5 = p4 + m5;
    let p6 = p5 + m6;
    let p7 = p6 + m7;
    let p8 = p7 + m8;
    let p9 = p8 + m9;
    let p10 = p9 + m10;
    let p11 = p10 + m11;
    let p12 = p11 + m12;
    assert(spec_response_members(x) == p12);
    lemma_opt_member(k1, k11, v1);
    lemma_opt_member(k2, k11, v2);
    lemma_opt_member(k3, k11, v3);
    lemma_opt_member(k4, k11, v4);
    lemma_opt_member(k5, k11, v5);
    lemma_opt_member(k6, k11, v6);
    lemma_opt_member(k7, k11, v7);
    lemma_opt_member(k8, k11, v8);
    lemma_opt_member(k9, k11, v9);
    lemma_opt_member(k10, k11, v10);
    lemma_opt_member(k11, k11, v11);
    lemma_opt_member(k12, k11, v12);
    lemma_lookup_absent(m1, k11);
    lemma_lookup_absent(m2, k11);
    lemma_lookup_absent(m3, k11);
    lemma_lookup_absent(m4, k11);
    lemma_lookup_absent(m5, k11);
    lemma_lookup_absent(m6, k11);
    lemma_lookup_absent(m7, k11);
    lemma_lookup_absent(m8, k11);
    lemma_lookup_absent(m9, k11);
    lemma_lookup_absent(m10, k11);
    lemma_lookup_absent(m12, k11);
    lemma_lookup_split(m1, m2, k11);
    lemma_lookup_split(p2, m3, k11);
    lemma_lookup_split(p3, m4, k11);
    lemma_lookup_split(p4, m5, k11);
    lemma_lookup_split(p5, m6, k11);
    lemma_lookup_split(p6, m7, k11);
    lemma_lookup_split(p7, m8, k11);
    lemma_lookup_split(p8, m9, k11);
    lemma_lookup_split(p9, m10, k11);
    lemma_lookup_split(p10, m11, k11);
    lemma_lookup_split(p11, m12, k11);
}

/// Where the timeTaken member stands in an encoded response.
#[verifier::spinoff_prover]
proof fn lemma_resp_lookup_12(x: QuoteResponseV)
    ensures
        lookup(spec_response_members(x), "timeTaken"@) == opt_val(Some(JVal::Dec(x.time_taken))),
        has_key(spec_response_members(x), "timeTaken"@) == ((Some(JVal::Dec(x.time_taken))) is Some),
{
    let k1 = "inputMint"@;
    let k2 = "inAmount"@;
    let k3 = "outputMint"@;
    let k4 = "outAmount"@;
    let k5 = "otherAmountThreshold"@;
    let k6 = "swapMode"@;
    let k7 = "slippageBps"@;
    let k8 = "platformFee"@;
    let k9 = "priceImpactPct"@;
    let k10 = "routePlan"@;
    let k11 = "contextSlot"@;
    let k12 = "timeTaken"@;
    reveal_strlit("inputMint");
    reveal_strlit("inAmount");
    reveal_strlit("outputMint");
    reveal_strlit("outAmount");
    reveal_strlit("otherAmountThreshold");
    reveal_strlit("swapMode");
    reveal_strlit("slippageBps");
    reveal_strlit("platformFee");
    reveal_strlit("priceImpactPct");
    reveal_strlit("routePlan");
    reveal_strlit("contextSlot");
    reveal_strlit("timeTaken");
    assert(k1 != k12) by {
        assert(k1[0] == 'i');
        assert(k12[0] == 't');
    }
    assert(k2 != k12) by {
        assert(k2.len() == 8);
        assert(k12.len() == 9);
    }
    assert(k3 != k12) by {
        assert(k3.len() == 10);
        assert(k12.len() == 9);
    }
    assert(k4 != k12) by {
        assert(k4[0] == 'o');
        assert(k12[0] == 't');
    }
    assert(k5 != k12) by {
        assert(k5.len() == 20);
        assert(k12.len() == 9);
    }
    assert(k6 != k12) by {
        assert(k6.len() == 8);
        assert(k12.len() == 9);
    }
    assert(k7 != k12) by {
        assert(k7.len() == 11);
        assert(k12.len() == 9);
    }
    assert(k8 != k12) by {
        assert(k8.len() == 11);
        assert(k12.len() == 9);
    }
    assert(k9 != k12) by {
        assert(k9.len() == 14);
        assert(k12.len() == 9);
    }
    assert(k10 != k12) by {
        assert(k10[0] == 'r');
        assert(k12[0] == 't');
    }
    assert(k11 != k12) by {
        assert(k11.len() == 11);
        assert(k12.len() == 9);
    }
    let v1 = Some(JVal::Str(x.input_mint.text));
    let v2 = Some(JVal::Str(dec_of(x.in_amount as nat)));
    let v3 = Some(JVal::Str(x.output_mint.text));
    let v4 = Some(JVal::Str(dec_of(x.out_amount as nat)));
    let v5 = Some(JVal::Str(dec_of(x.other_amount_threshold as nat)));
    let v6 = Some(JVal::Str(spec_enc_swap_mode(x.swap_mode)));
    let v7 = Some(JVal::UInt(x.slippage_bps as u64));
    let v8 = match x.platform_fee {
        Some(pf) => Some(spec_enc_platform_fee(pf)),
        None => None,
    };
    let v9 = Some(JVal::Str(spec_decimal_str(x.price_impact_pct)));
    let v10 = Some(JVal::Arr(spec_enc_route_plan(x.route_plan)));
    let v11 = Some(JVal::UInt(x.context_slot));
    let v12 = Some(JVal::Dec(x.time_taken));
    let m1 = opt_member(k1, v1);
    let m2 = opt_member(k2, v2);
    let m3 = opt_member(k3, v3);
    let m4 = opt_member(k4, v4);
    let m5 = opt_member(k5, v5);
    let m6 = opt_member(k6, v6);
    let m7 = opt_member(k7, v7);
    let m8 = opt_member(k8, v8);
    let m9 = opt_member(k9, v9);
    let m10 = opt_member(k10, v10);
    let m11 = opt_member(k11, v11);
    let m12 = opt_member(k12, v12);
    let p2 = m1 + m2;
    let p3 = p2 + m3;
    let p4 = p3 + m4;
    let p5 = p4 + m5;
    let p6 = p5 + m6;
    let p7 = p6 + m7;
    let p8 = p7 + m8;
    let p9 = p8 + m9;
    let p10 = p9 + m10;
    let p11 = p10 + m11;
    let p12 = p11 + m12;
    assert(spec_response_members(x) == p12);
    lemma_opt_member(k1, k12, v1);
    lemma_opt_member(k2, k12, v2);
    lemma_opt_member(k3, k12, v3);
    lemma_opt_member(k4, k12, v4);
    lemma_opt_member(k5, k12, v5);
    lemma_opt_member(k6, k12, v6);
    lemma_opt_member(k7, k12, v7);
    lemma_opt_member(k8, k12, v8);
    lemma_opt_member(k9, k12, v9);
    lemma_opt_member(k10, k12, v10);
    lemma_opt_member(k11, k12, v11);
    lemma_opt_member(k12, k12, v12);
    lemma_lookup_absent(m1, k12);
    lemma_lookup_absent(m2, k12);
    lemma_lookup_absent(m3, k12);
    lemma_lookup_absent(m4, k12);
    lemma_lookup_absent(m5, k12);
    lemma_lookup_absent(m6, k12);
    lemma_lookup_absent(m7, k12);
    lemma_lookup_absent(m8, k12);
    lemma_lookup_absent(m9, k12);
    lemma_lookup_absent(m10, k12);
    lemma_lookup_absent(m11, k12);
    lemma_lookup_split(m1, m2, k12);
    lemma_lookup_split(p2, m3, k12);
    lemma_lookup_split(p3, m4, k12);
    lemma_lookup_split(p4, m5, k12);
    lemma_lookup_split(p5, m6, k12);
    lemma_lookup_split(p6, m7, k12);
    lemma_lookup_split(p7, m8, k12);
    lemma_lookup_split(p8, m9, k12);
    lemma_lookup_split(p9, m10, k12);
    lemma_lookup_split(p10, m11, k12);
    lemma_lookup_split(p11, m12, k12);
}

/// Omission: a response with no platform fee carries no member under that
/// key in its encoding at all.
pub proof fn lemma_response_omission(x: QuoteResponseV)
    ensures
        x.platform_fee is None ==> !has_key(spec_response_members(x), "platformFee"@),
{
    lemma_resp_lookup_8(x);
}

} // verus!
