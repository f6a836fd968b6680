//! One hop of a swap route and the ordered plan built from them, with their
//! wire codecs. Amounts cross the wire as decimal strings, identifiers as
//! base58 strings; the per-hop fee fields are optional and absent fields are
//! omitted from the encoding altogether.

use crate::digits::dec_of;
use crate::digits::lemma_dec_of_val;
use crate::digits::u64_to_dec;
use crate::errors::DecodeError;
use crate::errors::ErrView;
use crate::fields::field_opt_pubkey;
use crate::fields::field_opt_u64_str;
use crate::fields::field_opt_uint;
use crate::fields::field_pubkey;
use crate::fields::field_str;
use crate::fields::field_uint;
use crate::fields::has_key;
use crate::fields::lemma_lookup_absent;
use crate::fields::lemma_lookup_split;
use crate::fields::lemma_opt_member;
use crate::fields::opt_member;
use crate::fields::spec_field_opt_pubkey;
use crate::fields::spec_field_opt_u64_str;
use crate::fields::spec_field_opt_uint;
use crate::fields::spec_field_pubkey;
use crate::fields::spec_field_str;
use crate::fields::spec_field_uint;
use crate::json::JVal;
use crate::json::JsonMember;
use crate::json::JsonValue;
use crate::json::elems_view;
use crate::json::lemma_view_unfold;
use crate::json::lookup;
use crate::json::members_view;
use crate::json::obj_get;
use crate::pubkey::Pubkey;
use crate::pubkey::PubkeyV;
use vstd::prelude::*;

verus! {

broadcast use vstd::string::group_string_axioms;

/// Metadata for one underlying exchange hop.
#[derive(Clone, PartialEq, Eq, Debug)]
pub struct SwapInfo {
    /// The pool or market the hop trades on.
    pub amm_key: Pubkey,
    /// The human-readable venue label.
    pub label: String,
    /// The asset going into the hop.
    pub input_mint: Pubkey,
    /// The asset coming out of the hop.
    pub output_mint: Pubkey,
    /// An estimation of the amount going into the hop.
    pub in_amount: u64,
    /// An estimation of the amount coming out of the hop.
    pub out_amount: u64,
    /// The fee amount, absent in reduced-feature responses.
    pub fee_amount: Option<u64>,
    /// The asset the fee is taken in, absent in reduced-feature responses.
    pub fee_mint: Option<Pubkey>,
}

/// The mathematical face of one hop's metadata.
pub struct SwapInfoV {
    pub amm_key: PubkeyV,
    pub label: Seq<char>,
    pub input_mint: PubkeyV,
    pub output_mint: PubkeyV,
    pub in_amount: u64,
    pub out_amount: u64,
    pub fee_amount: Option<u64>,
    pub fee_mint: Option<PubkeyV>,
}

impl SwapInfoV {
    /// Every identifier carries its canonical text.
    pub open spec fn wf(&self) -> bool {
        &&& self.amm_key.wf()
        &&& self.input_mint.wf()
        &&& self.output_mint.wf()
        &&& match self.fee_mint {
            Some(k) => k.wf(),
            None => true,
        }
    }
}

impl View for SwapInfo {
    type V = SwapInfoV;

    open spec fn view(&self) -> SwapInfoV {
        SwapInfoV {
            amm_key: self.amm_key@,
            label: self.label@,
            input_mint: self.input_mint@,
            output_mint: self.output_mint@,
            in_amount: self.in_amount,
            out_amount: self.out_amount,
            fee_amount: self.fee_amount,
            fee_mint: match self.fee_mint {
                Some(k) => Some(k@),
                None => None,
            },
        }
    }
}

/// The wire members of one hop's metadata, in encoding order.
pub open spec fn spec_swap_info_members(x: SwapInfoV) -> Seq<(Seq<char>, JVal)> {
    opt_member("ammKey"@, Some(JVal::Str(x.amm_key.text))) + opt_member(
        "label"@,
        Some(JVal::Str(x.label)),
    ) + opt_member("inputMint"@, Some(JVal::Str(x.input_mint.text))) + opt_member(
        "outputMint"@,
        Some(JVal::Str(x.output_mint.text)),
    ) + opt_member("inAmount"@, Some(JVal::Str(dec_of(x.in_amount as nat)))) + opt_member(
        "outAmount"@,
        Some(JVal::Str(dec_of(x.out_amount as nat))),
    ) + opt_member(
        "feeAmount"@,
        match x.fee_amount {
            Some(v) => Some(JVal::Str(dec_of(v as nat))),
            None => None,
        },
    ) + opt_member(
        "feeMint"@,
        match x.fee_mint {
            Some(k) => Some(JVal::Str(k.text)),
            None => None,
        },
    )
}

/// The wire value of one hop's metadata.
pub open spec fn spec_enc_swap_info(x: SwapInfoV) -> JVal {
    JVal::Obj(spec_swap_info_members(x))
}

/// What a wire value means as one hop's metadata.
pub open spec fn spec_dec_swap_info(v: JVal) -> Result<SwapInfoV, ErrView> {
    match v {
        JVal::Obj(ps) => match spec_field_pubkey(ps, "ammKey"@) {
            Err(e) => Err(e),
            Ok(amm_key) => match spec_field_str(ps, "label"@) {
                Err(e) => Err(e),
                Ok(label) => match spec_field_pubkey(ps, "inputMint"@) {
                    Err(e) => Err(e),
                    Ok(input_mint) => match spec_field_pubkey(ps, "outputMint"@) {
                        Err(e) => Err(e),
                        Ok(output_mint) => match spec_field_u64_str_pair(ps) {
                            Err(e) => Err(e),
                            Ok((in_amount, out_amount)) => match spec_field_opt_u64_str(
                                ps,
                                "feeAmount"@,
                            ) {
                                Err(e) => Err(e),
                                Ok(fee_amount) => match spec_field_opt_pubkey(ps, "feeMint"@) {
                                    Err(e) => Err(e),
                                    Ok(fee_mint) => Ok(
                                        SwapInfoV {
                                            amm_key,
                                            label,
                                            input_mint,
                                            output_mint,
                                            in_amount,
                                            out_amount,
                                            fee_amount,
                                            fee_mint,
                                        },
                                    ),
                                },
                            },
                        },
                    },
                },
            },
        },
        _ => Err(ErrView::WrongType { field: "swapInfo"@ }),
    }
}

/// The two amount fields of a hop, read together.
pub open spec fn spec_field_u64_str_pair(ps: Seq<(Seq<char>, JVal)>) -> Result<
    (u64, u64),
    ErrView,
> {
    match crate::fields::spec_field_u64_str(ps, "inAmount"@) {
        Err(e) => Err(e),
        Ok(in_amount) => match crate::fields::spec_field_u64_str(ps, "outAmount"@) {
            Err(e) => Err(e),
            Ok(out_amount) => Ok((in_amount, out_amount)),
        },
    }
}

impl SwapInfo {
    /// Encodes the hop metadata for the wire; absent fee fields put no member
    /// in the object.
    pub fn to_json(&self) -> (r: JsonValue)
        ensures
            r@ == spec_enc_swap_info(self@),
    {
        let mut ms: Vec<JsonMember> = Vec::new();
        ms.push(JsonMember { key: "ammKey".to_owned(), value: JsonValue::Str(self.amm_key.to_base58()) });
        ms.push(JsonMember { key: "label".to_owned(), value: JsonValue::Str(self.label.clone()) });
        ms.push(
            JsonMember {
                key: "inputMint".to_owned(),
                value: JsonValue::Str(self.input_mint.to_base58()),
            },
        );
        ms.push(
            JsonMember {
                key: "outputMint".to_owned(),
                value: JsonValue::Str(self.output_mint.to_base58()),
            },
        );
        ms.push(
            JsonMember { key: "inAmount".to_owned(), value: JsonValue::Str(u64_to_dec(self.in_amount)) },
        );
        ms.push(
            JsonMember {
                key: "outAmount".to_owned(),
                value: JsonValue::Str(u64_to_dec(self.out_amount)),
            },
        );
        if let Some(v) = self.fee_amount {
            ms.push(JsonMember { key: "feeAmount".to_owned(), value: JsonValue::Str(u64_to_dec(v)) });
        }
        match &self.fee_mint {
            Some(k) => {
                ms.push(JsonMember { key: "feeMint".to_owned(), value: JsonValue::Str(k.to_base58()) });
            },
            None => {},
        }
        let ghost msv = ms@;
        let r = JsonValue::Obj(ms);
        proof {
            lemma_view_unfold(&r);
            assert(members_view(msv) =~= spec_swap_info_members(self@));
        }
        r
    }

    /// Decodes hop metadata from a wire value, failing on the first field
    /// that is absent or malformed.
    pub fn from_json(v: &JsonValue) -> (r: Result<SwapInfo, DecodeError>)
        ensures
            match r {
                Ok(x) => spec_dec_swap_info(v@) == Ok::<_, ErrView>(x@) && x@.wf(),
                Err(e) => spec_dec_swap_info(v@) == Err::<SwapInfoV, ErrView>(e@),
            },
    {
        match v {
            JsonValue::Obj(ms) => {
                proof {
                    lemma_view_unfold(v);
                }
                let amm_key = match field_pubkey(ms, "ammKey") {
                    Ok(x) => x,
                    Err(e) => {
                        return Err(e);
                    },
                };
                let label = match field_str(ms, "label") {
                    Ok(x) => x,
                    Err(e) => {
                        return Err(e);
                    },
                };
                let input_mint = match field_pubkey(ms, "inputMint") {
                    Ok(x) => x,
                    Err(e) => {
                        return Err(e);
                    },
                };
                let output_mint = match field_pubkey(ms, "outputMint") {
                    Ok(x) => x,
                    Err(e) => {
                        return Err(e);
                    },
                };
                let in_amount = match crate::fields::field_u64_str(ms, "inAmount") {
                    Ok(x) => x,
                    Err(e) => {
                        return Err(e);
                    },
                };
                let out_amount = match crate::fields::field_u64_str(ms, "outAmount") {
                    Ok(x) => x,
                    Err(e) => {
                        return Err(e);
                    },
                };
                let fee_amount = match field_opt_u64_str(ms, "feeAmount") {
                    Ok(x) => x,
                    Err(e) => {
                        return Err(e);
                    },
                };
                let fee_mint = match field_opt_pubkey(ms, "feeMint") {
                    Ok(x) => x,
                    Err(e) => {
                        return Err(e);
                    },
                };
                Ok(
                    SwapInfo {
                        amm_key,
                        label,
                        input_mint,
                        output_mint,
                        in_amount,
                        out_amount,
                        fee_amount,
                        fee_mint,
                    },
                )
            },
            _ => Err(DecodeError::WrongType { field: "swapInfo".to_owned() }),
        }
    }
}

/// Encoding hop metadata and decoding the wire value gives back the same
/// record, optional fields in either state included.
#[verifier::rlimit(100)]
pub proof fn lemma_swap_info_round_trip(x: SwapInfoV)
    requires
        x.wf(),
    ensures
        spec_dec_swap_info(spec_enc_swap_info(x)) == Ok::<_, ErrView>(x),
{
    let k1 = "ammKey"@;
    let k2 = "label"@;
    let k3 = "inputMint"@;
    let k4 = "outputMint"@;
    let k5 = "inAmount"@;
    let k6 = "outAmount"@;
    let k7 = "feeAmount"@;
    let k8 = "feeMint"@;
    reveal_strlit("ammKey");
    reveal_strlit("label");
    reveal_strlit("inputMint");
    reveal_strlit("outputMint");
    reveal_strlit("inAmount");
    reveal_strlit("outAmount");
    reveal_strlit("feeAmount");
    reveal_strlit("feeMint");
    let v1 = Some(JVal::Str(x.amm_key.text));
    let v2 = Some(JVal::Str(x.label));
    let v3 = Some(JVal::Str(x.input_mint.text));
    let v4 = Some(JVal::Str(x.output_mint.text));
    let v5 = Some(JVal::Str(dec_of(x.in_amount as nat)));
    let v6 = Some(JVal::Str(dec_of(x.out_amount as nat)));
    let v7 = match x.fee_amount {
        Some(v) => Some(JVal::Str(dec_of(v as nat))),
        None => None,
    };
    let v8 = match x.fee_mint {
        Some(k) => Some(JVal::Str(k.text)),
        None => None,
    };
    let m1 = opt_member(k1, v1);
    let m2 = opt_member(k2, v2);
    let m3 = opt_member(k3, v3);
    let m4 = opt_member(k4, v4);
    let m5 = opt_member(k5, v5);
    let m6 = opt_member(k6, v6);
    let m7 = opt_member(k7, v7);
    let m8 = opt_member(k8, v8);
    let p2 = m1 + m2;
    let p3 = p2 + m3;
    let p4 = p3 + m4;
    let p5 = p4 + m5;
    let p6 = p5 + m6;
    let p7 = p6 + m7;
    let p8 = p7 + m8;
    assert(spec_swap_info_members(x) == p8);
    assert(k1 != k2) by {
        assert(k1.len() == 6);
        assert(k2.len() == 5);
    }
    assert(k1 != k3) by {
        assert(k1.len() == 6);
        assert(k3.len() == 9);
    }
    assert(k1 != k4) by {
        assert(k1.len() == 6);
        assert(k4.len() == 10);
    }
    assert(k1 != k5) by {
        assert(k1.len() == 6);
        assert(k5.len() == 8);
    }
    assert(k1 != k6) by {
        assert(k1.len() == 6);
        assert(k6.len() == 9);
    }
    assert(k1 != k7) by {
        assert(k1.len() == 6);
        assert(k7.len() == 9);
    }
    assert(k1 != k8) by {
        assert(k1.len() == 6);
        assert(k8.len() == 7);
    }
    assert(k2 != k3) by {
        assert(k2.len() == 5);
        assert(k3.len() == 9);
    }
    assert(k2 != k4) by {
        assert(k2.len() == 5);
        assert(k4.len() == 10);
    }
    assert(k2 != k5) by {
        assert(k2.len() == 5);
        assert(k5.len() == 8);
    }
    assert(k2 != k6) by {
        assert(k2.len() == 5);
        assert(k6.len() == 9);
    }
    assert(k2 != k7) by {
        assert(k2.len() == 5);
        assert(k7.len() == 9);
    }
    assert(k2 != k8) by {
        assert(k2.len() == 5);
        assert(k8.len() == 7);
    }
    assert(k3 != k4) by {
        assert(k3.len() == 9);
        assert(k4.len() == 10);
    }
    assert(k3 != k5) by {
        assert(k3.len() == 9);
        assert(k5.len() == 8);
    }
    assert(k3 != k6) by {
        assert(k3[0] == 'i');
        assert(k6[0] == 'o');
    }
    assert(k3 != k7) by {
        assert(k3[0] == 'i');
        assert(k7[0] == 'f');
    }
    assert(k3 != k8) by {
        assert(k3.len() == 9);
        assert(k8.len() == 7);
    }
    assert(k4 != k5) by {
        assert(k4.len() == 10);
        assert(k5.len() == 8);
    }
    assert(k4 != k6) by {
        assert(k4.len() == 10);
        assert(k6.len() == 9);
    }
    assert(k4 != k7) by {
        assert(k4.len() == 10);
        assert(k7.len() == 9);
    }
    assert(k4 != k8) by {
        assert(k4.len() == 10);
        assert(k8.len() == 7);
    }
    assert(k5 != k6) by {
        assert(k5.len() == 8);
        assert(k6.len() == 9);
    }
    assert(k5 != k7) by {
        assert(k5.len() == 8);
        assert(k7.len() == 9);
    }
    assert(k5 != k8) by {
        assert(k5.len() == 8);
        assert(k8.len() == 7);
    }
    assert(k6 != k7) by {
        assert(k6[0] == 'o');
        assert(k7[0] == 'f');
    }
    assert(k6 != k8) by {
        assert(k6.len() == 9);
        assert(k8.len() == 7);
    }
    assert(k7 != k8) by {
        assert(k7.len() == 9);
        assert(k8.len() == 7);
    }
    lemma_opt_member(k1, k1, v1);
    lemma_opt_member(k2, k1, v2);
    lemma_opt_member(k3, k1, v3);
    lemma_opt_member(k4, k1, v4);
    lemma_opt_member(k5, k1, v5);
    lemma_opt_member(k6, k1, v6);
    lemma_opt_member(k7, k1, v7);
    lemma_opt_member(k8, k1, v8);
    lemma_lookup_absent(m2, k1);
    lemma_lookup_absent(m3, k1);
    lemma_lookup_absent(m4, k1);
    lemma_lookup_absent(m5, k1);
    lemma_lookup_absent(m6, k1);
    lemma_lookup_absent(m7, k1);
    lemma_lookup_absent(m8, k1);
    lemma_lookup_split(m1, m2, k1);
    lemma_lookup_split(p2, m3, k1);
    lemma_lookup_split(p3, m4, k1);
    lemma_lookup_split(p4, m5, k1);
    lemma_lookup_split(p5, m6, k1);
    lemma_lookup_split(p6, m7, k1);
    lemma_lookup_split(p7, m8, k1);
    lemma_opt_member(k1, k2, v1);
    lemma_opt_member(k2, k2, v2);
    lemma_opt_member(k3, k2, v3);
    lemma_opt_member(k4, k2, v4);
    lemma_opt_member(k5, k2, v5);
    lemma_opt_member(k6, k2, v6);
    lemma_opt_member(k7, k2, v7);
    lemma_opt_member(k8, k2, v8);
    lemma_lookup_absent(m1, k2);
    lemma_lookup_absent(m3, k2);
    lemma_lookup_absent(m4, k2);
    lemma_lookup_absent(m5, k2);
    lemma_lookup_absent(m6, k2);
    lemma_lookup_absent(m7, k2);
    lemma_lookup_absent(m8, k2);
    lemma_lookup_split(m1, m2, k2);
    lemma_lookup_split(p2, m3, k2);
    lemma_lookup_split(p3, m4, k2);
    lemma_lookup_split(p4, m5, k2);
    lemma_lookup_split(p5, m6, k2);
    lemma_lookup_split(p6, m7, k2);
    lemma_lookup_split(p7, m8, k2);
    lemma_opt_member(k1, k3, v1);
    lemma_opt_member(k2, k3, v2);
    lemma_opt_member(k3, k3, v3);
    lemma_opt_member(k4, k3, v4);
    lemma_opt_member(k5, k3, v5);
    lemma_opt_member(k6, k3, v6);
    lemma_opt_member(k7, k3, v7);
    lemma_opt_member(k8, k3, v8);
    lemma_lookup_absent(m1, k3);
    lemma_lookup_absent(m2, k3);
    lemma_lookup_absent(m4, k3);
    lemma_lookup_absent(m5, k3);
    lemma_lookup_absent(m6, k3);
    lemma_lookup_absent(m7, k3);
    lemma_lookup_absent(m8, k3);
    lemma_lookup_split(m1, m2, k3);
    lemma_lookup_split(p2, m3, k3);
    lemma_lookup_split(p3, m4, k3);
    lemma_lookup_split(p4, m5, k3);
    lemma_lookup_split(p5, m6, k3);
    lemma_lookup_split(p6, m7, k3);
    lemma_lookup_split(p7, m8, k3);
    lemma_opt_member(k1, k4, v1);
    lemma_opt_member(k2, k4, v2);
    lemma_opt_member(k3, k4, v3);
    lemma_opt_member(k4, k4, v4);
    lemma_opt_member(k5, k4, v5);
    lemma_opt_member(k6, k4, v6);
    lemma_opt_member(k7, k4, v7);
    lemma_opt_member(k8, k4, v8);
    lemma_lookup_absent(m1, k4);
    lemma_lookup_absent(m2, k4);
    lemma_lookup_absent(m3, k4);
    lemma_lookup_absent(m5, k4);
    lemma_lookup_absent(m6, k4);
    lemma_lookup_absent(m7, k4);
    lemma_lookup_absent(m8, k4);
    lemma_lookup_split(m1, m2, k4);
    lemma_lookup_split(p2, m3, k4);
    lemma_lookup_split(p3, m4, k4);
    lemma_lookup_split(p4, m5, k4);
    lemma_lookup_split(p5, m6, k4);
    lemma_lookup_split(p6, m7, k4);
    lemma_lookup_split(p7, m8, k4);
    lemma_opt_member(k1, k5, v1);
    lemma_opt_member(k2, k5, v2);
    lemma_opt_member(k3, k5, v3);
    lemma_opt_member(k4, k5, v4);
    lemma_opt_member(k5, k5, v5);
    lemma_opt_member(k6, k5, v6);
    lemma_opt_member(k7, k5, v7);
    lemma_opt_member(k8, k5, v8);
    lemma_lookup_absent(m1, k5);
    lemma_lookup_absent(m2, k5);
    lemma_lookup_absent(m3, k5);
    lemma_lookup_absent(m4, k5);
    lemma_lookup_absent(m6, k5);
    lemma_lookup_absent(m7, k5);
    lemma_lookup_absent(m8, k5);
    lemma_lookup_split(m1, m2, k5);
    lemma_lookup_split(p2, m3, k5);
    lemma_lookup_split(p3, m4, k5);
    lemma_lookup_split(p4, m5, k5);
    lemma_lookup_split(p5, m6, k5);
    lemma_lookup_split(p6, m7, k5);
    lemma_lookup_split(p7, m8, k5);
    lemma_opt_member(k1, k6, v1);
    lemma_opt_member(k2, k6, v2);
    lemma_opt_member(k3, k6, v3);
    lemma_opt_member(k4, k6, v4);
    lemma_opt_member(k5, k6, v5);
    lemma_opt_member(k6, k6, v6);
    lemma_opt_member(k7, k6, v7);
    lemma_opt_member(k8, k6, v8);
    lemma_lookup_absent(m1, k6);
    lemma_lookup_absent(m2, k6);
    lemma_lookup_absent(m3, k6);
    lemma_lookup_absent(m4, k6);
    lemma_lookup_absent(m5, k6);
    lemma_lookup_absent(m7, k6);
    lemma_lookup_absent(m8, k6);
    lemma_lookup_split(m1, m2, k6);
    lemma_lookup_split(p2, m3, k6);
    lemma_lookup_split(p3, m4, k6);
    lemma_lookup_split(p4, m5, k6);
    lemma_lookup_split(p5, m6, k6);
    lemma_lookup_split(p6, m7, k6);
    lemma_lookup_split(p7, m8, k6);
    lemma_opt_member(k1, k7, v1);
    lemma_opt_member(k2, k7, v2);
    lemma_opt_member(k3, k7, v3);
    lemma_opt_member(k4, k7, v4);
    lemma_opt_member(k5, k7, v5);
    lemma_opt_member(k6, k7, v6);
    lemma_opt_member(k7, k7, v7);
    lemma_opt_member(k8, k7, v8);
    lemma_lookup_absent(m1, k7);
    lemma_lookup_absent(m2, k7);
    lemma_lookup_absent(m3, k7);
    lemma_lookup_absent(m4, k7);
    lemma_lookup_absent(m5, k7);
    lemma_lookup_absent(m6, k7);
    lemma_lookup_absent(m8, k7);
    if v7 is None {
        lemma_lookup_absent(m7, k7);
    }
    lemma_lookup_split(m1, m2, k7);
    lemma_lookup_split(p2, m3, k7);
    lemma_lookup_split(p3, m4, k7);
    lemma_lookup_split(p4, m5, k7);
    lemma_lookup_split(p5, m6, k7);
    lemma_lookup_split(p6, m7, k7);
    lemma_lookup_split(p7, m8, k7);
    lemma_opt_member(k1, k8, v1);
    lemma_opt_member(k2, k8, v2);
    lemma_opt_member(k3, k8, v3);
    lemma_opt_member(k4, k8, v4);
    lemma_opt_member(k5, k8, v5);
    lemma_opt_member(k6, k8, v6);
    lemma_opt_member(k7, k8, v7);
    lemma_opt_member(k8, k8, v8);
    lemma_lookup_absent(m1, k8);
    lemma_lookup_absent(m2, k8);
    lemma_lookup_absent(m3, k8);
    lemma_lookup_absent(m4, k8);
    lemma_lookup_absent(m5, k8);
    lemma_lookup_absent(m6, k8);
    lemma_lookup_absent(m7, k8);
    if v8 is None {
        lemma_lookup_absent(m8, k8);
    }
    lemma_lookup_split(m1, m2, k8);
    lemma_lookup_split(p2, m3, k8);
    lemma_lookup_split(p3, m4, k8);
    lemma_lookup_split(p4, m5, k8);
    lemma_lookup_split(p5, m6, k8);
    lemma_lookup_split(p6, m7, k8);
    lemma_lookup_split(p7, m8, k8);
    lemma_dec_of_val(x.in_amount as nat);
    lemma_dec_of_val(x.out_amount as nat);
    if let Some(v) = x.fee_amount {
        lemma_dec_of_val(v as nat);
    }
    assert(lookup(p8, k1) == Some(JVal::Str(x.amm_key.text)));
    assert(lookup(p8, k5) == Some(JVal::Str(dec_of(x.in_amount as nat))));
    assert(spec_dec_swap_info(spec_enc_swap_info(x)) == Ok::<_, ErrView>(x));
}

/// One hop in a multi-step route: its swap metadata, its percent share of the
/// total, and an optional basis-points value.
#[derive(Clone, PartialEq, Eq, Debug)]
pub struct RoutePlanStep {
    pub swap_info: SwapInfo,
    /// The hop's share of the total, zero to one hundred.
    pub percent: u8,
    /// Basis-points value, absent in reduced-feature responses.
    pub bps: Option<u16>,
}

/// The mathematical face of one route step.
pub struct RoutePlanStepV {
    pub swap_info: SwapInfoV,
    pub percent: u8,
    pub bps: Option<u16>,
}

impl RoutePlanStepV {
    pub open spec fn wf(&self) -> bool {
        self.swap_info.wf()
    }
}

impl View for RoutePlanStep {
    type V = RoutePlanStepV;

    open spec fn view(&self) -> RoutePlanStepV {
        RoutePlanStepV { swap_info: self.swap_info@, percent: self.percent, bps: self.bps }
    }
}

/// A topologically sorted execution plan: the hops in the order they run.
pub type RoutePlanWithMetadata = Vec<RoutePlanStep>;

/// The wire members of one route step, in encoding order.
pub open spec fn spec_step_members(x: RoutePlanStepV) -> Seq<(Seq<char>, JVal)> {
    opt_member("swapInfo"@, Some(spec_enc_swap_info(x.swap_info))) + opt_member(
        "percent"@,
        Some(JVal::UInt(x.percent as u64)),
    ) + opt_member(
        "bps"@,
        match x.bps {
            Some(v) => Some(JVal::UInt(v as u64)),
            None => None,
        },
    )
}

/// The wire value of one route step.
pub open spec fn spec_enc_step(x: RoutePlanStepV) -> JVal {
    JVal::Obj(spec_step_members(x))
}

/// What a wire value means as one route step.
pub open spec fn spec_dec_step(v: JVal) -> Result<RoutePlanStepV, ErrView> {
    match v {
        JVal::Obj(ps) => match lookup(ps, "swapInfo"@) {
            None => Err(ErrView::MissingField { field: "swapInfo"@ }),
            Some(sv) => match spec_dec_swap_info(sv) {
                Err(e) => Err(e),
                Ok(swap_info) => match spec_field_uint(ps, "percent"@, u8::MAX as u64) {
                    Err(e) => Err(e),
                    Ok(percent) => match spec_field_opt_uint(ps, "bps"@, u16::MAX as u64) {
                        Err(e) => Err(e),
                        Ok(bps) => Ok(
                            RoutePlanStepV {
                                swap_info,
                                percent: percent as u8,
                                bps: match bps {
                                    Some(v) => Some(v as u16),
                                    None => None,
                                },
                            },
                        ),
                    },
                },
            },
        },
        _ => Err(ErrView::WrongType { field: "routePlan"@ }),
    }
}

impl RoutePlanStep {
    /// Encodes the step for the wire; an absent basis-points field puts no
    /// member in the object.
    pub fn to_json(&self) -> (r: JsonValue)
        ensures
            r@ == spec_enc_step(self@),
    {
        let mut ms: Vec<JsonMember> = Vec::new();
        ms.push(JsonMember { key: "swapInfo".to_owned(), value: self.swap_info.to_json() });
        ms.push(JsonMember { key: "percent".to_owned(), value: JsonValue::UInt(self.percent as u64) });
        if let Some(v) = self.bps {
            ms.push(JsonMember { key: "bps".to_owned(), value: JsonValue::UInt(v as u64) });
        }
        let ghost msv = ms@;
        let r = JsonValue::Obj(ms);
        proof {
            lemma_view_unfold(&r);
            assert(members_view(msv) =~= spec_step_members(self@));
        }
        r
    }

    /// Decodes one step from a wire value, failing on the first absent or
    /// malformed field.
    pub fn from_json(v: &JsonValue) -> (r: Result<RoutePlanStep, DecodeError>)
        ensures
            match r {
                Ok(x) => spec_dec_step(v@) == Ok::<_, ErrView>(x@) && x@.wf(),
                Err(e) => spec_dec_step(v@) == Err::<RoutePlanStepV, ErrView>(e@),
            },
    {
        match v {
            JsonValue::Obj(ms) => {
                proof {
                    lemma_view_unfold(v);
                }
                let swap_info = match obj_get(ms, "swapInfo") {
                    None => {
                        return Err(DecodeError::MissingField { field: "swapInfo".to_owned() });
                    },
                    Some(sv) => match SwapInfo::from_json(sv) {
                        Ok(x) => x,
                        Err(e) => {
                            return Err(e);
                        },
                    },
                };
                let percent = match field_uint(ms, "percent", u8::MAX as u64) {
                    Ok(x) => x as u8,
                    Err(e) => {
                        return Err(e);
                    },
                };
                let bps = match field_opt_uint(ms, "bps", u16::MAX as u64) {
                    Ok(Some(x)) => Some(x as u16),
                    Ok(None) => None,
                    Err(e) => {
                        return Err(e);
                    },
                };
                Ok(RoutePlanStep { swap_info, percent, bps })
            },
            _ => Err(DecodeError::WrongType { field: "routePlan".to_owned() }),
        }
    }
}

/// Encoding one route step and decoding the wire value gives back the same
/// step.
#[verifier::rlimit(100)]
pub proof fn lemma_step_round_trip(x: RoutePlanStepV)
    requires
        x.wf(),
    ensures
        spec_dec_step(spec_enc_step(x)) == Ok::<_, ErrView>(x),
{
    let k1 = "swapInfo"@;
    let k2 = "percent"@;
    let k3 = "bps"@;
    reveal_strlit("swapInfo");
    reveal_strlit("percent");
    reveal_strlit("bps");
    assert(k1 != k2) by {
        assert(k1.len() == 8);
        assert(k2.len() == 7);
    }
    assert(k1 != k3) by {
        assert(k1.len() == 8);
        assert(k3.len() == 3);
    }
    assert(k2 != k3) by {
        assert(k2.len() == 7);
        assert(k3.len() == 3);
    }
    let v1 = Some(spec_enc_swap_info(x.swap_info));
    let v2 = Some(JVal::UInt(x.percent as u64));
    let v3 = match x.bps {
        Some(v) => Some(JVal::UInt(v as u64)),
        None => None,
    };
    let m1 = opt_member(k1, v1);
    let m2 = opt_member(k2, v2);
    let m3 = opt_member(k3, v3);
    let p2 = m1 + m2;
    let p3 = p2 + m3;
    assert(spec_step_members(x) == p3);
    lemma_opt_member(k1, k1, v1);
    lemma_opt_member(k2, k1, v2);
    lemma_opt_member(k3, k1, v3);
    lemma_lookup_absent(m2, k1);
    lemma_lookup_absent(m3, k1);
    lemma_lookup_split(m1, m2, k1);
    lemma_lookup_split(p2, m3, k1);
    lemma_opt_member(k1, k2, v1);
    lemma_opt_member(k2, k2, v2);
    lemma_opt_member(k3, k2, v3);
    lemma_lookup_absent(m1, k2);
    lemma_lookup_absent(m3, k2);
    lemma_lookup_split(m1, m2, k2);
    lemma_lookup_split(p2, m3, k2);
    lemma_opt_member(k1, k3, v1);
    lemma_opt_member(k2, k3, v2);
    lemma_opt_member(k3, k3, v3);
    lemma_lookup_absent(m1, k3);
    lemma_lookup_absent(m2, k3);
    if v3 is None {
        lemma_lookup_absent(m3, k3);
    }
    lemma_lookup_split(m1, m2, k3);
    lemma_lookup_split(p2, m3, k3);
    lemma_swap_info_round_trip(x.swap_info);
    assert(lookup(p3, k1) == Some(spec_enc_swap_info(x.swap_info)));
    assert(spec_dec_step(spec_enc_step(x)) == Ok::<_, ErrView>(x));
}

/// The viewed steps of an executable route plan.
pub open spec fn steps_view(ss: Seq<RoutePlanStep>) -> Seq<RoutePlanStepV> {
    Seq::new(ss.len(), |i: int| ss[i]@)
}

/// The wire values of a route plan, one per step, in order.
pub open spec fn spec_enc_route_plan(xs: Seq<RoutePlanStepV>) -> Seq<JVal> {
    Seq::new(xs.len(), |i: int| spec_enc_step(xs[i]))
}

/// What a list of wire values means as route steps: the first failing step
/// decides the error.
pub open spec fn spec_dec_steps(vs: Seq<JVal>) -> Result<Seq<RoutePlanStepV>, ErrView>
    decreases vs.len(),
{
    if vs.len() == 0 {
        Ok(Seq::empty())
    } else {
        match spec_dec_steps(vs.drop_last()) {
            Err(e) => Err(e),
            Ok(pre) => match spec_dec_step(vs.last()) {
                Err(e) => Err(e),
                Ok(st) => Ok(pre.push(st)),
            },
        }
    }
}

/// What a wire value means as a whole route plan.
pub open spec fn spec_dec_route_plan(v: JVal) -> Result<Seq<RoutePlanStepV>, ErrView> {
    match v {
        JVal::Arr(vs) => spec_dec_steps(vs),
        _ => Err(ErrView::WrongType { field: "routePlan"@ }),
    }
}

/// A failing step anywhere in the list decides the whole decoding, provided
/// every step before it decodes.
proof fn lemma_dec_steps_prefix_err(vs: Seq<JVal>, i: int, e: ErrView)
    requires
        0 <= i < vs.len(),
        spec_dec_steps(vs.take(i)) is Ok,
        spec_dec_step(vs[i]) == Err::<RoutePlanStepV, ErrView>(e),
    ensures
        spec_dec_steps(vs) == Err::<Seq<RoutePlanStepV>, ErrView>(e),
    decreases vs.len(),
{
    if i == vs.len() - 1 {
        assert(vs.drop_last() =~= vs.take(i));
        assert(vs.last() == vs[i]);
    } else {
        assert(vs.drop_last().take(i) =~= vs.take(i));
        assert(vs.drop_last()[i] == vs[i]);
        lemma_dec_steps_prefix_err(vs.drop_last(), i, e);
    }
}

/// Encodes a route plan for the wire, step by step, in order.
pub fn route_plan_to_json(steps: &RoutePlanWithMetadata) -> (r: JsonValue)
    ensures
        r@ == JVal::Arr(spec_enc_route_plan(steps_view(steps@))),
{
    let mut vs: Vec<JsonValue> = Vec::new();
    let n = steps.len();
    let mut i: usize = 0;
    while i < n
        invariant
            0 <= i <= n,
            n == steps@.len(),
            vs@.len() == i,
            forall|j: int| 0 <= j < i ==> (#[trigger] vs@[j])@ == spec_enc_step(steps@[j]@),
        decreases n - i,
    {
        let jv = steps[i].to_json();
        vs.push(jv);
        i = i + 1;
    }
    let ghost vsv = vs@;
    let r = JsonValue::Arr(vs);
    proof {
        lemma_view_unfold(&r);
        assert(elems_view(vsv) =~= spec_enc_route_plan(steps_view(steps@)));
    }
    r
}

/// Decodes a route plan from a wire value; the first failing step decides
/// the error, and no partial plan is ever returned.
pub fn route_plan_from_json(v: &JsonValue) -> (r: Result<RoutePlanWithMetadata, DecodeError>)
    ensures
        match r {
            Ok(xs) => spec_dec_route_plan(v@) == Ok::<_, ErrView>(steps_view(xs@)) && forall|
                i: int,
            |
                0 <= i < xs@.len() ==> (#[trigger] xs@[i])@.wf(),
            Err(e) => spec_dec_route_plan(v@) == Err::<Seq<RoutePlanStepV>, ErrView>(e@),
        },
{
    match v {
        JsonValue::Arr(vs) => {
            proof {
                lemma_view_unfold(v);
                assert(elems_view(vs@).take(0) =~= Seq::<JVal>::empty());
            }
            let mut out: Vec<RoutePlanStep> = Vec::new();
            proof {
                assert(steps_view(out@) =~= Seq::<RoutePlanStepV>::empty());
            }
            let n = vs.len();
            let mut i: usize = 0;
            while i < n
                invariant
                    0 <= i <= n,
                    n == vs@.len(),
                    out@.len() == i,
                    v@ == JVal::Arr(elems_view(vs@)),
                    spec_dec_steps(elems_view(vs@).take(i as int)) == Ok::<_, ErrView>(
                        steps_view(out@),
                    ),
                    forall|j: int| 0 <= j < i ==> (#[trigger] out@[j])@.wf(),
                decreases n - i,
            {
                let ghost pre = steps_view(out@);
                match RoutePlanStep::from_json(&vs[i]) {
                    Ok(st) => {
                        out.push(st);
                        proof {
                            assert(elems_view(vs@).take(i + 1).drop_last() =~= elems_view(
                                vs@,
                            ).take(i as int));
                            assert(elems_view(vs@).take(i + 1).last() == elems_view(vs@)[i as int]);
                            assert(elems_view(vs@)[i as int] == vs@[i as int]@);
                            assert(steps_view(out@) =~= pre.push(st@));
                        }
                    },
                    Err(e) => {
                        proof {
                            assert(elems_view(vs@)[i as int] == vs@[i as int]@);
                            lemma_dec_steps_prefix_err(elems_view(vs@), i as int, e@);
                        }
                        return Err(e);
                    },
                }
                i = i + 1;
            }
            proof {
                assert(elems_view(vs@).take(n as int) =~= elems_view(vs@));
            }
            Ok(out)
        },
        _ => Err(DecodeError::WrongType { field: "routePlan".to_owned() }),
    }
}

/// Encoding a route plan and decoding the wire values gives back the same
/// steps, in the same order.
pub proof fn lemma_route_plan_round_trip(xs: Seq<RoutePlanStepV>)
    requires
        forall|i: int| 0 <= i < xs.len() ==> (#[trigger] xs[i]).wf(),
    ensures
        spec_dec_steps(spec_enc_route_plan(xs)) == Ok::<_, ErrView>(xs),
    decreases xs.len(),
{
    let evs = spec_enc_route_plan(xs);
    if xs.len() == 0 {
        assert(evs.len() == 0);
        assert(xs =~= Seq::<RoutePlanStepV>::empty());
    } else {
        lemma_route_plan_round_trip(xs.drop_last());
        assert(spec_enc_route_plan(xs.drop_last()) =~= evs.drop_last());
        assert(evs.last() == spec_enc_step(xs.last()));
        lemma_step_round_trip(xs.last());
        assert(xs.drop_last().push(xs.last()) =~= xs);
    }
}

/// Omission: a hop with an absent fee field puts no member under that key in
/// its encoding at all.
pub proof fn lemma_swap_info_omission(x: SwapInfoV)
    ensures
        x.fee_amount is None ==> !has_key(spec_swap_info_members(x), "feeAmount"@),
        x.fee_mint is None ==> !has_key(spec_swap_info_members(x), "feeMint"@),
{
    let k1 = "ammKey"@;
    let k2 = "label"@;
    let k3 = "inputMint"@;
    let k4 = "outputMint"@;
    let k5 = "inAmount"@;
    let k6 = "outAmount"@;
    let k7 = "feeAmount"@;
    let k8 = "feeMint"@;
    reveal_strlit("ammKey");
    reveal_strlit("label");
    reveal_strlit("inputMint");
    reveal_strlit("outputMint");
    reveal_strlit("inAmount");
    reveal_strlit("outAmount");
    reveal_strlit("feeAmount");
    reveal_strlit("feeMint");
    let v1 = Some(JVal::Str(x.amm_key.text));
    let v2 = Some(JVal::Str(x.label));
    let v3 = Some(JVal::Str(x.input_mint.text));
    let v4 = Some(JVal::Str(x.output_mint.text));
    let v5 = Some(JVal::Str(dec_of(x.in_amount as nat)));
    let v6 = Some(JVal::Str(dec_of(x.out_amount as nat)));
    let v7 = match x.fee_amount {
        Some(v) => Some(JVal::Str(dec_of(v as nat))),
        None => None,
    };
    let v8 = match x.fee_mint {
        Some(k) => Some(JVal::Str(k.text)),
        None => None,
    };
    let m1 = opt_member(k1, v1);
    let m2 = opt_member(k2, v2);
    let m3 = opt_member(k3, v3);
    let m4 = opt_member(k4, v4);
    let m5 = opt_member(k5, v5);
    let m6 = opt_member(k6, v6);
    let m7 = opt_member(k7, v7);
    let m8 = opt_member(k8, v8);
    let p2 = m1 + m2;
    let p3 = p2 + m3;
    let p4 = p3 + m4;
    let p5 = p4 + m5;
    let p6 = p5 + m6;
    let p7 = p6 + m7;
    let p8 = p7 + m8;
    assert(spec_swap_info_members(x) == p8);
    assert(k1 != k7) by {
        assert(k1.len() == 6);
        assert(k7.len() == 9);
    }
    assert(k2 != k7) by {
        assert(k2.len() == 5);
        assert(k7.len() == 9);
    }
    assert(k3 != k7) by {
        assert(k3[0] == 'i');
        assert(k7[0] == 'f');
    }
    assert(k4 != k7) by {
        assert(k4.len() == 10);
        assert(k7.len() == 9);
    }
    assert(k5 != k7) by {
        assert(k5.len() == 8);
        assert(k7.len() == 9);
    }
    assert(k6 != k7) by {
        assert(k6[0] == 'o');
        assert(k7[0] == 'f');
    }
    assert(k8 != k7) by {
        assert(k8.len() == 7);
        assert(k7.len() == 9);
    }
    lemma_opt_member(k1, k7, v1);
    lemma_opt_member(k2, k7, v2);
    lemma_opt_member(k3, k7, v3);
    lemma_opt_member(k4, k7, v4);
    lemma_opt_member(k5, k7, v5);
    lemma_opt_member(k6, k7, v6);
    lemma_opt_member(k7, k7, v7);
    lemma_opt_member(k8, k7, v8);
    lemma_lookup_split(m1, m2, k7);
    lemma_lookup_split(p2, m3, k7);
    lemma_lookup_split(p3, m4, k7);
    lemma_lookup_split(p4, m5, k7);
    lemma_lookup_split(p5, m6, k7);
    lemma_lookup_split(p6, m7, k7);
    lemma_lookup_split(p7, m8, k7);
    assert(k1 != k8) by {
        assert(k1.len() == 6);
        assert(k8.len() == 7);
    }
    assert(k2 != k8) by {
        assert(k2.len() == 5);
        assert(k8.len() == 7);
    }
    assert(k3 != k8) by {
        assert(k3.len() == 9);
        assert(k8.len() == 7);
    }
    assert(k4 != k8) by {
        assert(k4.len() == 10);
        assert(k8.len() == 7);
    }
    assert(k5 != k8) by {
        assert(k5.len() == 8);
        assert(k8.len() == 7);
    }
    assert(k6 != k8) by {
        assert(k6.len() == 9);
        assert(k8.len() == 7);
    }
    assert(k7 != k8) by {
        assert(k7.len() == 9);
        assert(k8.len() == 7);
    }
    lemma_opt_member(k1, k8, v1);
    lemma_opt_member(k2, k8, v2);
    lemma_opt_member(k3, k8, v3);
    lemma_opt_member(k4, k8, v4);
    lemma_opt_member(k5, k8, v5);
    lemma_opt_member(k6, k8, v6);
    lemma_opt_member(k7, k8, v7);
    lemma_opt_member(k8, k8, v8);
    lemma_lookup_split(m1, m2, k8);
    lemma_lookup_split(p2, m3, k8);
    lemma_lookup_split(p3, m4, k8);
    lemma_lookup_split(p4, m5, k8);
    lemma_lookup_split(p5, m6, k8);
    lemma_lookup_split(p6, m7, k8);
    lemma_lookup_split(p7, m8, k8);
}

/// Omission: a step with no basis-points value carries no member under that
/// key in its encoding at all.
pub proof fn lemma_step_omission(x: RoutePlanStepV)
    ensures
        x.bps is None ==> !has_key(spec_step_members(x), "bps"@),
{
    let k1 = "swapInfo"@;
    let k2 = "percent"@;
    let k3 = "bps"@;
    reveal_strlit("swapInfo");
    reveal_strlit("percent");
    reveal_strlit("bps");
    assert(k1 != k3) by {
        assert(k1.len() == 8);
        assert(k3.len() == 3);
    }
    assert(k2 != k3) by {
        assert(k2.len() == 7);
        assert(k3.len() == 3);
    }
    let v1 = Some(spec_enc_swap_info(x.swap_info));
    let v2 = Some(JVal::UInt(x.percent as u64));
    let v3 = match x.bps {
        Some(v) => Some(JVal::UInt(v as u64)),
        None => None,
    };
    let m1 = opt_member(k1, v1);
    let m2 = opt_member(k2, v2);
    let m3 = opt_member(k3, v3);
    let p2 = m1 + m2;
    let p3 = p2 + m3;
    assert(spec_step_members(x) == p3);
    lemma_opt_member(k1, k3, v1);
    lemma_opt_member(k2, k3, v2);
    lemma_opt_member(k3, k3, v3);
    lemma_lookup_split(m1, m2, k3);
    lemma_lookup_split(p2, m3, k3);
}

} // verus!
