//! A 32-byte account identifier, kept together with its canonical base58
//! text. The text is produced and checked by the ledger SDK's own codec, so
//! the two faces of a well-formed key always agree, and the record codecs can
//! move between them without further outside calls.

use std::str::FromStr;
use vstd::prelude::*;

verus! {

/// The canonical base58 rendering of a byte string. The rendering depends on
/// the bytes alone.
pub uninterp spec fn base58_of(bytes: Seq<u8>) -> Seq<char>;

/// What a string means as 32 bytes of base58: the bytes whose canonical
/// rendering the string is, where it is one, and nothing otherwise.
pub uninterp spec fn base58_dec(s: Seq<char>) -> Option<Seq<u8>>;

/// The mathematical face of a key: its bytes and its base58 text.
pub struct PubkeyV {
    pub bytes: Seq<u8>,
    pub text: Seq<char>,
}

impl PubkeyV {
    /// The two faces agree: thirty-two bytes, and the text is exactly their
    /// canonical rendering.
    pub open spec fn wf(&self) -> bool {
        &&& self.bytes.len() == 32
        &&& self.text == base58_of(self.bytes)
        &&& base58_dec(self.text) == Some(self.bytes)
    }
}

/// A 32-byte account identifier with its canonical base58 text.
#[derive(Clone, PartialEq, Eq, Debug)]
pub struct Pubkey {
    /// The raw bytes of the identifier.
    pub bytes: Vec<u8>,
    /// The canonical base58 rendering of the bytes.
    pub text: String,
}

impl View for Pubkey {
    type V = PubkeyV;

    open spec fn view(&self) -> PubkeyV {
        PubkeyV { bytes: self.bytes@, text: self.text@ }
    }
}

/// Relies on `solana_sdk::pubkey::Pubkey`'s `Display` impl (`solana-address`,
/// through `five8::encode_32`): it renders exactly the canonical base58 text
/// of the 32 bytes, and `five8::decode_32` reads that text back to the same
/// bytes.
#[verifier::external_body]
fn base58_encode(bytes: &Vec<u8>) -> (r: String)
    requires
        bytes@.len() == 32,
    ensures
        r@ == base58_of(bytes@),
        base58_dec(r@) == Some(bytes@),
{
    let mut arr = [0u8; 32];
    arr.copy_from_slice(&bytes[..]);
    solana_sdk::pubkey::Pubkey::new_from_array(arr).to_string()
}

/// Relies on `solana_sdk::pubkey::Pubkey::from_str` (`solana-address`, through
/// `five8::decode_32`): it accepts exactly the canonical base58 renderings of
/// 32 bytes — the leading-one count is held against the leading zero bytes —
/// and returns those bytes.
#[verifier::external_body]
fn base58_decode(s: &str) -> (r: Option<Vec<u8>>)
    ensures
        match r {
            Some(b) => b@.len() == 32 && s@ == base58_of(b@) && base58_dec(s@) == Some(b@),
            None => base58_dec(s@) is None,
        },
{
    match solana_sdk::pubkey::Pubkey::from_str(s) {
        Ok(p) => Some(p.to_bytes().to_vec()),
        Err(_) => None,
    }
}

impl Pubkey {
    /// Builds a key from its raw bytes; `None` exactly when there are not
    /// thirty-two of them.
    pub fn from_bytes(bytes: Vec<u8>) -> (r: Option<Pubkey>)
        ensures
            match r {
                Some(p) => p@.wf() && p@.bytes == bytes@ && bytes@.len() == 32,
                None => bytes@.len() != 32,
            },
    {
        if bytes.len() == 32 {
            let text = base58_encode(&bytes);
            Some(Pubkey { bytes, text })
        } else {
            None
        }
    }

    /// Reads a key from base58 text; `None` exactly when the text is not the
    /// canonical rendering of thirty-two bytes.
    pub fn from_base58(s: &str) -> (r: Option<Pubkey>)
        ensures
            match r {
                Some(p) => p@.wf() && p@.text == s@ && base58_dec(s@) == Some(p@.bytes),
                None => base58_dec(s@) is None,
            },
    {
        match base58_decode(s) {
            Some(bytes) => Some(Pubkey { bytes, text: s.to_owned() }),
            None => None,
        }
    }

    /// The canonical base58 text of the key.
    pub fn to_base58(&self) -> (r: String)
        ensures
            r@ == self@.text,
    {
        self.text.clone()
    }
}

} // verus!
