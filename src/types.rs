//! Values exchanged with the minting contract.

use vstd::prelude::*;
use vstd::string::*;

verus! {

#[verifier::external_type_specification]
#[verifier::external_body]
pub struct ExNat(ic_cdk::export::candid::Nat);

/// An error code that the contract answers instead of a receipt.
#[derive(Clone, Debug)]
pub enum ApiError {
    Unauthorized,
    InvalidTokenId,
    ZeroAddress,
    Other,
    AliasFormatFail(String),
    AliasHasBeenTaken,
}

/// What the contract answers for an accepted mint.
#[derive(Clone, Copy, Debug, PartialEq, Eq, Structural)]
pub struct MintReceiptPart {
    pub token_id: u64,
    pub id: u128,
}

/// One entry of a token's metadata description.
pub struct MetadataPart {
    pub purpose: MetadataPurpose,
    pub key_val_data: Vec<MetadataKeyVal>,
    pub data: Vec<u8>,
}

#[derive(Clone, Copy, Debug, PartialEq, Eq, Structural)]
pub enum MetadataPurpose {
    Preview,
    Rendered,
}

pub struct MetadataKeyVal {
    pub key: String,
    pub val: MetadataVal,
}

pub enum MetadataVal {
    TextContent(String),
    BlobContent(Vec<u8>),
    NatContent(ic_cdk::export::candid::Nat),
    Nat8Content(u8),
    Nat16Content(u16),
    Nat32Content(u32),
    Nat64Content(u64),
}

/// The text of `s` as `{:?}` writes it: in double quotes, with quotes,
/// backslashes and control characters escaped.
pub uninterp spec fn debug_quoted(s: Seq<char>) -> Seq<char>;

/// Relies on std's `Debug` for `str`: the quoted, escaped text depends on the
/// characters alone.
#[verifier::external_body]
fn debug_quoted_text(s: &str) -> (r: String)
    ensures
        r@ == debug_quoted(s@),
{
    format!("{:?}", s)
}

/// How an error code is named in a result line: its variant name, with the
/// quoted alias for `AliasFormatFail`.
pub open spec fn api_error_text(e: ApiError) -> Seq<char> {
    match e {
        ApiError::Unauthorized => "Unauthorized"@,
        ApiError::InvalidTokenId => "InvalidTokenId"@,
        ApiError::ZeroAddress => "ZeroAddress"@,
        ApiError::Other => "Other"@,
        ApiError::AliasFormatFail(s) => "AliasFormatFail("@ + debug_quoted(s@) + ")"@,
        ApiError::AliasHasBeenTaken => "AliasHasBeenTaken"@,
    }
}

impl ApiError {
    /// The name of this error code as a result line shows it.
    pub fn describe(&self) -> (r: String)
        ensures
            r@ == api_error_text(*self),
    {
        match self {
            ApiError::Unauthorized => String::from_str("Unauthorized"),
            ApiError::InvalidTokenId => String::from_str("InvalidTokenId"),
            ApiError::ZeroAddress => String::from_str("ZeroAddress"),
            ApiError::Other => String::from_str("Other"),
            ApiError::AliasFormatFail(s) => {
                let mut out = String::from_str("AliasFormatFail(");
                let q = debug_quoted_text(s.as_str());
                out.append(q.as_str());
                out.append(")");
                out
            },
            ApiError::AliasHasBeenTaken => String::from_str("AliasHasBeenTaken"),
        }
    }
}

} // verus!
