//! The asset's self-description: a display record carried by the contract.
//! It is bookkeeping at the edge of the protocol; the settlement logic never
//! reads it.

use vstd::prelude::*;
use vstd::string::StringExecFns;

verus! {

/// The metadata standard version this crate describes assets with.
pub open spec fn spec_metadata_standard() -> Seq<char> {
    "ft-1.0.0"@
}

/// The number of bytes a reference hash must have.
pub const REFERENCE_HASH_LEN: usize = 32;

/// The number of decimals the default asset configuration uses.
pub const DEFAULT_DECIMALS: u8 = 18;

/// The display record of the asset.
pub struct TokenMetadata {
    /// The metadata standard version the record follows.
    pub standard: String,
    /// The human-readable name of the asset.
    pub name: String,
    /// The ticker-style symbol of the asset.
    pub symbol: String,
    /// An optional data-URL icon.
    pub icon: Option<String>,
    /// An optional link to off-ledger metadata.
    pub reference: Option<String>,
    /// The hash of the referenced metadata; present exactly when `reference`
    /// is.
    pub reference_hash: Option<Vec<u8>>,
    /// The number of decimals the asset's display unit is divided into.
    pub decimals: u8,
}

impl TokenMetadata {
    /// A record is valid when it follows the supported standard version and
    /// its reference link and reference hash are paired: both absent, or both
    /// present with a hash of the required length.
    pub open spec fn spec_valid(self) -> bool {
        &&& self.standard@ == spec_metadata_standard()
        &&& (self.reference is Some <==> self.reference_hash is Some)
        &&& (self.reference_hash matches Some(h) ==> h@.len() == REFERENCE_HASH_LEN)
    }

    /// Checks [`TokenMetadata::spec_valid`] at run time.
    pub fn is_valid(&self) -> (r: bool)
        ensures
            r == self.spec_valid(),
    {
        let supported = String::from_str("ft-1.0.0");
        let standard_ok = self.standard == supported;
        let paired = match (&self.reference, &self.reference_hash) {
            (Some(_), Some(h)) => h.len() == REFERENCE_HASH_LEN,
            (None, None) => true,
            _ => false,
        };
        standard_ok && paired
    }
}

/// The metadata the default configuration ships with.
pub fn default_metadata() -> (r: TokenMetadata)
    ensures
        r.spec_valid(),
        r.decimals == DEFAULT_DECIMALS,
{
    TokenMetadata {
        standard: String::from_str("ft-1.0.0"),
        name: String::from_str("Mute DAO Token"),
        symbol: String::from_str("MUTE"),
        icon: Some(
            String::from_str(
                "data:image/svg+xml,%3Csvg xmlns='http://www.w3.org/2000/svg' viewBox='0 0 288 288'%3E%3Cg id='l' data-name='l'%3E%3Cpath d='M187.58,79.81l-30.1,44.69a3.2,3.2,0,0,0,4.75,4.2L191.86,103a1.2,1.2,0,0,1,2,.91v80.46a1.2,1.2,0,0,1-2.12.77L102.18,77.93A15.35,15.35,0,0,0,90.47,72.5H87.34A15.34,15.34,0,0,0,72,87.84V201.16A15.34,15.34,0,0,0,87.34,216.5h0a15.35,15.35,0,0,0,13.08-7.31l30.1-44.69a3.2,3.2,0,0,0-4.75-4.2L96.14,186a1.2,1.2,0,0,1-2-.91V104.61a1.2,1.2,0,0,1,2.12-.77l89.55,107.23a15.35,15.35,0,0,0,11.71,5.43h3.13A15.34,15.34,0,0,0,216,201.16V87.84A15.34,15.34,0,0,0,200.66,72.5h0A15.35,15.35,0,0,0,187.58,79.81Z'/%3E%3C/g%3E%3C/svg%3E",
            ),
        ),
        reference: None,
        reference_hash: None,
        decimals: DEFAULT_DECIMALS,
    }
}

} // verus!
