//! The metadata of one share ledger: fixed at creation, but for the flag
//! that records that the underlying token was redeemed.
use vstd::prelude::*;

verus! {

/// The format tag that every share ledger's metadata carries.
pub const SHARES_FT_METADATA_SPEC: &'static str = "shares-ft-1.0.0";

/// Describes the shares of one securitized token.
#[derive(Debug, Clone)]
pub struct SharesMetadata {
    pub spec: String,
    pub name: String,
    pub symbol: String,
    pub icon: Option<String>,
    pub reference: Option<String>,
    pub reference_hash: Option<Vec<u8>>,
    pub decimals: u8,
    pub nft_contract_address: String,
    pub nft_token_id: String,
    /// Settlement currency paid per share on redemption.
    pub share_price: u128,
    /// The token has been redeemed by payment; holders may now claim.
    pub released: bool,
}

/// Why metadata is not well formed.
#[derive(Debug, Clone, Copy, PartialEq, Eq, Structural)]
pub enum MetadataError {
    /// The format tag is not `SHARES_FT_METADATA_SPEC`.
    WrongSpec,
    /// A reference is given without its hash, or a hash without a reference.
    ReferenceMismatch,
    /// The reference hash is not 32 bytes long.
    HashLength,
}

/// Shares whose metadata can be read.
pub trait SharesMetadataProvider {
    /// The metadata that the holder keeps.
    spec fn metadata_spec(&self) -> SharesMetadata;

    /// A copy of the metadata.
    fn ft_metadata(&self) -> (r: SharesMetadata)
        ensures
            r.same_as(self.metadata_spec()),
    ;
}

impl SharesMetadata {
    /// The format tag is right, a reference comes with its hash and a hash
    /// has 32 bytes.
    pub open spec fn is_valid(&self) -> bool {
        &&& self.spec@ == SHARES_FT_METADATA_SPEC@
        &&& self.reference.is_some() == self.reference_hash.is_some()
        &&& (self.reference_hash matches Some(h) ==> h@.len() == 32)
    }

    /// `self` and `o` hold the same values.
    pub open spec fn same_as(&self, o: SharesMetadata) -> bool {
        &&& self.spec@ == o.spec@
        &&& self.name@ == o.name@
        &&& self.symbol@ == o.symbol@
        &&& self.icon == o.icon
        &&& self.reference == o.reference
        &&& self.reference_hash.is_some() == o.reference_hash.is_some()
        &&& (self.reference_hash matches Some(h) ==> h@ == o.reference_hash->Some_0@)
        &&& self.decimals == o.decimals
        &&& self.nft_contract_address@ == o.nft_contract_address@
        &&& self.nft_token_id@ == o.nft_token_id@
        &&& self.share_price == o.share_price
        &&& self.released == o.released
    }

    /// A field by field copy.
    pub fn copy(&self) -> (r: SharesMetadata)
        ensures
            r.same_as(*self),
    {
        let icon = match &self.icon {
            Some(s) => Some(s.clone()),
            None => None,
        };
        let reference = match &self.reference {
            Some(s) => Some(s.clone()),
            None => None,
        };
        let reference_hash = match &self.reference_hash {
            Some(h) => Some(h.clone()),
            None => None,
        };
        SharesMetadata {
            spec: self.spec.clone(),
            name: self.name.clone(),
            symbol: self.symbol.clone(),
            icon,
            reference,
            reference_hash,
            decimals: self.decimals,
            nft_contract_address: self.nft_contract_address.clone(),
            nft_token_id: self.nft_token_id.clone(),
            share_price: self.share_price,
            released: self.released,
        }
    }

    /// Checks the metadata's form; the first fault found is reported.
    pub fn assert_valid(&self) -> (r: Result<(), MetadataError>)
        ensures
            r is Ok <==> self.is_valid(),
            self.spec@ != SHARES_FT_METADATA_SPEC@ ==> r == Err::<(), MetadataError>(MetadataError::WrongSpec),
            self.spec@ == SHARES_FT_METADATA_SPEC@ && self.reference.is_some() != self.reference_hash.is_some()
                ==> r == Err::<(), MetadataError>(MetadataError::ReferenceMismatch),
            self.spec@ == SHARES_FT_METADATA_SPEC@ && self.reference.is_some() == self.reference_hash.is_some()
                && !self.is_valid() ==> r == Err::<(), MetadataError>(MetadataError::HashLength),
    {
        let expected = String::from_str(SHARES_FT_METADATA_SPEC);
        if self.spec != expected {
            return Err(MetadataError::WrongSpec);
        }
        if self.reference.is_some() != self.reference_hash.is_some() {
            return Err(MetadataError::ReferenceMismatch);
        }
        match &self.reference_hash {
            Some(h) => {
                if h.len() != 32 {
                    return Err(MetadataError::HashLength);
                }
            },
            None => {},
        }
        Ok(())
    }

    /// Marks the token as redeemed; nothing else changes.
    pub fn set_as_released(&mut self)
        ensures
            final(self).released,
            final(self).same_as(SharesMetadata { released: true, ..*old(self) }),
    {
        self.released = true;
    }
}

} // verus!
