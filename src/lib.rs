//! A registry that turns sole ownership of a non-fungible token into a
//! fixed supply of fungible shares, and the share ledger that tracks those
//! shares until the token is redeemed and every holder has been paid out.
pub mod naming;
pub mod ledger;
pub mod metadata;
pub mod actions;
pub mod shares;
pub mod string_map;
pub mod registry;
