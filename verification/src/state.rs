//! The candy machine and randomness request accounts, as plain values, and
//! the errors of a mint.

use vstd::prelude::*;

verus! {

/// Layout version of a candy machine account: V1 mints through the legacy metadata
/// instructions, V2 through `CreateV1`/`MintV1`.
#[derive(Clone, Copy, Debug, PartialEq, Eq)]
pub enum AccountVersion {
    V1,
    V2,
}

/// A creator listed in the candy machine's configuration.
#[derive(Clone, Copy, Debug)]
pub struct Creator {
    pub address: [u8; 32],
    pub verified: bool,
    pub percentage_share: u8,
}

/// How config lines are stored: a name and a URI of fixed lengths after common prefixes.
pub struct ConfigLineSettings {
    pub prefix_name: String,
    pub name_length: u32,
    pub prefix_uri: String,
    pub uri_length: u32,
    pub is_sequential: bool,
}

/// A single name and URI template shared by every item until it is revealed.
pub struct HiddenSettings {
    pub name: String,
    pub uri: String,
    pub hash: [u8; 32],
}

/// The configuration of a candy machine.
pub struct CandyMachineData {
    pub items_available: u64,
    pub symbol: String,
    pub seller_fee_basis_points: u16,
    pub max_supply: u64,
    pub is_mutable: bool,
    pub creators: Vec<Creator>,
    pub config_line_settings: Option<ConfigLineSettings>,
    pub hidden_settings: Option<HiddenSettings>,
}

/// The fields of a candy machine account that a mint reads and writes; its config lines
/// and the indices still available are in the account's bytes after the fixed section.
pub struct CandyMachine {
    pub version: AccountVersion,
    pub token_standard: u8,
    /// The only account allowed to request mints.
    pub mint_authority: [u8; 32],
    pub collection_mint: [u8; 32],
    pub items_redeemed: u64,
    pub data: CandyMachineData,
    /// The rule set stored on the account for programmable NFTs, if one is set.
    pub rule_set: Option<[u8; 32]>,
}

/// The name and URI of the item being minted.
pub struct ConfigLine {
    pub name: String,
    pub uri: String,
}

/// The randomness request account of a mint.
#[derive(Clone, Copy, Debug)]
pub struct RequestAccountData {
    pub bump: u8,
    pub pubkey_hash: [u8; 32],
    pub seed: u32,
    pub blockhash: [u8; 32],
    pub result: [u8; 32],
    pub request_timestamp: i64,
    pub reveal_timestamp: i64,
    pub switchboard_request: [u8; 32],
}

/// Why a mint was refused.
#[derive(Clone, Copy, Debug, PartialEq, Eq)]
pub enum CandyError {
    MetadataAccountMustBeEmpty,
    CandyMachineEmpty,
    CollectionKeyMismatch,
    IncorrectOwner,
    IncorrectCollectionAuthority,
    RequestAlreadyRevealed,
    KeyVerifyFailed,
    NumericalOverflowError,
    MissingConfigLinesSettings,
    NotFullyLoaded,
    CouldNotRetrieveConfigLineData,
    MissingInstructionsSysvar,
    MissingTokenAccount,
    MissingTokenRecord,
    MissingSplAtaProgram,
    /// The collection metadata account does not hold a metadata record.
    InvalidCollectionMetadata,
}

} // verus!
