//! What a mint reads from and asks of the token metadata program: the fields
//! of the collection's metadata record that the checks and steps depend on,
//! and the metadata instructions a mint issues, as plain values.

use crate::state::{CandyError, ConfigLine};
use mpl_token_metadata::accounts::Metadata;
use mpl_token_metadata::types::{ProgrammableConfig, TokenStandard};
use vstd::prelude::*;

verus! {

/// The fields of a collection's metadata record that a mint uses.
#[derive(Clone, Copy, Debug)]
pub struct CollectionMetadata {
    /// The collection's update authority.
    pub update_authority: [u8; 32],
    /// Whether the record has collection details (a sized collection).
    pub has_collection_details: bool,
    /// The rule set of the collection's programmable configuration, if any.
    pub rule_set: Option<[u8; 32]>,
}

/// An optional address by its bytes.
pub open spec fn key_opt_view(k: Option<[u8; 32]>) -> Option<Seq<u8>> {
    match k {
        Some(a) => Some(a@),
        None => None,
    }
}

/// What `Metadata::from_bytes` (borsh deserialization of a metadata record) gives for the
/// account data `data`: the update authority, whether collection details are present and the
/// programmable configuration's rule set; `None` where it returns an error.
pub uninterp spec fn metadata_record(data: Seq<u8>) -> Option<(Seq<u8>, bool, Option<Seq<u8>>)>;

/// The collection metadata by the fields it holds.
pub open spec fn collection_view(c: CollectionMetadata) -> (Seq<u8>, bool, Option<Seq<u8>>) {
    (c.update_authority@, c.has_collection_details, key_opt_view(c.rule_set))
}

/// Calls `Metadata::from_bytes` on the collection metadata account's data and keeps the
/// fields a mint uses. Claimed: the outcome is the one `metadata_record` names for the data.
#[verifier::external_body]
pub(crate) fn read_collection_metadata(data: &[u8]) -> (res: Option<CollectionMetadata>)
    ensures
        res is Some <==> metadata_record(data@) is Some,
        res matches Some(c) ==> metadata_record(data@) == Some(collection_view(c)),
{
    match Metadata::from_bytes(data) {
        Ok(m) => Some(CollectionMetadata {
            update_authority: m.update_authority.to_bytes(),
            has_collection_details: m.collection_details.is_some(),
            rule_set: match m.programmable_config {
                Some(ProgrammableConfig::V1 { rule_set }) => rule_set.map(|k| k.to_bytes()),
                None => None,
            },
        }),
        Err(_) => None,
    }
}

/// The bytes of the token metadata program's address, `metaqbxxUerdq28cj1RbAWkYQm3ybzjb6a8bt518x1s`.
pub open spec fn token_metadata_program_bytes() -> Seq<u8> {
    seq![
        11u8, 112, 101, 177, 227, 209, 124, 69, 56, 157, 82, 127, 107, 4, 195, 205,
        88, 184, 108, 115, 26, 160, 253, 181, 73, 182, 209, 188, 3, 248, 41, 70,
    ]
}

/// Reads `mpl_token_metadata::ID`. Claimed, from the crate's `pubkey!` declaration of that
/// address: its bytes are `token_metadata_program_bytes`.
#[verifier::external_body]
pub(crate) fn token_metadata_program_id() -> (res: [u8; 32])
    ensures
        res@ == token_metadata_program_bytes(),
{
    mpl_token_metadata::ID.to_bytes()
}

/// The code a candy machine stores for programmable NFTs: the position of
/// `ProgrammableNonFungible` in `TokenStandard`.
pub open spec fn programmable_code() -> u8 {
    4
}

/// Reads `TokenStandard::ProgrammableNonFungible as u8`. Claimed, from the order of the
/// enum's variants in the crate's source: it is `programmable_code()`.
#[verifier::external_body]
pub(crate) fn programmable_standard() -> (res: u8)
    ensures
        res == programmable_code(),
{
    TokenStandard::ProgrammableNonFungible as u8
}

/// A creator as the minted item's metadata lists it.
#[derive(Clone, Copy, Debug)]
pub struct MetadataCreator {
    pub address: [u8; 32],
    pub verified: bool,
    pub share: u8,
}

/// A metadata instruction that a mint issues, with the accounts it is invoked with (by
/// address) and the arguments that the mint decides. The name, URI and symbol of the item
/// and its creators are those of the plan that holds the instruction.
#[derive(Clone, Copy, Debug)]
pub enum MetadataCall {
    /// `CreateV1`: a programmable or plain NFT with the given seller fee, mutability,
    /// unverified collection key and decimals, print supply `Zero` (`None`) or `Limited`
    /// (`Some`); the update authority signs.
    CreateV1 {
        metadata: [u8; 32],
        mint: [u8; 32],
        mint_is_signer: bool,
        authority: [u8; 32],
        payer: [u8; 32],
        update_authority: [u8; 32],
        master_edition: [u8; 32],
        system_program: [u8; 32],
        sysvar_instructions: [u8; 32],
        spl_token_program: [u8; 32],
        programmable: bool,
        seller_fee_basis_points: u16,
        is_mutable: bool,
        collection: [u8; 32],
        decimals: u8,
        print_supply: Option<u64>,
    },
    /// `MintV1` of `amount` tokens, with the token record where one is given.
    MintV1 {
        token: [u8; 32],
        token_owner: [u8; 32],
        metadata: [u8; 32],
        master_edition: [u8; 32],
        mint: [u8; 32],
        payer: [u8; 32],
        authority: [u8; 32],
        token_record: Option<[u8; 32]>,
        system_program: [u8; 32],
        sysvar_instructions: [u8; 32],
        spl_token_program: [u8; 32],
        spl_ata_program: [u8; 32],
        amount: u64,
    },
    /// `UpdateV1`: whether the primary sale happened, the new update authority, and the rule
    /// set where one is given.
    UpdateV1 {
        authority: [u8; 32],
        token: [u8; 32],
        metadata: [u8; 32],
        edition: [u8; 32],
        mint: [u8; 32],
        payer: [u8; 32],
        system_program: [u8; 32],
        sysvar_instructions: [u8; 32],
        primary_sale_happened: bool,
        new_update_authority: [u8; 32],
        rule_set: Option<[u8; 32]>,
    },
    /// `VerifyCollectionV1` of the item into the collection.
    VerifyCollectionV1 {
        authority: [u8; 32],
        delegate_record: [u8; 32],
        metadata: [u8; 32],
        collection_mint: [u8; 32],
        collection_metadata: [u8; 32],
        collection_master_edition: [u8; 32],
        system_program: [u8; 32],
        sysvar_instructions: [u8; 32],
    },
    /// `CreateMetadataAccountV3` with the given seller fee and mutability, without collection
    /// or uses; the update authority signs.
    CreateMetadataAccountV3 {
        metadata: [u8; 32],
        mint: [u8; 32],
        mint_authority: [u8; 32],
        payer: [u8; 32],
        update_authority: [u8; 32],
        system_program: [u8; 32],
        seller_fee_basis_points: u16,
        is_mutable: bool,
    },
    /// `CreateMasterEditionV3` with the given maximum supply.
    CreateMasterEditionV3 {
        edition: [u8; 32],
        mint: [u8; 32],
        mint_authority: [u8; 32],
        update_authority: [u8; 32],
        metadata: [u8; 32],
        payer: [u8; 32],
        system_program: [u8; 32],
        token_program: [u8; 32],
        max_supply: u64,
    },
    /// `UpdateMetadataAccountV2`: whether the primary sale happened and the new update
    /// authority.
    UpdateMetadataAccountV2 {
        metadata: [u8; 32],
        update_authority: [u8; 32],
        new_update_authority: [u8; 32],
        primary_sale_happened: bool,
    },
    /// `SetAndVerifySizedCollectionItem` (where `sized`) or `SetAndVerifyCollection`.
    SetAndVerifyCollection {
        sized: bool,
        metadata: [u8; 32],
        collection_authority: [u8; 32],
        collection_authority_record: [u8; 32],
        collection: [u8; 32],
        collection_master_edition_account: [u8; 32],
        collection_mint: [u8; 32],
        update_authority: [u8; 32],
        payer: [u8; 32],
    },
}

/// The first seed of the candy machine's authority: the bytes of `candy_machine`.
pub open spec fn authority_seed() -> Seq<u8> {
    seq![99u8, 97, 110, 100, 121, 95, 109, 97, 99, 104, 105, 110, 101]
}

/// The bytes of `candy_machine`, the first seed of the candy machine's authority.
pub fn authority_seed_bytes() -> (res: Vec<u8>)
    ensures
        res@ == authority_seed(),
{
    let res: Vec<u8> = vec![99, 97, 110, 100, 121, 95, 109, 97, 99, 104, 105, 110, 101];
    assert(res@ =~= authority_seed());
    res
}

/// What a mint asks of the token metadata program `program`: the item's config line (name
/// and URI), symbol and creators, the instructions in order, each signed with the seeds
/// `seed_prefix`, `seed_key` (the candy machine's address) and `[bump]`, and the error the
/// mint ends with after them, if any.
pub struct MintPlan {
    pub program: [u8; 32],
    pub seed_prefix: Vec<u8>,
    pub seed_key: [u8; 32],
    pub bump: u8,
    pub config_line: ConfigLine,
    pub symbol: String,
    pub creators: Vec<MetadataCreator>,
    pub calls: Vec<MetadataCall>,
    pub failure: Option<CandyError>,
}

/// How a mint ended in an error: refused with a mint error, or an instruction of its plan
/// failed (at position `step`, with the program error's code).
#[derive(Clone, Copy, Debug)]
pub enum MintFailure {
    Refused(CandyError),
    InstructionFailed { step: usize, code: u64 },
}

/// What carrying out a plan does next: invoke the instruction at a position, or end.
#[derive(Clone, Copy, Debug)]
pub enum PlanStep {
    Invoke(usize),
    Done(Result<(), MintFailure>),
}

/// The step after `done` instructions of the plan were invoked, the last of them having
/// failed with `last_error` where that is `Some`: the first failure ends the mint with it;
/// otherwise the next instruction is invoked; after the last one the mint ends with the
/// plan's own error, if any.
pub open spec fn step_after(plan: &MintPlan, done: usize, last_error: Option<u64>) -> PlanStep {
    match last_error {
        Some(code) => PlanStep::Done(
            Err(MintFailure::InstructionFailed { step: (done - 1) as usize, code }),
        ),
        None => if done < plan.calls.len() {
            PlanStep::Invoke(done)
        } else {
            match plan.failure {
                Some(e) => PlanStep::Done(Err(MintFailure::Refused(e))),
                None => PlanStep::Done(Ok(())),
            }
        },
    }
}

/// Decides the next step in carrying out a plan (see `step_after`); the caller invokes the
/// instruction it names and reports back whether that failed.
pub fn next_step(plan: &MintPlan, done: usize, last_error: Option<u64>) -> (res: PlanStep)
    requires
        done <= plan.calls.len(),
        last_error is Some ==> done > 0,
    ensures
        res == step_after(plan, done, last_error),
{
    match last_error {
        Some(code) => PlanStep::Done(Err(MintFailure::InstructionFailed { step: done - 1, code })),
        None => if done < plan.calls.len() {
            PlanStep::Invoke(done)
        } else {
            match plan.failure {
                Some(e) => PlanStep::Done(Err(MintFailure::Refused(e))),
                None => PlanStep::Done(Ok(())),
            }
        },
    }
}

} // verus!
