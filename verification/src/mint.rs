//! The mint itself: the checks on the accounts and the randomness request,
//! the reveal of the random index, the choice of the config line, and the
//! metadata instructions that create, mint and verify the item.

use crate::config_line::{
    config_layout_ok, config_line_outcome, data_after, get_config_line, lemma_layout_in_bounds,
    lemma_layout_kept,
};
use crate::keys::{hash, keys_equal, sha256};
use crate::le::{le_bytes, lemma_le_round_trip, u32_at, u32_to_le};
use crate::metadata::{
    collection_view, metadata_record, programmable_code, programmable_standard,
    read_collection_metadata, token_metadata_program_bytes, token_metadata_program_id,
    authority_seed, authority_seed_bytes, CollectionMetadata, MetadataCall, MetadataCreator,
    MintPlan,
};
use crate::state::{AccountVersion, CandyError, CandyMachine, ConfigLine, Creator, RequestAccountData};
use vstd::prelude::*;

verus! {

/// The accounts of a mint, as the checks and the metadata steps read them.
pub struct MintAccounts {
    pub authority_pda: [u8; 32],
    pub payer: [u8; 32],
    pub nft_owner: [u8; 32],
    pub nft_mint: [u8; 32],
    /// Whether the NFT's mint account signed the transaction.
    pub nft_mint_is_signer: bool,
    pub nft_mint_authority: [u8; 32],
    pub nft_metadata: [u8; 32],
    /// Whether the NFT's metadata account holds no data yet.
    pub nft_metadata_is_empty: bool,
    pub nft_master_edition: [u8; 32],
    pub token: Option<[u8; 32]>,
    pub token_record: Option<[u8; 32]>,
    pub collection_delegate_record: [u8; 32],
    pub collection_mint: [u8; 32],
    pub collection_metadata: [u8; 32],
    /// The program that owns the collection metadata account.
    pub collection_metadata_owner: [u8; 32],
    /// The data of the collection metadata account.
    pub collection_metadata_data: Vec<u8>,
    pub collection_master_edition: [u8; 32],
    pub collection_update_authority: [u8; 32],
    pub token_metadata_program: [u8; 32],
    pub spl_token_program: [u8; 32],
    pub spl_ata_program: Option<[u8; 32]>,
    pub system_program: [u8; 32],
    pub sysvar_instructions: Option<[u8; 32]>,
}

/// The sum of the bytes of `s`.
pub open spec fn byte_sum(s: Seq<u8>) -> int
    decreases s.len(),
{
    if s.len() == 0 {
        0
    } else {
        byte_sum(s.drop_last()) + s.last() as int
    }
}

/// The items still to be minted.
pub open spec fn remaining_items(cm: &CandyMachine) -> int {
    cm.data.items_available - cm.items_redeemed
}

/// What the revealed randomness is the digest of: the authority's address, the request's
/// blockhash and its seed in little-endian bytes.
pub open spec fn reveal_input(authority_pda: Seq<u8>, req: RequestAccountData) -> Seq<u8> {
    authority_pda + req.blockhash@ + le_bytes(req.seed)
}

/// The randomness a mint reveals.
pub open spec fn revealed_randomness(a: &MintAccounts, req: RequestAccountData) -> Seq<u8> {
    sha256(reveal_input(a.authority_pda@, req))
}

/// The index into the available items that the randomness draws: its byte sum modulo the
/// items still to be minted.
pub open spec fn drawn_index(cm: &CandyMachine, randomness: Seq<u8>) -> int {
    byte_sum(randomness) % remaining_items(cm)
}

/// The error a mint is refused with before anything is revealed, if any, in the order the
/// checks are made.
pub open spec fn mint_refusal(cm: &CandyMachine, a: &MintAccounts, req: RequestAccountData) -> Option<CandyError> {
    if !a.nft_metadata_is_empty {
        Some(CandyError::MetadataAccountMustBeEmpty)
    } else if cm.items_redeemed >= cm.data.items_available {
        Some(CandyError::CandyMachineEmpty)
    } else if a.collection_mint@ != cm.collection_mint@ {
        Some(CandyError::CollectionKeyMismatch)
    } else if a.collection_metadata_owner@ != token_metadata_program_bytes() {
        Some(CandyError::IncorrectOwner)
    } else {
        match metadata_record(a.collection_metadata_data@) {
            None => Some(CandyError::InvalidCollectionMetadata),
            Some(record) => if record.0 != a.collection_update_authority@ {
                Some(CandyError::IncorrectCollectionAuthority)
            } else if req.reveal_timestamp > 0 {
                Some(CandyError::RequestAlreadyRevealed)
            } else if sha256(a.authority_pda@) != req.pubkey_hash@ {
                Some(CandyError::KeyVerifyFailed)
            } else {
                None
            },
        }
    }
}

/// A configured creator as the item's metadata lists it: unverified, with its share.
pub open spec fn listed_creator(c: Creator) -> MetadataCreator {
    MetadataCreator { address: c.address, verified: false, share: c.percentage_share }
}

/// The item's creators: the authority, verified and with no share, then the configured ones.
pub open spec fn item_creators(authority_pda: [u8; 32], creators: Seq<Creator>) -> Seq<MetadataCreator> {
    seq![MetadataCreator { address: authority_pda, verified: true, share: 0 }]
        + creators.map_values(|c: Creator| listed_creator(c))
}

/// The rule set of a new programmable NFT: the one stored on the candy machine, or else the
/// collection's.
pub open spec fn rule_set_of(cm: &CandyMachine, c: CollectionMetadata) -> Option<[u8; 32]> {
    match cm.rule_set {
        Some(r) => Some(r),
        None => c.rule_set,
    }
}

/// The `CreateMetadataAccountV3` instruction of a legacy mint.
pub open spec fn create_metadata_call(cm: &CandyMachine, a: &MintAccounts) -> MetadataCall {
    MetadataCall::CreateMetadataAccountV3 {
        metadata: a.nft_metadata,
        mint: a.nft_mint,
        mint_authority: a.nft_mint_authority,
        payer: a.payer,
        update_authority: a.authority_pda,
        system_program: a.system_program,
        seller_fee_basis_points: cm.data.seller_fee_basis_points,
        is_mutable: cm.data.is_mutable,
    }
}

/// The `CreateMasterEditionV3` instruction of a legacy mint.
pub open spec fn master_edition_call(cm: &CandyMachine, a: &MintAccounts) -> MetadataCall {
    MetadataCall::CreateMasterEditionV3 {
        edition: a.nft_master_edition,
        mint: a.nft_mint,
        mint_authority: a.nft_mint_authority,
        update_authority: a.authority_pda,
        metadata: a.nft_metadata,
        payer: a.payer,
        system_program: a.system_program,
        token_program: a.spl_token_program,
        max_supply: cm.data.max_supply,
    }
}

/// The `UpdateMetadataAccountV2` instruction of a legacy mint.
pub open spec fn update_metadata_call(a: &MintAccounts, c: CollectionMetadata) -> MetadataCall {
    MetadataCall::UpdateMetadataAccountV2 {
        metadata: a.nft_metadata,
        update_authority: a.authority_pda,
        new_update_authority: c.update_authority,
        primary_sale_happened: true,
    }
}

/// The set-and-verify instruction of a legacy mint, sized where the collection has collection
/// details.
pub open spec fn set_and_verify_call(a: &MintAccounts, c: CollectionMetadata) -> MetadataCall {
    MetadataCall::SetAndVerifyCollection {
        sized: c.has_collection_details,
        metadata: a.nft_metadata,
        collection_authority: a.authority_pda,
        collection_authority_record: a.collection_delegate_record,
        collection: a.collection_metadata,
        collection_master_edition_account: a.collection_master_edition,
        collection_mint: a.collection_mint,
        update_authority: a.collection_update_authority,
        payer: a.payer,
    }
}

/// The instructions of a mint through the legacy metadata instructions.
pub open spec fn create_calls(cm: &CandyMachine, a: &MintAccounts, c: CollectionMetadata) -> Seq<MetadataCall> {
    seq![
        create_metadata_call(cm, a),
        master_edition_call(cm, a),
        update_metadata_call(a, c),
        set_and_verify_call(a, c),
    ]
}

/// Whether the candy machine mints programmable NFTs.
pub open spec fn is_programmable(cm: &CandyMachine) -> bool {
    cm.token_standard == programmable_code()
}

/// The `CreateV1` instruction of a mint (the instructions sysvar given).
pub open spec fn create_v1_call(cm: &CandyMachine, a: &MintAccounts) -> MetadataCall {
    MetadataCall::CreateV1 {
        metadata: a.nft_metadata,
        mint: a.nft_mint,
        mint_is_signer: a.nft_mint_is_signer,
        authority: a.nft_mint_authority,
        payer: a.payer,
        update_authority: a.authority_pda,
        master_edition: a.nft_master_edition,
        system_program: a.system_program,
        sysvar_instructions: a.sysvar_instructions.unwrap(),
        spl_token_program: a.spl_token_program,
        programmable: is_programmable(cm),
        seller_fee_basis_points: cm.data.seller_fee_basis_points,
        is_mutable: cm.data.is_mutable,
        collection: cm.collection_mint,
        decimals: 0,
        print_supply: if cm.data.max_supply == 0 {
            None
        } else {
            Some(cm.data.max_supply)
        },
    }
}

/// The `MintV1` instruction of a mint: one token, with the token record for programmable NFTs.
pub open spec fn mint_v1_call(cm: &CandyMachine, a: &MintAccounts) -> MetadataCall {
    MetadataCall::MintV1 {
        token: a.token.unwrap(),
        token_owner: a.nft_owner,
        metadata: a.nft_metadata,
        master_edition: a.nft_master_edition,
        mint: a.nft_mint,
        payer: a.payer,
        authority: a.authority_pda,
        token_record: if is_programmable(cm) {
            a.token_record
        } else {
            None
        },
        system_program: a.system_program,
        sysvar_instructions: a.sysvar_instructions.unwrap(),
        spl_token_program: a.spl_token_program,
        spl_ata_program: a.spl_ata_program.unwrap(),
        amount: 1,
    }
}

/// The `UpdateV1` instruction of a mint: primary sale happened, the collection's update
/// authority takes over, and programmable NFTs get their rule set.
pub open spec fn update_v1_call(cm: &CandyMachine, a: &MintAccounts, c: CollectionMetadata) -> MetadataCall {
    MetadataCall::UpdateV1 {
        authority: a.authority_pda,
        token: a.token.unwrap(),
        metadata: a.nft_metadata,
        edition: a.nft_master_edition,
        mint: a.nft_mint,
        payer: a.payer,
        system_program: a.system_program,
        sysvar_instructions: a.sysvar_instructions.unwrap(),
        primary_sale_happened: true,
        new_update_authority: c.update_authority,
        rule_set: if is_programmable(cm) {
            rule_set_of(cm, c)
        } else {
            None
        },
    }
}

/// The `VerifyCollectionV1` instruction of a mint.
pub open spec fn verify_collection_call(a: &MintAccounts) -> MetadataCall {
    MetadataCall::VerifyCollectionV1 {
        authority: a.authority_pda,
        delegate_record: a.collection_delegate_record,
        metadata: a.nft_metadata,
        collection_mint: a.collection_mint,
        collection_metadata: a.collection_metadata,
        collection_master_edition: a.collection_master_edition,
        system_program: a.system_program,
        sysvar_instructions: a.sysvar_instructions.unwrap(),
    }
}

/// The instructions of a mint through `CreateV1` and `MintV1`, and the error it ends with
/// where an account it needs is missing.
pub open spec fn create_and_mint_steps(cm: &CandyMachine, a: &MintAccounts, c: CollectionMetadata) -> (Seq<MetadataCall>, Option<CandyError>) {
    if a.sysvar_instructions is None {
        (Seq::empty(), Some(CandyError::MissingInstructionsSysvar))
    } else if a.token is None {
        (seq![create_v1_call(cm, a)], Some(CandyError::MissingTokenAccount))
    } else if is_programmable(cm) && a.token_record is None {
        (seq![create_v1_call(cm, a)], Some(CandyError::MissingTokenRecord))
    } else if a.spl_ata_program is None {
        (seq![create_v1_call(cm, a)], Some(CandyError::MissingSplAtaProgram))
    } else {
        (
            seq![
                create_v1_call(cm, a),
                mint_v1_call(cm, a),
                update_v1_call(cm, a, c),
                verify_collection_call(a),
            ],
            None,
        )
    }
}

/// The program and signer seeds of a mint's plan: the token metadata program, and the
/// authority seeds `candy_machine`, the candy machine's address and the bump.
pub open spec fn signed_by(plan: &MintPlan, a: &MintAccounts, candy_machine_key: [u8; 32], bump: u8) -> bool {
    &&& plan.program == a.token_metadata_program
    &&& plan.seed_prefix@ == authority_seed()
    &&& plan.seed_key == candy_machine_key
    &&& plan.bump == bump
}

/// The metadata steps of a mint, by the candy machine's version.
pub open spec fn mint_steps(cm: &CandyMachine, a: &MintAccounts, c: CollectionMetadata) -> (Seq<MetadataCall>, Option<CandyError>) {
    match cm.version {
        AccountVersion::V1 => (create_calls(cm, a, c), None),
        AccountVersion::V2 => create_and_mint_steps(cm, a, c),
    }
}

/// The collection metadata that the record named for `data` holds.
pub open spec fn record_collection(data: Seq<u8>, c: CollectionMetadata) -> bool {
    metadata_record(data) == Some(collection_view(c))
}

/// Appends the bytes of `src` to `out`.
fn push_all(out: &mut Vec<u8>, src: &[u8])
    ensures
        final(out)@ == old(out)@ + src@,
{
    let mut i: usize = 0;
    while i < src.len()
        invariant
            0 <= i <= src.len(),
            out@ == old(out)@ + src@.take(i as int),
        decreases src.len() - i,
    {
        out.push(src[i]);
        i = i + 1;
        assert(out@ =~= old(out)@ + src@.take(i as int));
    }
    assert(src@.take(src.len() as int) =~= src@);
}

/// The sum of the 32 bytes of `b`.
fn sum_bytes(b: &[u8; 32]) -> (res: u64)
    ensures
        res == byte_sum(b@),
        res <= 8160,
{
    let mut acc: u64 = 0;
    let mut i: usize = 0;
    while i < 32
        invariant
            0 <= i <= 32,
            b@.len() == 32,
            acc == byte_sum(b@.take(i as int)),
            acc <= 255 * i,
        decreases 32 - i,
    {
        assert(b@.take(i + 1).drop_last() =~= b@.take(i as int));
        acc = acc + b[i] as u64;
        i = i + 1;
    }
    assert(b@.take(32) =~= b@);
    acc
}

/// The creators of the minted item: the authority, verified and with no share, then the
/// candy machine's creators, unverified and with their shares.
pub fn metadata_creators(authority_pda: &[u8; 32], creators: &Vec<Creator>) -> (res: Vec<MetadataCreator>)
    ensures
        res@ == item_creators(*authority_pda, creators@),
{
    let mut out: Vec<MetadataCreator> = Vec::new();
    out.push(MetadataCreator { address: *authority_pda, verified: true, share: 0 });
    let ghost first = seq![MetadataCreator { address: *authority_pda, verified: true, share: 0 }];
    let mut i: usize = 0;
    while i < creators.len()
        invariant
            0 <= i <= creators.len(),
            out@ == first + creators@.take(i as int).map_values(|c: Creator| listed_creator(c)),
        decreases creators.len() - i,
    {
        let c = creators[i];
        out.push(MetadataCreator { address: c.address, verified: false, share: c.percentage_share });
        i = i + 1;
        assert(out@ =~= first + creators@.take(i as int).map_values(|c: Creator| listed_creator(c)));
    }
    assert(creators@.take(creators.len() as int) =~= creators@);
    out
}

/// The rule set of a new programmable NFT: the one stored on the candy machine account, or
/// else the one in the collection's programmable configuration.
pub fn get_rule_set(candy_machine: &CandyMachine, collection_metadata: &CollectionMetadata) -> (res: Option<[u8; 32]>)
    ensures
        res == rule_set_of(candy_machine, *collection_metadata),
{
    match candy_machine.rule_set {
        Some(r) => Some(r),
        None => collection_metadata.rule_set,
    }
}

/// The metadata steps of a mint through the legacy instructions: create the metadata
/// account, create the master edition with the candy machine's maximum supply, hand the
/// update authority to the collection's, and set and verify the collection (sized where the
/// collection has collection details); each is invoked on the token metadata program and
/// signed with the authority seeds of the candy machine at `candy_machine_key`.
pub fn create(
    candy_machine: &CandyMachine,
    candy_machine_key: &[u8; 32],
    accounts: &MintAccounts,
    bump: u8,
    config_line: ConfigLine,
    creators: Vec<MetadataCreator>,
    collection_metadata: &CollectionMetadata,
) -> (plan: MintPlan)
    ensures
        signed_by(&plan, accounts, *candy_machine_key, bump),
        plan.config_line == config_line,
        plan.symbol@ == candy_machine.data.symbol@,
        plan.creators == creators,
        plan.calls@ == create_calls(candy_machine, accounts, *collection_metadata),
        plan.failure is None,
{
    let a = accounts;
    let c = collection_metadata;
    let mut calls: Vec<MetadataCall> = Vec::new();
    calls.push(
        MetadataCall::CreateMetadataAccountV3 {
            metadata: a.nft_metadata,
            mint: a.nft_mint,
            mint_authority: a.nft_mint_authority,
            payer: a.payer,
            update_authority: a.authority_pda,
            system_program: a.system_program,
            seller_fee_basis_points: candy_machine.data.seller_fee_basis_points,
            is_mutable: candy_machine.data.is_mutable,
        },
    );
    calls.push(
        MetadataCall::CreateMasterEditionV3 {
            edition: a.nft_master_edition,
            mint: a.nft_mint,
            mint_authority: a.nft_mint_authority,
            update_authority: a.authority_pda,
            metadata: a.nft_metadata,
            payer: a.payer,
            system_program: a.system_program,
            token_program: a.spl_token_program,
            max_supply: candy_machine.data.max_supply,
        },
    );
    calls.push(
        MetadataCall::UpdateMetadataAccountV2 {
            metadata: a.nft_metadata,
            update_authority: a.authority_pda,
            new_update_authority: c.update_authority,
            primary_sale_happened: true,
        },
    );
    calls.push(
        MetadataCall::SetAndVerifyCollection {
            sized: c.has_collection_details,
            metadata: a.nft_metadata,
            collection_authority: a.authority_pda,
            collection_authority_record: a.collection_delegate_record,
            collection: a.collection_metadata,
            collection_master_edition_account: a.collection_master_edition,
            collection_mint: a.collection_mint,
            update_authority: a.collection_update_authority,
            payer: a.payer,
        },
    );
    assert(calls@ =~= create_calls(candy_machine, accounts, *collection_metadata));
    MintPlan {
        program: a.token_metadata_program,
        seed_prefix: authority_seed_bytes(),
        seed_key: *candy_machine_key,
        bump,
        config_line,
        symbol: candy_machine.data.symbol.clone(),
        creators,
        calls,
        failure: None,
    }
}

/// The metadata steps of a mint through `CreateV1`: create the NFT (programmable where the
/// candy machine's token standard says so, print supply zero or limited to the maximum
/// supply), mint one token, update it (update authority to the collection's, rule set for
/// programmable NFTs) and verify it into the collection; each is invoked on the token
/// metadata program and signed with the authority seeds of the candy machine at
/// `candy_machine_key`. The instructions sysvar is needed before anything is created; the
/// token account, the token record (programmable NFTs only) and the associated token program
/// after the creation.
pub fn create_and_mint(
    candy_machine: &CandyMachine,
    candy_machine_key: &[u8; 32],
    accounts: &MintAccounts,
    bump: u8,
    config_line: ConfigLine,
    creators: Vec<MetadataCreator>,
    collection_metadata: &CollectionMetadata,
) -> (plan: MintPlan)
    ensures
        signed_by(&plan, accounts, *candy_machine_key, bump),
        plan.config_line == config_line,
        plan.symbol@ == candy_machine.data.symbol@,
        plan.creators == creators,
        (plan.calls@, plan.failure) == create_and_mint_steps(
            candy_machine,
            accounts,
            *collection_metadata,
        ),
{
    let a = accounts;
    let mut calls: Vec<MetadataCall> = Vec::new();
    let mut failure: Option<CandyError> = None;
    let sysvar = match a.sysvar_instructions {
        Some(k) => k,
        None => [0u8; 32],
    };
    if a.sysvar_instructions.is_none() {
        failure = Some(CandyError::MissingInstructionsSysvar);
    } else {
        let programmable = candy_machine.token_standard == programmable_standard();
        let print_supply = if candy_machine.data.max_supply == 0 {
            None
        } else {
            Some(candy_machine.data.max_supply)
        };
        calls.push(
            MetadataCall::CreateV1 {
                metadata: a.nft_metadata,
                mint: a.nft_mint,
                mint_is_signer: a.nft_mint_is_signer,
                authority: a.nft_mint_authority,
                payer: a.payer,
                update_authority: a.authority_pda,
                master_edition: a.nft_master_edition,
                system_program: a.system_program,
                sysvar_instructions: sysvar,
                spl_token_program: a.spl_token_program,
                programmable,
                seller_fee_basis_points: candy_machine.data.seller_fee_basis_points,
                is_mutable: candy_machine.data.is_mutable,
                collection: candy_machine.collection_mint,
                decimals: 0,
                print_supply,
            },
        );
        match (a.token, a.spl_ata_program) {
            (None, _) => {
                failure = Some(CandyError::MissingTokenAccount);
            },
            (Some(token), spl_ata) => {
                if programmable && a.token_record.is_none() {
                    failure = Some(CandyError::MissingTokenRecord);
                } else {
                    match spl_ata {
                        None => {
                            failure = Some(CandyError::MissingSplAtaProgram);
                        },
                        Some(spl_ata_program) => {
                            calls.push(
                                MetadataCall::MintV1 {
                                    token,
                                    token_owner: a.nft_owner,
                                    metadata: a.nft_metadata,
                                    master_edition: a.nft_master_edition,
                                    mint: a.nft_mint,
                                    payer: a.payer,
                                    authority: a.authority_pda,
                                    token_record: if programmable {
                                        a.token_record
                                    } else {
                                        None
                                    },
                                    system_program: a.system_program,
                                    sysvar_instructions: sysvar,
                                    spl_token_program: a.spl_token_program,
                                    spl_ata_program,
                                    amount: 1,
                                },
                            );
                            let rule_set = if programmable {
                                get_rule_set(candy_machine, collection_metadata)
                            } else {
                                None
                            };
                            calls.push(
                                MetadataCall::UpdateV1 {
                                    authority: a.authority_pda,
                                    token,
                                    metadata: a.nft_metadata,
                                    edition: a.nft_master_edition,
                                    mint: a.nft_mint,
                                    payer: a.payer,
                                    system_program: a.system_program,
                                    sysvar_instructions: sysvar,
                                    primary_sale_happened: true,
                                    new_update_authority: collection_metadata.update_authority,
                                    rule_set,
                                },
                            );
                            calls.push(
                                MetadataCall::VerifyCollectionV1 {
                                    authority: a.authority_pda,
                                    delegate_record: a.collection_delegate_record,
                                    metadata: a.nft_metadata,
                                    collection_mint: a.collection_mint,
                                    collection_metadata: a.collection_metadata,
                                    collection_master_edition: a.collection_master_edition,
                                    system_program: a.system_program,
                                    sysvar_instructions: sysvar,
                                },
                            );
                        },
                    }
                }
            },
        }
    }
    assert(calls@ =~= create_and_mint_steps(candy_machine, accounts, *collection_metadata).0);
    MintPlan {
        program: a.token_metadata_program,
        seed_prefix: authority_seed_bytes(),
        seed_key: *candy_machine_key,
        bump,
        config_line,
        symbol: candy_machine.data.symbol.clone(),
        creators,
        calls,
        failure,
    }
}

/// Mints the next item. Refuses the mint where the NFT's metadata account is not empty, no
/// item is left, the collection mint is not the candy machine's, the collection metadata is
/// not owned by the token metadata program or holds no metadata record, its update authority
/// is not the given one, the request was already revealed, or the digest of the authority's
/// address is not the request's key hash (checked in this order). Otherwise reveals the
/// randomness (the digest of the authority, the blockhash and the seed) into the request with
/// the time `unix_timestamp`, draws the index of the item from it, takes the item's config
/// line (removing a drawn index from the available ones), counts the item as redeemed and
/// returns the metadata steps for the candy machine's version, signed with `bump`.
pub fn process_mint(
    candy_machine: &mut CandyMachine,
    candy_machine_key: &[u8; 32],
    config_data: &mut Vec<u8>,
    accounts: &MintAccounts,
    req: &mut RequestAccountData,
    bump: u8,
    unix_timestamp: i64,
) -> (res: Result<MintPlan, CandyError>)
    requires
        config_layout_ok(old(candy_machine), old(config_data)@),
    ensures
        old(req).pubkey_hash@ == sha256(accounts.authority_pda@) ==> res != Err::<MintPlan, CandyError>(
            CandyError::KeyVerifyFailed,
        ),
        mint_refusal(old(candy_machine), accounts, *old(req)) matches Some(e) ==> {
            &&& res == Err::<MintPlan, CandyError>(e)
            &&& *final(candy_machine) == *old(candy_machine)
            &&& final(config_data)@ == old(config_data)@
            &&& *final(req) == *old(req)
        },
        mint_refusal(old(candy_machine), accounts, *old(req)) is None ==> {
            let r = revealed_randomness(accounts, *old(req));
            let index = drawn_index(old(candy_machine), r);
            let redeemed = old(candy_machine).items_redeemed;
            &&& 0 <= index < remaining_items(old(candy_machine))
            &&& final(req).result@ == r
            &&& *final(req) == (RequestAccountData {
                result: final(req).result,
                reveal_timestamp: unix_timestamp,
                ..*old(req)
            })
            &&& final(config_data)@ == data_after(
                old(candy_machine),
                old(config_data)@,
                index as usize,
                redeemed,
            )
            &&& match config_line_outcome(
                old(candy_machine),
                old(config_data)@,
                index as usize,
                redeemed,
            ) {
                Err(e) => res == Err::<MintPlan, CandyError>(e) && *final(candy_machine)
                    == *old(candy_machine),
                Ok(line) => res is Ok && {
                    let plan = res.unwrap();
                    &&& (plan.config_line.name@, plan.config_line.uri@) == line
                    &&& *final(candy_machine) == (CandyMachine {
                        items_redeemed: (redeemed + 1) as u64,
                        ..*old(candy_machine)
                    })
                    &&& plan.creators@ == item_creators(
                        accounts.authority_pda,
                        old(candy_machine).data.creators@,
                    )
                    &&& signed_by(&plan, accounts, *candy_machine_key, bump)
                    &&& config_layout_ok(final(candy_machine), final(config_data)@)
                    &&& plan.symbol@ == old(candy_machine).data.symbol@
                    &&& exists|c: CollectionMetadata|
                        #[trigger] record_collection(accounts.collection_metadata_data@, c) && (
                        plan.calls@,
                        plan.failure,
                    ) == mint_steps(old(candy_machine), accounts, c)
                },
            }
        },
{
    if !accounts.nft_metadata_is_empty {
        return Err(CandyError::MetadataAccountMustBeEmpty);
    }
    if candy_machine.items_redeemed >= candy_machine.data.items_available {
        return Err(CandyError::CandyMachineEmpty);
    }
    if !keys_equal(&accounts.collection_mint, &candy_machine.collection_mint) {
        return Err(CandyError::CollectionKeyMismatch);
    }
    let metadata_program = token_metadata_program_id();
    if !keys_equal(&accounts.collection_metadata_owner, &metadata_program) {
        return Err(CandyError::IncorrectOwner);
    }
    let collection_metadata = match read_collection_metadata(
        accounts.collection_metadata_data.as_slice(),
    ) {
        Some(c) => c,
        None => return Err(CandyError::InvalidCollectionMetadata),
    };
    if !keys_equal(&collection_metadata.update_authority, &accounts.collection_update_authority) {
        return Err(CandyError::IncorrectCollectionAuthority);
    }
    let pubkey = accounts.authority_pda;
    if req.reveal_timestamp > 0 {
        return Err(CandyError::RequestAlreadyRevealed);
    }
    let seed = u32_to_le(req.seed);
    let blockhash = req.blockhash;
    let key_hash = hash(pubkey.as_slice());
    if !keys_equal(&key_hash, &req.pubkey_hash) {
        return Err(CandyError::KeyVerifyFailed);
    }
    let mut input: Vec<u8> = Vec::new();
    push_all(&mut input, pubkey.as_slice());
    push_all(&mut input, blockhash.as_slice());
    push_all(&mut input, seed.as_slice());
    assert(input@ =~= reveal_input(accounts.authority_pda@, *old(req)));
    let randomness = hash(input.as_slice());
    req.result = randomness;
    req.reveal_timestamp = unix_timestamp;
    let remaining = candy_machine.data.items_available - candy_machine.items_redeemed;
    let sum = sum_bytes(&randomness);
    let remainder = (sum % remaining) as usize;
    let mint_number = candy_machine.items_redeemed;
    proof {
        lemma_layout_in_bounds(candy_machine, config_data@, remainder);
        lemma_layout_kept(candy_machine, config_data@, remainder);
    }
    let config_line = match get_config_line(candy_machine, config_data, remainder, mint_number) {
        Ok(l) => l,
        Err(e) => return Err(e),
    };
    candy_machine.items_redeemed = candy_machine.items_redeemed + 1;
    let creators = metadata_creators(&accounts.authority_pda, &candy_machine.data.creators);
    let plan = match candy_machine.version {
        AccountVersion::V1 => create(
            candy_machine,
            candy_machine_key,
            accounts,
            bump,
            config_line,
            creators,
            &collection_metadata,
        ),
        AccountVersion::V2 => create_and_mint(
            candy_machine,
            candy_machine_key,
            accounts,
            bump,
            config_line,
            creators,
            &collection_metadata,
        ),
    };
    assert(record_collection(accounts.collection_metadata_data@, collection_metadata));
    Ok(plan)
}


/// The account checks of a mint, those made before the request is looked at, pass.
pub open spec fn account_checks_pass(cm: &CandyMachine, a: &MintAccounts) -> bool {
    &&& a.nft_metadata_is_empty
    &&& cm.items_redeemed < cm.data.items_available
    &&& a.collection_mint@ == cm.collection_mint@
    &&& a.collection_metadata_owner@ == token_metadata_program_bytes()
    &&& metadata_record(a.collection_metadata_data@) matches Some(record) && record.0
        == a.collection_update_authority@
}

/// A request is revealed at most once: once a mint has revealed it (with a positive time),
/// every further mint on it is refused, with `RequestAlreadyRevealed` where the account
/// checks pass.
pub proof fn lemma_revealed_request_is_refused(cm: &CandyMachine, a: &MintAccounts, req: RequestAccountData)
    requires
        req.reveal_timestamp > 0,
    ensures
        mint_refusal(cm, a, req) is Some,
        account_checks_pass(cm, a) ==> mint_refusal(cm, a, req) == Some(
            CandyError::RequestAlreadyRevealed,
        ),
{
}

/// A request that `mint_v2` prepared for an authority (it records the digest of the
/// authority's address) and that is not revealed yet is accepted for that same authority by
/// every mint whose account checks pass.
pub proof fn lemma_requested_authority_is_accepted(cm: &CandyMachine, a: &MintAccounts, req: RequestAccountData)
    requires
        req.pubkey_hash@ == sha256(a.authority_pda@),
        req.reveal_timestamp <= 0,
        account_checks_pass(cm, a),
    ensures
        mint_refusal(cm, a, req) is None,
{
}

/// The byte sum adds up over concatenation, and a single byte counts with its value.
pub proof fn lemma_byte_sum_concat(a: Seq<u8>, b: Seq<u8>)
    ensures
        byte_sum(a + b) == byte_sum(a) + byte_sum(b),
        byte_sum(Seq::<u8>::empty()) == 0,
        forall|x: u8| byte_sum(#[trigger] seq![x]) == x as int,
    decreases b.len(),
{
    assert forall|x: u8| byte_sum(#[trigger] seq![x]) == x as int by {
        assert(seq![x].drop_last() =~= Seq::<u8>::empty());
        assert(byte_sum(Seq::<u8>::empty()) == 0);
        assert(seq![x].last() == x);
    }
    if b.len() > 0 {
        lemma_byte_sum_concat(a, b.drop_last());
        assert((a + b).drop_last() =~= a + b.drop_last());
    } else {
        assert(a + b =~= a);
    }
}

/// The drawn position is the byte sum of the randomness modulo the number of items still to be
/// minted: a byte sum below that number is the position itself, and byte sums that differ by
/// that number draw the same position, so every remaining position is drawn for the same
/// residues of the byte sum.
pub proof fn lemma_drawn_position_by_residue(cm: &CandyMachine, r1: Seq<u8>, r2: Seq<u8>)
    requires
        cm.items_redeemed < cm.data.items_available,
    ensures
        0 <= drawn_index(cm, r1) < cm.data.items_available - cm.items_redeemed,
        byte_sum(r1) < cm.data.items_available - cm.items_redeemed ==> drawn_index(cm, r1)
            == byte_sum(r1),
        byte_sum(r2) == byte_sum(r1) + (cm.data.items_available - cm.items_redeemed) ==> drawn_index(
            cm,
            r2,
        ) == drawn_index(cm, r1),
{
    let n = cm.data.items_available - cm.items_redeemed;
    lemma_byte_sum_nonnegative(r1);
    lemma_byte_sum_nonnegative(r2);
    let x = byte_sum(r1);
    assert(0 <= x % n < n) by (nonlinear_arith)
        requires
            n > 0,
    ;
    assert(x < n ==> x % n == x) by (nonlinear_arith)
        requires
            n > 0,
            x >= 0,
    ;
    assert((x + n) % n == x % n) by (nonlinear_arith)
        requires
            n > 0,
    ;
}

/// A byte sum is never negative.
proof fn lemma_byte_sum_nonnegative(s: Seq<u8>)
    ensures
        byte_sum(s) >= 0,
    decreases s.len(),
{
    if s.len() > 0 {
        lemma_byte_sum_nonnegative(s.drop_last());
    }
}

/// The instructions of a legacy (V1) mint: the metadata account of the NFT's mint created with
/// the candy machine's seller fee and mutability, the master edition with the candy machine's
/// configured maximum supply, the update authority handed to the collection's with the
/// primary sale marked, and the item set and verified into the collection (sized exactly when
/// the collection has collection details); the authority PDA is the update and collection
/// authority throughout.
pub proof fn lemma_legacy_mint_instructions(cm: &CandyMachine, a: &MintAccounts, c: CollectionMetadata)
    ensures
        ({
            let calls = create_calls(cm, a, c);
            &&& calls.len() == 4
            &&& calls[0] matches MetadataCall::CreateMetadataAccountV3 {
                metadata,
                mint,
                mint_authority,
                payer,
                update_authority,
                system_program,
                seller_fee_basis_points,
                is_mutable,
            } && metadata == a.nft_metadata && mint == a.nft_mint && mint_authority
                == a.nft_mint_authority && payer == a.payer && update_authority == a.authority_pda
                && system_program == a.system_program && seller_fee_basis_points
                == cm.data.seller_fee_basis_points && is_mutable == cm.data.is_mutable
            &&& calls[1] matches MetadataCall::CreateMasterEditionV3 {
                edition,
                mint,
                mint_authority,
                update_authority,
                metadata,
                payer,
                system_program,
                token_program,
                max_supply,
            } && edition == a.nft_master_edition && mint == a.nft_mint && mint_authority
                == a.nft_mint_authority && update_authority == a.authority_pda && metadata
                == a.nft_metadata && payer == a.payer && system_program == a.system_program
                && token_program == a.spl_token_program && max_supply == cm.data.max_supply
            &&& calls[2] matches MetadataCall::UpdateMetadataAccountV2 {
                metadata,
                update_authority,
                new_update_authority,
                primary_sale_happened,
            } && metadata == a.nft_metadata && update_authority == a.authority_pda
                && new_update_authority == c.update_authority && primary_sale_happened
            &&& calls[3] matches MetadataCall::SetAndVerifyCollection {
                sized,
                metadata,
                collection_authority,
                collection_authority_record,
                collection,
                collection_master_edition_account,
                collection_mint,
                update_authority,
                payer,
            } && sized == c.has_collection_details && metadata == a.nft_metadata
                && collection_authority == a.authority_pda && collection_authority_record
                == a.collection_delegate_record && collection == a.collection_metadata
                && collection_master_edition_account == a.collection_master_edition
                && collection_mint == a.collection_mint && update_authority
                == a.collection_update_authority && payer == a.payer
        }),
{
}

/// The instructions of a mint through `CreateV1` where every account is given: the NFT created
/// with the candy machine's seller fee, mutability, collection key (unverified), no decimals,
/// programmable exactly for the programmable token standard and with print supply zero where
/// the maximum supply is 0 and limited to it otherwise; one token minted to the owner, with the
/// token record for programmable NFTs only; the update handing the update authority to the
/// collection's with the primary sale marked and, for programmable NFTs only, the rule set of
/// the candy machine or else of the collection; and the verification into the collection.
pub proof fn lemma_create_and_mint_instructions(cm: &CandyMachine, a: &MintAccounts, c: CollectionMetadata)
    requires
        a.sysvar_instructions is Some,
        a.token is Some,
        a.spl_ata_program is Some,
        cm.token_standard == 4 ==> a.token_record is Some,
    ensures
        ({
            let (calls, failure) = create_and_mint_steps(cm, a, c);
            let programmable = cm.token_standard == 4;
            &&& failure is None
            &&& calls.len() == 4
            &&& calls[0] matches MetadataCall::CreateV1 {
                metadata,
                mint,
                mint_is_signer,
                authority,
                payer,
                update_authority,
                master_edition,
                system_program,
                sysvar_instructions,
                spl_token_program,
                programmable: p,
                seller_fee_basis_points,
                is_mutable,
                collection,
                decimals,
                print_supply,
            } && metadata == a.nft_metadata && mint == a.nft_mint && mint_is_signer
                == a.nft_mint_is_signer && authority == a.nft_mint_authority && payer == a.payer
                && update_authority == a.authority_pda && master_edition == a.nft_master_edition
                && system_program == a.system_program && Some(sysvar_instructions)
                == a.sysvar_instructions && spl_token_program == a.spl_token_program && p
                == programmable && seller_fee_basis_points == cm.data.seller_fee_basis_points
                && is_mutable == cm.data.is_mutable && collection == cm.collection_mint && decimals
                == 0 && (cm.data.max_supply == 0 ==> print_supply is None) && (cm.data.max_supply
                != 0 ==> print_supply == Some(cm.data.max_supply))
            &&& calls[1] matches MetadataCall::MintV1 {
                token,
                token_owner,
                metadata,
                master_edition,
                mint,
                payer,
                authority,
                token_record,
                system_program,
                sysvar_instructions,
                spl_token_program,
                spl_ata_program,
                amount,
            } && Some(token) == a.token && token_owner == a.nft_owner && metadata == a.nft_metadata
                && master_edition == a.nft_master_edition && mint == a.nft_mint && payer == a.payer
                && authority == a.authority_pda && (programmable ==> token_record == a.token_record)
                && (!programmable ==> token_record is None) && system_program == a.system_program
                && Some(sysvar_instructions) == a.sysvar_instructions && spl_token_program
                == a.spl_token_program && Some(spl_ata_program) == a.spl_ata_program && amount == 1
            &&& calls[2] matches MetadataCall::UpdateV1 {
                authority,
                token,
                metadata,
                edition,
                mint,
                payer,
                system_program,
                sysvar_instructions,
                primary_sale_happened,
                new_update_authority,
                rule_set,
            } && authority == a.authority_pda && Some(token) == a.token && metadata
                == a.nft_metadata && edition == a.nft_master_edition && mint == a.nft_mint && payer
                == a.payer && system_program == a.system_program && Some(sysvar_instructions)
                == a.sysvar_instructions && primary_sale_happened && new_update_authority
                == c.update_authority && (!programmable ==> rule_set is None) && (programmable
                && cm.rule_set is Some ==> rule_set == cm.rule_set) && (programmable
                && cm.rule_set is None ==> rule_set == c.rule_set)
            &&& calls[3] matches MetadataCall::VerifyCollectionV1 {
                authority,
                delegate_record,
                metadata,
                collection_mint,
                collection_metadata,
                collection_master_edition,
                system_program,
                sysvar_instructions,
            } && authority == a.authority_pda && delegate_record == a.collection_delegate_record
                && metadata == a.nft_metadata && collection_mint == a.collection_mint
                && collection_metadata == a.collection_metadata && collection_master_edition
                == a.collection_master_edition && system_program == a.system_program && Some(
                sysvar_instructions,
            ) == a.sysvar_instructions
        }),
{
}

/// What the revealed randomness digests: the 32 bytes of the authority's address, then the 32
/// bytes of the request's blockhash, then the request's seed as four little-endian bytes.
pub proof fn lemma_reveal_input_layout(authority_pda: [u8; 32], req: RequestAccountData)
    ensures
        reveal_input(authority_pda@, req).len() == 68,
        reveal_input(authority_pda@, req).subrange(0, 32) == authority_pda@,
        reveal_input(authority_pda@, req).subrange(32, 64) == req.blockhash@,
        u32_at(reveal_input(authority_pda@, req), 64) == req.seed,
{
    let s = reveal_input(authority_pda@, req);
    lemma_le_round_trip(req.seed);
    assert(s.subrange(0, 32) =~= authority_pda@);
    assert(s.subrange(32, 64) =~= req.blockhash@);
    assert(s[64] == le_bytes(req.seed)[0]);
    assert(s[65] == le_bytes(req.seed)[1]);
    assert(s[66] == le_bytes(req.seed)[2]);
    assert(s[67] == le_bytes(req.seed)[3]);
}

/// Why a mint is refused, check by check in the order they are made: a metadata account
/// that is not empty; no item left; another collection mint; collection metadata not owned by
/// the token metadata program; no metadata record in it; another update authority; a request
/// already revealed; a key hash that is not the digest of the authority's address. A mint is
/// refused exactly when one of these holds.
pub proof fn lemma_mint_refusal_reasons(cm: &CandyMachine, a: &MintAccounts, req: RequestAccountData)
    ensures
        !a.nft_metadata_is_empty ==> mint_refusal(cm, a, req) == Some(
            CandyError::MetadataAccountMustBeEmpty,
        ),
        a.nft_metadata_is_empty && cm.items_redeemed >= cm.data.items_available ==> mint_refusal(
            cm,
            a,
            req,
        ) == Some(CandyError::CandyMachineEmpty),
        a.nft_metadata_is_empty && cm.items_redeemed < cm.data.items_available && a.collection_mint@
            != cm.collection_mint@ ==> mint_refusal(cm, a, req) == Some(
            CandyError::CollectionKeyMismatch,
        ),
        a.nft_metadata_is_empty && cm.items_redeemed < cm.data.items_available && a.collection_mint@
            == cm.collection_mint@ && a.collection_metadata_owner@ != token_metadata_program_bytes()
            ==> mint_refusal(cm, a, req) == Some(CandyError::IncorrectOwner),
        a.nft_metadata_is_empty && cm.items_redeemed < cm.data.items_available && a.collection_mint@
            == cm.collection_mint@ && a.collection_metadata_owner@ == token_metadata_program_bytes()
            && metadata_record(a.collection_metadata_data@) is None ==> mint_refusal(cm, a, req)
            == Some(CandyError::InvalidCollectionMetadata),
        account_checks_pass(cm, a) && req.reveal_timestamp > 0 ==> mint_refusal(cm, a, req) == Some(
            CandyError::RequestAlreadyRevealed,
        ),
        account_checks_pass(cm, a) && req.reveal_timestamp <= 0 && sha256(a.authority_pda@)
            != req.pubkey_hash@ ==> mint_refusal(cm, a, req) == Some(CandyError::KeyVerifyFailed),
        mint_refusal(cm, a, req) is None <==> (account_checks_pass(cm, a) && req.reveal_timestamp
            <= 0 && sha256(a.authority_pda@) == req.pubkey_hash@),
{
}

} // verus!
