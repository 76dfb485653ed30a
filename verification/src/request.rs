//! The mint request: the container parameters that name every account of the
//! mint for the randomness function, and what the request account records.

use crate::keys::{hash, is_zero_key, sha256};
use crate::params::{
    decode_model, key_named, lemma_key_texts, params_text, zero_key,
    ContainerParams, ParamsError, ParamsModel,
};
use crate::state::RequestAccountData;
use vstd::prelude::*;

verus! {

/// The most bytes of container parameters the randomness request is created for.
pub const MAX_CONTAINER_PARAMS_LEN: u32 = 512;

/// The accounts of a mint request, by address.
pub struct MintV2 {
    pub candy_machine: [u8; 32],
    pub authority_pda: [u8; 32],
    pub mint_authority: [u8; 32],
    pub payer: [u8; 32],
    pub nft_owner: [u8; 32],
    pub nft_mint: [u8; 32],
    pub nft_mint_authority: [u8; 32],
    pub nft_metadata: [u8; 32],
    pub nft_master_edition: [u8; 32],
    pub token: Option<[u8; 32]>,
    pub token_record: Option<[u8; 32]>,
    pub collection_delegate_record: [u8; 32],
    pub collection_mint: [u8; 32],
    pub collection_metadata: [u8; 32],
    pub collection_master_edition: [u8; 32],
    pub collection_update_authority: [u8; 32],
    pub token_metadata_program: [u8; 32],
    pub spl_token_program: [u8; 32],
    pub spl_ata_program: Option<[u8; 32]>,
    pub system_program: [u8; 32],
    pub sysvar_instructions: [u8; 32],
    pub authorization_rules_program: Option<[u8; 32]>,
    pub authorization_rules: Option<[u8; 32]>,
    pub req: [u8; 32],
    pub authority: [u8; 32],
    pub switchboard: [u8; 32],
    pub switchboard_state: [u8; 32],
    pub switchboard_attestation_queue: [u8; 32],
    pub switchboard_function: [u8; 32],
    pub switchboard_request: [u8; 32],
    pub switchboard_request_escrow: [u8; 32],
    pub switchboard_mint: [u8; 32],
    pub token_program: [u8; 32],
    pub associated_token_program: [u8; 32],
}

/// An optional account by its address, the zero address where it is absent.
pub open spec fn key_or_zero(k: Option<[u8; 32]>) -> Seq<u8> {
    match k {
        Some(a) => a@,
        None => zero_key(),
    }
}

/// The address of an optional account, zero where it is absent.
fn address_or_zero(k: Option<[u8; 32]>) -> (res: [u8; 32])
    ensures
        res@ == key_or_zero(k),
{
    match k {
        Some(a) => a,
        None => {
            let z = [0u8; 32];
            assert(z@ =~= zero_key());
            z
        },
    }
}

/// The container parameters of a mint request: the program, the mint's accounts, the request
/// account and the authority's bump.
pub open spec fn request_params(program_id: [u8; 32], a: &MintV2, bump: u8) -> ParamsModel {
    ParamsModel {
        keys: seq![
            program_id@,
            a.candy_machine@,
            key_or_zero(a.spl_ata_program),
            a.authority_pda@,
            a.collection_delegate_record@,
            a.collection_master_edition@,
            a.collection_metadata@,
            a.collection_mint@,
            a.collection_update_authority@,
            a.nft_owner@,
            a.nft_master_edition@,
            a.nft_metadata@,
            a.nft_mint@,
            a.nft_mint_authority@,
            a.payer@,
            a.system_program@,
            a.sysvar_instructions@,
            key_or_zero(a.token),
            a.token_metadata_program@,
            a.spl_token_program@,
            key_or_zero(a.token_record),
            a.req@,
        ],
        bump,
    }
}

/// The invocation that creates and triggers the randomness request, as plain values: the
/// switchboard program it is made on, its accounts by address, and its arguments. It is
/// invoked with no signer seeds.
pub struct RequestInvocation {
    pub switchboard: [u8; 32],
    pub request: [u8; 32],
    pub authority: [u8; 32],
    pub function: [u8; 32],
    pub function_authority: Option<[u8; 32]>,
    pub escrow: [u8; 32],
    pub mint: [u8; 32],
    pub state: [u8; 32],
    pub attestation_queue: [u8; 32],
    pub payer: [u8; 32],
    pub system_program: [u8; 32],
    pub token_program: [u8; 32],
    pub associated_token_program: [u8; 32],
    pub bounty: Option<u64>,
    pub slots_until_expiration: Option<u64>,
    pub max_container_params_len: Option<u32>,
    pub container_params: Option<Vec<u8>>,
    pub garbage_collection_slot: Option<u64>,
    pub valid_after_slot: Option<u64>,
}

/// The accounts and the fixed arguments of a mint request's invocation: no bounty, the
/// default expiration, `MAX_CONTAINER_PARAMS_LEN` as the parameters' limit, no garbage
/// collection slot, valid at once, no function authority.
pub open spec fn request_invocation_fixed(inv: &RequestInvocation, a: &MintV2) -> bool {
    &&& inv.switchboard == a.switchboard
    &&& inv.request == a.switchboard_request
    &&& inv.authority == a.authority
    &&& inv.function == a.switchboard_function
    &&& inv.function_authority is None
    &&& inv.escrow == a.switchboard_request_escrow
    &&& inv.mint == a.switchboard_mint
    &&& inv.state == a.switchboard_state
    &&& inv.attestation_queue == a.switchboard_attestation_queue
    &&& inv.payer == a.payer
    &&& inv.system_program == a.system_program
    &&& inv.token_program == a.token_program
    &&& inv.associated_token_program == a.associated_token_program
    &&& inv.bounty is None
    &&& inv.slots_until_expiration is None
    &&& inv.max_container_params_len == Some(MAX_CONTAINER_PARAMS_LEN)
    &&& inv.garbage_collection_slot is None
    &&& inv.valid_after_slot is None
}

/// Prepares a mint request: returns the invocation that creates the randomness request, whose
/// container parameters are the text for the randomness function
/// (decoding them gives back the request's accounts, unless the program id or the request
/// account is the zero address; an absent token account, token record or associated token
/// program is written as the zero address, which decodes as unset) and records in the request
/// account its bump, the digest of the authority's address as the key it is revealed with, the
/// time `unix_timestamp` and the switchboard request. The text names 22 addresses and is passed
/// on unchanged, with `MAX_CONTAINER_PARAMS_LEN` as the limit the request is created with;
/// nothing here compares its length with that limit.
pub fn mint_v2(
    program_id: &[u8; 32],
    accounts: &MintV2,
    authority_bump: u8,
    req_bump: u8,
    unix_timestamp: i64,
    req: &mut RequestAccountData,
) -> (invocation: RequestInvocation)
    ensures
        request_invocation_fixed(&invocation, accounts),
        invocation.container_params matches Some(params) && params@ == params_text(
            request_params(*program_id, accounts, authority_bump),
        ),
        decode_model(params_text(request_params(*program_id, accounts, authority_bump))) == (if is_zero_key(program_id@) {
            Err(ParamsError::ProgramIdUndefined)
        } else if is_zero_key(accounts.req@) {
            Err(ParamsError::RequestKeyUndefined)
        } else {
            Ok(request_params(*program_id, accounts, authority_bump))
        }),
        final(req).pubkey_hash@ == sha256(accounts.authority_pda@),
        *final(req) == (RequestAccountData {
            bump: req_bump,
            pubkey_hash: final(req).pubkey_hash,
            request_timestamp: unix_timestamp,
            switchboard_request: accounts.switchboard_request,
            ..*old(req)
        }),
{
    let spl_ata_program = address_or_zero(accounts.spl_ata_program);
    let token = address_or_zero(accounts.token);
    let token_record = address_or_zero(accounts.token_record);
    let params = ContainerParams {
        program_id: *program_id,
        request_key: accounts.req,
        candy_machine: accounts.candy_machine,
        spl_ata_program,
        authority_pda: accounts.authority_pda,
        collection_delegate_record: accounts.collection_delegate_record,
        collection_master_edition: accounts.collection_master_edition,
        collection_metadata: accounts.collection_metadata,
        collection_mint: accounts.collection_mint,
        collection_update_authority: accounts.collection_update_authority,
        nft_owner: accounts.nft_owner,
        nft_master_edition: accounts.nft_master_edition,
        nft_metadata: accounts.nft_metadata,
        nft_mint: accounts.nft_mint,
        nft_mint_authority: accounts.nft_mint_authority,
        payer: accounts.payer,
        system_program: accounts.system_program,
        sysvar_instructions: accounts.sysvar_instructions,
        token,
        token_metadata_program: accounts.token_metadata_program,
        spl_token_program: accounts.spl_token_program,
        token_record,
        bump: authority_bump,
    };
    assert(params@.keys =~= request_params(*program_id, accounts, authority_bump).keys);
    let text = params.encode();
    req.bump = req_bump;
    req.pubkey_hash = hash(accounts.authority_pda.as_slice());
    req.request_timestamp = unix_timestamp;
    req.switchboard_request = accounts.switchboard_request;
    RequestInvocation {
        switchboard: accounts.switchboard,
        request: accounts.switchboard_request,
        authority: accounts.authority,
        function: accounts.switchboard_function,
        function_authority: None,
        escrow: accounts.switchboard_request_escrow,
        mint: accounts.switchboard_mint,
        state: accounts.switchboard_state,
        attestation_queue: accounts.switchboard_attestation_queue,
        payer: accounts.payer,
        system_program: accounts.system_program,
        token_program: accounts.token_program,
        associated_token_program: accounts.associated_token_program,
        bounty: None,
        slots_until_expiration: None,
        max_container_params_len: Some(MAX_CONTAINER_PARAMS_LEN),
        container_params: Some(text),
        garbage_collection_slot: None,
        valid_after_slot: None,
    }
}

/// The parameters of a mint request name each account under its own key text: decoding
/// them gives, under `NFT_METADATA` (say), the request's `nft_metadata` account, under `PID`
/// the program and under `REQUEST_KEY` the request account.
pub proof fn lemma_request_params_name_their_accounts(program_id: [u8; 32], a: &MintV2, bump: u8)
    ensures
        // PID
        key_named(request_params(program_id, a, bump), seq![80u8, 73, 68]) == program_id@,
        // CANDY_MACHINE
        key_named(request_params(program_id, a, bump), seq![67u8, 65, 78, 68, 89, 95, 77, 65, 67, 72, 73, 78, 69]) == a.candy_machine@,
        // SPL_ATA_PROGRAM
        key_named(request_params(program_id, a, bump), seq![83u8, 80, 76, 95, 65, 84, 65, 95, 80, 82, 79, 71, 82, 65, 77]) == key_or_zero(a.spl_ata_program),
        // AUTHORITY_PDA
        key_named(request_params(program_id, a, bump), seq![65u8, 85, 84, 72, 79, 82, 73, 84, 89, 95, 80, 68, 65]) == a.authority_pda@,
        // COLLECTION_DELEGATE_RECORD
        key_named(request_params(program_id, a, bump), seq![67u8, 79, 76, 76, 69, 67, 84, 73, 79, 78, 95, 68, 69, 76, 69, 71, 65, 84, 69, 95, 82, 69, 67, 79, 82, 68]) == a.collection_delegate_record@,
        // COLLECTION_MASTER_EDITION
        key_named(request_params(program_id, a, bump), seq![67u8, 79, 76, 76, 69, 67, 84, 73, 79, 78, 95, 77, 65, 83, 84, 69, 82, 95, 69, 68, 73, 84, 73, 79, 78]) == a.collection_master_edition@,
        // COLLECTION_METADATA
        key_named(request_params(program_id, a, bump), seq![67u8, 79, 76, 76, 69, 67, 84, 73, 79, 78, 95, 77, 69, 84, 65, 68, 65, 84, 65]) == a.collection_metadata@,
        // COLLECTION_MINT
        key_named(request_params(program_id, a, bump), seq![67u8, 79, 76, 76, 69, 67, 84, 73, 79, 78, 95, 77, 73, 78, 84]) == a.collection_mint@,
        // COLLECTION_UPDATE_AUTHORITY
        key_named(request_params(program_id, a, bump), seq![67u8, 79, 76, 76, 69, 67, 84, 73, 79, 78, 95, 85, 80, 68, 65, 84, 69, 95, 65, 85, 84, 72, 79, 82, 73, 84, 89]) == a.collection_update_authority@,
        // NFT_OWNER
        key_named(request_params(program_id, a, bump), seq![78u8, 70, 84, 95, 79, 87, 78, 69, 82]) == a.nft_owner@,
        // NFT_MASTER_EDITION
        key_named(request_params(program_id, a, bump), seq![78u8, 70, 84, 95, 77, 65, 83, 84, 69, 82, 95, 69, 68, 73, 84, 73, 79, 78]) == a.nft_master_edition@,
        // NFT_METADATA
        key_named(request_params(program_id, a, bump), seq![78u8, 70, 84, 95, 77, 69, 84, 65, 68, 65, 84, 65]) == a.nft_metadata@,
        // NFT_MINT
        key_named(request_params(program_id, a, bump), seq![78u8, 70, 84, 95, 77, 73, 78, 84]) == a.nft_mint@,
        // NFT_MINT_AUTHORITY
        key_named(request_params(program_id, a, bump), seq![78u8, 70, 84, 95, 77, 73, 78, 84, 95, 65, 85, 84, 72, 79, 82, 73, 84, 89]) == a.nft_mint_authority@,
        // PAYER
        key_named(request_params(program_id, a, bump), seq![80u8, 65, 89, 69, 82]) == a.payer@,
        // SYSTEM_PROGRAM
        key_named(request_params(program_id, a, bump), seq![83u8, 89, 83, 84, 69, 77, 95, 80, 82, 79, 71, 82, 65, 77]) == a.system_program@,
        // SYSVAR_INSTRUCTIONS
        key_named(request_params(program_id, a, bump), seq![83u8, 89, 83, 86, 65, 82, 95, 73, 78, 83, 84, 82, 85, 67, 84, 73, 79, 78, 83]) == a.sysvar_instructions@,
        // TOKEN
        key_named(request_params(program_id, a, bump), seq![84u8, 79, 75, 69, 78]) == key_or_zero(a.token),
        // TOKEN_METADATA_PROGRAM
        key_named(request_params(program_id, a, bump), seq![84u8, 79, 75, 69, 78, 95, 77, 69, 84, 65, 68, 65, 84, 65, 95, 80, 82, 79, 71, 82, 65, 77]) == a.token_metadata_program@,
        // SPL_TOKEN_PROGRAM
        key_named(request_params(program_id, a, bump), seq![83u8, 80, 76, 95, 84, 79, 75, 69, 78, 95, 80, 82, 79, 71, 82, 65, 77]) == a.spl_token_program@,
        // TOKEN_RECORD
        key_named(request_params(program_id, a, bump), seq![84u8, 79, 75, 69, 78, 95, 82, 69, 67, 79, 82, 68]) == key_or_zero(a.token_record),
        // REQUEST_KEY
        key_named(request_params(program_id, a, bump), seq![82u8, 69, 81, 85, 69, 83, 84, 95, 75, 69, 89]) == a.req@,
        request_params(program_id, a, bump).bump == bump,
{
    lemma_key_texts();
}

} // verus!
