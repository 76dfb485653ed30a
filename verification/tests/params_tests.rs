use candy_mint::accounts::{check_mint_v2_accounts, AccountError, MintV2Facts};
use candy_mint::params::{ContainerParams, ParamsError};
use candy_mint::request::{mint_v2, MintV2};
use candy_mint::state::RequestAccountData;
use solana_program::pubkey::Pubkey;
use std::str::FromStr;

fn token_program_id() -> Pubkey {
    Pubkey::from_str("TokenkegQfeZyiNwAJbNbGKPFXCWuBvf9Ss623VQ5DA").unwrap()
}

fn key(n: u8) -> [u8; 32] {
    let mut k = [0u8; 32];
    k[0] = n;
    k[31] = n.wrapping_mul(7);
    k
}

#[test]
fn test_params_decode() {
    let request_params_string = format!("PID={},REQUEST={}", token_program_id(), token_program_id());
    let request_params_bytes = request_params_string.into_bytes();

    let params = ContainerParams::decode(&request_params_bytes).unwrap();

    assert_eq!(params.program_id, token_program_id().to_bytes());
    assert_eq!(params.request_key, token_program_id().to_bytes());
}

#[test]
fn decode_without_program_id_is_refused() {
    let text = format!("REQUEST_KEY={}", token_program_id()).into_bytes();
    assert!(matches!(ContainerParams::decode(&text), Err(ParamsError::ProgramIdUndefined)));
}

#[test]
fn decode_without_request_key_is_refused() {
    let text = format!("PID={},BUMP=7", token_program_id()).into_bytes();
    assert!(matches!(ContainerParams::decode(&text), Err(ParamsError::RequestKeyUndefined)));
}

#[test]
fn decode_empty_text_is_refused_for_the_program_id() {
    let text: Vec<u8> = Vec::new();
    assert!(matches!(ContainerParams::decode(&text), Err(ParamsError::ProgramIdUndefined)));
}

#[test]
fn decode_later_pair_wins_and_unknown_pieces_are_ignored() {
    let a = Pubkey::new_from_array(key(1));
    let b = Pubkey::new_from_array(key(2));
    let text = format!("PID={},FOO=bar,junk,REQUEST_KEY={},BUMP=3,PID={},BUMP=254", a, b, b).into_bytes();
    let params = ContainerParams::decode(&text).unwrap();
    assert_eq!(params.program_id, key(2));
    assert_eq!(params.request_key, key(2));
    assert_eq!(params.bump, 254);
    assert_eq!(params.candy_machine, [0u8; 32]);
}

#[test]
fn try_decode_rejects_unreadable_values() {
    let bad_key = format!("PID=notbase58!!,REQUEST={}", token_program_id()).into_bytes();
    assert!(ContainerParams::try_decode(&bad_key).is_none());
    let bad_bump = format!("PID={},REQUEST={},BUMP=256", token_program_id(), token_program_id()).into_bytes();
    assert!(ContainerParams::try_decode(&bad_bump).is_none());
    let good = format!("PID={},REQUEST={},BUMP=255", token_program_id(), token_program_id()).into_bytes();
    match ContainerParams::try_decode(&good) {
        Some(Ok(p)) => assert_eq!(p.bump, 255),
        _ => panic!("expected decoded parameters"),
    }
}

fn sample_params() -> ContainerParams {
    let mut p = ContainerParams::zeroed();
    for i in 0..22usize {
        p.set_key(i, key(i as u8 + 1));
    }
    p.bump = 42;
    p
}

#[test]
fn encode_then_decode_gives_the_parameters_back() {
    let p = sample_params();
    let text = p.encode();
    let s = String::from_utf8(text.clone()).unwrap();
    assert!(s.starts_with(&format!("PID={},CANDY_MACHINE=", Pubkey::new_from_array(key(1)))));
    assert!(s.ends_with(&format!(",REQUEST_KEY={},BUMP=42", Pubkey::new_from_array(key(22)))));
    let back = ContainerParams::decode(&text).unwrap();
    for i in 0..22usize {
        assert_eq!(back.key_at(i), p.key_at(i));
    }
    assert_eq!(back.bump, 42);
}

#[test]
fn encode_with_zero_program_id_decodes_to_its_error() {
    let mut p = sample_params();
    p.program_id = [0u8; 32];
    let text = p.encode();
    assert!(matches!(ContainerParams::decode(&text), Err(ParamsError::ProgramIdUndefined)));
}

fn request_accounts() -> MintV2 {
    MintV2 {
        candy_machine: key(1),
        authority_pda: key(2),
        mint_authority: key(3),
        payer: key(4),
        nft_owner: key(5),
        nft_mint: key(6),
        nft_mint_authority: key(7),
        nft_metadata: key(8),
        nft_master_edition: key(9),
        token: Some(key(10)),
        token_record: Some(key(11)),
        collection_delegate_record: key(12),
        collection_mint: key(13),
        collection_metadata: key(14),
        collection_master_edition: key(15),
        collection_update_authority: key(16),
        token_metadata_program: key(17),
        spl_token_program: key(18),
        spl_ata_program: Some(key(19)),
        system_program: key(20),
        sysvar_instructions: key(21),
        authorization_rules_program: None,
        authorization_rules: None,
        req: key(22),
        authority: key(23),
        switchboard: key(24),
        switchboard_state: key(25),
        switchboard_attestation_queue: key(26),
        switchboard_function: key(27),
        switchboard_request: key(28),
        switchboard_request_escrow: key(29),
        switchboard_mint: key(30),
        token_program: key(31),
        associated_token_program: key(32),
    }
}

fn empty_request() -> RequestAccountData {
    RequestAccountData {
        bump: 0,
        pubkey_hash: [0u8; 32],
        seed: 0,
        blockhash: [0u8; 32],
        result: [0u8; 32],
        request_timestamp: 0,
        reveal_timestamp: 0,
        switchboard_request: [0u8; 32],
    }
}

#[test]
fn mint_request_params_name_every_account_and_decode_back() {
    let accounts = request_accounts();
    let program_id = key(99);
    let mut req = empty_request();
    let invocation = mint_v2(&program_id, &accounts, 253, 250, 1_700_000_000, &mut req);
    assert_eq!(invocation.request, key(28));
    assert_eq!(invocation.switchboard, key(24));
    assert_eq!(invocation.escrow, key(29));
    assert_eq!(invocation.max_container_params_len, Some(512));
    assert!(invocation.bounty.is_none() && invocation.valid_after_slot.is_none());
    let text = invocation.container_params.unwrap();
    let s = String::from_utf8(text.clone()).unwrap();
    assert!(s.starts_with(&format!(
        "PID={},CANDY_MACHINE={},SPL_ATA_PROGRAM={},AUTHORITY_PDA={}",
        Pubkey::new_from_array(key(99)),
        Pubkey::new_from_array(key(1)),
        Pubkey::new_from_array(key(19)),
        Pubkey::new_from_array(key(2))
    )));
    assert!(s.ends_with(",BUMP=253"));
    let p = ContainerParams::decode(&text).unwrap();
    assert_eq!(p.program_id, key(99));
    assert_eq!(p.candy_machine, key(1));
    assert_eq!(p.token, key(10));
    assert_eq!(p.token_record, key(11));
    assert_eq!(p.sysvar_instructions, key(21));
    assert_eq!(p.request_key, key(22));
    assert_eq!(p.bump, 253);
    assert_eq!(req.bump, 250);
    assert_eq!(req.pubkey_hash, solana_program::hash::hash(&key(2)).to_bytes());
    assert_eq!(req.request_timestamp, 1_700_000_000);
    assert_eq!(req.switchboard_request, key(28));
    assert_eq!(req.reveal_timestamp, 0);
    assert_eq!(req.result, [0u8; 32]);
}

#[test]
fn mint_request_writes_absent_accounts_as_the_zero_address() {
    let mut accounts = request_accounts();
    accounts.token = None;
    accounts.token_record = None;
    accounts.spl_ata_program = None;
    let mut req = empty_request();
    let text = mint_v2(&key(99), &accounts, 1, 2, 3, &mut req).container_params.unwrap();
    let s = String::from_utf8(text.clone()).unwrap();
    assert!(s.contains(",TOKEN=11111111111111111111111111111111,"));
    let p = ContainerParams::decode(&text).unwrap();
    assert_eq!(p.token, [0u8; 32]);
    assert_eq!(p.token_record, [0u8; 32]);
    assert_eq!(p.spl_ata_program, [0u8; 32]);
    assert_eq!(p.nft_mint, key(6));
}

fn checked_accounts(program_id: &Pubkey) -> (MintV2, MintV2Facts, u8, u8) {
    let mut a = request_accounts();
    let (authority, authority_bump) =
        Pubkey::find_program_address(&[b"candy_machine", &a.candy_machine], program_id);
    a.authority_pda = authority.to_bytes();
    let (req, req_bump) = Pubkey::find_program_address(&[authority.as_ref()], program_id);
    a.req = req.to_bytes();
    a.token_metadata_program = Pubkey::from_str("metaqbxxUerdq28cj1RbAWkYQm3ybzjb6a8bt518x1s").unwrap().to_bytes();
    a.sysvar_instructions = solana_program::sysvar::instructions::id().to_bytes();
    a.switchboard = Pubkey::from_str("sbattyXrzedoNATfc4L31wC9Mhxsi1BmFhTiN8gDshx").unwrap().to_bytes();
    a.switchboard_mint = Pubkey::from_str("So11111111111111111111111111111111111111112").unwrap().to_bytes();
    let facts = MintV2Facts {
        candy_machine_mint_authority: a.mint_authority,
        mint_authority_is_signer: true,
        payer_is_signer: true,
        nft_mint_authority_is_signer: true,
        authorization_rules_owner: None,
        switchboard_is_executable: true,
        switchboard_request_is_signer: true,
        switchboard_request_owner: a.system_program,
        switchboard_request_lamports: 0,
        escrow_owner: a.system_program,
        escrow_lamports: 0,
    };
    (a, facts, authority_bump, req_bump)
}

#[test]
fn mint_request_accounts_pass_with_derived_addresses() {
    let program_id = Pubkey::new_from_array(key(99));
    let (a, facts, authority_bump, req_bump) = checked_accounts(&program_id);
    assert_eq!(check_mint_v2_accounts(&key(99), &a, &facts), Ok((authority_bump, req_bump)));
}

#[test]
fn mint_request_accounts_refusals() {
    let program_id = Pubkey::new_from_array(key(99));
    let (a, facts, _, _) = checked_accounts(&program_id);
    let mut f = facts;
    f.candy_machine_mint_authority = key(77);
    assert_eq!(check_mint_v2_accounts(&key(99), &a, &f), Err(AccountError::MintAuthorityMismatch));
    let mut b = checked_accounts(&program_id).0;
    b.authority_pda = key(77);
    assert_eq!(check_mint_v2_accounts(&key(99), &b, &facts), Err(AccountError::AuthorityPdaMismatch));
    let mut b = checked_accounts(&program_id).0;
    b.req = key(77);
    assert_eq!(check_mint_v2_accounts(&key(99), &b, &facts), Err(AccountError::RequestMismatch));
    let mut b = checked_accounts(&program_id).0;
    b.sysvar_instructions = key(77);
    assert_eq!(check_mint_v2_accounts(&key(99), &b, &facts), Err(AccountError::WrongInstructionsSysvar));
    let mut f = facts;
    f.escrow_lamports = 5;
    assert_eq!(check_mint_v2_accounts(&key(99), &a, &f), Err(AccountError::NotFreshAccount));
    let mut b = checked_accounts(&program_id).0;
    b.switchboard_mint = key(77);
    assert_eq!(check_mint_v2_accounts(&key(99), &b, &facts), Err(AccountError::WrongSwitchboardMint));
}
