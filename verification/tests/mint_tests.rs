use candy_mint::config_line::{config_layout_holds, get_config_line};
use candy_mint::request::{mint_v2, MintV2};
use candy_mint::metadata::{next_step, MetadataCall, MintFailure, MintPlan, PlanStep};
use candy_mint::mint::{
    create, create_and_mint, get_rule_set, metadata_creators, process_mint, MintAccounts,
};
use candy_mint::metadata::{CollectionMetadata, MetadataCreator};
use candy_mint::state::{
    AccountVersion, CandyError, CandyMachine, CandyMachineData, ConfigLine, ConfigLineSettings,
    Creator, HiddenSettings, RequestAccountData,
};
use candy_mint::strings::replace_patterns;
use solana_program::hash::hash;
use solana_program::pubkey::Pubkey;
use std::str::FromStr;

const NAME_LEN: u32 = 4;
const URI_LEN: u32 = 6;

fn key(n: u8) -> [u8; 32] {
    let mut k = [n; 32];
    k[1] = 0xa5;
    k
}

fn metadata_program() -> [u8; 32] {
    Pubkey::from_str("metaqbxxUerdq28cj1RbAWkYQm3ybzjb6a8bt518x1s").unwrap().to_bytes()
}

fn settings(sequential: bool) -> ConfigLineSettings {
    ConfigLineSettings {
        prefix_name: "Item #$ID+1$ ".to_string(),
        name_length: NAME_LEN,
        prefix_uri: "https://x/$ID$/".to_string(),
        uri_length: URI_LEN,
        is_sequential: sequential,
    }
}

fn machine(items: u64, sequential: bool, version: AccountVersion) -> CandyMachine {
    CandyMachine {
        version,
        token_standard: 0,
        mint_authority: key(3),
        collection_mint: key(13),
        items_redeemed: 0,
        data: CandyMachineData {
            items_available: items,
            symbol: "CNDY".to_string(),
            seller_fee_basis_points: 500,
            max_supply: 0,
            is_mutable: true,
            creators: vec![
                Creator { address: key(40), verified: true, percentage_share: 60 },
                Creator { address: key(41), verified: false, percentage_share: 40 },
            ],
            config_line_settings: Some(settings(sequential)),
            hidden_settings: None,
        },
        rule_set: None,
    }
}

fn push_u32(out: &mut Vec<u8>, v: u32) {
    out.extend_from_slice(&v.to_le_bytes());
}

/// Line count, `items` lines "n<i>" / "u<i>", the loaded bitmask, then the indices 0..items.
fn config_data(items: u32) -> Vec<u8> {
    let mut d = Vec::new();
    push_u32(&mut d, items);
    for i in 0..items {
        let mut name = format!("n{}", i).into_bytes();
        name.resize(NAME_LEN as usize, 0);
        let mut uri = format!("u{}", i).into_bytes();
        uri.resize(URI_LEN as usize, 0);
        d.extend_from_slice(&name);
        d.extend_from_slice(&uri);
    }
    for _ in 0..(items / 8 + 1) {
        d.push(0xff);
    }
    for i in 0..items {
        push_u32(&mut d, i);
    }
    d
}

fn indices(data: &[u8], items: u32, count: u32) -> Vec<u32> {
    let size = (NAME_LEN + URI_LEN) as usize;
    let start = 4 + items as usize * size + (items / 8 + 1) as usize;
    (0..count as usize)
        .map(|i| {
            let at = start + 4 * i;
            u32::from_le_bytes([data[at], data[at + 1], data[at + 2], data[at + 3]])
        })
        .collect()
}

#[test]
fn sequential_line_uses_the_mint_number_and_keeps_the_data() {
    let cm = machine(3, true, AccountVersion::V2);
    let mut data = config_data(3);
    let before = data.clone();
    let line = get_config_line(&cm, &mut data, 0, 1).unwrap();
    assert_eq!(line.name, "Item #2 n1");
    assert_eq!(line.uri, "https://x/1/u1");
    assert_eq!(data, before);
}

#[test]
fn random_line_swap_removes_the_drawn_index() {
    let cm = machine(5, false, AccountVersion::V2);
    let mut data = config_data(5);
    let line = get_config_line(&cm, &mut data, 1, 0).unwrap();
    assert_eq!(line.name, "Item #2 n1");
    assert_eq!(line.uri, "https://x/1/u1");
    assert_eq!(indices(&data, 5, 4), vec![0, 4, 2, 3]);
    let line = get_config_line(&cm, &mut data, 1, 1).unwrap();
    assert_eq!(line.name, "Item #5 n4");
    assert_eq!(indices(&data, 5, 3), vec![0, 3, 2]);
}

#[test]
fn hidden_settings_name_the_mint_number() {
    let mut cm = machine(3, false, AccountVersion::V2);
    cm.data.hidden_settings = Some(HiddenSettings {
        name: "Hidden $ID$".to_string(),
        uri: "https://h/$ID+1$.json".to_string(),
        hash: [0u8; 32],
    });
    let mut data = vec![0u8; 4];
    let line = get_config_line(&cm, &mut data, 0, 7).unwrap();
    assert_eq!(line.name, "Hidden 7");
    assert_eq!(line.uri, "https://h/8.json");
}

#[test]
fn config_line_errors() {
    let mut cm = machine(3, false, AccountVersion::V2);
    cm.data.config_line_settings = None;
    let mut data = config_data(3);
    assert!(matches!(
        get_config_line(&cm, &mut data, 0, 0),
        Err(CandyError::MissingConfigLinesSettings)
    ));
    let cm = machine(3, false, AccountVersion::V2);
    let mut partial = config_data(3);
    partial[0] = 2;
    assert!(matches!(get_config_line(&cm, &mut partial, 0, 0), Err(CandyError::NotFullyLoaded)));
    let mut bad = config_data(3);
    bad[4] = 0xff;
    assert!(matches!(
        get_config_line(&cm, &mut bad, 0, 0),
        Err(CandyError::CouldNotRetrieveConfigLineData)
    ));
}

#[test]
fn replace_patterns_writes_index_and_index_plus_one() {
    assert_eq!(replace_patterns("a$ID$b$ID+1$c$ID$".to_string(), 9), "a9b10c9");
    assert_eq!(replace_patterns("plain".to_string(), 3), "plain");
}

/// A borsh-encoded metadata record with the given update authority.
fn metadata_record(update_authority: [u8; 32], sized: bool, rule_set: Option<[u8; 32]>) -> Vec<u8> {
    let mut d = vec![4u8];
    d.extend_from_slice(&update_authority);
    d.extend_from_slice(&key(13));
    for s in ["Coll", "C", "https://c"] {
        d.extend_from_slice(&(s.len() as u32).to_le_bytes());
        d.extend_from_slice(s.as_bytes());
    }
    d.extend_from_slice(&0u16.to_le_bytes());
    d.push(0); // creators
    d.push(1); // primary sale happened
    d.push(1); // mutable
    d.push(0); // edition nonce
    d.push(0); // token standard
    d.push(0); // collection
    d.push(0); // uses
    if sized {
        d.push(1);
        d.push(0);
        d.extend_from_slice(&10u64.to_le_bytes());
    } else {
        d.push(0);
    }
    match rule_set {
        Some(r) => {
            d.push(1);
            d.push(0);
            d.push(1);
            d.extend_from_slice(&r);
        }
        None => d.push(0),
    }
    d
}

fn accounts() -> MintAccounts {
    MintAccounts {
        authority_pda: key(2),
        payer: key(4),
        nft_owner: key(5),
        nft_mint: key(6),
        nft_mint_is_signer: true,
        nft_mint_authority: key(7),
        nft_metadata: key(8),
        nft_metadata_is_empty: true,
        nft_master_edition: key(9),
        token: Some(key(10)),
        token_record: Some(key(11)),
        collection_delegate_record: key(12),
        collection_mint: key(13),
        collection_metadata: key(14),
        collection_metadata_owner: metadata_program(),
        collection_metadata_data: metadata_record(key(16), false, Some(key(50))),
        collection_master_edition: key(15),
        collection_update_authority: key(16),
        token_metadata_program: metadata_program(),
        spl_token_program: key(18),
        spl_ata_program: Some(key(19)),
        system_program: key(20),
        sysvar_instructions: Some(key(21)),
    }
}

fn request() -> RequestAccountData {
    RequestAccountData {
        bump: 1,
        pubkey_hash: hash(&key(2)).to_bytes(),
        seed: 0x01020304,
        blockhash: key(77),
        result: [0u8; 32],
        request_timestamp: 5,
        reveal_timestamp: 0,
        switchboard_request: key(28),
    }
}

fn refusal(cm: &mut CandyMachine, a: &MintAccounts, req: &mut RequestAccountData) -> CandyError {
    let mut data = config_data(cm.data.items_available as u32);
    match process_mint(cm, &key(1), &mut data, a, req, 255, 100) {
        Err(e) => e,
        Ok(_) => panic!("expected a refusal"),
    }
}

#[test]
fn process_mint_refusals_in_order() {
    let mut req = request();
    let mut a = accounts();
    a.nft_metadata_is_empty = false;
    a.collection_mint = key(99);
    assert_eq!(refusal(&mut machine(3, false, AccountVersion::V2), &a, &mut req), CandyError::MetadataAccountMustBeEmpty);

    let mut cm = machine(3, false, AccountVersion::V2);
    cm.items_redeemed = 3;
    let a = accounts();
    assert_eq!(refusal(&mut cm, &a, &mut req), CandyError::CandyMachineEmpty);

    let mut a = accounts();
    a.collection_mint = key(99);
    assert_eq!(refusal(&mut machine(3, false, AccountVersion::V2), &a, &mut req), CandyError::CollectionKeyMismatch);

    let mut a = accounts();
    a.collection_metadata_owner = key(98);
    assert_eq!(refusal(&mut machine(3, false, AccountVersion::V2), &a, &mut req), CandyError::IncorrectOwner);

    let mut a = accounts();
    a.collection_metadata_data = vec![4u8, 1, 2];
    assert_eq!(refusal(&mut machine(3, false, AccountVersion::V2), &a, &mut req), CandyError::InvalidCollectionMetadata);

    let mut a = accounts();
    a.collection_update_authority = key(97);
    assert_eq!(refusal(&mut machine(3, false, AccountVersion::V2), &a, &mut req), CandyError::IncorrectCollectionAuthority);

    let a = accounts();
    let mut revealed = request();
    revealed.reveal_timestamp = 1;
    assert_eq!(refusal(&mut machine(3, false, AccountVersion::V2), &a, &mut revealed), CandyError::RequestAlreadyRevealed);

    let mut wrong_key = request();
    wrong_key.pubkey_hash = key(2);
    let before = wrong_key.result;
    assert_eq!(refusal(&mut machine(3, false, AccountVersion::V2), &a, &mut wrong_key), CandyError::KeyVerifyFailed);
    assert_eq!(wrong_key.result, before);
    assert_eq!(wrong_key.reveal_timestamp, 0);
}

fn expected_randomness(req: &RequestAccountData) -> [u8; 32] {
    let mut input = key(2).to_vec();
    input.extend_from_slice(&req.blockhash);
    input.extend_from_slice(&req.seed.to_le_bytes());
    hash(&input).to_bytes()
}

fn unwrap_plan(r: Result<MintPlan, CandyError>) -> MintPlan {
    match r {
        Ok(p) => p,
        Err(e) => panic!("mint refused: {:?}", e),
    }
}

#[test]
fn process_mint_reveals_draws_and_plans_a_v2_mint() {
    let items: u32 = 7;
    let mut cm = machine(items as u64, false, AccountVersion::V2);
    cm.token_standard = 4;
    cm.data.max_supply = 3;
    let mut data = config_data(items);
    let a = accounts();
    let mut req = request();
    let plan = unwrap_plan(process_mint(&mut cm, &key(1), &mut data, &a, &mut req, 254, 1234));

    let randomness = expected_randomness(&request());
    assert_eq!(req.result, randomness);
    assert_eq!(req.reveal_timestamp, 1234);
    assert_eq!(req.request_timestamp, 5);
    let sum: u64 = randomness.iter().map(|b| *b as u64).sum();
    let index = (sum % items as u64) as u32;
    assert_eq!(plan.config_line.name, format!("Item #{} n{}", index + 1, index));
    assert_eq!(plan.config_line.uri, format!("https://x/{}/u{}", index, index));
    assert_eq!(cm.items_redeemed, 1);
    let remaining = indices(&data, items, items - 1);
    assert!(!remaining.contains(&index));
    assert_eq!(remaining.len(), items as usize - 1);

    assert_eq!(plan.bump, 254);
    assert_eq!(plan.creators.len(), 3);
    assert_eq!(plan.creators[0].address, key(2));
    assert!(plan.creators[0].verified);
    assert_eq!(plan.creators[0].share, 0);
    assert_eq!(plan.creators[1].address, key(40));
    assert!(!plan.creators[1].verified);
    assert_eq!(plan.creators[1].share, 60);
    assert!(plan.failure.is_none());
    assert_eq!(plan.calls.len(), 4);
    match plan.calls[0] {
        MetadataCall::CreateV1 {
            programmable,
            seller_fee_basis_points,
            is_mutable,
            collection,
            decimals,
            print_supply,
            mint_is_signer,
            metadata,
            update_authority,
            ..
        } => {
            assert_eq!(metadata, key(8));
            assert_eq!(update_authority, key(2));
            assert!(programmable);
            assert_eq!(seller_fee_basis_points, 500);
            assert!(is_mutable);
            assert_eq!(collection, key(13));
            assert_eq!(decimals, 0);
            assert_eq!(print_supply, Some(3));
            assert!(mint_is_signer);
        }
        _ => panic!("expected CreateV1"),
    }
    assert_eq!(plan.symbol, "CNDY");
    match plan.calls[1] {
        MetadataCall::MintV1 { token, token_owner, token_record, authority, spl_ata_program, amount, .. } => {
            assert_eq!(token, key(10));
            assert_eq!(token_owner, key(5));
            assert_eq!(token_record, Some(key(11)));
            assert_eq!(authority, key(2));
            assert_eq!(spl_ata_program, key(19));
            assert_eq!(amount, 1);
        }
        _ => panic!("expected MintV1"),
    }
    match plan.calls[2] {
        MetadataCall::UpdateV1 { new_update_authority, rule_set, primary_sale_happened, token, .. } => {
            assert_eq!(new_update_authority, key(16));
            assert_eq!(rule_set, Some(key(50)));
            assert!(primary_sale_happened);
            assert_eq!(token, key(10));
        }
        _ => panic!("expected UpdateV1"),
    }
    match plan.calls[3] {
        MetadataCall::VerifyCollectionV1 { authority, delegate_record, collection_mint, .. } => {
            assert_eq!(authority, key(2));
            assert_eq!(delegate_record, key(12));
            assert_eq!(collection_mint, key(13));
        }
        _ => panic!("expected VerifyCollectionV1"),
    }
    assert_eq!(plan.program, metadata_program());
    assert_eq!(plan.seed_prefix, b"candy_machine".to_vec());
    assert_eq!(plan.seed_key, key(1));

    // The same request cannot be revealed twice.
    let mut data2 = data.clone();
    assert!(matches!(
        process_mint(&mut cm, &key(1), &mut data2, &a, &mut req, 254, 1300),
        Err(CandyError::RequestAlreadyRevealed)
    ));
}

#[test]
fn every_index_is_minted_once() {
    let items: u32 = 6;
    let mut cm = machine(items as u64, false, AccountVersion::V2);
    let mut data = config_data(items);
    let a = accounts();
    let mut seen = Vec::new();
    for round in 0..items {
        let mut req = request();
        req.blockhash = key(round as u8 + 100);
        let plan = unwrap_plan(process_mint(&mut cm, &key(1), &mut data, &a, &mut req, 1, 9));
        seen.push(plan.config_line.name.clone());
    }
    seen.sort();
    seen.dedup();
    assert_eq!(seen.len(), items as usize);
    let mut req = request();
    assert!(matches!(
        process_mint(&mut cm, &key(1), &mut data, &a, &mut req, 1, 9),
        Err(CandyError::CandyMachineEmpty)
    ));
}

#[test]
fn process_mint_plans_a_v1_mint() {
    let mut cm = machine(2, true, AccountVersion::V1);
    cm.data.max_supply = 0;
    let mut data = config_data(2);
    let mut a = accounts();
    a.collection_metadata_data = metadata_record(key(16), true, None);
    let mut req = request();
    let plan = unwrap_plan(process_mint(&mut cm, &key(1), &mut data, &a, &mut req, 3, 10));
    assert_eq!(plan.config_line.name, "Item #1 n0");
    assert!(plan.failure.is_none());
    assert_eq!(plan.calls.len(), 4);
    assert!(matches!(
        plan.calls[0],
        MetadataCall::CreateMetadataAccountV3 { seller_fee_basis_points: 500, is_mutable: true, .. }
    ));
    assert_eq!(plan.symbol, "CNDY");
    assert!(matches!(plan.calls[1], MetadataCall::CreateMasterEditionV3 { max_supply: 0, .. }));
    match plan.calls[2] {
        MetadataCall::UpdateMetadataAccountV2 { new_update_authority, .. } => {
            assert_eq!(new_update_authority, key(16))
        }
        _ => panic!("expected UpdateMetadataAccountV2"),
    }
    assert!(matches!(plan.calls[3], MetadataCall::SetAndVerifyCollection { sized: true, .. }));
}

fn line() -> ConfigLine {
    ConfigLine { name: "n".to_string(), uri: "u".to_string() }
}

fn collection(sized: bool) -> CollectionMetadata {
    CollectionMetadata { update_authority: key(16), has_collection_details: sized, rule_set: Some(key(51)) }
}

#[test]
fn create_verifies_into_an_unsized_collection() {
    let cm = machine(2, true, AccountVersion::V1);
    let plan = create(&cm, &key(1), &accounts(), 1, line(), Vec::new(), &collection(false));
    assert!(matches!(plan.calls[3], MetadataCall::SetAndVerifyCollection { sized: false, .. }));
}

#[test]
fn create_and_mint_stops_at_missing_accounts() {
    let mut cm = machine(2, true, AccountVersion::V2);
    cm.token_standard = 4;
    let mut a = accounts();
    a.sysvar_instructions = None;
    let plan = create_and_mint(&cm, &key(1), &a, 1, line(), Vec::new(), &collection(false));
    assert_eq!(plan.calls.len(), 0);
    assert_eq!(plan.failure, Some(CandyError::MissingInstructionsSysvar));

    let mut a = accounts();
    a.token = None;
    let plan = create_and_mint(&cm, &key(1), &a, 1, line(), Vec::new(), &collection(false));
    assert_eq!(plan.calls.len(), 1);
    assert_eq!(plan.failure, Some(CandyError::MissingTokenAccount));

    let mut a = accounts();
    a.token_record = None;
    let plan = create_and_mint(&cm, &key(1), &a, 1, line(), Vec::new(), &collection(false));
    assert_eq!(plan.calls.len(), 1);
    assert_eq!(plan.failure, Some(CandyError::MissingTokenRecord));

    let mut a = accounts();
    a.spl_ata_program = None;
    let plan = create_and_mint(&cm, &key(1), &a, 1, line(), Vec::new(), &collection(false));
    assert_eq!(plan.failure, Some(CandyError::MissingSplAtaProgram));

    cm.token_standard = 0;
    let mut a = accounts();
    a.token_record = None;
    let plan = create_and_mint(&cm, &key(1), &a, 1, line(), Vec::new(), &collection(false));
    assert!(plan.failure.is_none());
    assert!(matches!(
        plan.calls[0],
        MetadataCall::CreateV1 { programmable: false, print_supply: None, mint_is_signer: true, .. }
    ));
    assert!(matches!(plan.calls[1], MetadataCall::MintV1 { token_record: None, .. }));
    match plan.calls[2] {
        MetadataCall::UpdateV1 { rule_set, .. } => assert_eq!(rule_set, None),
        _ => panic!("expected UpdateV1"),
    }
}

#[test]
fn rule_set_prefers_the_candy_machine() {
    let mut cm = machine(2, true, AccountVersion::V2);
    assert_eq!(get_rule_set(&cm, &collection(false)), Some(key(51)));
    cm.rule_set = Some(key(52));
    assert_eq!(get_rule_set(&cm, &collection(false)), Some(key(52)));
}

#[test]
fn creators_list_the_authority_first() {
    let creators = vec![Creator { address: key(40), verified: true, percentage_share: 100 }];
    let listed: Vec<MetadataCreator> = metadata_creators(&key(2), &creators);
    assert_eq!(listed.len(), 2);
    assert_eq!(listed[0].address, key(2));
    assert!(listed[0].verified);
    assert_eq!(listed[1].address, key(40));
    assert!(!listed[1].verified);
    assert_eq!(listed[1].share, 100);
}

#[test]
fn a_request_made_by_mint_v2_is_revealed_for_its_authority() {
    let a = accounts();
    let request_accounts = MintV2 {
        candy_machine: key(1),
        authority_pda: a.authority_pda,
        mint_authority: key(3),
        payer: a.payer,
        nft_owner: a.nft_owner,
        nft_mint: a.nft_mint,
        nft_mint_authority: a.nft_mint_authority,
        nft_metadata: a.nft_metadata,
        nft_master_edition: a.nft_master_edition,
        token: a.token,
        token_record: a.token_record,
        collection_delegate_record: a.collection_delegate_record,
        collection_mint: a.collection_mint,
        collection_metadata: a.collection_metadata,
        collection_master_edition: a.collection_master_edition,
        collection_update_authority: a.collection_update_authority,
        token_metadata_program: a.token_metadata_program,
        spl_token_program: a.spl_token_program,
        spl_ata_program: a.spl_ata_program,
        system_program: a.system_program,
        sysvar_instructions: key(21),
        authorization_rules_program: None,
        authorization_rules: None,
        req: key(22),
        authority: key(23),
        switchboard: key(24),
        switchboard_state: key(25),
        switchboard_attestation_queue: key(26),
        switchboard_function: key(27),
        switchboard_request: key(28),
        switchboard_request_escrow: key(29),
        switchboard_mint: key(30),
        token_program: key(31),
        associated_token_program: key(32),
    };
    let mut req = RequestAccountData {
        bump: 0,
        pubkey_hash: [0u8; 32],
        seed: 9,
        blockhash: key(70),
        result: [0u8; 32],
        request_timestamp: 0,
        reveal_timestamp: 0,
        switchboard_request: [0u8; 32],
    };
    mint_v2(&key(99), &request_accounts, 255, 254, 50, &mut req);
    let mut cm = machine(3, false, AccountVersion::V2);
    let mut data = config_data(3);
    let plan = unwrap_plan(process_mint(&mut cm, &key(1), &mut data, &a, &mut req, 255, 60));
    assert!(plan.failure.is_none());
    assert_eq!(req.reveal_timestamp, 60);
    assert_eq!(cm.items_redeemed, 1);
}

#[test]
fn layout_check_matches_the_account() {
    let cm = machine(4, false, AccountVersion::V2);
    assert!(config_layout_holds(&cm, &config_data(4)));
    let mut short = config_data(4);
    short.pop();
    assert!(!config_layout_holds(&cm, &short));
    let mut bad_index = config_data(4);
    let n = bad_index.len();
    bad_index[n - 4] = 9;
    assert!(!config_layout_holds(&cm, &bad_index));
    let sequential = machine(4, true, AccountVersion::V2);
    assert!(config_layout_holds(&sequential, &config_data(4)));
}

#[test]
fn plan_steps_stop_at_the_first_failed_instruction() {
    let cm = machine(2, true, AccountVersion::V1);
    let plan = create(&cm, &key(1), &accounts(), 1, line(), Vec::new(), &collection(false));
    assert!(matches!(next_step(&plan, 0, None), PlanStep::Invoke(0)));
    assert!(matches!(next_step(&plan, 1, None), PlanStep::Invoke(1)));
    assert!(matches!(
        next_step(&plan, 2, Some(7)),
        PlanStep::Done(Err(MintFailure::InstructionFailed { step: 1, code: 7 }))
    ));
    assert!(matches!(next_step(&plan, 4, None), PlanStep::Done(Ok(()))));
    let mut a = accounts();
    a.token = None;
    let failing = create_and_mint(&cm, &key(1), &a, 1, line(), Vec::new(), &collection(false));
    assert!(matches!(next_step(&failing, 0, None), PlanStep::Invoke(0)));
    assert!(matches!(
        next_step(&failing, 1, None),
        PlanStep::Done(Err(MintFailure::Refused(CandyError::MissingTokenAccount)))
    ));
}
