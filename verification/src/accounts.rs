//! The checks that a mint request's accounts must pass before anything is
//! done: the candy machine's mint authority, the derived addresses of the
//! authority and the request account, the fixed program and sysvar addresses,
//! the signers, and the fresh switchboard request and escrow accounts.

use crate::metadata::{authority_seed, authority_seed_bytes, token_metadata_program_bytes, token_metadata_program_id};
use crate::keys::keys_equal;
use crate::request::MintV2;
use crate::state::CandyMachine;
use solana_program::pubkey::Pubkey;
use vstd::prelude::*;

verus! {

/// What `Pubkey::try_find_program_address` gives for `seeds` under the program `program`:
/// the derived address and its bump seed, or `None` where no bump seed gives one.
pub uninterp spec fn program_address(seeds: Seq<Seq<u8>>, program: Seq<u8>) -> Option<(Seq<u8>, u8)>;

/// Calls `Pubkey::try_find_program_address`. Claimed: the result is the one
/// `program_address` names for the seeds and the program.
#[verifier::external_body]
pub(crate) fn find_program_address(seeds: &Vec<Vec<u8>>, program: &[u8; 32]) -> (res: Option<([u8; 32], u8)>)
    ensures
        res is Some <==> program_address(seeds.deep_view(), program@) is Some,
        res matches Some(r) ==> program_address(seeds.deep_view(), program@) == Some((r.0@, r.1)),
{
    let refs: Vec<&[u8]> = seeds.iter().map(|s| s.as_slice()).collect();
    Pubkey::try_find_program_address(&refs, &Pubkey::new_from_array(*program)).map(|(k, b)| (k.to_bytes(), b))
}

/// The bytes of the instructions sysvar's address, `Sysvar1nstructions1111111111111111111111111`.
pub open spec fn instructions_sysvar_bytes() -> Seq<u8> {
    seq![
        6u8, 167, 213, 23, 24, 123, 209, 102, 53, 218, 212, 4, 85, 253, 194, 192, 193, 36, 198,
        143, 33, 86, 117, 165, 219, 186, 203, 95, 8, 0, 0, 0,
    ]
}

/// Reads `solana_program::sysvar::instructions::id()`. Claimed, from the crate's
/// `declare_sysvar_id!` of that address: its bytes are `instructions_sysvar_bytes`.
#[verifier::external_body]
pub(crate) fn instructions_sysvar_id() -> (res: [u8; 32])
    ensures
        res@ == instructions_sysvar_bytes(),
{
    solana_program::sysvar::instructions::id().to_bytes()
}

/// The bytes of the switchboard attestation program's address,
/// `sbattyXrzedoNATfc4L31wC9Mhxsi1BmFhTiN8gDshx`.
pub open spec fn attestation_program_bytes() -> Seq<u8> {
    seq![
        12u8, 246, 37, 40, 156, 146, 161, 132, 190, 120, 201, 18, 161, 81, 189, 215, 81, 28, 243,
        189, 81, 230, 198, 37, 127, 189, 237, 45, 180, 3, 188, 191,
    ]
}

/// Reads `switchboard_solana::SWITCHBOARD_ATTESTATION_PROGRAM_ID`. Claimed, from the crate's
/// definition of that address (without the `pid_override` feature): its bytes are
/// `attestation_program_bytes`.
#[verifier::external_body]
pub(crate) fn attestation_program_id() -> (res: [u8; 32])
    ensures
        res@ == attestation_program_bytes(),
{
    switchboard_solana::SWITCHBOARD_ATTESTATION_PROGRAM_ID.to_bytes()
}

/// The bytes of the native (wrapped SOL) mint, `So11111111111111111111111111111111111111112`.
pub open spec fn native_mint_bytes() -> Seq<u8> {
    seq![
        6u8, 155, 136, 87, 254, 171, 129, 132, 251, 104, 127, 99, 70, 24, 192, 53, 218, 196, 57,
        220, 26, 235, 59, 85, 152, 160, 240, 0, 0, 0, 0, 1,
    ]
}

/// The address of the native mint.
pub fn native_mint() -> (res: [u8; 32])
    ensures
        res@ == native_mint_bytes(),
{
    let res = [
        6u8, 155, 136, 87, 254, 171, 129, 132, 251, 104, 127, 99, 70, 24, 192, 53, 218, 196, 57,
        220, 26, 235, 59, 85, 152, 160, 240, 0, 0, 0, 0, 1,
    ];
    assert(res@ =~= native_mint_bytes());
    res
}

/// The bytes of the token authorization rules program,
/// `auth9SigNpDKz4sJJ1DfCTuZrZNSAgh9sFD3rboVmgg`.
pub open spec fn auth_rules_program_bytes() -> Seq<u8> {
    seq![
        8u8, 175, 248, 148, 195, 250, 103, 192, 22, 58, 48, 242, 52, 163, 61, 52, 103, 240, 58,
        161, 100, 23, 49, 94, 180, 184, 20, 39, 189, 155, 166, 237,
    ]
}

/// The address of the token authorization rules program.
pub fn auth_rules_program() -> (res: [u8; 32])
    ensures
        res@ == auth_rules_program_bytes(),
{
    let res = [
        8u8, 175, 248, 148, 195, 250, 103, 192, 22, 58, 48, 242, 52, 163, 61, 52, 103, 240, 58,
        161, 100, 23, 49, 94, 180, 184, 20, 39, 189, 155, 166, 237,
    ];
    assert(res@ =~= auth_rules_program_bytes());
    res
}

/// What the account checks read besides the addresses: the candy machine's mint authority,
/// who signed, and the owner, lamports and executable flag of the accounts checked for them.
#[derive(Clone, Copy, Debug)]
pub struct MintV2Facts {
    pub candy_machine_mint_authority: [u8; 32],
    pub mint_authority_is_signer: bool,
    pub payer_is_signer: bool,
    pub nft_mint_authority_is_signer: bool,
    /// The owner of the authorization rules account, where one is given.
    pub authorization_rules_owner: Option<[u8; 32]>,
    pub switchboard_is_executable: bool,
    pub switchboard_request_is_signer: bool,
    pub switchboard_request_owner: [u8; 32],
    pub switchboard_request_lamports: u64,
    pub escrow_owner: [u8; 32],
    pub escrow_lamports: u64,
}

/// Why a mint request's accounts were refused.
#[derive(Clone, Copy, Debug, PartialEq, Eq)]
pub enum AccountError {
    /// The mint authority is not the candy machine's.
    MintAuthorityMismatch,
    /// The authority is not the address derived from `candy_machine` and the candy machine.
    AuthorityPdaMismatch,
    /// A required signer did not sign.
    MissingSigner,
    /// The token metadata program is not at its address.
    WrongTokenMetadataProgram,
    /// The instructions sysvar is not at its address.
    WrongInstructionsSysvar,
    /// The authorization rules program, or the owner of the rules, is not the rules program.
    WrongAuthorizationRules,
    /// The request account is not the address derived from the authority.
    RequestMismatch,
    /// The switchboard program is not the attestation program, or not executable.
    WrongSwitchboardProgram,
    /// The switchboard request or escrow is not a fresh system account.
    NotFreshAccount,
    /// The switchboard mint is not the native mint.
    WrongSwitchboardMint,
}

/// The bytes of an address, as a seed.
fn key_bytes(k: &[u8; 32]) -> (res: Vec<u8>)
    ensures
        res@ == k@,
{
    let mut out: Vec<u8> = Vec::new();
    let mut i: usize = 0;
    while i < 32
        invariant
            0 <= i <= 32,
            k@.len() == 32,
            out@ == k@.take(i as int),
        decreases 32 - i,
    {
        out.push(k[i]);
        i = i + 1;
        assert(out@ =~= k@.take(i as int));
    }
    assert(k@.take(32) =~= k@);
    out
}

/// The seeds of the candy machine's authority.
pub open spec fn authority_seeds(candy_machine: [u8; 32]) -> Seq<Seq<u8>> {
    seq![authority_seed(), candy_machine@]
}

/// The bumps of the authority and of the request account where the accounts of a mint request
/// pass every check, else the first check (in the order of the accounts) that fails.
pub open spec fn account_check(program_id: [u8; 32], a: &MintV2, f: &MintV2Facts) -> Result<(u8, u8), AccountError> {
    let authority = program_address(authority_seeds(a.candy_machine), program_id@);
    let request = program_address(seq![a.authority_pda@], program_id@);
    if f.candy_machine_mint_authority@ != a.mint_authority@ {
        Err(AccountError::MintAuthorityMismatch)
    } else if !(authority matches Some(r) && r.0 == a.authority_pda@) {
        Err(AccountError::AuthorityPdaMismatch)
    } else if !f.mint_authority_is_signer || !f.payer_is_signer || !f.nft_mint_authority_is_signer {
        Err(AccountError::MissingSigner)
    } else if a.token_metadata_program@ != token_metadata_program_bytes() {
        Err(AccountError::WrongTokenMetadataProgram)
    } else if a.sysvar_instructions@ != instructions_sysvar_bytes() {
        Err(AccountError::WrongInstructionsSysvar)
    } else if (a.authorization_rules_program matches Some(k) && k@ != auth_rules_program_bytes())
        || (f.authorization_rules_owner matches Some(o) && o@ != auth_rules_program_bytes()) {
        Err(AccountError::WrongAuthorizationRules)
    } else if !(request matches Some(r) && r.0 == a.req@) {
        Err(AccountError::RequestMismatch)
    } else if a.switchboard@ != attestation_program_bytes() || !f.switchboard_is_executable {
        Err(AccountError::WrongSwitchboardProgram)
    } else if !f.switchboard_request_is_signer {
        Err(AccountError::MissingSigner)
    } else if f.switchboard_request_owner@ != a.system_program@ || f.switchboard_request_lamports
        != 0 || f.escrow_owner@ != a.system_program@ || f.escrow_lamports != 0 {
        Err(AccountError::NotFreshAccount)
    } else if a.switchboard_mint@ != native_mint_bytes() {
        Err(AccountError::WrongSwitchboardMint)
    } else {
        Ok((authority.unwrap().1, request.unwrap().1))
    }
}

/// Checks the accounts of a mint request (see `account_check`): returns the bumps of the
/// authority and of the request account.
pub fn check_mint_v2_accounts(program_id: &[u8; 32], accounts: &MintV2, facts: &MintV2Facts) -> (res: Result<(u8, u8), AccountError>)
    ensures
        res == account_check(*program_id, accounts, facts),
{
    let a = accounts;
    if !keys_equal(&facts.candy_machine_mint_authority, &a.mint_authority) {
        return Err(AccountError::MintAuthorityMismatch);
    }
    let authority_seeds: Vec<Vec<u8>> = vec![authority_seed_bytes(), key_bytes(&a.candy_machine)];
    proof {
        assert(authority_seeds@.len() == 2);
        assert(authority_seeds.deep_view()[0] =~= authority_seed());
        assert(authority_seeds.deep_view()[1] =~= a.candy_machine@);
        assert(authority_seeds.deep_view() =~= seq![authority_seed(), a.candy_machine@]);
    }
    let authority_bump = match find_program_address(&authority_seeds, program_id) {
        Some((address, bump)) => {
            if !keys_equal(&address, &a.authority_pda) {
                return Err(AccountError::AuthorityPdaMismatch);
            }
            bump
        },
        None => return Err(AccountError::AuthorityPdaMismatch),
    };
    if !facts.mint_authority_is_signer || !facts.payer_is_signer || !facts.nft_mint_authority_is_signer {
        return Err(AccountError::MissingSigner);
    }
    if !keys_equal(&a.token_metadata_program, &token_metadata_program_id()) {
        return Err(AccountError::WrongTokenMetadataProgram);
    }
    if !keys_equal(&a.sysvar_instructions, &instructions_sysvar_id()) {
        return Err(AccountError::WrongInstructionsSysvar);
    }
    let rules = auth_rules_program();
    if let Some(k) = &a.authorization_rules_program {
        if !keys_equal(k, &rules) {
            return Err(AccountError::WrongAuthorizationRules);
        }
    }
    if let Some(o) = &facts.authorization_rules_owner {
        if !keys_equal(o, &rules) {
            return Err(AccountError::WrongAuthorizationRules);
        }
    }
    let request_seeds: Vec<Vec<u8>> = vec![key_bytes(&a.authority_pda)];
    proof {
        assert(request_seeds@.len() == 1);
        assert(request_seeds.deep_view()[0] =~= a.authority_pda@);
        assert(request_seeds.deep_view() =~= seq![a.authority_pda@]);
    }
    let request_bump = match find_program_address(&request_seeds, program_id) {
        Some((address, bump)) => {
            if !keys_equal(&address, &a.req) {
                return Err(AccountError::RequestMismatch);
            }
            bump
        },
        None => return Err(AccountError::RequestMismatch),
    };
    if !keys_equal(&a.switchboard, &attestation_program_id()) || !facts.switchboard_is_executable {
        return Err(AccountError::WrongSwitchboardProgram);
    }
    if !facts.switchboard_request_is_signer {
        return Err(AccountError::MissingSigner);
    }
    if !keys_equal(&facts.switchboard_request_owner, &a.system_program)
        || facts.switchboard_request_lamports != 0 || !keys_equal(&facts.escrow_owner, &a.system_program)
        || facts.escrow_lamports != 0 {
        return Err(AccountError::NotFreshAccount);
    }
    if !keys_equal(&a.switchboard_mint, &native_mint()) {
        return Err(AccountError::WrongSwitchboardMint);
    }
    Ok((authority_bump, request_bump))
}

} // verus!
