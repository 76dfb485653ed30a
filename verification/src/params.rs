//! The container parameters that a mint request hands to the randomness
//! function: comma-separated `KEY=VALUE` pairs naming the accounts of the
//! mint (base58 addresses) and the authority bump (a decimal number).

use crate::keys::{
    format_pubkey, is_base58_char, is_zero_key, key_is_zero, parse_pubkey, pubkey_from_text,
    pubkey_text,
};
use crate::text::{
    copy_range, decimal, find_byte, index_of, is_ascii_bytes, is_digit, lemma_ascii_valid_utf8, lemma_decimal,
    lemma_index_of, lemma_index_of_at, lemma_parse_decimal_u8, lemma_split_concat, lemma_split_cons,
    lemma_split_single,
    parse_u8, read_u8, split_at_byte, write_decimal,
};
use vstd::prelude::*;
use vstd::slice::slice_subrange;
use vstd::utf8::valid_utf8;

verus! {

/// The byte `,` that separates pairs.
pub const COMMA: u8 = 44;

/// The byte `=` that separates a key from its value.
pub const EQUALS: u8 = 61;

/// Number of address fields; the bump is field number `KEY_FIELDS`.
pub const KEY_FIELDS: usize = 22;

/// Field of the program that receives the minted result (`PID`).
pub const PROGRAM_ID_FIELD: usize = 0;

/// Field of the randomness request account (`REQUEST_KEY`).
pub const REQUEST_KEY_FIELD: usize = 21;

/// Field of the authority bump (`BUMP`).
pub const BUMP_FIELD: usize = 22;

/// The key text of field `i`, in the order in which the mint request writes them:
/// `PID`, `CANDY_MACHINE`, `SPL_ATA_PROGRAM`, `AUTHORITY_PDA`, `COLLECTION_DELEGATE_RECORD`,
/// `COLLECTION_MASTER_EDITION`, `COLLECTION_METADATA`, `COLLECTION_MINT`,
/// `COLLECTION_UPDATE_AUTHORITY`, `NFT_OWNER`, `NFT_MASTER_EDITION`, `NFT_METADATA`,
/// `NFT_MINT`, `NFT_MINT_AUTHORITY`, `PAYER`, `SYSTEM_PROGRAM`, `SYSVAR_INSTRUCTIONS`,
/// `TOKEN`, `TOKEN_METADATA_PROGRAM`, `SPL_TOKEN_PROGRAM`, `TOKEN_RECORD`, `REQUEST_KEY`,
/// `BUMP` (ASCII codes).
pub open spec fn name_bytes(i: int) -> Seq<u8> {
    if i == 0 {
        seq![80, 73, 68]
    } else if i == 1 {
        seq![67, 65, 78, 68, 89, 95, 77, 65, 67, 72, 73, 78, 69]
    } else if i == 2 {
        seq![83, 80, 76, 95, 65, 84, 65, 95, 80, 82, 79, 71, 82, 65, 77]
    } else if i == 3 {
        seq![65, 85, 84, 72, 79, 82, 73, 84, 89, 95, 80, 68, 65]
    } else if i == 4 {
        seq![67, 79, 76, 76, 69, 67, 84, 73, 79, 78, 95, 68, 69, 76, 69, 71, 65, 84, 69, 95, 82, 69, 67, 79, 82, 68]
    } else if i == 5 {
        seq![67, 79, 76, 76, 69, 67, 84, 73, 79, 78, 95, 77, 65, 83, 84, 69, 82, 95, 69, 68, 73, 84, 73, 79, 78]
    } else if i == 6 {
        seq![67, 79, 76, 76, 69, 67, 84, 73, 79, 78, 95, 77, 69, 84, 65, 68, 65, 84, 65]
    } else if i == 7 {
        seq![67, 79, 76, 76, 69, 67, 84, 73, 79, 78, 95, 77, 73, 78, 84]
    } else if i == 8 {
        seq![67, 79, 76, 76, 69, 67, 84, 73, 79, 78, 95, 85, 80, 68, 65, 84, 69, 95, 65, 85, 84, 72, 79, 82, 73, 84, 89]
    } else if i == 9 {
        seq![78, 70, 84, 95, 79, 87, 78, 69, 82]
    } else if i == 10 {
        seq![78, 70, 84, 95, 77, 65, 83, 84, 69, 82, 95, 69, 68, 73, 84, 73, 79, 78]
    } else if i == 11 {
        seq![78, 70, 84, 95, 77, 69, 84, 65, 68, 65, 84, 65]
    } else if i == 12 {
        seq![78, 70, 84, 95, 77, 73, 78, 84]
    } else if i == 13 {
        seq![78, 70, 84, 95, 77, 73, 78, 84, 95, 65, 85, 84, 72, 79, 82, 73, 84, 89]
    } else if i == 14 {
        seq![80, 65, 89, 69, 82]
    } else if i == 15 {
        seq![83, 89, 83, 84, 69, 77, 95, 80, 82, 79, 71, 82, 65, 77]
    } else if i == 16 {
        seq![83, 89, 83, 86, 65, 82, 95, 73, 78, 83, 84, 82, 85, 67, 84, 73, 79, 78, 83]
    } else if i == 17 {
        seq![84, 79, 75, 69, 78]
    } else if i == 18 {
        seq![84, 79, 75, 69, 78, 95, 77, 69, 84, 65, 68, 65, 84, 65, 95, 80, 82, 79, 71, 82, 65, 77]
    } else if i == 19 {
        seq![83, 80, 76, 95, 84, 79, 75, 69, 78, 95, 80, 82, 79, 71, 82, 65, 77]
    } else if i == 20 {
        seq![84, 79, 75, 69, 78, 95, 82, 69, 67, 79, 82, 68]
    } else if i == 21 {
        seq![82, 69, 81, 85, 69, 83, 84, 95, 75, 69, 89]
    } else {
        seq![66, 85, 77, 80]
    }
}

/// `REQUEST`, read as a second name of the request account field.
pub open spec fn request_alias() -> Seq<u8> {
    seq![82, 69, 81, 85, 69, 83, 84]
}

/// The first field from `i` on whose key text is `key`.
pub open spec fn field_search(key: Seq<u8>, i: int) -> Option<int>
    decreases 23 - i,
{
    if i < 0 || i > 22 {
        None
    } else if key == name_bytes(i) {
        Some(i)
    } else {
        field_search(key, i + 1)
    }
}

/// The field a key text names, if any.
pub open spec fn field_of(key: Seq<u8>) -> Option<int> {
    match field_search(key, 0) {
        Some(i) => Some(i),
        None => if key == request_alias() {
            Some(REQUEST_KEY_FIELD as int)
        } else {
            None
        },
    }
}

/// The content of container parameters: the 22 addresses in field order, and the bump.
pub struct ParamsModel {
    pub keys: Seq<Seq<u8>>,
    pub bump: u8,
}

/// The all-zero address, `Pubkey::default()`.
pub open spec fn zero_key() -> Seq<u8> {
    Seq::new(32, |i: int| 0u8)
}

/// Parameters before any pair is read: every address zero, bump zero.
pub open spec fn initial_model() -> ParamsModel {
    ParamsModel { keys: Seq::new(KEY_FIELDS as nat, |i: int| zero_key()), bump: 0 }
}

/// The key and the value of a piece: the text before and after its first `=`,
/// or `None` where the piece holds no `=`.
pub open spec fn key_value(piece: Seq<u8>) -> Option<(Seq<u8>, Seq<u8>)> {
    let e = index_of(piece, EQUALS);
    if e >= piece.len() {
        None
    } else {
        Some((piece.take(e), piece.skip(e + 1)))
    }
}

/// A piece whose value can be read: one with a known key holds a value that
/// `Pubkey::from_str` (addresses) or `u8`'s `FromStr` (the bump) accepts.
pub open spec fn piece_readable(piece: Seq<u8>) -> bool {
    match key_value(piece) {
        Some((key, value)) => match field_of(key) {
            Some(i) => if i < KEY_FIELDS {
                pubkey_from_text(value) is Some
            } else {
                parse_u8(value) is Some
            },
            None => true,
        },
        None => true,
    }
}

/// The parameters after reading one piece: a known key sets its field, anything else is ignored.
pub open spec fn apply_piece(m: ParamsModel, piece: Seq<u8>) -> ParamsModel {
    match key_value(piece) {
        Some((key, value)) => match field_of(key) {
            Some(i) => if i < KEY_FIELDS {
                ParamsModel { keys: m.keys.update(i, pubkey_from_text(value).unwrap()), ..m }
            } else {
                ParamsModel { bump: parse_u8(value).unwrap(), ..m }
            },
            None => m,
        },
        None => m,
    }
}

/// The parameters after reading the pieces in order (a later pair overrides an earlier one).
pub open spec fn apply_all(m: ParamsModel, pieces: Seq<Seq<u8>>) -> ParamsModel
    decreases pieces.len(),
{
    if pieces.len() == 0 {
        m
    } else {
        apply_all(apply_piece(m, pieces[0]), pieces.drop_first())
    }
}

/// Every piece of `text` is readable.
pub open spec fn values_readable(text: Seq<u8>) -> bool {
    let pieces = split_at_byte(text, COMMA);
    forall|j: int| 0 <= j < pieces.len() ==> piece_readable(#[trigger] pieces[j])
}

/// Inputs on which decoding runs to its end: UTF-8 text whose values can all be read.
pub open spec fn decodable(text: Seq<u8>) -> bool {
    valid_utf8(text) && values_readable(text)
}

/// Why decoding refused the parameters.
#[derive(Debug, Clone, Copy, PartialEq, Eq)]
pub enum ParamsError {
    /// No nonzero `PID` was given ("PID cannot be undefined").
    ProgramIdUndefined,
    /// No nonzero `REQUEST_KEY` was given ("REQUEST_KEY cannot be undefined").
    RequestKeyUndefined,
}

/// The result of decoding `text`: the parameters it sets, or the error for a missing
/// program id (checked first) or request key.
pub open spec fn decode_model(text: Seq<u8>) -> Result<ParamsModel, ParamsError> {
    let m = apply_all(initial_model(), split_at_byte(text, COMMA));
    if is_zero_key(m.keys[PROGRAM_ID_FIELD as int]) {
        Err(ParamsError::ProgramIdUndefined)
    } else if is_zero_key(m.keys[REQUEST_KEY_FIELD as int]) {
        Err(ParamsError::RequestKeyUndefined)
    } else {
        Ok(m)
    }
}

/// The parameters that the randomness function reads from its request.
pub struct ContainerParams {
    pub program_id: [u8; 32],
    pub request_key: [u8; 32],
    pub candy_machine: [u8; 32],
    pub spl_ata_program: [u8; 32],
    pub authority_pda: [u8; 32],
    pub collection_delegate_record: [u8; 32],
    pub collection_master_edition: [u8; 32],
    pub collection_metadata: [u8; 32],
    pub collection_mint: [u8; 32],
    pub collection_update_authority: [u8; 32],
    pub nft_owner: [u8; 32],
    pub nft_master_edition: [u8; 32],
    pub nft_metadata: [u8; 32],
    pub nft_mint: [u8; 32],
    pub nft_mint_authority: [u8; 32],
    pub payer: [u8; 32],
    pub system_program: [u8; 32],
    pub sysvar_instructions: [u8; 32],
    pub token: [u8; 32],
    pub token_metadata_program: [u8; 32],
    pub spl_token_program: [u8; 32],
    pub token_record: [u8; 32],
    pub bump: u8,
}

impl View for ContainerParams {
    type V = ParamsModel;

    open spec fn view(&self) -> ParamsModel {
        ParamsModel {
            keys: seq![
                self.program_id@,
                self.candy_machine@,
                self.spl_ata_program@,
                self.authority_pda@,
                self.collection_delegate_record@,
                self.collection_master_edition@,
                self.collection_metadata@,
                self.collection_mint@,
                self.collection_update_authority@,
                self.nft_owner@,
                self.nft_master_edition@,
                self.nft_metadata@,
                self.nft_mint@,
                self.nft_mint_authority@,
                self.payer@,
                self.system_program@,
                self.sysvar_instructions@,
                self.token@,
                self.token_metadata_program@,
                self.spl_token_program@,
                self.token_record@,
                self.request_key@,
            ],
            bump: self.bump,
        }
    }
}

/// The outcome of decoding, by the model of the parameters.
pub open spec fn decoded_view(r: Result<ContainerParams, ParamsError>) -> Result<ParamsModel, ParamsError> {
    match r {
        Ok(p) => Ok(p@),
        Err(e) => Err(e),
    }
}

/// Byte-wise equality of two texts.
fn bytes_equal(a: &Vec<u8>, b: &Vec<u8>) -> (res: bool)
    ensures
        res == (a@ == b@),
{
    if a.len() != b.len() {
        return false;
    }
    let mut i: usize = 0;
    while i < a.len()
        invariant
            a.len() == b.len(),
            0 <= i <= a.len(),
            forall|j: int| 0 <= j < i ==> a@[j] == b@[j],
        decreases a.len() - i,
    {
        if a[i] != b[i] {
            return false;
        }
        i = i + 1;
    }
    assert(a@ =~= b@);
    true
}

/// The key text of field `i`.
fn field_name(i: usize) -> (res: Vec<u8>)
    requires
        i <= BUMP_FIELD,
    ensures
        res@ == name_bytes(i as int),
{
    let v: Vec<u8> = match i {
        0 => vec![80, 73, 68],
        1 => vec![67, 65, 78, 68, 89, 95, 77, 65, 67, 72, 73, 78, 69],
        2 => vec![83, 80, 76, 95, 65, 84, 65, 95, 80, 82, 79, 71, 82, 65, 77],
        3 => vec![65, 85, 84, 72, 79, 82, 73, 84, 89, 95, 80, 68, 65],
        4 => vec![67, 79, 76, 76, 69, 67, 84, 73, 79, 78, 95, 68, 69, 76, 69, 71, 65, 84, 69, 95, 82, 69, 67, 79, 82, 68],
        5 => vec![67, 79, 76, 76, 69, 67, 84, 73, 79, 78, 95, 77, 65, 83, 84, 69, 82, 95, 69, 68, 73, 84, 73, 79, 78],
        6 => vec![67, 79, 76, 76, 69, 67, 84, 73, 79, 78, 95, 77, 69, 84, 65, 68, 65, 84, 65],
        7 => vec![67, 79, 76, 76, 69, 67, 84, 73, 79, 78, 95, 77, 73, 78, 84],
        8 => vec![67, 79, 76, 76, 69, 67, 84, 73, 79, 78, 95, 85, 80, 68, 65, 84, 69, 95, 65, 85, 84, 72, 79, 82, 73, 84, 89],
        9 => vec![78, 70, 84, 95, 79, 87, 78, 69, 82],
        10 => vec![78, 70, 84, 95, 77, 65, 83, 84, 69, 82, 95, 69, 68, 73, 84, 73, 79, 78],
        11 => vec![78, 70, 84, 95, 77, 69, 84, 65, 68, 65, 84, 65],
        12 => vec![78, 70, 84, 95, 77, 73, 78, 84],
        13 => vec![78, 70, 84, 95, 77, 73, 78, 84, 95, 65, 85, 84, 72, 79, 82, 73, 84, 89],
        14 => vec![80, 65, 89, 69, 82],
        15 => vec![83, 89, 83, 84, 69, 77, 95, 80, 82, 79, 71, 82, 65, 77],
        16 => vec![83, 89, 83, 86, 65, 82, 95, 73, 78, 83, 84, 82, 85, 67, 84, 73, 79, 78, 83],
        17 => vec![84, 79, 75, 69, 78],
        18 => vec![84, 79, 75, 69, 78, 95, 77, 69, 84, 65, 68, 65, 84, 65, 95, 80, 82, 79, 71, 82, 65, 77],
        19 => vec![83, 80, 76, 95, 84, 79, 75, 69, 78, 95, 80, 82, 79, 71, 82, 65, 77],
        20 => vec![84, 79, 75, 69, 78, 95, 82, 69, 67, 79, 82, 68],
        21 => vec![82, 69, 81, 85, 69, 83, 84, 95, 75, 69, 89],
        _ => vec![66, 85, 77, 80],
    };
    v
}

/// The field a key text names, if any.
fn field_index(key: &Vec<u8>) -> (res: Option<usize>)
    ensures
        res matches Some(i) ==> field_of(key@) == Some(i as int),
        res is None ==> field_of(key@) is None,
{
    let mut i: usize = 0;
    while i <= BUMP_FIELD
        invariant
            0 <= i <= BUMP_FIELD + 1,
            field_search(key@, 0) == field_search(key@, i as int),
        decreases BUMP_FIELD + 1 - i,
    {
        let name = field_name(i);
        if bytes_equal(key, &name) {
            return Some(i);
        }
        i = i + 1;
    }
    let alias: Vec<u8> = vec![82, 69, 81, 85, 69, 83, 84];
    if bytes_equal(key, &alias) {
        Some(REQUEST_KEY_FIELD)
    } else {
        None
    }
}

impl ContainerParams {
    /// Parameters with every address zero and bump zero.
    pub fn zeroed() -> (res: ContainerParams)
        ensures
            res@ == initial_model(),
    {
        let res = ContainerParams {
            program_id: [0u8; 32],
            request_key: [0u8; 32],
            candy_machine: [0u8; 32],
            spl_ata_program: [0u8; 32],
            authority_pda: [0u8; 32],
            collection_delegate_record: [0u8; 32],
            collection_master_edition: [0u8; 32],
            collection_metadata: [0u8; 32],
            collection_mint: [0u8; 32],
            collection_update_authority: [0u8; 32],
            nft_owner: [0u8; 32],
            nft_master_edition: [0u8; 32],
            nft_metadata: [0u8; 32],
            nft_mint: [0u8; 32],
            nft_mint_authority: [0u8; 32],
            payer: [0u8; 32],
            system_program: [0u8; 32],
            sysvar_instructions: [0u8; 32],
            token: [0u8; 32],
            token_metadata_program: [0u8; 32],
            spl_token_program: [0u8; 32],
            token_record: [0u8; 32],
            bump: 0,
        };
        assert(res.program_id@ =~= zero_key());
        assert(res@.keys =~= initial_model().keys);
        res
    }

    /// The address in field `i`.
    pub fn key_at(&self, i: usize) -> (res: [u8; 32])
        requires
            i < KEY_FIELDS,
        ensures
            res@ == self@.keys[i as int],
    {
        match i {
            0 => self.program_id,
            1 => self.candy_machine,
            2 => self.spl_ata_program,
            3 => self.authority_pda,
            4 => self.collection_delegate_record,
            5 => self.collection_master_edition,
            6 => self.collection_metadata,
            7 => self.collection_mint,
            8 => self.collection_update_authority,
            9 => self.nft_owner,
            10 => self.nft_master_edition,
            11 => self.nft_metadata,
            12 => self.nft_mint,
            13 => self.nft_mint_authority,
            14 => self.payer,
            15 => self.system_program,
            16 => self.sysvar_instructions,
            17 => self.token,
            18 => self.token_metadata_program,
            19 => self.spl_token_program,
            20 => self.token_record,
            _ => self.request_key,
        }
    }

    /// Sets the address in field `i`.
    pub fn set_key(&mut self, i: usize, k: [u8; 32])
        requires
            i < KEY_FIELDS,
        ensures
            final(self)@ == (ParamsModel { keys: old(self)@.keys.update(i as int, k@), ..old(self)@ }),
    {
        match i {
            0 => self.program_id = k,
            1 => self.candy_machine = k,
            2 => self.spl_ata_program = k,
            3 => self.authority_pda = k,
            4 => self.collection_delegate_record = k,
            5 => self.collection_master_edition = k,
            6 => self.collection_metadata = k,
            7 => self.collection_mint = k,
            8 => self.collection_update_authority = k,
            9 => self.nft_owner = k,
            10 => self.nft_master_edition = k,
            11 => self.nft_metadata = k,
            12 => self.nft_mint = k,
            13 => self.nft_mint_authority = k,
            14 => self.payer = k,
            15 => self.system_program = k,
            16 => self.sysvar_instructions = k,
            17 => self.token = k,
            18 => self.token_metadata_program = k,
            19 => self.spl_token_program = k,
            20 => self.token_record = k,
            _ => self.request_key = k,
        }
        assert(self@.keys =~= old(self)@.keys.update(i as int, k@));
    }
}

/// Reads the piece `s[from..to]` into `p`; `false` where its value cannot be read.
fn read_piece(p: &mut ContainerParams, s: &Vec<u8>, from: usize, to: usize) -> (ok: bool)
    requires
        from <= to <= s.len(),
    ensures
        ok == piece_readable(s@.subrange(from as int, to as int)),
        ok ==> final(p)@ == apply_piece(old(p)@, s@.subrange(from as int, to as int)),
{
    let ghost piece = s@.subrange(from as int, to as int);
    let e = find_byte(s, from, to, EQUALS);
    if e == to {
        return true;
    }
    proof {
        lemma_index_of(piece, EQUALS);
        assert(piece.take(e - from) =~= s@.subrange(from as int, e as int));
        assert(piece.skip(e - from + 1) =~= s@.subrange(e + 1, to as int));
    }
    let key = copy_range(s, from, e);
    match field_index(&key) {
        None => true,
        Some(i) => {
            if i < KEY_FIELDS {
                let value = slice_subrange(s.as_slice(), e + 1, to);
                match parse_pubkey(value) {
                    Some(k) => {
                        p.set_key(i, k);
                        true
                    },
                    None => false,
                }
            } else {
                match read_u8(s, e + 1, to) {
                    Some(b) => {
                        p.bump = b;
                        assert(p@ =~= ParamsModel { bump: b, ..old(p)@ });
                        true
                    },
                    None => false,
                }
            }
        },
    }
}

impl ContainerParams {
    /// Decodes the parameters, or gives `None` where a value of a known key cannot be read
    /// (an address that is no base58 address, a bump that is no `u8`).
    pub fn try_decode(container_params: &Vec<u8>) -> (res: Option<Result<ContainerParams, ParamsError>>)
        ensures
            res is None <==> !values_readable(container_params@),
            res matches Some(r) ==> decoded_view(r) == decode_model(container_params@),
    {
        let ghost s = container_params@;
        let n = container_params.len();
        let mut p = ContainerParams::zeroed();
        let mut start: usize = 0;
        assert(s.skip(0) =~= s);
        loop
            invariant_except_break
                apply_all(initial_model(), split_at_byte(s, COMMA)) == apply_all(
                    p@,
                    split_at_byte(s.skip(start as int), COMMA),
                ),
                values_readable(s) == values_readable(s.skip(start as int)),
            invariant
                start <= n == s.len(),
                s == container_params@,
            ensures
                apply_all(initial_model(), split_at_byte(s, COMMA)) == p@,
                values_readable(s),
            decreases n - start,
        {
            let ghost rest = s.skip(start as int);
            let k = find_byte(container_params, start, n, COMMA);
            let ghost old_p = p@;
            proof {
                assert(s.subrange(start as int, n as int) =~= rest);
                lemma_index_of(rest, COMMA);
            }
            let ok = read_piece(&mut p, container_params, start, k);
            if k == n {
                proof {
                    let pieces = split_at_byte(rest, COMMA);
                    assert(pieces == seq![rest]);
                    assert(s.subrange(start as int, k as int) =~= rest);
                    assert(pieces[0] == rest);
                    assert(pieces.drop_first() =~= Seq::<Seq<u8>>::empty());
                    if ok {
                        assert(apply_all(old_p, pieces) == apply_all(apply_piece(old_p, rest), pieces.drop_first()));
                        assert(apply_all(apply_piece(old_p, rest), Seq::<Seq<u8>>::empty()) == apply_piece(old_p, rest));
                        assert forall|j: int| 0 <= j < pieces.len() implies piece_readable(#[trigger] pieces[j]) by {
                            assert(j == 0);
                        }
                    } else {
                        assert(!piece_readable(pieces[0]));
                    }
                }
                if !ok {
                    return None;
                }
                break;
            }
            proof {
                let pieces = split_at_byte(rest, COMMA);
                let tail = split_at_byte(s.skip(k + 1), COMMA);
                assert(rest.take(k - start) =~= s.subrange(start as int, k as int));
                assert(rest.skip(k - start + 1) =~= s.skip(k + 1));
                assert(pieces == seq![s.subrange(start as int, k as int)] + tail);
                assert(pieces[0] == s.subrange(start as int, k as int));
                assert(pieces.drop_first() =~= tail);
                assert forall|j: int| 0 <= j < tail.len() implies #[trigger] tail[j] == pieces[j + 1] by {}
                if ok {
                    assert(apply_all(old_p, pieces) == apply_all(apply_piece(old_p, pieces[0]), pieces.drop_first()));
                    assert(values_readable(s.skip(k + 1)) ==> values_readable(rest)) by {
                        if values_readable(s.skip(k + 1)) {
                            assert forall|j: int| 0 <= j < pieces.len() implies piece_readable(#[trigger] pieces[j]) by {
                                if j > 0 {
                                    assert(pieces[j] == tail[j - 1]);
                                }
                            }
                        }
                    }
                    assert(values_readable(rest) ==> values_readable(s.skip(k + 1))) by {
                        if values_readable(rest) {
                            assert forall|j: int| 0 <= j < tail.len() implies piece_readable(#[trigger] tail[j]) by {
                                assert(tail[j] == pieces[j + 1]);
                            }
                        }
                    }
                } else {
                    assert(!piece_readable(pieces[0]));
                }
            }
            if !ok {
                return None;
            }
            start = k + 1;
        }
        let result = if key_is_zero(&p.program_id) {
            Err(ParamsError::ProgramIdUndefined)
        } else if key_is_zero(&p.request_key) {
            Err(ParamsError::RequestKeyUndefined)
        } else {
            Ok(p)
        };
        Some(result)
    }

    /// Decodes the parameters: each comma-separated `KEY=VALUE` pair with a known key sets
    /// its field (addresses through `Pubkey::from_str`, the bump through `u8`'s `FromStr`),
    /// a later pair overriding an earlier one, and other pieces are ignored. Fails where no
    /// nonzero program id or request key was set. The text must be UTF-8 and every value of
    /// a known key readable.
    pub fn decode(container_params: &Vec<u8>) -> (res: Result<ContainerParams, ParamsError>)
        requires
            decodable(container_params@),
        ensures
            decoded_view(res) == decode_model(container_params@),
    {
        match ContainerParams::try_decode(container_params) {
            Some(r) => r,
            None => {
                assert(false);
                Err(ParamsError::ProgramIdUndefined)
            },
        }
    }
}

/// The value text that the mint request writes for field `i`: the base58 text of an
/// address, the decimal text of the bump.
pub open spec fn entry_value(m: ParamsModel, i: int) -> Seq<u8> {
    if i < KEY_FIELDS {
        pubkey_text(m.keys[i])
    } else {
        decimal(m.bump as nat)
    }
}

/// The pair `KEY=VALUE` written for field `i`.
pub open spec fn entry(m: ParamsModel, i: int) -> Seq<u8> {
    name_bytes(i) + seq![EQUALS] + entry_value(m, i)
}

/// The pairs of fields `i` to 22, separated by commas.
pub open spec fn joined_from(m: ParamsModel, i: int) -> Seq<u8>
    decreases 22 - i,
{
    if i >= 22 {
        entry(m, 22)
    } else {
        entry(m, i) + seq![COMMA] + joined_from(m, i + 1)
    }
}

/// The text of the parameters as the mint request writes it:
/// `PID=..,CANDY_MACHINE=..,..,REQUEST_KEY=..,BUMP=..`.
pub open spec fn params_text(m: ParamsModel) -> Seq<u8> {
    joined_from(m, 0)
}

/// What the address's text form guarantees: base58 characters only, and reading the
/// text back gives the address.
pub open spec fn key_text_round_trips(k: Seq<u8>) -> bool {
    &&& forall|j: int| 0 <= j < pubkey_text(k).len() ==> is_base58_char(#[trigger] pubkey_text(k)[j])
    &&& pubkey_from_text(pubkey_text(k)) == Some(k)
}

/// An upper-case ASCII letter or `_`, the bytes of key texts.
pub open spec fn is_name_byte(b: u8) -> bool {
    (65 <= b <= 90) || b == 95
}

proof fn lemma_name_bytes(i: int)
    requires
        0 <= i <= 22,
    ensures
        forall|j: int| 0 <= j < name_bytes(i).len() ==> is_name_byte(#[trigger] name_bytes(i)[j]),
        field_of(name_bytes(i)) == Some(i),
{
    lemma_name_field(i);
}

/// The search finds field `i` where no field before it, from `j` on, has the same key text.
proof fn lemma_field_search_finds(key: Seq<u8>, j: int, i: int)
    requires
        0 <= j <= i <= 22,
        key == name_bytes(i),
        forall|l: int| j <= l < i ==> name_bytes(l) != key,
    ensures
        field_search(key, j) == Some(i),
    decreases i - j,
{
    if j < i {
        lemma_field_search_finds(key, j + 1, i);
    }
}

/// The field whose key text has the length, first byte and last byte of `s`: these three
/// tell the key texts apart.
spec fn name_code(s: Seq<u8>) -> int {
    let (len, first, last) = (s.len(), s[0], s[s.len() - 1]);
    if len == 3 {
        0
    } else if len == 13 {
        if first == 67 { 1 } else { 3 }
    } else if len == 15 {
        if first == 83 { 2 } else { 7 }
    } else if len == 26 {
        4
    } else if len == 25 {
        5
    } else if len == 19 {
        if first == 67 { 6 } else { 16 }
    } else if len == 27 {
        8
    } else if len == 9 {
        9
    } else if len == 18 {
        if last == 78 { 10 } else { 13 }
    } else if len == 12 {
        if first == 78 { 11 } else { 20 }
    } else if len == 8 {
        12
    } else if len == 5 {
        if first == 80 { 14 } else { 17 }
    } else if len == 14 {
        15
    } else if len == 22 {
        18
    } else if len == 17 {
        19
    } else if len == 11 {
        21
    } else {
        22
    }
}

/// Each key text names its own field: no earlier key text equals it, since the key texts
/// have distinct codes.
proof fn lemma_name_field(i: int)
    requires
        0 <= i <= 22,
    ensures
        field_of(name_bytes(i)) == Some(i),
{
    assert forall|l: int| 0 <= l <= 22 implies name_code(#[trigger] name_bytes(l)) == l by {}
    lemma_field_search_finds(name_bytes(i), 0, i);
}

/// No comma and no `=` in a value text, and only ASCII bytes.
proof fn lemma_entry_value(m: ParamsModel, i: int)
    requires
        0 <= i <= 22,
        m.keys.len() == KEY_FIELDS,
        forall|j: int| 0 <= j < KEY_FIELDS ==> key_text_round_trips(#[trigger] m.keys[j]),
    ensures
        forall|j: int|
            0 <= j < entry_value(m, i).len() ==> {
                let b = #[trigger] entry_value(m, i)[j];
                b != COMMA && b != EQUALS && b < 128
            },
{
    if i < KEY_FIELDS {
        assert(key_text_round_trips(m.keys[i]));
    } else {
        lemma_decimal(m.bump as nat);
        assert forall|j: int| 0 <= j < entry_value(m, i).len() implies is_digit(
            #[trigger] entry_value(m, i)[j],
        ) by {}
    }
}

/// The pair for field `i` holds no comma, only ASCII bytes, and reads back as field `i`.
proof fn lemma_entry(m: ParamsModel, i: int)
    requires
        0 <= i <= 22,
        m.keys.len() == KEY_FIELDS,
        forall|j: int| 0 <= j < KEY_FIELDS ==> key_text_round_trips(#[trigger] m.keys[j]),
    ensures
        forall|j: int| 0 <= j < entry(m, i).len() ==> #[trigger] entry(m, i)[j] != COMMA,
        is_ascii_bytes(entry(m, i)),
        key_value(entry(m, i)) == Some((name_bytes(i), entry_value(m, i))),
        field_of(name_bytes(i)) == Some(i),
        piece_readable(entry(m, i)),
        i < KEY_FIELDS ==> apply_piece(m, entry(m, i)).keys == m.keys,
        i == BUMP_FIELD ==> apply_piece(m, entry(m, i)) == m,
{
    lemma_name_bytes(i);
    lemma_entry_value(m, i);
    let e = entry(m, i);
    let n = name_bytes(i);
    let v = entry_value(m, i);
    assert forall|j: int| 0 <= j < e.len() implies #[trigger] e[j] != COMMA && e[j] < 128 by {
        if j < n.len() {
            assert(e[j] == n[j]);
            assert(is_name_byte(n[j]));
        } else if j > n.len() {
            assert(e[j] == v[j - n.len() - 1]);
        }
    }
    assert forall|j: int| 0 <= j < n.len() implies e[j] != EQUALS by {
        assert(e[j] == n[j]);
        assert(is_name_byte(n[j]));
    }
    lemma_index_of_at(e, EQUALS, n.len() as int);
    assert(e.take(n.len() as int) =~= n);
    assert(e.skip(n.len() + 1 as int) =~= v);
    if i < KEY_FIELDS {
        assert(key_text_round_trips(m.keys[i]));
        assert(m.keys.update(i, m.keys[i]) =~= m.keys);
    } else {
        lemma_parse_decimal_u8(m.bump);
    }
}

/// The pairs from field `i` on split at the commas into exactly the pairs.
proof fn lemma_split_joined(m: ParamsModel, i: int)
    requires
        0 <= i <= 22,
        m.keys.len() == KEY_FIELDS,
        forall|j: int| 0 <= j < KEY_FIELDS ==> key_text_round_trips(#[trigger] m.keys[j]),
    ensures
        split_at_byte(joined_from(m, i), COMMA) =~= Seq::new((23 - i) as nat, |j: int| entry(m, i + j)),
        is_ascii_bytes(joined_from(m, i)),
    decreases 22 - i,
{
    lemma_entry(m, i);
    if i >= 22 {
        lemma_split_single(entry(m, 22), COMMA);
    } else {
        lemma_split_joined(m, i + 1);
        lemma_split_cons(entry(m, i), joined_from(m, i + 1), COMMA);
        let a = entry(m, i);
        let b = joined_from(m, i + 1);
        let t = a + seq![COMMA] + b;
        assert forall|j: int| 0 <= j < t.len() implies #[trigger] t[j] < 128 by {
            if j < a.len() {
                assert(t[j] == a[j]);
            } else if j > a.len() {
                assert(t[j] == b[j - a.len() - 1]);
            }
        }
    }
}

/// Reading the pairs of fields `i` to 22 into `m0` sets those fields to the values of `m`.
proof fn lemma_apply_entries(m0: ParamsModel, m: ParamsModel, i: int)
    requires
        0 <= i <= 22,
        m0.keys.len() == KEY_FIELDS,
        m.keys.len() == KEY_FIELDS,
        forall|j: int| 0 <= j < KEY_FIELDS ==> key_text_round_trips(#[trigger] m.keys[j]),
    ensures
        apply_all(m0, Seq::new((23 - i) as nat, |j: int| entry(m, i + j))) == (ParamsModel {
            keys: Seq::new(KEY_FIELDS as nat, |j: int| if j < i { m0.keys[j] } else { m.keys[j] }),
            bump: m.bump,
        }),
    decreases 22 - i,
{
    let pieces = Seq::new((23 - i) as nat, |j: int| entry(m, i + j));
    lemma_entry(m, i);
    let m1 = apply_piece(m0, entry(m, i));
    if i < KEY_FIELDS {
        assert(key_text_round_trips(m.keys[i]));
        assert(m1 == ParamsModel { keys: m0.keys.update(i, m.keys[i]), ..m0 });
        lemma_apply_entries(m1, m, i + 1);
        assert(pieces.drop_first() =~= Seq::new((23 - (i + 1)) as nat, |j: int| entry(m, i + 1 + j)));
        assert(Seq::new(KEY_FIELDS as nat, |j: int| if j < i + 1 { m1.keys[j] } else { m.keys[j] })
            =~= Seq::new(KEY_FIELDS as nat, |j: int| if j < i { m0.keys[j] } else { m.keys[j] }));
    } else {
        lemma_parse_decimal_u8(m.bump);
        assert(m1 == ParamsModel { bump: m.bump, ..m0 });
        assert(pieces.drop_first() =~= Seq::<Seq<u8>>::empty());
        assert(apply_all(m1, pieces.drop_first()) == m1);
        assert(m0.keys =~= Seq::new(KEY_FIELDS as nat, |j: int| if j < i { m0.keys[j] } else { m.keys[j] }));
    }
}

/// Decoding the text of parameters gives back the parameters (or the error for a zero
/// program id or request key), and the text is decodable.
proof fn lemma_params_round_trip(m: ParamsModel)
    requires
        m.keys.len() == KEY_FIELDS,
        forall|j: int| 0 <= j < KEY_FIELDS ==> key_text_round_trips(#[trigger] m.keys[j]),
    ensures
        is_ascii_bytes(params_text(m)),
        decodable(params_text(m)),
        apply_all(initial_model(), split_at_byte(params_text(m), COMMA)) == m,
{
    lemma_split_joined(m, 0);
    lemma_ascii_valid_utf8(params_text(m));
    let pieces = split_at_byte(params_text(m), COMMA);
    assert forall|j: int| 0 <= j < pieces.len() implies piece_readable(#[trigger] pieces[j]) by {
        lemma_entry(m, j);
    }
    lemma_apply_entries(initial_model(), m, 0);
    assert(Seq::new(KEY_FIELDS as nat, |j: int| if j < 0 { initial_model().keys[j] } else { m.keys[j] }) =~= m.keys);
}

impl ContainerParams {
    /// The text of the parameters as the mint request writes it (`PID=..,CANDY_MACHINE=..,
    /// ..,REQUEST_KEY=..,BUMP=..`, addresses in base58, the bump in decimal). Decoding it
    /// gives back these parameters, unless the program id or the request key is zero.
    pub fn encode(&self) -> (res: Vec<u8>)
        ensures
            res@ == params_text(self@),
            is_ascii_bytes(res@),
            decodable(res@),
            decode_model(res@) == (if is_zero_key(self.program_id@) {
                Err(ParamsError::ProgramIdUndefined)
            } else if is_zero_key(self.request_key@) {
                Err(ParamsError::RequestKeyUndefined)
            } else {
                Ok(self@)
            }),
    {
        let ghost m = self@;
        let mut out: Vec<u8> = Vec::new();
        let mut i: usize = 0;
        while i <= BUMP_FIELD
            invariant
                0 <= i <= BUMP_FIELD + 1,
                m == self@,
                i == 0 ==> out@.len() == 0,
                0 < i ==> out@ + seq![COMMA] + joined_from(m, i as int) == joined_from(m, 0)
                    || i == BUMP_FIELD + 1,
                i == BUMP_FIELD + 1 ==> out@ == joined_from(m, 0),
                forall|j: int| 0 <= j < i && j < KEY_FIELDS ==> key_text_round_trips(#[trigger] m.keys[j]),
            decreases BUMP_FIELD + 1 - i,
        {
            let ghost before = out@;
            if i > 0 {
                out.push(COMMA);
            }
            let name = field_name(i);
            let mut j: usize = 0;
            while j < name.len()
                invariant
                    0 <= j <= name.len(),
                    out@ == (if i > 0 { before.push(COMMA) } else { before }) + name@.take(j as int),
                decreases name.len() - j,
            {
                out.push(name[j]);
                j = j + 1;
                assert(out@ =~= (if i > 0 { before.push(COMMA) } else { before }) + name@.take(j as int));
            }
            out.push(EQUALS);
            let ghost mid = out@;
            if i < KEY_FIELDS {
                let key = self.key_at(i);
                let text = format_pubkey(&key);
                let mut j: usize = 0;
                while j < text.len()
                    invariant
                        0 <= j <= text.len(),
                        out@ == mid + text@.take(j as int),
                    decreases text.len() - j,
                {
                    out.push(text[j]);
                    j = j + 1;
                    assert(out@ =~= mid + text@.take(j as int));
                }
                assert(text@.take(text.len() as int) =~= text@);
            } else {
                write_decimal(self.bump as u64, &mut out);
            }
            proof {
                assert(name@.take(name.len() as int) =~= name@);
                let e = entry(m, i as int);
                assert(out@ =~= (if i > 0 { before.push(COMMA) } else { before }) + e);
                if i == 0 {
                    assert(out@ =~= e);
                    assert(joined_from(m, 0) == e + seq![COMMA] + joined_from(m, 1));
                } else if i < BUMP_FIELD {
                    assert(joined_from(m, i as int) == e + seq![COMMA] + joined_from(m, i + 1));
                    assert(out@ + seq![COMMA] + joined_from(m, i + 1) =~= before + seq![COMMA] + joined_from(m, i as int));
                } else {
                    assert(joined_from(m, i as int) == e);
                    assert(out@ =~= before + seq![COMMA] + joined_from(m, i as int));
                }
            }
            i = i + 1;
        }
        proof {
            lemma_params_round_trip(m);
        }
        out
    }
}

/// The field a piece sets, if any: that of its key, where it holds `=` and the key is known.
pub open spec fn piece_field(piece: Seq<u8>) -> Option<int> {
    match key_value(piece) {
        Some((key, value)) => field_of(key),
        None => None,
    }
}

/// A model with one address per field.
pub open spec fn model_ok(m: ParamsModel) -> bool {
    m.keys.len() == KEY_FIELDS
}

/// Field numbers lie between the program id and the bump.
proof fn lemma_field_range(key: Seq<u8>)
    ensures
        field_of(key) matches Some(f) ==> 0 <= f <= BUMP_FIELD,
{
    lemma_field_search_range(key, 0);
}

proof fn lemma_field_search_range(key: Seq<u8>, i: int)
    ensures
        field_search(key, i) matches Some(f) ==> 0 <= f <= BUMP_FIELD,
    decreases 23 - i,
{
    if 0 <= i <= 22 && key != name_bytes(i) {
        lemma_field_search_range(key, i + 1);
    }
}

/// Reading a piece keeps one address per field, and a piece that sets no field changes nothing.
proof fn lemma_apply_piece_shape(m: ParamsModel, x: Seq<u8>)
    requires
        model_ok(m),
    ensures
        model_ok(apply_piece(m, x)),
        piece_field(x) is None ==> apply_piece(m, x) == m,
{
    if let Some((key, value)) = key_value(x) {
        lemma_field_range(key);
    }
}

/// Pieces that set different fields (or no field) can be read in either order.
proof fn lemma_apply_piece_commute(m: ParamsModel, x: Seq<u8>, y: Seq<u8>)
    requires
        model_ok(m),
        piece_field(x) is None || piece_field(y) is None || piece_field(x) != piece_field(y),
    ensures
        apply_piece(apply_piece(m, x), y) == apply_piece(apply_piece(m, y), x),
{
    lemma_apply_piece_shape(m, x);
    lemma_apply_piece_shape(m, y);
    lemma_apply_piece_shape(apply_piece(m, x), y);
    lemma_apply_piece_shape(apply_piece(m, y), x);
    if piece_field(x) is Some && piece_field(y) is Some {
        let (kx, vx) = key_value(x).unwrap();
        let (ky, vy) = key_value(y).unwrap();
        lemma_field_range(kx);
        lemma_field_range(ky);
        assert(apply_piece(apply_piece(m, x), y).keys =~= apply_piece(apply_piece(m, y), x).keys);
    }
}

/// A later piece that sets the same field makes an earlier one irrelevant.
proof fn lemma_apply_piece_overwrite(m: ParamsModel, x: Seq<u8>, y: Seq<u8>)
    requires
        model_ok(m),
        piece_field(x) is Some,
        piece_field(x) == piece_field(y),
    ensures
        apply_piece(apply_piece(m, x), y) == apply_piece(m, y),
{
    let (kx, vx) = key_value(x).unwrap();
    lemma_field_range(kx);
    assert(apply_piece(apply_piece(m, x), y).keys =~= apply_piece(m, y).keys);
}

/// Reading `p` then `q` is reading their concatenation.
proof fn lemma_apply_all_concat(m: ParamsModel, p: Seq<Seq<u8>>, q: Seq<Seq<u8>>)
    ensures
        apply_all(m, p + q) == apply_all(apply_all(m, p), q),
    decreases p.len(),
{
    if p.len() > 0 {
        assert((p + q).drop_first() =~= p.drop_first() + q);
        assert((p + q)[0] == p[0]);
        lemma_apply_all_concat(apply_piece(m, p[0]), p.drop_first(), q);
    } else {
        assert(p + q =~= q);
    }
}

/// Reading pieces keeps one address per field.
proof fn lemma_apply_all_shape(m: ParamsModel, p: Seq<Seq<u8>>)
    requires
        model_ok(m),
    ensures
        model_ok(apply_all(m, p)),
    decreases p.len(),
{
    if p.len() > 0 {
        lemma_apply_piece_shape(m, p[0]);
        lemma_apply_all_shape(apply_piece(m, p[0]), p.drop_first());
    }
}

/// A piece that a later piece of `q` overrides changes nothing.
proof fn lemma_overridden_piece(m: ParamsModel, x: Seq<u8>, q: Seq<Seq<u8>>)
    requires
        model_ok(m),
        piece_field(x) is Some,
        exists|j: int| 0 <= j < q.len() && #[trigger] piece_field(q[j]) == piece_field(x),
    ensures
        apply_all(apply_piece(m, x), q) == apply_all(m, q),
    decreases q.len(),
{
    if piece_field(q[0]) == piece_field(x) {
        lemma_apply_piece_overwrite(m, x, q[0]);
    } else {
        let j = choose|j: int| 0 <= j < q.len() && #[trigger] piece_field(q[j]) == piece_field(x);
        assert(q.drop_first()[j - 1] == q[j]);
        lemma_apply_piece_commute(m, x, q[0]);
        lemma_apply_piece_shape(m, q[0]);
        lemma_overridden_piece(apply_piece(m, q[0]), x, q.drop_first());
    }
}

/// The last pair of a key wins: removing a piece that a later piece of the same known key
/// overrides leaves the decoded parameters unchanged.
pub proof fn lemma_decode_last_pair_wins(a: Seq<u8>, x: Seq<u8>, b: Seq<u8>)
    requires
        forall|j: int| 0 <= j < x.len() ==> x[j] != COMMA,
        piece_field(x) is Some,
        exists|j: int|
            0 <= j < split_at_byte(b, COMMA).len() && #[trigger] piece_field(
                split_at_byte(b, COMMA)[j],
            ) == piece_field(x),
    ensures
        decode_model(a + seq![COMMA] + x + seq![COMMA] + b) == decode_model(a + seq![COMMA] + b),
{
    let pa = split_at_byte(a, COMMA);
    let pb = split_at_byte(b, COMMA);
    lemma_split_cons(x, b, COMMA);
    assert(a + seq![COMMA] + x + seq![COMMA] + b =~= a + seq![COMMA] + (x + seq![COMMA] + b));
    lemma_split_concat(a, x + seq![COMMA] + b, COMMA);
    lemma_split_concat(a, b, COMMA);
    let m0 = initial_model();
    lemma_apply_all_concat(m0, pa, seq![x] + pb);
    lemma_apply_all_concat(m0, pa, pb);
    let ma = apply_all(m0, pa);
    lemma_apply_all_shape(m0, pa);
    assert((seq![x] + pb).drop_first() =~= pb);
    lemma_overridden_piece(ma, x, pb);
}

/// A piece that sets no field (no `=`, or an unknown key) changes nothing, wherever it stands.
pub proof fn lemma_decode_ignores_piece(a: Seq<u8>, t: Seq<u8>, b: Seq<u8>)
    requires
        forall|j: int| 0 <= j < t.len() ==> t[j] != COMMA,
        piece_field(t) is None,
    ensures
        decode_model(a + seq![COMMA] + t + seq![COMMA] + b) == decode_model(a + seq![COMMA] + b),
        decode_model(a + seq![COMMA] + t) == decode_model(a),
{
    let pa = split_at_byte(a, COMMA);
    let pb = split_at_byte(b, COMMA);
    let m0 = initial_model();
    lemma_apply_all_shape(m0, pa);
    let ma = apply_all(m0, pa);
    lemma_apply_piece_shape(ma, t);
    lemma_split_cons(t, b, COMMA);
    assert(a + seq![COMMA] + t + seq![COMMA] + b =~= a + seq![COMMA] + (t + seq![COMMA] + b));
    lemma_split_concat(a, t + seq![COMMA] + b, COMMA);
    lemma_split_concat(a, b, COMMA);
    lemma_apply_all_concat(m0, pa, seq![t] + pb);
    lemma_apply_all_concat(m0, pa, pb);
    assert((seq![t] + pb).drop_first() =~= pb);
    lemma_split_single(t, COMMA);
    lemma_split_concat(a, t, COMMA);
    lemma_apply_all_concat(m0, pa, seq![t]);
    assert(seq![t].drop_first() =~= Seq::<Seq<u8>>::empty());
    assert(apply_all(ma, seq![t]) == apply_all(apply_piece(ma, t), seq![t].drop_first()));
    assert(apply_all(apply_piece(ma, t), Seq::<Seq<u8>>::empty()) == apply_piece(ma, t));
}

/// Pairs of different keys can be given in either order: swapping two neighbouring pieces
/// that do not set the same field leaves the decoded parameters unchanged (and so does every
/// reordering made of such swaps).
pub proof fn lemma_decode_swap_pieces(a: Seq<u8>, x: Seq<u8>, y: Seq<u8>, b: Seq<u8>)
    requires
        forall|j: int| 0 <= j < x.len() ==> x[j] != COMMA,
        forall|j: int| 0 <= j < y.len() ==> y[j] != COMMA,
        piece_field(x) is None || piece_field(y) is None || piece_field(x) != piece_field(y),
    ensures
        decode_model(a + seq![COMMA] + x + seq![COMMA] + y + seq![COMMA] + b) == decode_model(
            a + seq![COMMA] + y + seq![COMMA] + x + seq![COMMA] + b,
        ),
{
    let pa = split_at_byte(a, COMMA);
    let pb = split_at_byte(b, COMMA);
    let m0 = initial_model();
    lemma_apply_all_shape(m0, pa);
    let ma = apply_all(m0, pa);
    lemma_split_cons(y, b, COMMA);
    lemma_split_cons(x, b, COMMA);
    lemma_split_cons(x, y + seq![COMMA] + b, COMMA);
    lemma_split_cons(y, x + seq![COMMA] + b, COMMA);
    assert(a + seq![COMMA] + x + seq![COMMA] + y + seq![COMMA] + b =~= a + seq![COMMA] + (x
        + seq![COMMA] + (y + seq![COMMA] + b)));
    assert(a + seq![COMMA] + y + seq![COMMA] + x + seq![COMMA] + b =~= a + seq![COMMA] + (y
        + seq![COMMA] + (x + seq![COMMA] + b)));
    lemma_split_concat(a, x + seq![COMMA] + (y + seq![COMMA] + b), COMMA);
    lemma_split_concat(a, y + seq![COMMA] + (x + seq![COMMA] + b), COMMA);
    let qxy = seq![x] + (seq![y] + pb);
    let qyx = seq![y] + (seq![x] + pb);
    lemma_apply_all_concat(m0, pa, qxy);
    lemma_apply_all_concat(m0, pa, qyx);
    assert(qxy.drop_first() =~= seq![y] + pb);
    assert(qyx.drop_first() =~= seq![x] + pb);
    assert((seq![y] + pb).drop_first() =~= pb);
    assert((seq![x] + pb).drop_first() =~= pb);
    lemma_apply_piece_commute(ma, x, y);
    assert(apply_all(ma, qxy) == apply_all(apply_piece(ma, x), seq![y] + pb));
    assert(apply_all(apply_piece(ma, x), seq![y] + pb) == apply_all(
        apply_piece(apply_piece(ma, x), y),
        pb,
    ));
    assert(apply_all(ma, qyx) == apply_all(apply_piece(ma, y), seq![x] + pb));
    assert(apply_all(apply_piece(ma, y), seq![x] + pb) == apply_all(
        apply_piece(apply_piece(ma, y), x),
        pb,
    ));
}

/// Two pieces that do not set the same field.
pub open spec fn independent(x: Seq<u8>, y: Seq<u8>) -> bool {
    piece_field(x) is None || piece_field(y) is None || piece_field(x) != piece_field(y)
}

/// No two pieces set the same field.
pub open spec fn distinct_fields(p: Seq<Seq<u8>>) -> bool {
    forall|i: int, j: int| 0 <= i < j < p.len() ==> independent(#[trigger] p[i], #[trigger] p[j])
}

/// A piece can be read first where every piece before it sets another field.
proof fn lemma_move_to_front(m: ParamsModel, q: Seq<Seq<u8>>, j: int)
    requires
        model_ok(m),
        0 <= j < q.len(),
        forall|k: int| 0 <= k < j ==> independent(#[trigger] q[k], q[j]),
    ensures
        apply_all(m, q) == apply_all(apply_piece(m, q[j]), q.remove(j)),
    decreases j,
{
    if j == 0 {
        assert(q.remove(0) =~= q.drop_first());
    } else {
        let x = q[j];
        let q0 = q[0];
        let t = q.drop_first();
        let m0 = apply_piece(m, q0);
        lemma_apply_piece_shape(m, q0);
        assert(t[j - 1] == x);
        assert forall|k: int| 0 <= k < j - 1 implies independent(#[trigger] t[k], t[j - 1]) by {
            assert(t[k] == q[k + 1]);
        }
        lemma_move_to_front(m0, t, j - 1);
        assert(independent(q0, x));
        lemma_apply_piece_commute(m, q0, x);
        let r = seq![q0] + t.remove(j - 1);
        assert(r =~= q.remove(j));
        assert(r[0] == q0);
        assert(r.drop_first() =~= t.remove(j - 1));
        assert(apply_all(apply_piece(m, x), r) == apply_all(
            apply_piece(apply_piece(m, x), q0),
            t.remove(j - 1),
        ));
    }
}

/// Pieces that set pairwise different fields can be read in any order.
proof fn lemma_apply_all_permutation(m: ParamsModel, p: Seq<Seq<u8>>, q: Seq<Seq<u8>>)
    requires
        model_ok(m),
        distinct_fields(p),
        p.to_multiset() == q.to_multiset(),
    ensures
        apply_all(m, p) == apply_all(m, q),
    decreases p.len(),
{
    broadcast use vstd::seq_lib::group_to_multiset_ensures;

    if p.len() == 0 {
        assert(q.to_multiset().len() == 0);
        assert(q =~= Seq::<Seq<u8>>::empty());
    } else {
        let x = p[0];
        assert(p.contains(x));
        assert(q.to_multiset().count(x) > 0);
        assert(q.contains(x));
        let j = choose|j: int| 0 <= j < q.len() && q[j] == x;
        let rest_p = p.drop_first();
        let rest_q = q.remove(j);
        assert(p.remove(0) =~= rest_p);
        assert(rest_p.to_multiset() == rest_q.to_multiset());
        assert forall|k: int| 0 <= k < j implies independent(#[trigger] q[k], q[j]) by {
            assert(rest_q[k] == q[k]);
            assert(rest_q.contains(q[k]));
            assert(rest_q.to_multiset().count(q[k]) > 0);
            assert(rest_p.contains(q[k]));
            let i = choose|i: int| 0 <= i < rest_p.len() && rest_p[i] == q[k];
            assert(p[i + 1] == q[k]);
            assert(independent(p[0], p[i + 1]));
        }
        lemma_move_to_front(m, q, j);
        lemma_apply_piece_shape(m, x);
        assert forall|a: int, b: int| 0 <= a < b < rest_p.len() implies independent(
            #[trigger] rest_p[a],
            #[trigger] rest_p[b],
        ) by {
            assert(independent(p[a + 1], p[b + 1]));
        }
        lemma_apply_all_permutation(apply_piece(m, x), rest_p, rest_q);
    }
}

/// Pairs of different keys can be given in any order: two texts whose pieces are the same up
/// to order, and set pairwise different fields, decode alike.
pub proof fn lemma_decode_any_order(s: Seq<u8>, t: Seq<u8>)
    requires
        distinct_fields(split_at_byte(s, COMMA)),
        split_at_byte(s, COMMA).to_multiset() == split_at_byte(t, COMMA).to_multiset(),
    ensures
        decode_model(s) == decode_model(t),
{
    lemma_apply_all_permutation(initial_model(), split_at_byte(s, COMMA), split_at_byte(t, COMMA));
}

/// Each key text names its field by number: `PID` the program id, ..., `BUMP` the bump.
pub proof fn lemma_key_texts()
    ensures
        field_of(seq![80u8, 73, 68]) == Some(0int),
        field_of(seq![67u8, 65, 78, 68, 89, 95, 77, 65, 67, 72, 73, 78, 69]) == Some(1int),
        field_of(seq![83u8, 80, 76, 95, 65, 84, 65, 95, 80, 82, 79, 71, 82, 65, 77]) == Some(2int),
        field_of(seq![65u8, 85, 84, 72, 79, 82, 73, 84, 89, 95, 80, 68, 65]) == Some(3int),
        field_of(seq![67u8, 79, 76, 76, 69, 67, 84, 73, 79, 78, 95, 68, 69, 76, 69, 71, 65, 84, 69, 95, 82, 69, 67, 79, 82, 68]) == Some(4int),
        field_of(seq![67u8, 79, 76, 76, 69, 67, 84, 73, 79, 78, 95, 77, 65, 83, 84, 69, 82, 95, 69, 68, 73, 84, 73, 79, 78]) == Some(5int),
        field_of(seq![67u8, 79, 76, 76, 69, 67, 84, 73, 79, 78, 95, 77, 69, 84, 65, 68, 65, 84, 65]) == Some(6int),
        field_of(seq![67u8, 79, 76, 76, 69, 67, 84, 73, 79, 78, 95, 77, 73, 78, 84]) == Some(7int),
        field_of(seq![67u8, 79, 76, 76, 69, 67, 84, 73, 79, 78, 95, 85, 80, 68, 65, 84, 69, 95, 65, 85, 84, 72, 79, 82, 73, 84, 89]) == Some(8int),
        field_of(seq![78u8, 70, 84, 95, 79, 87, 78, 69, 82]) == Some(9int),
        field_of(seq![78u8, 70, 84, 95, 77, 65, 83, 84, 69, 82, 95, 69, 68, 73, 84, 73, 79, 78]) == Some(10int),
        field_of(seq![78u8, 70, 84, 95, 77, 69, 84, 65, 68, 65, 84, 65]) == Some(11int),
        field_of(seq![78u8, 70, 84, 95, 77, 73, 78, 84]) == Some(12int),
        field_of(seq![78u8, 70, 84, 95, 77, 73, 78, 84, 95, 65, 85, 84, 72, 79, 82, 73, 84, 89]) == Some(13int),
        field_of(seq![80u8, 65, 89, 69, 82]) == Some(14int),
        field_of(seq![83u8, 89, 83, 84, 69, 77, 95, 80, 82, 79, 71, 82, 65, 77]) == Some(15int),
        field_of(seq![83u8, 89, 83, 86, 65, 82, 95, 73, 78, 83, 84, 82, 85, 67, 84, 73, 79, 78, 83]) == Some(16int),
        field_of(seq![84u8, 79, 75, 69, 78]) == Some(17int),
        field_of(seq![84u8, 79, 75, 69, 78, 95, 77, 69, 84, 65, 68, 65, 84, 65, 95, 80, 82, 79, 71, 82, 65, 77]) == Some(18int),
        field_of(seq![83u8, 80, 76, 95, 84, 79, 75, 69, 78, 95, 80, 82, 79, 71, 82, 65, 77]) == Some(19int),
        field_of(seq![84u8, 79, 75, 69, 78, 95, 82, 69, 67, 79, 82, 68]) == Some(20int),
        field_of(seq![82u8, 69, 81, 85, 69, 83, 84, 95, 75, 69, 89]) == Some(21int),
        field_of(seq![66u8, 85, 77, 80]) == Some(22int),
{
    lemma_name_field(0);
    assert(name_bytes(0) =~= seq![80u8, 73, 68]);
    lemma_name_field(1);
    assert(name_bytes(1) =~= seq![67u8, 65, 78, 68, 89, 95, 77, 65, 67, 72, 73, 78, 69]);
    lemma_name_field(2);
    assert(name_bytes(2) =~= seq![83u8, 80, 76, 95, 65, 84, 65, 95, 80, 82, 79, 71, 82, 65, 77]);
    lemma_name_field(3);
    assert(name_bytes(3) =~= seq![65u8, 85, 84, 72, 79, 82, 73, 84, 89, 95, 80, 68, 65]);
    lemma_name_field(4);
    assert(name_bytes(4) =~= seq![67u8, 79, 76, 76, 69, 67, 84, 73, 79, 78, 95, 68, 69, 76, 69, 71, 65, 84, 69, 95, 82, 69, 67, 79, 82, 68]);
    lemma_name_field(5);
    assert(name_bytes(5) =~= seq![67u8, 79, 76, 76, 69, 67, 84, 73, 79, 78, 95, 77, 65, 83, 84, 69, 82, 95, 69, 68, 73, 84, 73, 79, 78]);
    lemma_name_field(6);
    assert(name_bytes(6) =~= seq![67u8, 79, 76, 76, 69, 67, 84, 73, 79, 78, 95, 77, 69, 84, 65, 68, 65, 84, 65]);
    lemma_name_field(7);
    assert(name_bytes(7) =~= seq![67u8, 79, 76, 76, 69, 67, 84, 73, 79, 78, 95, 77, 73, 78, 84]);
    lemma_name_field(8);
    assert(name_bytes(8) =~= seq![67u8, 79, 76, 76, 69, 67, 84, 73, 79, 78, 95, 85, 80, 68, 65, 84, 69, 95, 65, 85, 84, 72, 79, 82, 73, 84, 89]);
    lemma_name_field(9);
    assert(name_bytes(9) =~= seq![78u8, 70, 84, 95, 79, 87, 78, 69, 82]);
    lemma_name_field(10);
    assert(name_bytes(10) =~= seq![78u8, 70, 84, 95, 77, 65, 83, 84, 69, 82, 95, 69, 68, 73, 84, 73, 79, 78]);
    lemma_name_field(11);
    assert(name_bytes(11) =~= seq![78u8, 70, 84, 95, 77, 69, 84, 65, 68, 65, 84, 65]);
    lemma_name_field(12);
    assert(name_bytes(12) =~= seq![78u8, 70, 84, 95, 77, 73, 78, 84]);
    lemma_name_field(13);
    assert(name_bytes(13) =~= seq![78u8, 70, 84, 95, 77, 73, 78, 84, 95, 65, 85, 84, 72, 79, 82, 73, 84, 89]);
    lemma_name_field(14);
    assert(name_bytes(14) =~= seq![80u8, 65, 89, 69, 82]);
    lemma_name_field(15);
    assert(name_bytes(15) =~= seq![83u8, 89, 83, 84, 69, 77, 95, 80, 82, 79, 71, 82, 65, 77]);
    lemma_name_field(16);
    assert(name_bytes(16) =~= seq![83u8, 89, 83, 86, 65, 82, 95, 73, 78, 83, 84, 82, 85, 67, 84, 73, 79, 78, 83]);
    lemma_name_field(17);
    assert(name_bytes(17) =~= seq![84u8, 79, 75, 69, 78]);
    lemma_name_field(18);
    assert(name_bytes(18) =~= seq![84u8, 79, 75, 69, 78, 95, 77, 69, 84, 65, 68, 65, 84, 65, 95, 80, 82, 79, 71, 82, 65, 77]);
    lemma_name_field(19);
    assert(name_bytes(19) =~= seq![83u8, 80, 76, 95, 84, 79, 75, 69, 78, 95, 80, 82, 79, 71, 82, 65, 77]);
    lemma_name_field(20);
    assert(name_bytes(20) =~= seq![84u8, 79, 75, 69, 78, 95, 82, 69, 67, 79, 82, 68]);
    lemma_name_field(21);
    assert(name_bytes(21) =~= seq![82u8, 69, 81, 85, 69, 83, 84, 95, 75, 69, 89]);
    lemma_name_field(22);
    assert(name_bytes(22) =~= seq![66u8, 85, 77, 80]);
}

/// The address that the parameters hold under the key text `key`.
pub open spec fn key_named(m: ParamsModel, key: Seq<u8>) -> Seq<u8> {
    m.keys[field_of(key).unwrap()]
}

/// Each key text of the parameters names the field of the same name: the text written after
/// `NFT_METADATA=` (say) is the `nft_metadata` address, and the one after `BUMP=` the bump.
pub proof fn lemma_keys_name_their_fields(p: ContainerParams)
    ensures
        // PID
        key_named(p@, seq![80u8, 73, 68]) == p.program_id@,
        // CANDY_MACHINE
        key_named(p@, seq![67u8, 65, 78, 68, 89, 95, 77, 65, 67, 72, 73, 78, 69]) == p.candy_machine@,
        // SPL_ATA_PROGRAM
        key_named(p@, seq![83u8, 80, 76, 95, 65, 84, 65, 95, 80, 82, 79, 71, 82, 65, 77]) == p.spl_ata_program@,
        // AUTHORITY_PDA
        key_named(p@, seq![65u8, 85, 84, 72, 79, 82, 73, 84, 89, 95, 80, 68, 65]) == p.authority_pda@,
        // COLLECTION_DELEGATE_RECORD
        key_named(p@, seq![67u8, 79, 76, 76, 69, 67, 84, 73, 79, 78, 95, 68, 69, 76, 69, 71, 65, 84, 69, 95, 82, 69, 67, 79, 82, 68]) == p.collection_delegate_record@,
        // COLLECTION_MASTER_EDITION
        key_named(p@, seq![67u8, 79, 76, 76, 69, 67, 84, 73, 79, 78, 95, 77, 65, 83, 84, 69, 82, 95, 69, 68, 73, 84, 73, 79, 78]) == p.collection_master_edition@,
        // COLLECTION_METADATA
        key_named(p@, seq![67u8, 79, 76, 76, 69, 67, 84, 73, 79, 78, 95, 77, 69, 84, 65, 68, 65, 84, 65]) == p.collection_metadata@,
        // COLLECTION_MINT
        key_named(p@, seq![67u8, 79, 76, 76, 69, 67, 84, 73, 79, 78, 95, 77, 73, 78, 84]) == p.collection_mint@,
        // COLLECTION_UPDATE_AUTHORITY
        key_named(p@, seq![67u8, 79, 76, 76, 69, 67, 84, 73, 79, 78, 95, 85, 80, 68, 65, 84, 69, 95, 65, 85, 84, 72, 79, 82, 73, 84, 89]) == p.collection_update_authority@,
        // NFT_OWNER
        key_named(p@, seq![78u8, 70, 84, 95, 79, 87, 78, 69, 82]) == p.nft_owner@,
        // NFT_MASTER_EDITION
        key_named(p@, seq![78u8, 70, 84, 95, 77, 65, 83, 84, 69, 82, 95, 69, 68, 73, 84, 73, 79, 78]) == p.nft_master_edition@,
        // NFT_METADATA
        key_named(p@, seq![78u8, 70, 84, 95, 77, 69, 84, 65, 68, 65, 84, 65]) == p.nft_metadata@,
        // NFT_MINT
        key_named(p@, seq![78u8, 70, 84, 95, 77, 73, 78, 84]) == p.nft_mint@,
        // NFT_MINT_AUTHORITY
        key_named(p@, seq![78u8, 70, 84, 95, 77, 73, 78, 84, 95, 65, 85, 84, 72, 79, 82, 73, 84, 89]) == p.nft_mint_authority@,
        // PAYER
        key_named(p@, seq![80u8, 65, 89, 69, 82]) == p.payer@,
        // SYSTEM_PROGRAM
        key_named(p@, seq![83u8, 89, 83, 84, 69, 77, 95, 80, 82, 79, 71, 82, 65, 77]) == p.system_program@,
        // SYSVAR_INSTRUCTIONS
        key_named(p@, seq![83u8, 89, 83, 86, 65, 82, 95, 73, 78, 83, 84, 82, 85, 67, 84, 73, 79, 78, 83]) == p.sysvar_instructions@,
        // TOKEN
        key_named(p@, seq![84u8, 79, 75, 69, 78]) == p.token@,
        // TOKEN_METADATA_PROGRAM
        key_named(p@, seq![84u8, 79, 75, 69, 78, 95, 77, 69, 84, 65, 68, 65, 84, 65, 95, 80, 82, 79, 71, 82, 65, 77]) == p.token_metadata_program@,
        // SPL_TOKEN_PROGRAM
        key_named(p@, seq![83u8, 80, 76, 95, 84, 79, 75, 69, 78, 95, 80, 82, 79, 71, 82, 65, 77]) == p.spl_token_program@,
        // TOKEN_RECORD
        key_named(p@, seq![84u8, 79, 75, 69, 78, 95, 82, 69, 67, 79, 82, 68]) == p.token_record@,
        // REQUEST_KEY
        key_named(p@, seq![82u8, 69, 81, 85, 69, 83, 84, 95, 75, 69, 89]) == p.request_key@,
        // BUMP
        field_of(seq![66u8, 85, 77, 80]) == Some(BUMP_FIELD as int),
{
    lemma_key_texts();
}

} // verus!
