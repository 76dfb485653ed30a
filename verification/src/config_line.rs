//! Choosing the config line of the item being minted: sequentially, or by a
//! random index into the array of indices still available, which is then
//! shortened by a swap-remove so that no index is minted twice.

use crate::le::{le_bytes, le_value, lemma_le_round_trip, read_u32_le, u32_at, write_u32_le};
use crate::state::{CandyError, CandyMachine, ConfigLine, ConfigLineSettings};
use crate::strings::{
    contains_text, id_plus_one_pattern, replace_patterns, replace_patterns_text, string_from_utf8,
    trim_nul, trim_trailing_nul,
};
use crate::text::copy_range;
use vstd::prelude::*;
use vstd::string::StringExecFns;
use vstd::utf8::{decode_utf8, valid_utf8};

verus! {

/// Bytes of one config line: the name, then the URI.
pub open spec fn line_size(s: ConfigLineSettings) -> int {
    s.name_length as int + s.uri_length as int
}

/// Offset of the array of available indices in the config data: after the line count,
/// the config lines and the bitmask of loaded lines.
pub open spec fn indices_start(items_available: u64, size: int) -> int {
    4 + items_available as int * size + items_available as int / 8 + 1
}

/// Offset of entry `i` of the available indices.
pub open spec fn index_slot(items_available: u64, size: int, i: int) -> int {
    indices_start(items_available, size) + 4 * i
}

/// The available indices: the first `n` entries of the index array.
pub open spec fn available(data: Seq<u8>, start: int, n: int) -> Seq<u32> {
    Seq::new(n as nat, |i: int| u32_at(data, start + 4 * i))
}

/// Whether the line count stored at the front of the config data matches the items available.
pub open spec fn fully_loaded(cm: &CandyMachine, data: Seq<u8>) -> bool {
    u32_at(data, 0) as u64 == cm.data.items_available
}

/// Whether getting a config line draws from the available indices (and so removes one):
/// no hidden settings, config line settings present, all lines loaded, not sequential.
pub open spec fn draws_index(cm: &CandyMachine, data: Seq<u8>) -> bool {
    &&& cm.data.hidden_settings is None
    &&& cm.data.config_line_settings matches Some(s) && !s.is_sequential
    &&& fully_loaded(cm, data)
}

/// The item index that the config line is taken from: the mint number when sequential, else
/// the available index at position `index`.
pub open spec fn chosen_value(cm: &CandyMachine, data: Seq<u8>, index: usize, mint_number: u64) -> usize {
    let s = cm.data.config_line_settings.unwrap();
    if s.is_sequential {
        mint_number as usize
    } else {
        u32_at(data, index_slot(cm.data.items_available, line_size(s), index as int)) as usize
    }
}

/// Offset of the last available index, `items_available - mint_number - 1`.
pub open spec fn last_slot(cm: &CandyMachine, mint_number: u64) -> int {
    let s = cm.data.config_line_settings.unwrap();
    index_slot(
        cm.data.items_available,
        line_size(s),
        cm.data.items_available - mint_number - 1,
    )
}

/// The config data after getting a config line: where an index is drawn, the last
/// available index is written over the drawn one.
pub open spec fn data_after(cm: &CandyMachine, data: Seq<u8>, index: usize, mint_number: u64) -> Seq<u8> {
    if draws_index(cm, data) {
        let s = cm.data.config_line_settings.unwrap();
        let slot = index_slot(cm.data.items_available, line_size(s), index as int);
        data.take(slot) + le_bytes(u32_at(data, last_slot(cm, mint_number))) + data.skip(slot + 4)
    } else {
        data
    }
}

/// A name or URI: the prefix with its patterns replaced, then the stored text (UTF-8,
/// trailing NUL characters removed); `None` where the stored bytes are no UTF-8.
pub open spec fn line_part(prefix: Seq<char>, value: usize, bytes: Seq<u8>) -> Option<Seq<char>> {
    if bytes.len() > 0 {
        if valid_utf8(bytes) {
            Some(replace_patterns_text(prefix, value as nat) + trim_trailing_nul(decode_utf8(bytes)))
        } else {
            None
        }
    } else {
        Some(replace_patterns_text(prefix, value as nat))
    }
}

/// The config line for a mint: from the hidden settings with the mint number, or else the
/// stored line of the chosen item after its prefixes; errors where settings are missing,
/// lines are not all loaded, or stored text is no UTF-8.
pub open spec fn config_line_outcome(cm: &CandyMachine, data: Seq<u8>, index: usize, mint_number: u64) -> Result<(Seq<char>, Seq<char>), CandyError> {
    match cm.data.hidden_settings {
        Some(hs) => Ok(
            (
                replace_patterns_text(hs.name@, (mint_number as usize) as nat),
                replace_patterns_text(hs.uri@, (mint_number as usize) as nat),
            ),
        ),
        None => match cm.data.config_line_settings {
            None => Err(CandyError::MissingConfigLinesSettings),
            Some(s) => if !fully_loaded(cm, data) {
                Err(CandyError::NotFullyLoaded)
            } else {
                let v = chosen_value(cm, data, index, mint_number);
                let d = data_after(cm, data, index, mint_number);
                let pos = 4 + v * line_size(s);
                let name = line_part(s.prefix_name@, v, d.subrange(pos, pos + s.name_length));
                let uri = line_part(
                    s.prefix_uri@,
                    v,
                    d.subrange(pos + s.name_length, pos + line_size(s)),
                );
                if name is Some && uri is Some {
                    Ok((name.unwrap(), uri.unwrap()))
                } else {
                    Err(CandyError::CouldNotRetrieveConfigLineData)
                }
            },
        },
    }
}

/// Inputs on which getting a config line reads and writes inside the config data and does
/// not overflow; on the others the indexing into the data panics.
pub open spec fn config_line_in_bounds(cm: &CandyMachine, data: Seq<u8>, index: usize, mint_number: u64) -> bool {
    match cm.data.hidden_settings {
        Some(hs) => (contains_text(hs.name@, id_plus_one_pattern()) || contains_text(
            hs.uri@,
            id_plus_one_pattern(),
        )) ==> (mint_number as usize) < usize::MAX,
        None => match cm.data.config_line_settings {
            None => true,
            Some(s) => {
                &&& data.len() >= 4
                &&& fully_loaded(cm, data) ==> {
                    let v = chosen_value(cm, data, index, mint_number);
                    &&& cm.data.items_available <= usize::MAX
                    &&& !s.is_sequential ==> {
                        &&& mint_number < cm.data.items_available
                        &&& index_slot(cm.data.items_available, line_size(s), index as int) + 4
                            <= data.len()
                        &&& last_slot(cm, mint_number) + 4 <= data.len()
                    }
                    &&& 4 + v * line_size(s) + line_size(s) <= data.len()
                    &&& (contains_text(s.prefix_name@, id_plus_one_pattern()) || contains_text(
                        s.prefix_uri@,
                        id_plus_one_pattern(),
                    )) ==> v < usize::MAX
                }
            },
        },
    }
}

/// A config line by its name and URI.
pub open spec fn line_view(r: Result<ConfigLine, CandyError>) -> Result<(Seq<char>, Seq<char>), CandyError> {
    match r {
        Ok(l) => Ok((l.name@, l.uri@)),
        Err(e) => Err(e),
    }
}

/// Reads a stored name or URI of `len` bytes at `at`, with its prefix in front.
fn read_line_part(prefix: &String, value: usize, data: &Vec<u8>, at: usize, len: usize) -> (res: Option<String>)
    requires
        at + len <= data.len(),
        contains_text(prefix@, id_plus_one_pattern()) ==> value < usize::MAX,
    ensures
        res matches Some(s) ==> line_part(prefix@, value, data@.subrange(at as int, at + len)) == Some(s@),
        res is None ==> line_part(prefix@, value, data@.subrange(at as int, at + len)) is None,
{
    let stored = if len > 0 {
        let bytes = copy_range(data, at, at + len);
        match string_from_utf8(bytes) {
            Some(s) => trim_nul(&s),
            None => return None,
        }
    } else {
        String::new()
    };
    let head = replace_patterns(prefix.clone(), value);
    let res = head.concat(stored.as_str());
    assert(len == 0 ==> res@ =~= replace_patterns_text(prefix@, value as nat));
    Some(res)
}

/// Selects and returns the config line of the item being minted, sequentially or by the
/// available index at `index`; in the second case the drawn index is removed from the
/// available ones (the last one is written over it). `config_data` is the candy machine
/// account's data from the end of its fixed section on: the line count, the lines, the
/// bitmask of loaded lines and the index array.
pub fn get_config_line(
    candy_machine: &CandyMachine,
    config_data: &mut Vec<u8>,
    index: usize,
    mint_number: u64,
) -> (res: Result<ConfigLine, CandyError>)
    requires
        config_line_in_bounds(candy_machine, old(config_data)@, index, mint_number),
    ensures
        final(config_data)@ == data_after(candy_machine, old(config_data)@, index, mint_number),
        line_view(res) == config_line_outcome(candy_machine, old(config_data)@, index, mint_number),
{
    let ghost data = config_data@;
    if let Some(hs) = &candy_machine.data.hidden_settings {
        let name = replace_patterns(hs.name.clone(), mint_number as usize);
        let uri = replace_patterns(hs.uri.clone(), mint_number as usize);
        return Ok(ConfigLine { name, uri });
    }
    let settings = match &candy_machine.data.config_line_settings {
        Some(s) => s,
        None => return Err(CandyError::MissingConfigLinesSettings),
    };
    let config_count = read_u32_le(config_data, 0) as u64;
    if config_count != candy_machine.data.items_available {
        return Err(CandyError::NotFullyLoaded);
    }
    let size = settings.name_length as usize + settings.uri_length as usize;
    let value_to_use: usize = if settings.is_sequential {
        mint_number as usize
    } else {
        let items_available = candy_machine.data.items_available;
        let items: usize = items_available as usize;
        assert(size == line_size(*settings));
        assert(4 + items * size + items / 8 + 1 + 4 * index + 4 <= config_data.len());
        let indices_start = 4 + items * size + (items / 8 + 1);
        let mint_index = indices_start + index * 4;
        let value = read_u32_le(config_data, mint_index) as usize;
        let remaining: usize = (items_available - mint_number - 1) as usize;
        let last_index = indices_start + remaining * 4;
        let last_value = read_u32_le(config_data, last_index);
        write_u32_le(config_data, mint_index, last_value);
        value
    };
    assert(value_to_use == chosen_value(candy_machine, data, index, mint_number));
    let name_length = settings.name_length as usize;
    let uri_length = settings.uri_length as usize;
    assert(size == line_size(*settings));
    assert(4 + value_to_use * size + size <= config_data.len());
    let position = 4 + value_to_use * size;
    let name = match read_line_part(&settings.prefix_name, value_to_use, config_data, position, name_length) {
        Some(n) => n,
        None => return Err(CandyError::CouldNotRetrieveConfigLineData),
    };
    let uri = match read_line_part(&settings.prefix_uri, value_to_use, config_data, position + name_length, uri_length) {
        Some(u) => u,
        None => return Err(CandyError::CouldNotRetrieveConfigLineData),
    };
    Ok(ConfigLine { name, uri })
}

/// Reading the four bytes at `at` after four bytes were written at `slot`: unchanged where
/// the two do not overlap.
proof fn lemma_u32_at_after_write(data: Seq<u8>, slot: int, w: Seq<u8>, at: int)
    requires
        0 <= slot,
        slot + 4 <= data.len(),
        w.len() == 4,
        0 <= at,
        at + 4 <= data.len(),
        at + 4 <= slot || slot + 4 <= at,
    ensures
        u32_at(data.take(slot) + w + data.skip(slot + 4), at) == u32_at(data, at),
{
    let d = data.take(slot) + w + data.skip(slot + 4);
    assert(d[at] == data[at]);
    assert(d[at + 1] == data[at + 1]);
    assert(d[at + 2] == data[at + 2]);
    assert(d[at + 3] == data[at + 3]);
}

/// A drawn item index is never available again: after the swap-remove, the
/// `items_available - mint_number - 1` indices still available are the earlier ones
/// without the drawn one, and hold no duplicate where the earlier ones held none.
pub proof fn lemma_drawn_index_not_available_again(
    cm: &CandyMachine,
    data: Seq<u8>,
    index: usize,
    mint_number: u64,
)
    requires
        config_line_in_bounds(cm, data, index, mint_number),
        draws_index(cm, data),
        index < cm.data.items_available - mint_number,
        available(
            data,
            indices_start(cm.data.items_available, line_size(cm.data.config_line_settings.unwrap())),
            cm.data.items_available - mint_number,
        ).no_duplicates(),
    ensures
        ({
            let start = indices_start(
                cm.data.items_available,
                line_size(cm.data.config_line_settings.unwrap()),
            );
            let n = cm.data.items_available - mint_number;
            let before = available(data, start, n);
            let after = available(data_after(cm, data, index, mint_number), start, n - 1);
            let v = u32_at(data, start + 4 * index);
            &&& v == before[index as int]
            &&& after.no_duplicates()
            &&& !after.contains(v)
            &&& after.to_set() == before.to_set().remove(v)
        }),
{
    let s = cm.data.config_line_settings.unwrap();
    let start = indices_start(cm.data.items_available, line_size(s));
    let n = cm.data.items_available - mint_number;
    let before = available(data, start, n);
    let slot = start + 4 * index;
    let last = start + 4 * (n - 1);
    let lv = u32_at(data, last);
    let d2 = data_after(cm, data, index, mint_number);
    let after = available(d2, start, n - 1);
    let v = u32_at(data, slot);
    assert(last == last_slot(cm, mint_number));
    lemma_le_round_trip(lv);
    assert forall|i: int| 0 <= i < n - 1 implies #[trigger] after[i] == (if i == index {
        before[n - 1]
    } else {
        before[i]
    }) by {
        let at = start + 4 * i;
        if i == index {
            let d = d2;
            assert(d[slot] == le_bytes(lv)[0]);
            assert(d[slot + 1] == le_bytes(lv)[1]);
            assert(d[slot + 2] == le_bytes(lv)[2]);
            assert(d[slot + 3] == le_bytes(lv)[3]);
        } else {
            lemma_u32_at_after_write(data, slot, le_bytes(lv), at);
        }
    }
    assert forall|i: int, j: int| 0 <= i < after.len() && 0 <= j < after.len() && i != j implies after[i] != after[j] by {
        let bi = if i == index { n - 1 } else { i };
        let bj = if j == index { n - 1 } else { j };
        assert(before[bi] != before[bj]);
    }
    assert forall|i: int| 0 <= i < after.len() implies after[i] != v by {
        let bi = if i == index { n - 1 } else { i };
        assert(before[bi] != before[index as int]);
    }
    assert forall|x: u32| after.to_set().contains(x) <==> before.to_set().remove(v).contains(x) by {
        if after.to_set().contains(x) {
            let i = choose|i: int| 0 <= i < after.len() && after[i] == x;
            let bi = if i == index { n - 1 } else { i };
            assert(before[bi] == x);
        }
        if before.to_set().remove(v).contains(x) {
            let k = choose|k: int| 0 <= k < before.len() && before[k] == x;
            if k == n - 1 {
                if index == n - 1 {
                    assert(false);
                } else {
                    assert(after[index as int] == x);
                }
            } else {
                assert(k != index);
                assert(after[k] == x);
            }
        }
    }
    assert(after.to_set() =~= before.to_set().remove(v));
}

/// The layout of a candy machine's config data that every draw relies on: where the lines
/// are fully loaded, there is room for all `items_available` lines (and, for random draws,
/// for the index table after them), and every index still available names a line.
pub open spec fn config_layout_ok(cm: &CandyMachine, data: Seq<u8>) -> bool {
    let n = cm.data.items_available;
    match cm.data.hidden_settings {
        Some(_) => n <= usize::MAX,
        None => match cm.data.config_line_settings {
            None => true,
            Some(s) => {
                &&& data.len() >= 4
                &&& fully_loaded(cm, data) ==> {
                    &&& n <= usize::MAX
                    &&& 4 + n * line_size(s) <= data.len()
                    &&& !s.is_sequential ==> {
                        &&& index_slot(n, line_size(s), n as int) <= data.len()
                        &&& forall|k: int|
                            0 <= k < n - cm.items_redeemed ==> #[trigger] u32_at(
                                data,
                                index_slot(n, line_size(s), k),
                            ) < n
                    }
                }
            },
        },
    }
}

/// Whether the config data has a sound layout for the candy machine (`config_layout_ok`).
pub fn config_layout_holds(candy_machine: &CandyMachine, config_data: &Vec<u8>) -> (res: bool)
    ensures
        res == config_layout_ok(candy_machine, config_data@),
{
    let n64 = candy_machine.data.items_available;
    if candy_machine.data.hidden_settings.is_some() {
        return n64 <= usize::MAX as u64;
    }
    let settings = match &candy_machine.data.config_line_settings {
        Some(s) => s,
        None => return true,
    };
    if config_data.len() < 4 {
        return false;
    }
    if read_u32_le(config_data, 0) as u64 != n64 {
        return true;
    }
    if n64 > usize::MAX as u64 {
        return false;
    }
    let n = n64 as usize;
    let size: u128 = settings.name_length as u128 + settings.uri_length as u128;
    let len = config_data.len() as u128;
    assert(n * size <= 0x1_0000_0000_0000_0000 * 0x2_0000_0000) by (nonlinear_arith)
        requires
            n <= 0x1_0000_0000_0000_0000,
            size <= 0x2_0000_0000,
    ;
    let lines_end: u128 = 4 + (n as u128) * size;
    if lines_end > len {
        return false;
    }
    if settings.is_sequential {
        return true;
    }
    let end: u128 = lines_end + (n as u128 / 8 + 1) + 4 * (n as u128);
    if end > len {
        return false;
    }
    let start = (lines_end + (n as u128 / 8 + 1)) as usize;
    assert(start == indices_start(n64, line_size(*settings)));
    let remaining: usize = if candy_machine.items_redeemed < n64 {
        (n64 - candy_machine.items_redeemed) as usize
    } else {
        0
    };
    let mut k: usize = 0;
    while k < remaining
        invariant
            0 <= k <= remaining <= n,
            remaining == (if candy_machine.items_redeemed < n64 { n64 - candy_machine.items_redeemed } else { 0int }),
            start == indices_start(n64, line_size(*settings)),
            start + 4 * n <= config_data.len(),
            n == n64,
            n64 == candy_machine.data.items_available,
            fully_loaded(candy_machine, config_data@),
            candy_machine.data.hidden_settings is None,
            candy_machine.data.config_line_settings == Some(*settings),
            !settings.is_sequential,
            4 + n64 * line_size(*settings) <= config_data.len(),
            forall|j: int| 0 <= j < k ==> #[trigger] u32_at(config_data@, index_slot(n64, line_size(*settings), j)) < n64,
        decreases remaining - k,
    {
        if read_u32_le(config_data, start + 4 * k) as u64 >= n64 {
            assert(u32_at(config_data@, index_slot(n64, line_size(*settings), k as int)) >= n64);
            return false;
        }
        k = k + 1;
    }
    true
}

/// The line of item `v` lies inside the lines area when `v` is below the item count.
proof fn lemma_line_inside(v: int, n: int, size: int)
    requires
        0 <= v < n,
        0 <= size,
    ensures
        v * size + size <= n * size,
{
    assert((v + 1) * size <= n * size) by (nonlinear_arith)
        requires
            0 <= v + 1 <= n,
            0 <= size,
    ;
    assert((v + 1) * size == v * size + size) by (nonlinear_arith);
}

/// Under a sound layout, every index that can be drawn reads and writes inside the data.
pub proof fn lemma_layout_in_bounds(cm: &CandyMachine, data: Seq<u8>, i: usize)
    requires
        config_layout_ok(cm, data),
        (i as int) < cm.data.items_available - cm.items_redeemed,
    ensures
        config_line_in_bounds(cm, data, i, cm.items_redeemed),
{
    let n = cm.data.items_available;
    if cm.data.hidden_settings is None {
        if let Some(s) = cm.data.config_line_settings {
            if fully_loaded(cm, data) {
                let size = line_size(s);
                let v = chosen_value(cm, data, i, cm.items_redeemed);
                if s.is_sequential {
                    lemma_line_inside(cm.items_redeemed as int, n as int, size);
                } else {
                    let k = i as int;
                    assert(u32_at(data, index_slot(n, size, k)) < n);
                    lemma_line_inside(v as int, n as int, size);
                    assert(indices_start(n, size) >= 4 + n * size);
                }
            }
        }
    }
}

/// A draw keeps the layout sound for the next mint, whose mint number is one more.
pub proof fn lemma_layout_kept(cm: &CandyMachine, data: Seq<u8>, index: usize)
    requires
        config_layout_ok(cm, data),
        (index as int) < cm.data.items_available - cm.items_redeemed,
    ensures
        config_layout_ok(
            &CandyMachine { items_redeemed: (cm.items_redeemed + 1) as u64, ..*cm },
            data_after(cm, data, index, cm.items_redeemed),
        ),
        draws_index(cm, data) ==> draws_index(
            &CandyMachine { items_redeemed: (cm.items_redeemed + 1) as u64, ..*cm },
            data_after(cm, data, index, cm.items_redeemed),
        ),
{
    let cm2 = CandyMachine { items_redeemed: (cm.items_redeemed + 1) as u64, ..*cm };
    let d2 = data_after(cm, data, index, cm.items_redeemed);
    lemma_layout_in_bounds(cm, data, index);
    if draws_index(cm, data) {
        let s = cm.data.config_line_settings.unwrap();
        let n = cm.data.items_available;
        let size = line_size(s);
        let slot = index_slot(n, size, index as int);
        let lv = u32_at(data, last_slot(cm, cm.items_redeemed));
        lemma_le_round_trip(lv);
        assert(d2.len() == data.len());
        lemma_u32_at_after_write(data, slot, le_bytes(lv), 0);
        assert(fully_loaded(&cm2, d2));
        assert forall|k: int| 0 <= k < n - cm2.items_redeemed implies #[trigger] u32_at(
            d2,
            index_slot(n, size, k),
        ) < n by {
            let at = index_slot(n, size, k);
            if k == index {
                assert(d2[slot] == le_bytes(lv)[0]);
                assert(d2[slot + 1] == le_bytes(lv)[1]);
                assert(d2[slot + 2] == le_bytes(lv)[2]);
                assert(d2[slot + 3] == le_bytes(lv)[3]);
                let last = n - cm.items_redeemed - 1;
                assert(u32_at(data, index_slot(n, size, last)) < n);
            } else {
                lemma_u32_at_after_write(data, slot, le_bytes(lv), at);
                assert(u32_at(data, index_slot(n, size, k)) < n);
            }
        }
    } else {
        assert(d2 == data);
    }
}

/// The lines numbered below `n`.
pub open spec fn all_lines(n: u64) -> Set<u32> {
    Set::new(|x: u32| (x as int) < n)
}

/// No line is minted twice: if the available indices are, without repetition, the lines not
/// yet minted (`minted` being those that were), a draw takes a line that was not minted yet,
/// and afterwards the available indices are, without repetition, the lines not minted once it
/// is added. Together with the mint number rising by one per mint, this carries from each
/// mint to the next.
pub proof fn lemma_draw_keeps_unminted_lines(
    cm: &CandyMachine,
    data: Seq<u8>,
    index: usize,
    minted: Set<u32>,
)
    requires
        config_layout_ok(cm, data),
        draws_index(cm, data),
        (index as int) < cm.data.items_available - cm.items_redeemed,
        available(
            data,
            indices_start(cm.data.items_available, line_size(cm.data.config_line_settings.unwrap())),
            cm.data.items_available - cm.items_redeemed,
        ).no_duplicates(),
        available(
            data,
            indices_start(cm.data.items_available, line_size(cm.data.config_line_settings.unwrap())),
            cm.data.items_available - cm.items_redeemed,
        ).to_set() == all_lines(cm.data.items_available).difference(minted),
    ensures
        ({
            let start = indices_start(
                cm.data.items_available,
                line_size(cm.data.config_line_settings.unwrap()),
            );
            let n = cm.data.items_available - cm.items_redeemed;
            let v = u32_at(data, start + 4 * index);
            let after = available(data_after(cm, data, index, cm.items_redeemed), start, n - 1);
            &&& (v as int) < cm.data.items_available
            &&& !minted.contains(v)
            &&& after.no_duplicates()
            &&& after.to_set() == all_lines(cm.data.items_available).difference(minted.insert(v))
        }),
{
    lemma_layout_in_bounds(cm, data, index);
    lemma_drawn_index_not_available_again(cm, data, index, cm.items_redeemed);
    let start = indices_start(cm.data.items_available, line_size(cm.data.config_line_settings.unwrap()));
    let n = cm.data.items_available - cm.items_redeemed;
    let before = available(data, start, n);
    let v = u32_at(data, start + 4 * index);
    assert(before[index as int] == v);
    assert(before.to_set().contains(v));
    let after = available(data_after(cm, data, index, cm.items_redeemed), start, n - 1);
    assert(after.to_set() =~= all_lines(cm.data.items_available).difference(minted.insert(v)));
}

/// The candy machine after one more item is redeemed.
pub open spec fn one_more_redeemed(cm: CandyMachine) -> CandyMachine {
    CandyMachine { items_redeemed: (cm.items_redeemed + 1) as u64, ..cm }
}

/// The lines taken by a sequence of random draws, each at the given position of the indices
/// still available, with the mint number rising by one per draw.
pub open spec fn drawn_lines(cm: CandyMachine, data: Seq<u8>, draws: Seq<usize>) -> Seq<u32>
    decreases draws.len(),
{
    if draws.len() == 0 {
        Seq::empty()
    } else {
        let start = indices_start(
            cm.data.items_available,
            line_size(cm.data.config_line_settings.unwrap()),
        );
        seq![u32_at(data, start + 4 * draws[0])] + drawn_lines(
            one_more_redeemed(cm),
            data_after(&cm, data, draws[0], cm.items_redeemed),
            draws.drop_first(),
        )
    }
}

/// Whether each draw of a sequence is a position among the indices still available then.
pub open spec fn draws_in_range(cm: CandyMachine, draws: Seq<usize>) -> bool {
    forall|k: int|
        0 <= k < draws.len() ==> (#[trigger] draws[k] as int) < cm.data.items_available
            - cm.items_redeemed - k
}

/// No line is minted twice over a whole sequence of random mints: starting from a sound
/// layout whose available indices are, without repetition, the lines not yet minted, the
/// lines that the draws take are pairwise different, all below the item count, and none of
/// them was minted before.
pub proof fn lemma_draws_take_distinct_lines(
    cm: CandyMachine,
    data: Seq<u8>,
    draws: Seq<usize>,
    minted: Set<u32>,
)
    requires
        config_layout_ok(&cm, data),
        draws_index(&cm, data),
        draws_in_range(cm, draws),
        available(
            data,
            indices_start(cm.data.items_available, line_size(cm.data.config_line_settings.unwrap())),
            cm.data.items_available - cm.items_redeemed,
        ).no_duplicates(),
        available(
            data,
            indices_start(cm.data.items_available, line_size(cm.data.config_line_settings.unwrap())),
            cm.data.items_available - cm.items_redeemed,
        ).to_set() == all_lines(cm.data.items_available).difference(minted),
    ensures
        drawn_lines(cm, data, draws).no_duplicates(),
        forall|k: int|
            0 <= k < drawn_lines(cm, data, draws).len() ==> {
                let v = #[trigger] drawn_lines(cm, data, draws)[k];
                &&& (v as int) < cm.data.items_available
                &&& !minted.contains(v)
            },
        drawn_lines(cm, data, draws).len() == draws.len(),
    decreases draws.len(),
{
    if draws.len() > 0 {
        let index = draws[0];
        assert((draws[0] as int) < cm.data.items_available - cm.items_redeemed - 0);
        let start = indices_start(
            cm.data.items_available,
            line_size(cm.data.config_line_settings.unwrap()),
        );
        let v = u32_at(data, start + 4 * index);
        let cm2 = one_more_redeemed(cm);
        let d2 = data_after(&cm, data, index, cm.items_redeemed);
        lemma_draw_keeps_unminted_lines(&cm, data, index, minted);
        lemma_layout_kept(&cm, data, index);
        let rest = draws.drop_first();
        assert forall|k: int| 0 <= k < rest.len() implies (#[trigger] rest[k] as int)
            < cm2.data.items_available - cm2.items_redeemed - k by {
            assert(rest[k] == draws[k + 1]);
        }
        lemma_draws_take_distinct_lines(cm2, d2, rest, minted.insert(v));
        let tail = drawn_lines(cm2, d2, rest);
        let all = drawn_lines(cm, data, draws);
        assert(all == seq![v] + tail);
        assert forall|k: int| 0 <= k < all.len() implies {
            let w = #[trigger] all[k];
            &&& (w as int) < cm.data.items_available
            &&& !minted.contains(w)
        } by {
            if k > 0 {
                assert(all[k] == tail[k - 1]);
            }
        }
        assert forall|i: int, j: int| 0 <= i < j < all.len() implies all[i] != all[j] by {
            assert(all[j] == tail[j - 1]);
            if i > 0 {
                assert(all[i] == tail[i - 1]);
            } else {
                assert(!minted.insert(v).contains(tail[j - 1]));
            }
        }
    }
}

/// A name or URI of a config line begins with its prefix with `$ID+1$` and `$ID$` filled in
/// for the item, and is exactly that where no stored bytes follow (a stored length of 0):
/// with hidden settings the template with the mint number filled in, otherwise the prefixes
/// of the line settings with the index of the item taken.
pub proof fn lemma_line_begins_with_filled_prefix(
    cm: &CandyMachine,
    data: Seq<u8>,
    index: usize,
    mint_number: u64,
)
    requires
        config_line_in_bounds(cm, data, index, mint_number),
        config_line_outcome(cm, data, index, mint_number) is Ok,
    ensures
        ({
            let (name, uri) = config_line_outcome(cm, data, index, mint_number).unwrap();
            match cm.data.hidden_settings {
                Some(hs) => {
                    &&& name == replace_patterns_text(hs.name@, (mint_number as usize) as nat)
                    &&& uri == replace_patterns_text(hs.uri@, (mint_number as usize) as nat)
                },
                None => {
                    let s = cm.data.config_line_settings.unwrap();
                    let v = if s.is_sequential {
                        mint_number as usize
                    } else {
                        u32_at(
                            data,
                            indices_start(cm.data.items_available, s.name_length + s.uri_length)
                                + 4 * index,
                        ) as usize
                    };
                    let pn = replace_patterns_text(s.prefix_name@, v as nat);
                    let pu = replace_patterns_text(s.prefix_uri@, v as nat);
                    &&& pn.len() <= name.len() && name.subrange(0, pn.len() as int) == pn
                    &&& pu.len() <= uri.len() && uri.subrange(0, pu.len() as int) == pu
                    &&& s.name_length == 0 ==> name == pn
                    &&& s.uri_length == 0 ==> uri == pu
                },
            }
        }),
{
    let (name, uri) = config_line_outcome(cm, data, index, mint_number).unwrap();
    if cm.data.hidden_settings is None {
        let s = cm.data.config_line_settings.unwrap();
        let v = chosen_value(cm, data, index, mint_number);
        let pn = replace_patterns_text(s.prefix_name@, v as nat);
        let pu = replace_patterns_text(s.prefix_uri@, v as nat);
        let d = data_after(cm, data, index, mint_number);
        let pos = 4 + v * line_size(s);
        let ln = line_part(s.prefix_name@, v, d.subrange(pos, pos + s.name_length));
        let lu = line_part(s.prefix_uri@, v, d.subrange(pos + s.name_length, pos + line_size(s)));
        assert(d.len() == data.len());
        assert(s.name_length == 0 ==> d.subrange(pos, pos + s.name_length).len() == 0);
        assert(s.uri_length == 0 ==> d.subrange(pos + s.name_length, pos + line_size(s)).len() == 0);
        assert(ln is Some && lu is Some);
        assert(name == ln.unwrap());
        assert(uri == lu.unwrap());
        assert(name.subrange(0, pn.len() as int) =~= pn);
        assert(uri.subrange(0, pu.len() as int) =~= pu);
        let w = if s.is_sequential {
            mint_number as usize
        } else {
            u32_at(data, indices_start(cm.data.items_available, s.name_length + s.uri_length) + 4 * index) as usize
        };
        assert(w == v);
    }
}

} // verus!
