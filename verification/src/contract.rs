//! OCC option symbol parser and contract metadata.
//!
//! Parses standard OCC option symbols into structured contract information.
//!
//! # OCC Symbol Format
//!
//! ```text
//! NVDA  251114C00185000
//! ^^^^  ^^^^^^ ^^^^^^^^
//! root  YYMMDD strike*1000
//!       expiry C/P
//! ```
//!
//! - Root: 1-6 characters, padded with spaces to 6 characters
//! - Expiry: YYMMDD
//! - Type: C = Call, P = Put
//! - Strike: 8 digits, price * 1000 (e.g., 00185000 = $185.000); further digits
//!   are part of it

use crate::date::Date;
use crate::text::{parse_digits, trim, trim_end};
use vstd::prelude::*;
use vstd::string::*;

verus! {

/// Option contract type.
#[derive(Debug, Clone, Copy, PartialEq, Eq, Structural, Hash)]
pub enum ContractType {
    Call,
    Put,
}

/// Parsed option contract metadata.
#[derive(Debug)]
pub struct ContractInfo {
    pub instrument_id: u32,
    pub underlying: String,
    pub expiration: Date,
    pub contract_type: ContractType,
    /// Strike price in thousandths of a dollar.
    pub strike: u64,
    pub occ_symbol: String,
}

/// What a contract is, its texts as sequences of characters.
pub struct ContractModel {
    pub instrument_id: u32,
    pub underlying: Seq<char>,
    pub expiration: Date,
    pub contract_type: ContractType,
    pub strike: u64,
    pub occ_symbol: Seq<char>,
}

impl View for ContractInfo {
    type V = ContractModel;

    open spec fn view(&self) -> ContractModel {
        ContractModel {
            instrument_id: self.instrument_id,
            underlying: self.underlying@,
            expiration: self.expiration,
            contract_type: self.contract_type,
            strike: self.strike,
            occ_symbol: self.occ_symbol@,
        }
    }
}

impl Clone for ContractInfo {
    fn clone(&self) -> (r: Self)
        ensures
            r == *self,
    {
        ContractInfo {
            instrument_id: self.instrument_id,
            underlying: self.underlying.clone(),
            expiration: self.expiration,
            contract_type: self.contract_type,
            strike: self.strike,
            occ_symbol: self.occ_symbol.clone(),
        }
    }
}

impl ContractInfo {
    /// Days to expiration from a given trading date.
    pub fn dte(&self, trading_date: Date) -> (r: i64)
        ensures
            r == self.expiration.days_from_ce - trading_date.days_from_ce,
    {
        self.expiration.days_since(trading_date)
    }

    /// Whether this contract expires on the given date (0DTE).
    pub fn is_zero_dte(&self, trading_date: Date) -> (r: bool)
        ensures
            r == (self.expiration == trading_date),
    {
        self.expiration.days_from_ce == trading_date.days_from_ce
    }
}

/// The type that a letter stands for.
pub open spec fn type_of_letter(letter: u8) -> Option<ContractType> {
    if letter == 67 {
        Some(ContractType::Call)
    } else if letter == 80 {
        Some(ContractType::Put)
    } else {
        None
    }
}

/// The date that six digits YYMMDD of this century denote, if there is one.
pub open spec fn expiry_of(yymmdd: Seq<u8>) -> Option<Date> {
    let year = 2000 + crate::text::decimal_value(yymmdd.subrange(0, 2)) as int;
    let month = crate::text::decimal_value(yymmdd.subrange(2, 4)) as int;
    let day = crate::text::decimal_value(yymmdd.subrange(4, 6)) as int;
    if crate::text::all_digits(yymmdd) && crate::date::valid_ymd(year, month, day) {
        Some(Date { days_from_ce: crate::date::day_number(year, month, day) as i32 })
    } else {
        None
    }
}

/// The contract that an OCC symbol denotes; `None` if it is malformed.
///
/// White space at the end does not count. The rest has at least 21 bytes: six
/// that hold the root, which is not blank, six digits of the expiry, the letter
/// of the type, and eight or more digits of the strike, whose value fits in 64
/// bits.
pub open spec fn occ_contract(symbol: Seq<char>, instrument_id: u32) -> Option<ContractModel> {
    let text = crate::text::trimmed_end(symbol);
    let bytes = vstd::utf8::encode_utf8(text);
    let digits = bytes.subrange(13, bytes.len() as int);
    if bytes.len() >= 21 && vstd::utf8::is_char_boundary(bytes, 6) && crate::text::all_digits(
        bytes.subrange(6, 12),
    ) && crate::text::all_digits(digits) && crate::text::decimal_value(digits) <= u64::MAX {
        let root = crate::text::trimmed(vstd::utf8::decode_utf8(bytes.subrange(0, 6)));
        match (expiry_of(bytes.subrange(6, 12)), type_of_letter(bytes[12])) {
            (Some(expiration), Some(contract_type)) => if root.len() > 0 {
                Some(
                    ContractModel {
                        instrument_id,
                        underlying: root,
                        expiration,
                        contract_type,
                        strike: crate::text::decimal_value(digits) as u64,
                        occ_symbol: text,
                    },
                )
            } else {
                None
            },
            _ => None,
        }
    } else {
        None
    }
}

/// Reads six bytes as a date YYMMDD of this century.
fn parse_expiry(bytes: &[u8]) -> (r: Option<Date>)
    requires
        bytes@.len() >= 12,
    ensures
        r == expiry_of(bytes@.subrange(6, 12)),
        r matches Some(d) ==> d.valid(),
{
    let ghost part = bytes@.subrange(6, 12);
    proof {
        assert(part.subrange(0, 2) =~= bytes@.subrange(6, 8));
        assert(part.subrange(2, 4) =~= bytes@.subrange(8, 10));
        assert(part.subrange(4, 6) =~= bytes@.subrange(10, 12));
        assert(part =~= part.subrange(0, 2) + part.subrange(2, 4) + part.subrange(4, 6));
        lemma_two_digits(part.subrange(0, 2));
        lemma_two_digits(part.subrange(2, 4));
        lemma_two_digits(part.subrange(4, 6));
        lemma_parts_are_digits(part);
    }
    match (parse_digits(bytes, 6, 8), parse_digits(bytes, 8, 10), parse_digits(bytes, 10, 12)) {
        (Some(yy), Some(month), Some(day)) => Date::from_ymd_opt(
            2000 + yy as i32,
            month as u32,
            day as u32,
        ),
        _ => None,
    }
}

/// Two digits denote a number below one hundred.
proof fn lemma_two_digits(bytes: Seq<u8>)
    requires
        bytes.len() == 2,
    ensures
        crate::text::all_digits(bytes) ==> crate::text::decimal_value(bytes) < 100,
{
    reveal_with_fuel(crate::text::decimal_value, 3);
    if crate::text::all_digits(bytes) {
        assert(crate::text::digit_byte(bytes[0]) && crate::text::digit_byte(bytes[1]));
    }
}

/// Six bytes are digits exactly when each pair of them is.
proof fn lemma_parts_are_digits(bytes: Seq<u8>)
    requires
        bytes.len() == 6,
    ensures
        crate::text::all_digits(bytes) <==> crate::text::all_digits(bytes.subrange(0, 2))
            && crate::text::all_digits(bytes.subrange(2, 4)) && crate::text::all_digits(
            bytes.subrange(4, 6),
        ),
{
    let (a, b, c) = (bytes.subrange(0, 2), bytes.subrange(2, 4), bytes.subrange(4, 6));
    assert(a[0] == bytes[0] && a[1] == bytes[1] && b[0] == bytes[2] && b[1] == bytes[3] && c[0]
        == bytes[4] && c[1] == bytes[5]);
    if crate::text::all_digits(a) && crate::text::all_digits(b) && crate::text::all_digits(c) {
        assert(crate::text::digit_byte(a[0]) && crate::text::digit_byte(a[1]));
        assert(crate::text::digit_byte(b[0]) && crate::text::digit_byte(b[1]));
        assert(crate::text::digit_byte(c[0]) && crate::text::digit_byte(c[1]));
    }
}

/// Parse an OCC option symbol into contract metadata.
///
/// Returns `None` if the symbol is malformed or too short.
///
/// # Arguments
/// * `occ_symbol` — Raw OCC symbol, possibly with trailing spaces (21 chars padded)
/// * `instrument_id` — The dbn instrument_id for this contract
pub fn parse_occ_symbol(occ_symbol: &str, instrument_id: u32) -> (r: Option<ContractInfo>)
    ensures
        match occ_contract(occ_symbol@, instrument_id) {
            Some(model) => r is Some && r->0@ == model && r->0.expiration.valid(),
            None => r is None,
        },
{
    let s: &str = trim_end(occ_symbol);
    let bytes = s.as_bytes();
    if bytes.len() < 21 || !s.is_char_boundary(6) {
        return None;
    }
    let (head, _) = s.split_at(6);
    let root: &str = trim(head);
    proof {
        vstd::utf8::encode_utf8_decode_utf8(head@);
    }
    if root.is_empty() {
        return None;
    }
    let expiration: Date = match parse_expiry(bytes) {
        Some(d) => d,
        None => {
            return None;
        },
    };
    let contract_type: ContractType = match bytes[12] {
        67 => ContractType::Call,
        80 => ContractType::Put,
        _ => {
            return None;
        },
    };
    let strike: u64 = match parse_digits(bytes, 13, bytes.len()) {
        Some(n) => n,
        None => {
            return None;
        },
    };
    Some(
        ContractInfo {
            instrument_id,
            underlying: root.to_owned(),
            expiration,
            contract_type,
            strike,
            occ_symbol: s.to_owned(),
        },
    )
}

/// `ahash::AHashMap`, of which nothing is known beyond the names below.
#[verifier::external_type_specification]
#[verifier::external_body]
#[verifier::reject_recursive_types(K)]
#[verifier::reject_recursive_types(V)]
#[verifier::reject_recursive_types(S)]
pub struct ExAHashMap<K, V, S>(ahash::AHashMap<K, V, S>);

/// `ahash::RandomState`, the hasher of an `AHashMap`.
#[verifier::external_type_specification]
#[verifier::external_body]
pub struct ExRandomState(ahash::RandomState);

/// `dbn::Metadata`, the header of a DBN file.
#[verifier::external_type_specification]
#[verifier::external_body]
pub struct ExMetadata(dbn::Metadata);

/// The entries of an `AHashMap`.
pub uninterp spec fn entries(map: ahash::AHashMap<u32, ContractInfo>) -> Map<u32, ContractInfo>;

/// The symbols that `dbn::Metadata::symbol_map_for_date` gives by instrument
/// id for a date, or `None` where it fails or `time::Date` has no such date.
pub uninterp spec fn symbols_on(
    metadata: dbn::Metadata,
    year: int,
    month: int,
    day: int,
) -> Option<Map<u32, Seq<char>>>;

/// `pairs` lists each entry of `map` once.
pub open spec fn lists_symbols(pairs: Seq<(u32, String)>, map: Map<u32, Seq<char>>) -> bool {
    &&& forall|i: int, j: int|
        0 <= i < j < pairs.len() ==> (#[trigger] pairs[i]).0 != (#[trigger] pairs[j]).0
    &&& forall|i: int|
        0 <= i < pairs.len() ==> map.contains_key((#[trigger] pairs[i]).0) && map[pairs[i].0]
            == pairs[i].1@
    &&& forall|id: u32| #[trigger]
        map.contains_key(id) ==> exists|i: int|
            0 <= i < pairs.len() && (#[trigger] pairs[i]).0 == id
}

/// `AHashMap::new`: a map without entries.
#[verifier::external_body]
fn new_map() -> (map: ahash::AHashMap<u32, ContractInfo>)
    ensures
        entries(map).dom() == Set::<u32>::empty(),
{
    ahash::AHashMap::new()
}

/// `AHashMap::insert`: the key has the value afterwards, and the other entries
/// stay as they were.
#[verifier::external_body]
fn insert_entry(map: &mut ahash::AHashMap<u32, ContractInfo>, id: u32, info: ContractInfo)
    ensures
        entries(*final(map)) == entries(*old(map)).insert(id, info),
{
    map.insert(id, info);
}

/// `AHashMap::get`: the value of a key, if the key has one.
#[verifier::external_body]
fn get_entry(map: &ahash::AHashMap<u32, ContractInfo>, id: u32) -> (r: Option<&ContractInfo>)
    ensures
        match r {
            Some(info) => entries(*map).contains_key(id) && *info == entries(*map)[id],
            None => !entries(*map).contains_key(id),
        },
{
    map.get(&id)
}

/// The set is finite and has `n` elements.
pub open spec fn has_size(ids: Set<u32>, n: int) -> bool {
    ids.finite() && ids.len() == n
}

/// `len` of an `AHashMap`: the number of its entries.
#[verifier::external_body]
fn count_entries(map: &ahash::AHashMap<u32, ContractInfo>) -> (r: usize)
    ensures
        has_size(entries(*map).dom(), r as int),
{
    map.len()
}

/// `iter` of an `AHashMap`: each entry once, in an order that is left open.
#[verifier::external_body]
fn list_entries(map: &ahash::AHashMap<u32, ContractInfo>) -> (r: Vec<(&u32, &ContractInfo)>)
    ensures
        forall|i: int, j: int|
            0 <= i < j < r@.len() ==> *(#[trigger] r@[i]).0 != *(#[trigger] r@[j]).0,
        forall|i: int|
            0 <= i < r@.len() ==> entries(*map).contains_key(*(#[trigger] r@[i]).0) && *r@[i].1
                == entries(*map)[*r@[i].0],
        forall|id: u32| #[trigger]
            entries(*map).contains_key(id) ==> exists|i: int|
                0 <= i < r@.len() && *(#[trigger] r@[i]).0 == id,
{
    map.iter().collect()
}

/// `dbn::Metadata::symbol_map_for_date`: the symbols of the file by instrument
/// id, as they are on a date. It is `None` where the metadata give no mapping
/// for the date, or `time::Date` has no such date; the pairs come in an order
/// that is left open.
#[verifier::external_body]
fn symbols_for_date(metadata: &dbn::Metadata, year: i32, month: u8, day: u8) -> (r: Option<
    Vec<(u32, String)>,
>)
    ensures
        match symbols_on(*metadata, year as int, month as int, day as int) {
            Some(map) => r is Some && lists_symbols(r->0@, map),
            None => r is None,
        },
{
    let month = time::Month::try_from(month).ok()?;
    let date = time::Date::from_calendar_date(year, month, day).ok()?;
    let symbols = metadata.symbol_map_for_date(date).ok()?;
    Some(symbols.inner().iter().map(|(id, symbol)| (*id, symbol.clone())).collect())
}

/// Map from instrument_id to ContractInfo, built from dbn metadata symbology.
pub struct ContractMap {
    map: ahash::AHashMap<u32, ContractInfo>,
}

impl View for ContractMap {
    type V = Map<u32, ContractInfo>;

    closed spec fn view(&self) -> Map<u32, ContractInfo> {
        entries(self.map)
    }
}

/// The contracts that symbols denote, by instrument id: those of the symbols
/// that are well formed.
pub open spec fn contracts_of(symbols: Map<u32, Seq<char>>) -> Map<u32, ContractModel> {
    Map::new(
        |id: u32| symbols.contains_key(id) && occ_contract(symbols[id], id) is Some,
        |id: u32| occ_contract(symbols[id], id)->0,
    )
}

/// The contracts of a map, their texts as sequences of characters.
pub open spec fn models(map: Map<u32, ContractInfo>) -> Map<u32, ContractModel> {
    map.map_values(|info: ContractInfo| info@)
}

/// The ids whose contract is a call.
pub open spec fn call_ids(map: Map<u32, ContractInfo>) -> Set<u32> {
    map.dom().filter(|id: u32| map[id].contract_type == ContractType::Call)
}

impl ContractMap {
    /// Build from dbn `Metadata` symbology for a specific trading date.
    ///
    /// The map holds the contract of each symbol of the date that is a well
    /// formed OCC symbol. It is empty where the metadata have no symbols for
    /// the date.
    pub fn from_dbn_metadata(metadata: &dbn::Metadata, date: Date) -> (r: Self)
        requires
            date.valid(),
        ensures
            forall|y: int, m: int, d: int|
                crate::date::valid_ymd(y, m, d) && #[trigger] crate::date::day_number(y, m, d)
                    == date.days_from_ce ==> models(r@) == (match symbols_on(*metadata, y, m, d) {
                    Some(symbols) => contracts_of(symbols),
                    None => Map::<u32, ContractModel>::empty(),
                }),
    {
        let (year, month, day) = date.ymd();
        let symbols: Option<Vec<(u32, String)>> = symbols_for_date(
            metadata,
            year,
            month as u8,
            day as u8,
        );
        proof {
            assert forall|y: int, m: int, d: int|
                crate::date::valid_ymd(y, m, d) && #[trigger] crate::date::day_number(y, m, d)
                    == date.days_from_ce implies y == year && m == month && d == day by {
                crate::date::law_day_numbers_are_ordered(
                    y,
                    m,
                    d,
                    year as int,
                    month as int,
                    day as int,
                );
            }
        }
        match symbols {
            Some(pairs) => {
                let r = Self::from_symbols(&pairs);
                assert(symbols_on(*metadata, year as int, month as int, day as int) is Some);
                r
            },
            None => {
                let r = ContractMap { map: new_map() };
                assert(models(r@) =~= Map::<u32, ContractModel>::empty());
                r
            },
        }
    }

    /// Build from the symbols of the instruments, one for each id.
    pub fn from_symbols(pairs: &Vec<(u32, String)>) -> (r: Self)
        requires
            forall|i: int, j: int|
                0 <= i < j < pairs@.len() ==> (#[trigger] pairs@[i]).0 != (#[trigger] pairs@[j]).0,
        ensures
            forall|symbols: Map<u32, Seq<char>>| #[trigger]
                lists_symbols(pairs@, symbols) ==> models(r@) == contracts_of(symbols),
            forall|id: u32| #[trigger] r@.contains_key(id) ==> r@[id].expiration.valid(),
    {
        let mut map = new_map();
        assert(!exists|id: u32| entries(map).contains_key(id));
        let mut i: usize = 0;
        while i < pairs.len()
            invariant
                i <= pairs@.len(),
                forall|a: int, b: int|
                    0 <= a < b < pairs@.len() ==> (#[trigger] pairs@[a]).0 != (
                    #[trigger] pairs@[b]).0,
                forall|id: u32| #[trigger]
                    entries(map).contains_key(id) ==> entries(map)[id].expiration.valid() && exists|
                        j: int,
                    |
                        0 <= j < i && (#[trigger] pairs@[j]).0 == id,
                forall|j: int|
                    0 <= j < i ==> match occ_contract((#[trigger] pairs@[j]).1@, pairs@[j].0) {
                        Some(model) => entries(map).contains_key(pairs@[j].0) && entries(
                            map,
                        )[pairs@[j].0]@ == model,
                        None => !entries(map).contains_key(pairs@[j].0),
                    },
            decreases pairs@.len() - i,
        {
            let id: u32 = pairs[i].0;
            match parse_occ_symbol(pairs[i].1.as_str(), id) {
                Some(info) => {
                    insert_entry(&mut map, id, info);
                },
                None => {},
            }
            i = i + 1;
        }
        let r = ContractMap { map };
        proof {
            assert forall|symbols: Map<u32, Seq<char>>| #[trigger]
                lists_symbols(pairs@, symbols) implies models(r@) == contracts_of(symbols) by {
                assert forall|id: u32| #[trigger]
                    models(r@).contains_key(id) implies contracts_of(symbols).contains_key(id)
                    && models(r@)[id] == contracts_of(symbols)[id] by {
                    let j = choose|j: int| 0 <= j < pairs@.len() && (#[trigger] pairs@[j]).0 == id;
                    assert(symbols[pairs@[j].0] == pairs@[j].1@);
                }
                assert forall|id: u32| #[trigger]
                    contracts_of(symbols).contains_key(id) implies models(r@).contains_key(id) by {
                    let j = choose|j: int| 0 <= j < pairs@.len() && (#[trigger] pairs@[j]).0 == id;
                    assert(symbols[pairs@[j].0] == pairs@[j].1@);
                }
                assert(models(r@) =~= contracts_of(symbols));
            }
        }
        r
    }

    /// Look up contract info by instrument_id.
    pub fn get(&self, instrument_id: u32) -> (r: Option<&ContractInfo>)
        ensures
            match r {
                Some(info) => self@.contains_key(instrument_id) && *info == self@[instrument_id],
                None => !self@.contains_key(instrument_id),
            },
    {
        get_entry(&self.map, instrument_id)
    }

    /// Total number of contracts.
    pub fn len(&self) -> (r: usize)
        ensures
            self@.dom().finite(),
            r == self@.dom().len(),
    {
        count_entries(&self.map)
    }

    /// Whether the map is empty.
    pub fn is_empty(&self) -> (r: bool)
        ensures
            r == (self@ == Map::<u32, ContractInfo>::empty()),
    {
        let n: usize = self.len();
        proof {
            if n == 0 {
                assert(self@.dom() =~= Set::<u32>::empty());
                assert(self@ =~= Map::<u32, ContractInfo>::empty());
            } else if self@ == Map::<u32, ContractInfo>::empty() {
                assert(self@.dom() =~= Set::<u32>::empty());
            }
        }
        n == 0
    }

    /// All contracts, each once, in an order that is left open.
    pub fn iter(&self) -> (r: Vec<(&u32, &ContractInfo)>)
        ensures
            forall|i: int, j: int|
                0 <= i < j < r@.len() ==> *(#[trigger] r@[i]).0 != *(#[trigger] r@[j]).0,
            forall|i: int|
                0 <= i < r@.len() ==> self@.contains_key(*(#[trigger] r@[i]).0) && *r@[i].1
                    == self@[*r@[i].0],
            forall|id: u32| #[trigger]
                self@.contains_key(id) ==> exists|i: int|
                    0 <= i < r@.len() && *(#[trigger] r@[i]).0 == id,
    {
        list_entries(&self.map)
    }

    /// Count contracts by type: calls and puts.
    pub fn count_by_type(&self) -> (r: (usize, usize))
        ensures
            self@.dom().finite(),
            r.0 == call_ids(self@).len(),
            r.0 + r.1 == self@.dom().len(),
    {
        let all = self.iter();
        let total: usize = self.len();
        let mut calls: usize = 0;
        let mut i: usize = 0;
        let ghost mut seen: Set<u32> = Set::empty();
        while i < all.len()
            invariant
                i <= all@.len(),
                calls <= i,
                seen.finite(),
                calls == seen.len(),
                forall|a: int, b: int|
                    0 <= a < b < all@.len() ==> *(#[trigger] all@[a]).0 != *(#[trigger] all@[b]).0,
                forall|a: int|
                    0 <= a < all@.len() ==> self@.contains_key(*(#[trigger] all@[a]).0)
                        && *all@[a].1 == self@[*all@[a].0],
                forall|id: u32| #[trigger]
                    seen.contains(id) <==> exists|a: int|
                        0 <= a < i && *(#[trigger] all@[a]).0 == id && self@[id].contract_type
                            == ContractType::Call,
            decreases all@.len() - i,
        {
            let ghost id = *all@[i as int].0;
            let ghost before = seen;
            if all[i].1.contract_type == ContractType::Call {
                calls = calls + 1;
                proof {
                    seen = seen.insert(id);
                    assert(!before.contains(id));
                }
            }
            proof {
                assert forall|k: u32| #[trigger] seen.contains(k) implies exists|a: int|
                    0 <= a < i + 1 && *(#[trigger] all@[a]).0 == k && self@[k].contract_type
                        == ContractType::Call by {
                    if before.contains(k) {
                        let a = choose|a: int|
                            0 <= a < i && *(#[trigger] all@[a]).0 == k && self@[k].contract_type
                                == ContractType::Call;
                        assert(*all@[a].0 == k);
                    } else {
                        assert(*all@[i as int].0 == k);
                    }
                }
            }
            i = i + 1;
        }
        proof {
            assert(seen =~= call_ids(self@));
            vstd::set_lib::lemma_len_subset(seen, self@.dom());
        }
        (calls, total - calls)
    }
}

/// Trailing white space in a symbol does not change the contract.
pub proof fn law_trailing_space_is_ignored(symbol: Seq<char>, c: char, instrument_id: u32)
    requires
        crate::text::white_space(c),
    ensures
        occ_contract(symbol.push(c), instrument_id) == occ_contract(symbol, instrument_id),
{
    assert(symbol.push(c).drop_last() =~= symbol);
}

/// A parsed contract's own symbol denotes that contract.
pub proof fn law_symbol_denotes_its_contract(symbol: Seq<char>, instrument_id: u32)
    ensures
        occ_contract(symbol, instrument_id) matches Some(model) ==> occ_contract(
            model.occ_symbol,
            instrument_id,
        ) == Some(model),
{
    lemma_trimmed_once(symbol);
}

proof fn lemma_trimmed_once(s: Seq<char>)
    ensures
        crate::text::trimmed_end(crate::text::trimmed_end(s)) == crate::text::trimmed_end(s),
    decreases s.len(),
{
    if s.len() > 0 && crate::text::white_space(s.last()) {
        lemma_trimmed_once(s.drop_last());
    }
}

/// A number of spaces.
pub open spec fn spaces(n: nat) -> Seq<char> {
    Seq::new(n, |i: int| ' ')
}

/// The letter of a contract type.
pub open spec fn letter_of(contract_type: ContractType) -> char {
    match contract_type {
        ContractType::Call => 'C',
        ContractType::Put => 'P',
    }
}

/// The OCC symbol of a contract: the root padded with spaces to six characters,
/// the date as YYMMDD, the letter of the type, and the strike in at least eight
/// digits.
pub open spec fn occ_text(
    root: Seq<char>,
    yy: nat,
    month: nat,
    day: nat,
    contract_type: ContractType,
    strike: nat,
) -> Seq<char> {
    root + spaces((6 - root.len()) as nat) + crate::text::decimal_text(yy, 2)
        + crate::text::decimal_text(month, 2) + crate::text::decimal_text(day, 2) + seq![
        letter_of(contract_type),
    ] + crate::text::decimal_text(strike, 8)
}

/// Parsing undoes formatting: the symbol of a contract, with any number of
/// spaces behind it, denotes that contract. The root has one to six ASCII
/// characters, and neither its first nor its last one is white space.
pub proof fn law_parsing_undoes_formatting(
    root: Seq<char>,
    yy: nat,
    month: nat,
    day: nat,
    contract_type: ContractType,
    strike: nat,
    pad: nat,
    instrument_id: u32,
)
    requires
        1 <= root.len() <= 6,
        vstd::utf8::is_ascii_chars(root),
        !crate::text::white_space(root[0]) && !crate::text::white_space(root.last()),
        yy <= 99,
        crate::date::valid_ymd(2000 + yy as int, month as int, day as int),
        strike <= u64::MAX,
    ensures
        occ_contract(
            occ_text(root, yy, month, day, contract_type, strike) + spaces(pad),
            instrument_id,
        ) == Some(
            ContractModel {
                instrument_id,
                underlying: root,
                expiration: Date {
                    days_from_ce: crate::date::day_number(
                        2000 + yy as int,
                        month as int,
                        day as int,
                    ) as i32,
                },
                contract_type,
                strike: strike as u64,
                occ_symbol: occ_text(root, yy, month, day, contract_type, strike),
            },
        ),
{
    let text = occ_text(root, yy, month, day, contract_type, strike);
    let head = root + spaces((6 - root.len()) as nat);
    let (y, m, d) = (
        crate::text::decimal_text(yy, 2),
        crate::text::decimal_text(month, 2),
        crate::text::decimal_text(day, 2),
    );
    let n = crate::text::decimal_text(strike, 8);
    assert(vstd::arithmetic::power::pow(10, 2) == 100) by {
        reveal_with_fuel(vstd::arithmetic::power::pow, 3);
    }
    crate::text::lemma_decimal_text(yy, 2);
    crate::text::lemma_decimal_text(month, 2);
    crate::text::lemma_decimal_text(day, 2);
    crate::text::lemma_decimal_text(strike, 8);
    assert(text.len() == 13 + n.len());
    lemma_trim_spaces(text, pad);
    assert(crate::text::trimmed_end(text + spaces(pad)) == text) by {
        assert(text.last() == n.last());
        assert('0' <= n[n.len() - 1] <= '9');
    }
    assert forall|i: int| 0 <= i < text.len() implies '\0' <= #[trigger] text[i] <= '\u{7f}' by {
        if i < 6 {
            assert(text[i] == head[i]);
            if i < root.len() {
                assert(head[i] == root[i]);
            }
        } else if i < 8 {
            assert(text[i] == y[i - 6]);
        } else if i < 10 {
            assert(text[i] == m[i - 8]);
        } else if i < 12 {
            assert(text[i] == d[i - 10]);
        } else if i == 12 {
            assert(text[i] == letter_of(contract_type));
        } else {
            assert(text[i] == n[i - 13]);
        }
    }
    assert(vstd::utf8::is_ascii_chars(text));
    vstd::utf8::is_ascii_chars_encode_utf8(text);
    let bytes = vstd::utf8::encode_utf8(text);
    assert(bytes =~= crate::text::ascii_bytes(text));
    let date = bytes.subrange(6, 12);
    assert(date.subrange(0, 2) =~= crate::text::ascii_bytes(y));
    assert(date.subrange(2, 4) =~= crate::text::ascii_bytes(m));
    assert(date.subrange(4, 6) =~= crate::text::ascii_bytes(d));
    lemma_parts_are_digits(date);
    assert(bytes.subrange(13, bytes.len() as int) =~= crate::text::ascii_bytes(n));
    assert(bytes[12] == letter_of(contract_type) as u8);
    assert('C' as u8 == 67 && 'P' as u8 == 80);
    assert(text.take(6) =~= head);
    lemma_root_of_padded(root, bytes, text);
}

/// The first six bytes of a text that begins with a padded root give the root
/// back, and a character ends there.
proof fn lemma_root_of_padded(root: Seq<char>, bytes: Seq<u8>, text: Seq<char>)
    requires
        1 <= root.len() <= 6,
        !crate::text::white_space(root[0]) && !crate::text::white_space(root.last()),
        text.len() > 6,
        vstd::utf8::is_ascii_chars(text),
        text.take(6) == root + spaces((6 - root.len()) as nat),
        bytes == vstd::utf8::encode_utf8(text),
    ensures
        vstd::utf8::is_char_boundary(bytes, 6),
        crate::text::trimmed(vstd::utf8::decode_utf8(bytes.subrange(0, 6))) == root,
{
    let head = text.take(6);
    assert forall|i: int| 0 <= i < 6 implies '\0' <= #[trigger] head[i] <= '\u{7f}' by {
        assert(head[i] == text[i]);
    }
    assert(vstd::utf8::is_ascii_chars(head));
    vstd::utf8::is_ascii_chars_encode_utf8(text);
    vstd::utf8::is_ascii_chars_encode_utf8(head);
    assert(bytes.subrange(0, 6) =~= vstd::utf8::encode_utf8(head));
    vstd::utf8::encode_utf8_decode_utf8(head);
    vstd::utf8::encode_utf8_valid_utf8(text);
    vstd::utf8::is_char_boundary_iff_not_is_continuation_byte(bytes, 6);
    assert(bytes[6] == text[6] as u8);
    assert(!vstd::utf8::is_continuation_byte(bytes[6])) by {
        let b = bytes[6];
        assert(b <= 0x7f ==> b & 0xc0 != 0x80) by (bit_vector);
    }
    lemma_trim_spaces(root, (6 - root.len()) as nat);
}

/// Spaces behind a text that does not end in white space are trimmed, and
/// nothing else.
proof fn lemma_trim_spaces(text: Seq<char>, pad: nat)
    requires
        text.len() > 0,
    ensures
        !crate::text::white_space(text.last()) ==> crate::text::trimmed_end(text + spaces(pad))
            == text,
    decreases pad,
{
    if pad == 0 {
        assert(text + spaces(pad) =~= text);
    } else {
        lemma_trim_spaces(text, (pad - 1) as nat);
        let padded = text + spaces(pad);
        assert(padded.last() == ' ');
        assert(padded.drop_last() =~= text + spaces((pad - 1) as nat));
    }
}

/// A contract expires today exactly when it has zero days to expiration.
pub proof fn law_zero_dte_means_expires_today(info: ContractInfo, trading_date: Date)
    ensures
        (info.expiration == trading_date) == (info.expiration.days_from_ce
            - trading_date.days_from_ce == 0),
{
}

/// A contract is read from the places of its symbol. The symbol is kept without
/// the white space behind it, and has at least 21 bytes: digits 6 to 11 are year,
/// month and day of the expiration in this century, byte 12 is `C` for a call and
/// `P` for a put, and the digits from byte 13 on are the strike.
pub proof fn law_contract_is_read_from_its_symbol(symbol: Seq<char>, instrument_id: u32)
    ensures
        occ_contract(symbol, instrument_id) matches Some(contract) ==> {
            let text = contract.occ_symbol;
            let bytes = vstd::utf8::encode_utf8(text);
            let number = |from: int, to: int|
                crate::text::decimal_value(bytes.subrange(from, to)) as int;
            &&& contract.instrument_id == instrument_id
            &&& text.len() <= symbol.len() && text == symbol.take(text.len() as int)
            &&& forall|i: int|
                text.len() <= i < symbol.len() ==> crate::text::white_space(#[trigger] symbol[i])
            &&& text.len() > 0 ==> !crate::text::white_space(text.last())
            &&& bytes.len() >= 21
            &&& forall|i: int|
                6 <= i < bytes.len() && i != 12 ==> 48 <= #[trigger] bytes[i] <= 57
            &&& crate::date::valid_ymd(2000 + number(6, 8), number(8, 10), number(10, 12))
            &&& contract.expiration.days_from_ce == crate::date::day_number(
                2000 + number(6, 8),
                number(8, 10),
                number(10, 12),
            )
            &&& contract.contract_type == ContractType::Call <==> bytes[12] == 67
            &&& contract.contract_type == ContractType::Put <==> bytes[12] == 80
            &&& contract.strike == number(13, bytes.len() as int)
            &&& contract.underlying.len() > 0
        },
{
    lemma_trimmed_is_a_prefix(symbol);
    if let Some(contract) = occ_contract(symbol, instrument_id) {
        let bytes = vstd::utf8::encode_utf8(contract.occ_symbol);
        let (date, strike) = (bytes.subrange(6, 12), bytes.subrange(13, bytes.len() as int));
        assert forall|i: int| 6 <= i < bytes.len() && i != 12 implies 48 <= #[trigger] bytes[i]
            <= 57 by {
            if i < 12 {
                assert(crate::text::digit_byte(date[i - 6]));
            } else {
                assert(crate::text::digit_byte(strike[i - 13]));
            }
        }
        assert(date.subrange(0, 2) =~= bytes.subrange(6, 8));
        assert(date.subrange(2, 4) =~= bytes.subrange(8, 10));
        assert(date.subrange(4, 6) =~= bytes.subrange(10, 12));
        crate::date::lemma_number_fits(
            2000 + crate::text::decimal_value(bytes.subrange(6, 8)) as int,
            crate::text::decimal_value(bytes.subrange(8, 10)) as int,
            crate::text::decimal_value(bytes.subrange(10, 12)) as int,
        );
    }
}

/// What is trimmed from the end is white space, and what is left does not end
/// in any.
proof fn lemma_trimmed_is_a_prefix(s: Seq<char>)
    ensures
        ({
            let text = crate::text::trimmed_end(s);
            &&& text.len() <= s.len() && text == s.take(text.len() as int)
            &&& forall|i: int|
                text.len() <= i < s.len() ==> crate::text::white_space(#[trigger] s[i])
            &&& text.len() > 0 ==> !crate::text::white_space(text.last())
        }),
    decreases s.len(),
{
    let text = crate::text::trimmed_end(s);
    if s.len() > 0 && crate::text::white_space(s.last()) {
        let rest = s.drop_last();
        lemma_trimmed_is_a_prefix(rest);
        assert(rest.take(text.len() as int) =~= s.take(text.len() as int));
        assert forall|i: int| text.len() <= i < s.len() implies crate::text::white_space(
            #[trigger] s[i],
        ) by {
            if i < rest.len() {
                assert(crate::text::white_space(rest[i]));
            }
        }
    } else {
        assert(s.take(s.len() as int) =~= s);
    }
}

} // verus!
