//! Discovery of day files by their names.

use crate::config::InputConfig;
use crate::sorting::stable_sort;
use crate::text::{parse_digits, push_digit, str_before};
use vstd::prelude::*;
use vstd::string::*;

verus! {

/// A file that holds a trading day.
#[derive(Debug)]
pub struct DayFile {
    /// The date as a number, year * 10000 + month * 100 + day.
    pub yyyymmdd: i64,
    /// The date as `YYYY-MM-DD`.
    pub date: String,
    /// The place of the file in the listing.
    pub index: usize,
}

/// Why no files can be discovered.
#[derive(Debug, Clone, Copy, PartialEq, Eq, Structural)]
pub enum DiscoveryError {
    /// The data directory does not exist.
    NoDirectory,
    /// The filename pattern does not contain `{date}`.
    NoPlaceholder,
    /// No file matches the configuration.
    NoFiles,
}

impl DiscoveryError {
    /// What is wrong, in words.
    pub open spec fn message_of(self) -> &'static str {
        match self {
            DiscoveryError::NoDirectory => "Data directory does not exist",
            DiscoveryError::NoPlaceholder => "filename_pattern must contain {date} placeholder",
            DiscoveryError::NoFiles =>
            "No OPRA .dbn.zst files found matching the configuration",
        }
    }

    /// What is wrong, in words.
    pub fn message(&self) -> (r: &'static str)
        ensures
            r == self.message_of(),
    {
        match self {
            DiscoveryError::NoDirectory => "Data directory does not exist",
            DiscoveryError::NoPlaceholder => "filename_pattern must contain {date} placeholder",
            DiscoveryError::NoFiles =>
            "No OPRA .dbn.zst files found matching the configuration",
        }
    }
}

/// The bytes of `{date}`.
pub open spec fn placeholder() -> Seq<u8> {
    seq![123, 100, 97, 116, 101, 125]
}

/// The placeholder stands in a pattern at a place.
pub open spec fn placeholder_at(pattern: Seq<u8>, at: int) -> bool {
    0 <= at <= pattern.len() - 6 && pattern.subrange(at, at + 6) == placeholder()
}

/// The place is that of the first placeholder of the pattern.
pub open spec fn first_placeholder(pattern: Seq<u8>, at: int) -> bool {
    placeholder_at(pattern, at) && forall|j: int| 0 <= j < at ==> !#[trigger] placeholder_at(
        pattern,
        j,
    )
}

/// The eight digits that a file name has in the place of the placeholder, if it
/// is otherwise the pattern.
pub open spec fn date_digits(name: Seq<u8>, pattern: Seq<u8>, at: int) -> Option<Seq<u8>> {
    let suffix = pattern.len() - 6 - at;
    let digits = name.subrange(at, at + 8);
    if name.len() == at + 8 + suffix && name.subrange(0, at) == pattern.subrange(0, at)
        && name.subrange(at + 8, name.len() as int) == pattern.subrange(
        at + 6,
        pattern.len() as int,
    ) && crate::text::all_digits(digits) {
        Some(digits)
    } else {
        None
    }
}

/// Eight digits as `YYYY-MM-DD`.
pub open spec fn dashed(digits: Seq<u8>) -> Seq<char> {
    let c = |i: int| crate::text::digit_char(digits[i] - 48);
    seq![c(0), c(1), c(2), c(3), '-', c(4), c(5), '-', c(6), c(7)]
}

/// The date is in an inclusive range of dates, compared as texts.
pub open spec fn in_range(
    date: Seq<char>,
    start: Option<Seq<char>>,
    end: Option<Seq<char>>,
) -> bool {
    let bytes = vstd::utf8::encode_utf8(date);
    &&& start matches Some(s) ==> !crate::text::bytes_before(bytes, vstd::utf8::encode_utf8(s))
    &&& end matches Some(e) ==> !crate::text::bytes_before(vstd::utf8::encode_utf8(e), bytes)
}

/// A text that may be there, as characters.
pub open spec fn text_of(text: Option<String>) -> Option<Seq<char>> {
    match text {
        Some(t) => Some(t@),
        None => None,
    }
}

/// The digits of a file's date, if the file is wanted.
pub open spec fn wanted(
    name: Seq<char>,
    pattern: Seq<u8>,
    at: int,
    start: Option<Seq<char>>,
    end: Option<Seq<char>>,
) -> Option<Seq<u8>> {
    match date_digits(vstd::utf8::encode_utf8(name), pattern, at) {
        Some(digits) => if in_range(dashed(digits), start, end) {
            Some(digits)
        } else {
            None
        },
        None => None,
    }
}

/// The wanted files among the first `n` of a listing, in its order: the date as
/// a number and the place in the listing.
pub open spec fn wanted_files(
    names: Seq<String>,
    n: int,
    pattern: Seq<u8>,
    at: int,
    start: Option<Seq<char>>,
    end: Option<Seq<char>>,
) -> Seq<(i64, usize)>
    decreases n,
{
    if n <= 0 {
        Seq::empty()
    } else {
        let before = wanted_files(names, n - 1, pattern, at, start, end);
        match wanted(names[n - 1]@, pattern, at, start, end) {
            Some(digits) => before.push(
                (crate::text::decimal_value(digits) as i64, (n - 1) as usize),
            ),
            None => before,
        }
    }
}

/// Files as their dates and places.
pub open spec fn keys_of(files: Seq<DayFile>) -> Seq<(i64, usize)> {
    files.map_values(|f: DayFile| (f.yyyymmdd, f.index))
}

/// A file's date is that of its name.
pub open spec fn file_is_named(
    file: DayFile,
    names: Seq<String>,
    pattern: Seq<u8>,
    at: int,
) -> bool {
    &&& file.index < names.len()
    &&& date_digits(vstd::utf8::encode_utf8(names[file.index as int]@), pattern, at) matches Some(
        digits,
    ) && file.date@ == dashed(digits) && file.yyyymmdd == crate::text::decimal_value(digits)
}

/// The wanted files of a directory, for the place of the placeholder.
pub open spec fn day_files(input: InputConfig, names: Seq<String>, at: int) -> Seq<(i64, usize)> {
    wanted_files(
        names,
        names.len() as int,
        vstd::utf8::encode_utf8(input.filename_pattern@),
        at,
        text_of(input.date_start),
        text_of(input.date_end),
    )
}

/// `files` are the wanted files of a directory in order of date, files of one
/// date in the order of the listing, each with the date of its name.
pub open spec fn lists_day_files(
    files: Seq<DayFile>,
    input: InputConfig,
    names: Seq<String>,
    at: int,
) -> bool {
    &&& crate::sorting::is_stable_sort(day_files(input, names, at), keys_of(files))
    &&& forall|k: int|
        0 <= k < files.len() ==> file_is_named(
            #[trigger] files[k],
            names,
            vstd::utf8::encode_utf8(input.filename_pattern@),
            at,
        )
}

/// The bytes of one text stand in another at a place.
fn bytes_at(text: &[u8], at: usize, part: &[u8], from: usize, to: usize) -> (r: bool)
    requires
        from <= to <= part@.len(),
        at + (to - from) <= text@.len(),
    ensures
        r == (text@.subrange(at as int, at + (to - from)) == part@.subrange(
            from as int,
            to as int,
        )),
{
    let len: usize = text.len();
    let mut i: usize = from;
    while i < to
        invariant
            from <= i <= to <= part@.len(),
            len == text@.len(),
            at + (to - from) <= len,
            forall|j: int| from <= j < i ==> text@[at + (j - from)] == #[trigger] part@[j],
        decreases to - i,
    {
        if text[at + (i - from)] != part[i] {
            proof {
                let a = text@.subrange(at as int, at + (to - from));
                let b = part@.subrange(from as int, to as int);
                assert(a[i - from] != b[i - from]);
            }
            return false;
        }
        i = i + 1;
    }
    proof {
        let a = text@.subrange(at as int, at + (to - from));
        let b = part@.subrange(from as int, to as int);
        assert forall|k: int| 0 <= k < a.len() implies #[trigger] a[k] == b[k] by {
            assert(text@[at + ((from + k) - from)] == part@[from + k]);
        }
        assert(a =~= b);
    }
    true
}

/// The place of the first placeholder of a pattern.
pub fn find_placeholder(pattern: &str) -> (r: Option<usize>)
    ensures
        match r {
            Some(at) => first_placeholder(pattern.spec_bytes(), at as int),
            None => forall|j: int| !#[trigger] placeholder_at(pattern.spec_bytes(), j),
        },
{
    let bytes = pattern.as_bytes();
    let mut at: usize = 0;
    while bytes.len() >= 6 && at <= bytes.len() - 6
        invariant
            bytes@ == pattern.spec_bytes(),
            forall|j: int| 0 <= j < at ==> !#[trigger] placeholder_at(bytes@, j),
            at <= bytes@.len(),
        decreases bytes@.len() - at,
    {
        let ghost here = bytes@.subrange(at as int, at + 6);
        if bytes[at] == 123 && bytes[at + 1] == 100 && bytes[at + 2] == 97 && bytes[at + 3] == 116
            && bytes[at + 4] == 101 && bytes[at + 5] == 125 {
            assert(here =~= placeholder());
            return Some(at);
        }
        proof {
            if here == placeholder() {
                assert(here[0] == 123 && here[1] == 100 && here[2] == 97 && here[3] == 116
                    && here[4] == 101 && here[5] == 125);
            }
        }
        at = at + 1;
    }
    None
}

/// The date of a file name, as a number and as a text, if the name is the
/// pattern with eight digits for the placeholder.
pub fn file_date(name: &str, pattern: &str, at: usize) -> (r: Option<(i64, String)>)
    requires
        placeholder_at(pattern.spec_bytes(), at as int),
    ensures
        match date_digits(name.spec_bytes(), pattern.spec_bytes(), at as int) {
            Some(digits) => r matches Some((number, text)) && number
                == crate::text::decimal_value(digits) && text@ == dashed(digits),
            None => r is None,
        },
{
    let n = name.as_bytes();
    let p = pattern.as_bytes();
    let suffix: usize = p.len() - 6 - at;
    if n.len() < 8 || n.len() - 8 != at + suffix {
        return None;
    }
    if !bytes_at(n, 0, p, 0, at) || !bytes_at(n, at + 8, p, at + 6, p.len()) {
        return None;
    }
    let ghost digits = n@.subrange(at as int, at + 8);
    let len: usize = n.len();
    let mut i: usize = 0;
    while i < 8
        invariant
            i <= 8,
            at + 8 <= len == n@.len(),
            n@ == name.spec_bytes(),
            digits == n@.subrange(at as int, at + 8),
            forall|j: int| 0 <= j < i ==> crate::text::digit_byte(#[trigger] digits[j]),
        decreases 8 - i,
    {
        if n[at + i] < 48 || n[at + i] > 57 {
            assert(!crate::text::digit_byte(digits[i as int]));
            return None;
        }
        assert(crate::text::digit_byte(digits[i as int]));
        i = i + 1;
    }
    assert(crate::text::all_digits(digits));
    let number: u64 = match parse_digits(n, at, at + 8) {
        Some(number) => number,
        None => {
            proof {
                lemma_eight_digits(digits);
                assert(crate::text::digit_byte(digits[0]));
            }
            return None;
        },
    };
    proof {
        lemma_eight_digits(digits);
        assert(crate::text::digit_byte(digits[0]));
    }
    let date: String = dashed_date(n, at);
    Some((number as i64, date))
}

/// Eight digits as a date with dashes.
fn dashed_date(n: &[u8], at: usize) -> (date: String)
    requires
        at + 8 <= n@.len(),
        crate::text::all_digits(n@.subrange(at as int, at + 8)),
    ensures
        date@ == dashed(n@.subrange(at as int, at + 8)),
{
    let ghost digits = n@.subrange(at as int, at + 8);
    assert forall|j: int| 0 <= j < 8 implies 48 <= #[trigger] n@[at + j] <= 57 by {
        assert(crate::text::digit_byte(digits[j]));
    }
    assert(n@[at + 0] == digits[0] && n@[at + 1] == digits[1] && n@[at + 2] == digits[2] && n@[at
        + 3] == digits[3] && n@[at + 4] == digits[4] && n@[at + 5] == digits[5] && n@[at + 6]
        == digits[6] && n@[at + 7] == digits[7]);
    let mut date: String = String::new();
    push_digit(&mut date, n[at] - 48);
    push_digit(&mut date, n[at + 1] - 48);
    push_digit(&mut date, n[at + 2] - 48);
    push_digit(&mut date, n[at + 3] - 48);
    date.append("-");
    push_digit(&mut date, n[at + 4] - 48);
    push_digit(&mut date, n[at + 5] - 48);
    date.append("-");
    push_digit(&mut date, n[at + 6] - 48);
    push_digit(&mut date, n[at + 7] - 48);
    proof {
        reveal_strlit("-");
        assert(date@ =~= dashed(digits));
    }
    date
}

/// Eight digits denote a number below one hundred million.
proof fn lemma_eight_digits(digits: Seq<u8>)
    requires
        digits.len() == 8,
        crate::text::all_digits(digits),
    ensures
        crate::text::decimal_value(digits) < 100_000_000,
{
    crate::text::lemma_decimal_value_bound(digits, 8);
    assert(vstd::arithmetic::power::pow(10, 8) == 100_000_000) by {
        reveal_with_fuel(vstd::arithmetic::power::pow, 10);
    }
}

/// Whether a date is in the configured range.
fn date_in_range(date: &str, start: &Option<String>, end: &Option<String>) -> (r: bool)
    ensures
        r == in_range(date@, text_of(*start), text_of(*end)),
{
    if let Some(s) = start {
        if str_before(date, s.as_str()) {
            return false;
        }
    }
    if let Some(e) = end {
        if str_before(e.as_str(), date) {
            return false;
        }
    }
    true
}

/// Discover OPRA day files among the names of a directory, sorted by date.
///
/// The files are those whose name is `filename_pattern` with eight digits for
/// `{date}`, and whose date is in the configured range, both ends included.
pub fn discover_files(input: &InputConfig, directory_exists: bool, names: &Vec<String>) -> (r:
    Result<Vec<DayFile>, DiscoveryError>)
    ensures
        !directory_exists ==> r == Err::<Vec<DayFile>, DiscoveryError>(DiscoveryError::NoDirectory),
        directory_exists && (forall|j: int|
            !#[trigger] placeholder_at(vstd::utf8::encode_utf8(input.filename_pattern@), j))
            ==> r == Err::<Vec<DayFile>, DiscoveryError>(DiscoveryError::NoPlaceholder),
        directory_exists ==> forall|at: int| #[trigger]
            first_placeholder(vstd::utf8::encode_utf8(input.filename_pattern@), at) ==> r is Ok
                && lists_day_files(r->Ok_0@, *input, names@, at),
{
    if !directory_exists {
        return Err(DiscoveryError::NoDirectory);
    }
    let pattern: &str = input.filename_pattern.as_str();
    let at: usize = match find_placeholder(pattern) {
        Some(at) => at,
        None => {
            proof {
                assert forall|j: int| #[trigger]
                    first_placeholder(vstd::utf8::encode_utf8(input.filename_pattern@), j) implies false by {
                    assert(!placeholder_at(pattern.spec_bytes(), j));
                }
            }
            return Err(DiscoveryError::NoPlaceholder);
        },
    };
    let ghost bytes = pattern.spec_bytes();
    let ghost start = text_of(input.date_start);
    let ghost end = text_of(input.date_end);
    let mut found: Vec<(i64, usize)> = Vec::new();
    let mut i: usize = 0;
    while i < names.len()
        invariant
            i <= names@.len(),
            bytes == pattern.spec_bytes(),
            start == text_of(input.date_start),
            end == text_of(input.date_end),
            placeholder_at(bytes, at as int),
            found@ == wanted_files(names@, i as int, bytes, at as int, start, end),
            forall|k: int|
                0 <= k < found@.len() ==> key_is_named(
                    #[trigger] found@[k],
                    names@,
                    bytes,
                    at as int,
                ),
        decreases names@.len() - i,
    {
        if let Some((number, date)) = file_date(names[i].as_str(), pattern, at) {
            if date_in_range(date.as_str(), &input.date_start, &input.date_end) {
                found.push((number, i));
                assert(key_is_named((number, i), names@, bytes, at as int));
            }
        }
        i = i + 1;
    }
    let ghost listed = found@;
    let sorted: Vec<(i64, usize)> = stable_sort(found);
    let mut files: Vec<DayFile> = Vec::new();
    let mut k: usize = 0;
    proof {
        assert forall|j: int| 0 <= j < sorted@.len() implies key_is_named(
            #[trigger] sorted@[j],
            names@,
            bytes,
            at as int,
        ) by {
            broadcast use vstd::seq_lib::group_to_multiset_ensures;

            assert(sorted@.to_multiset().contains(sorted@[j]));
            assert(listed.contains(sorted@[j]));
            let m = choose|m: int| 0 <= m < listed.len() && listed[m] == sorted@[j];
            assert(key_is_named(listed[m], names@, bytes, at as int));
        }
    }
    while k < sorted.len()
        invariant
            k <= sorted@.len(),
            bytes == pattern.spec_bytes(),
            placeholder_at(bytes, at as int),
            keys_of(files@) == sorted@.take(k as int),
            forall|j: int|
                0 <= j < sorted@.len() ==> key_is_named(
                    #[trigger] sorted@[j],
                    names@,
                    bytes,
                    at as int,
                ),
            forall|j: int|
                0 <= j < files@.len() ==> file_is_named(
                    #[trigger] files@[j],
                    names@,
                    bytes,
                    at as int,
                ),
        decreases sorted@.len() - k,
    {
        let (yyyymmdd, index) = sorted[k];
        assert(key_is_named(sorted@[k as int], names@, bytes, at as int));
        let date: String = match file_date(names[index].as_str(), pattern, at) {
            Some((_, date)) => date,
            None => {
                assert(false);
                String::new()
            },
        };
        let file = DayFile { yyyymmdd, date, index };
        assert(file_is_named(file, names@, bytes, at as int));
        let ghost before = files@;
        files.push(file);
        assert(keys_of(files@) =~= keys_of(before).push((yyyymmdd, index)));
        assert(sorted@.take(k + 1) =~= sorted@.take(k as int).push(sorted@[k as int]));
        k = k + 1;
    }
    proof {
        assert(sorted@.take(k as int) =~= sorted@);
        assert forall|j: int| #[trigger] first_placeholder(bytes, j) implies j == at by {
            if j < at {
                assert(!placeholder_at(bytes, j));
            }
            if at < j {
                assert(!placeholder_at(bytes, at as int));
            }
        }
    }
    Ok(files)
}

/// A date and a place belong to a name of the pattern.
pub open spec fn key_is_named(
    key: (i64, usize),
    names: Seq<String>,
    pattern: Seq<u8>,
    at: int,
) -> bool {
    &&& key.1 < names.len()
    &&& date_digits(vstd::utf8::encode_utf8(names[key.1 as int]@), pattern, at) matches Some(digits)
        && key.0 == crate::text::decimal_value(digits)
}

/// The day files of a run: those discovered, if there are any.
pub fn plan_days(input: &InputConfig, directory_exists: bool, names: &Vec<String>) -> (r: Result<
    Vec<DayFile>,
    DiscoveryError,
>)
    ensures
        !directory_exists ==> r == Err::<Vec<DayFile>, DiscoveryError>(DiscoveryError::NoDirectory),
        directory_exists && (forall|j: int|
            !#[trigger] placeholder_at(vstd::utf8::encode_utf8(input.filename_pattern@), j))
            ==> r == Err::<Vec<DayFile>, DiscoveryError>(DiscoveryError::NoPlaceholder),
        directory_exists ==> forall|at: int| #[trigger]
            first_placeholder(vstd::utf8::encode_utf8(input.filename_pattern@), at) ==> if day_files(
                *input,
                names@,
                at,
            ).len() == 0 {
                r == Err::<Vec<DayFile>, DiscoveryError>(DiscoveryError::NoFiles)
            } else {
                r is Ok && lists_day_files(r->Ok_0@, *input, names@, at)
            },
{
    match discover_files(input, directory_exists, names) {
        Ok(files) => {
            proof {
                let bytes = vstd::utf8::encode_utf8(input.filename_pattern@);
                assert forall|at: int| #[trigger] first_placeholder(bytes, at) implies day_files(
                    *input,
                    names@,
                    at,
                ).len() == files@.len() by {
                    crate::sorting::lemma_stable_sort_length(
                        day_files(*input, names@, at),
                        keys_of(files@),
                    );
                }
            }
            if files.len() == 0 {
                Err(DiscoveryError::NoFiles)
            } else {
                Ok(files)
            }
        },
        Err(e) => Err(e),
    }
}

/// Dates are ordered as numbers as their texts are: sorting the files by one
/// sorts them by the other, and chronologically.
pub proof fn law_dates_are_ordered_as_texts(a: Seq<u8>, b: Seq<u8>)
    requires
        a.len() == 8,
        b.len() == 8,
        crate::text::all_digits(a),
        crate::text::all_digits(b),
    ensures
        crate::text::decimal_value(a) < crate::text::decimal_value(b) <==> crate::text::bytes_before(
            vstd::utf8::encode_utf8(dashed(a)),
            vstd::utf8::encode_utf8(dashed(b)),
        ),
{
    lemma_dashed_bytes(a);
    lemma_dashed_bytes(b);
    lemma_value_of_eight(a);
    lemma_value_of_eight(b);
    let x = vstd::utf8::encode_utf8(dashed(a));
    let y = vstd::utf8::encode_utf8(dashed(b));
    assert(crate::text::bytes_before(x, y) == before_from(a, b, 0)) by {
        lemma_dashed_order(a, b, x, y);
    }
    assert((crate::text::decimal_value(a) < crate::text::decimal_value(b)) == before_from(a, b, 0))
        by {
        lemma_value_order(a, b);
    }
}

/// The date of a discovered file is never malformed: its text gives the year,
/// month and day that its digits are.
pub proof fn law_discovered_dates_are_well_formed(digits: Seq<u8>)
    requires
        digits.len() == 8,
        crate::text::all_digits(digits),
    ensures
        crate::underlying::numbers_of(vstd::utf8::encode_utf8(dashed(digits))) == Some(
            (
                crate::text::decimal_value(digits.subrange(0, 4)) as int,
                crate::text::decimal_value(digits.subrange(4, 6)) as int,
                crate::text::decimal_value(digits.subrange(6, 8)) as int,
            ),
        ),
{
    lemma_dashed_bytes(digits);
    let bytes = vstd::utf8::encode_utf8(dashed(digits));
    assert(bytes.subrange(0, 4) =~= digits.subrange(0, 4));
    assert(bytes.subrange(5, 7) =~= digits.subrange(4, 6));
    assert(bytes.subrange(8, 10) =~= digits.subrange(6, 8));
    lemma_part_is_digits(digits, 0, 4);
    lemma_part_is_digits(digits, 4, 6);
    lemma_part_is_digits(digits, 6, 8);
}

/// A part of a sequence of digits is one of digits.
proof fn lemma_part_is_digits(digits: Seq<u8>, from: int, to: int)
    requires
        crate::text::all_digits(digits),
        0 <= from <= to <= digits.len(),
    ensures
        crate::text::all_digits(digits.subrange(from, to)),
{
    let part = digits.subrange(from, to);
    assert forall|i: int| 0 <= i < part.len() implies crate::text::digit_byte(#[trigger] part[i]) by {
        assert(crate::text::digit_byte(digits[from + i]));
    }
}

/// From place `i` on, the first digit in which two dates differ is less in the
/// first.
spec fn before_from(a: Seq<u8>, b: Seq<u8>, i: int) -> bool
    decreases 8 - i,
{
    if i >= 8 {
        false
    } else if a[i] != b[i] {
        a[i] < b[i]
    } else {
        before_from(a, b, i + 1)
    }
}

proof fn lemma_dashed_order(a: Seq<u8>, b: Seq<u8>, x: Seq<u8>, y: Seq<u8>)
    requires
        x == seq![a[0], a[1], a[2], a[3], 45u8, a[4], a[5], 45u8, a[6], a[7]],
        y == seq![b[0], b[1], b[2], b[3], 45u8, b[4], b[5], 45u8, b[6], b[7]],
    ensures
        crate::text::bytes_before(x, y) == before_from(a, b, 0),
{
    assert(x.skip(10).len() == 0);
    assert(!crate::text::bytes_before(x.skip(10), y.skip(10)));
    assert(!before_from(a, b, 8));
    lemma_before_step(x, y, 9);
    assert(crate::text::bytes_before(x.skip(9), y.skip(9)) == before_from(a, b, 7));
    lemma_before_step(x, y, 8);
    assert(crate::text::bytes_before(x.skip(8), y.skip(8)) == before_from(a, b, 6));
    lemma_before_step(x, y, 7);
    lemma_before_step(x, y, 6);
    assert(crate::text::bytes_before(x.skip(6), y.skip(6)) == before_from(a, b, 5));
    lemma_before_step(x, y, 5);
    assert(crate::text::bytes_before(x.skip(5), y.skip(5)) == before_from(a, b, 4));
    lemma_before_step(x, y, 4);
    lemma_before_step(x, y, 3);
    assert(crate::text::bytes_before(x.skip(3), y.skip(3)) == before_from(a, b, 3));
    lemma_before_step(x, y, 2);
    assert(crate::text::bytes_before(x.skip(2), y.skip(2)) == before_from(a, b, 2));
    lemma_before_step(x, y, 1);
    assert(crate::text::bytes_before(x.skip(1), y.skip(1)) == before_from(a, b, 1));
    lemma_before_step(x, y, 0);
    assert(x.skip(0) =~= x && y.skip(0) =~= y);
}

/// A leading digit decides, and where it is the same the rest does.
proof fn lemma_leading_digit(p: int, q: int, unit: int, r: int, s: int)
    requires
        0 <= r < unit,
        0 <= s < unit,
    ensures
        (p * unit + r < q * unit + s) == (p < q || (p == q && r < s)),
{
    if p < q {
        assert((p + 1) * unit <= q * unit) by (nonlinear_arith)
            requires
                p + 1 <= q,
                unit > 0,
        ;
        assert((p + 1) * unit == p * unit + unit) by (nonlinear_arith);
    } else if q < p {
        assert((q + 1) * unit <= p * unit) by (nonlinear_arith)
            requires
                q + 1 <= p,
                unit > 0,
        ;
        assert((q + 1) * unit == q * unit + unit) by (nonlinear_arith);
    }
}

proof fn lemma_value_order(a: Seq<u8>, b: Seq<u8>)
    requires
        a.len() == 8,
        b.len() == 8,
        crate::text::all_digits(a),
        crate::text::all_digits(b),
    ensures
        (crate::text::decimal_value(a) < crate::text::decimal_value(b)) == before_from(a, b, 0),
{
    lemma_value_of_eight(a);
    lemma_value_of_eight(b);
    assert forall|i: int| 0 <= i < 8 implies 48 <= #[trigger] a[i] <= 57 && 48 <= #[trigger] b[i]
        <= 57 by {
        assert(crate::text::digit_byte(a[i]) && crate::text::digit_byte(b[i]));
    }
    let (a7, b7) = (a[7] - 48, b[7] - 48);
    let (a6, b6) = ((a[6] - 48) * 10 + a7, (b[6] - 48) * 10 + b7);
    let (a5, b5) = ((a[5] - 48) * 100 + a6, (b[5] - 48) * 100 + b6);
    let (a4, b4) = ((a[4] - 48) * 1_000 + a5, (b[4] - 48) * 1_000 + b5);
    let (a3, b3) = ((a[3] - 48) * 10_000 + a4, (b[3] - 48) * 10_000 + b4);
    let (a2, b2) = ((a[2] - 48) * 100_000 + a3, (b[2] - 48) * 100_000 + b3);
    let (a1, b1) = ((a[1] - 48) * 1_000_000 + a2, (b[1] - 48) * 1_000_000 + b2);
    assert(!before_from(a, b, 8));
    assert((a7 < b7) == before_from(a, b, 7));
    lemma_leading_digit(a[6] - 48, b[6] - 48, 10, a7, b7);
    assert((a6 < b6) == before_from(a, b, 6));
    lemma_leading_digit(a[5] - 48, b[5] - 48, 100, a6, b6);
    assert((a5 < b5) == before_from(a, b, 5));
    lemma_leading_digit(a[4] - 48, b[4] - 48, 1_000, a5, b5);
    assert((a4 < b4) == before_from(a, b, 4));
    lemma_leading_digit(a[3] - 48, b[3] - 48, 10_000, a4, b4);
    assert((a3 < b3) == before_from(a, b, 3));
    lemma_leading_digit(a[2] - 48, b[2] - 48, 100_000, a3, b3);
    assert((a2 < b2) == before_from(a, b, 2));
    lemma_leading_digit(a[1] - 48, b[1] - 48, 1_000_000, a2, b2);
    assert((a1 < b1) == before_from(a, b, 1));
    lemma_leading_digit(a[0] - 48, b[0] - 48, 10_000_000, a1, b1);
}

/// One step of the comparison of two texts of ten bytes.
proof fn lemma_before_step(x: Seq<u8>, y: Seq<u8>, i: int)
    requires
        x.len() == 10,
        y.len() == 10,
        0 <= i < 10,
    ensures
        crate::text::bytes_before(x.skip(i), y.skip(i)) == if x[i] != y[i] {
            x[i] < y[i]
        } else {
            crate::text::bytes_before(x.skip(i + 1), y.skip(i + 1))
        },
{
    assert(x.skip(i).drop_first() =~= x.skip(i + 1));
    assert(y.skip(i).drop_first() =~= y.skip(i + 1));
}

/// The text of a date in bytes: its digits, and hyphens.
proof fn lemma_dashed_bytes(digits: Seq<u8>)
    requires
        digits.len() == 8,
        crate::text::all_digits(digits),
    ensures
        vstd::utf8::encode_utf8(dashed(digits)) == seq![
            digits[0],
            digits[1],
            digits[2],
            digits[3],
            45u8,
            digits[4],
            digits[5],
            45u8,
            digits[6],
            digits[7],
        ],
{
    let chars = dashed(digits);
    assert(crate::text::digit_byte(digits[0]));
    crate::text::lemma_digit_char(digits[0] - 48);
    assert(crate::text::digit_byte(digits[1]));
    crate::text::lemma_digit_char(digits[1] - 48);
    assert(crate::text::digit_byte(digits[2]));
    crate::text::lemma_digit_char(digits[2] - 48);
    assert(crate::text::digit_byte(digits[3]));
    crate::text::lemma_digit_char(digits[3] - 48);
    assert(crate::text::digit_byte(digits[4]));
    crate::text::lemma_digit_char(digits[4] - 48);
    assert(crate::text::digit_byte(digits[5]));
    crate::text::lemma_digit_char(digits[5] - 48);
    assert(crate::text::digit_byte(digits[6]));
    crate::text::lemma_digit_char(digits[6] - 48);
    assert(crate::text::digit_byte(digits[7]));
    crate::text::lemma_digit_char(digits[7] - 48);
    assert(chars.len() == 10);
    assert(vstd::utf8::is_ascii_chars(chars));
    vstd::utf8::is_ascii_chars_encode_utf8(chars);
    let bytes = vstd::utf8::encode_utf8(chars);
    assert(bytes[0] == chars[0] as u8 && bytes[1] == chars[1] as u8 && bytes[2] == chars[2] as u8
        && bytes[3] == chars[3] as u8 && bytes[4] == chars[4] as u8);
    assert(bytes[5] == chars[5] as u8 && bytes[6] == chars[6] as u8 && bytes[7] == chars[7] as u8
        && bytes[8] == chars[8] as u8 && bytes[9] == chars[9] as u8);
    assert('-' as u8 == 45u8);
    assert(bytes =~= seq![
        digits[0],
        digits[1],
        digits[2],
        digits[3],
        45u8,
        digits[4],
        digits[5],
        45u8,
        digits[6],
        digits[7],
    ]);
}

/// The number that eight digits denote.
proof fn lemma_value_of_eight(d: Seq<u8>)
    requires
        d.len() == 8,
        crate::text::all_digits(d),
    ensures
        crate::text::decimal_value(d) == (d[0] - 48) * 10_000_000 + (d[1] - 48) * 1_000_000 + (d[2]
            - 48) * 100_000 + (d[3] - 48) * 10_000 + (d[4] - 48) * 1_000 + (d[5] - 48) * 100 + (
        d[6] - 48) * 10 + (d[7] - 48),
{
    assert forall|i: int| 0 <= i < 8 implies 48 <= #[trigger] d[i] <= 57 by {
        assert(crate::text::digit_byte(d[i]));
    }
    reveal_with_fuel(crate::text::decimal_value, 9);
}

/// Of dates of eight digits, those are in a range that are neither before its
/// start nor after its end, as numbers; an end that is not given leaves the
/// range open.
pub proof fn law_range_is_inclusive(
    date: Seq<u8>,
    start: Option<Seq<u8>>,
    end: Option<Seq<u8>>,
)
    requires
        date.len() == 8 && crate::text::all_digits(date),
        start is Some ==> start->0.len() == 8 && crate::text::all_digits(start->0),
        end is Some ==> end->0.len() == 8 && crate::text::all_digits(end->0),
    ensures
        ({
            let text = |digits: Option<Seq<u8>>|
                match digits {
                    Some(d) => Some(dashed(d)),
                    None => None::<Seq<char>>,
                };
            let value = |digits: Seq<u8>| crate::text::decimal_value(digits);
            in_range(dashed(date), text(start), text(end)) <==> (start is Some ==> value(start->0)
                <= value(date)) && (end is Some ==> value(date) <= value(end->0))
        }),
{
    if let Some(s) = start {
        law_dates_are_ordered_as_texts(date, s);
    }
    if let Some(e) = end {
        law_dates_are_ordered_as_texts(e, date);
    }
}

/// A file name has the form of a pattern exactly when it is the pattern with
/// eight digits in the place of the placeholder.
pub proof fn law_name_is_the_pattern_with_a_date(name: Seq<u8>, pattern: Seq<u8>, at: int)
    requires
        placeholder_at(pattern, at),
    ensures
        date_digits(name, pattern, at) matches Some(digits) ==> digits.len() == 8
            && crate::text::all_digits(digits) && name == pattern.take(at) + digits + pattern.skip(
            at + 6,
        ),
        date_digits(name, pattern, at) is None ==> forall|digits: Seq<u8>|
            digits.len() == 8 && #[trigger] crate::text::all_digits(digits) ==> name
                != pattern.take(at) + digits + pattern.skip(at + 6),
{
    let (prefix, suffix) = (pattern.take(at), pattern.skip(at + 6));
    assert(prefix =~= pattern.subrange(0, at));
    assert(suffix =~= pattern.subrange(at + 6, pattern.len() as int));
    match date_digits(name, pattern, at) {
        Some(digits) => {
            assert(name =~= name.subrange(0, at) + digits + name.subrange(
                at + 8,
                name.len() as int,
            ));
        },
        None => {
            assert forall|digits: Seq<u8>|
                digits.len() == 8 && #[trigger] crate::text::all_digits(digits) implies name
                != prefix + digits + suffix by {
                if name == prefix + digits + suffix {
                    assert(name.subrange(0, at) =~= prefix);
                    assert(name.subrange(at, at + 8) =~= digits);
                    assert(name.subrange(at + 8, name.len() as int) =~= suffix);
                }
            }
        },
    }
}

/// The wanted files are those among the first `n` whose name has a date in the
/// range, each once, in the order of the listing and under its date.
pub proof fn law_wanted_files_are_those_in_range(
    names: Seq<String>,
    n: int,
    pattern: Seq<u8>,
    at: int,
    start: Option<Seq<char>>,
    end: Option<Seq<char>>,
)
    requires
        0 <= n <= names.len() <= usize::MAX,
    ensures
        ({
            let files = wanted_files(names, n, pattern, at, start, end);
            let digits = |i: int|
                date_digits(vstd::utf8::encode_utf8(names[i]@), pattern, at);
            &&& forall|k: int|
                0 <= k < files.len() ==> {
                    let i = (#[trigger] files[k]).1 as int;
                    &&& i < n && digits(i) is Some && in_range(dashed(digits(i)->0), start, end)
                    &&& files[k].0 == crate::text::decimal_value(digits(i)->0) as i64
                }
            &&& forall|k: int, l: int|
                0 <= k < l < files.len() ==> (#[trigger] files[k]).1 < (#[trigger] files[l]).1
            &&& forall|i: int|
                0 <= i < n && (#[trigger] digits(i)) is Some && in_range(
                    dashed(digits(i)->0),
                    start,
                    end,
                ) ==> exists|k: int| 0 <= k < files.len() && (#[trigger] files[k]).1 == i
        }),
    decreases n,
{
    if n > 0 {
        law_wanted_files_are_those_in_range(names, n - 1, pattern, at, start, end);
        let before = wanted_files(names, n - 1, pattern, at, start, end);
        let files = wanted_files(names, n, pattern, at, start, end);
        let digits = |i: int| date_digits(vstd::utf8::encode_utf8(names[i]@), pattern, at);
        assert forall|i: int|
            0 <= i < n && (#[trigger] digits(i)) is Some && in_range(
                dashed(digits(i)->0),
                start,
                end,
            ) implies exists|k: int| 0 <= k < files.len() && (#[trigger] files[k]).1 == i by {
            if i == n - 1 {
                assert(files[files.len() - 1].1 == i);
            } else {
                let k = choose|k: int| 0 <= k < before.len() && (#[trigger] before[k]).1 == i;
                assert(files[k] == before[k]);
            }
        }
        assert forall|k: int| 0 <= k < files.len() implies ({
            let i = (#[trigger] files[k]).1 as int;
            &&& i < n && digits(i) is Some && in_range(dashed(digits(i)->0), start, end)
            &&& files[k].0 == crate::text::decimal_value(digits(i)->0) as i64
        }) by {
            if k < before.len() {
                assert(files[k] == before[k]);
            }
        }
        assert forall|k: int, l: int| 0 <= k < l < files.len() implies (#[trigger] files[k]).1 < (
        #[trigger] files[l]).1 by {
            assert(files[k] == before[k]);
            if l < before.len() {
                assert(files[l] == before[l]);
            }
        }
    }
}

/// The day files of a directory are in order of date, and they are those files
/// whose name is the pattern with a date in the range: every such name has one,
/// and every one has such a name, whose date it carries.
pub proof fn law_day_files_are_the_dated_names(
    files: Seq<DayFile>,
    input: InputConfig,
    names: Seq<String>,
    at: int,
    i: int,
)
    requires
        lists_day_files(files, input, names, at),
        0 <= i < names.len() <= usize::MAX,
    ensures
        forall|k: int, l: int|
            0 <= k <= l < files.len() ==> (#[trigger] files[k]).yyyymmdd
                <= (#[trigger] files[l]).yyyymmdd,
        ({
            let digits = date_digits(
                vstd::utf8::encode_utf8(names[i]@),
                vstd::utf8::encode_utf8(input.filename_pattern@),
                at,
            );
            (exists|k: int| 0 <= k < files.len() && (#[trigger] files[k]).index == i)
                <==> digits is Some && in_range(
                dashed(digits->0),
                text_of(input.date_start),
                text_of(input.date_end),
            )
        }),
        forall|k: int|
            0 <= k < files.len() && (#[trigger] files[k]).index == i ==> {
                let digits = date_digits(
                    vstd::utf8::encode_utf8(names[i]@),
                    vstd::utf8::encode_utf8(input.filename_pattern@),
                    at,
                );
                &&& digits is Some && files[k].date@ == dashed(digits->0)
                &&& files[k].yyyymmdd == crate::text::decimal_value(digits->0)
            },
{
    let pattern = vstd::utf8::encode_utf8(input.filename_pattern@);
    let (start, end) = (text_of(input.date_start), text_of(input.date_end));
    let wanted = day_files(input, names, at);
    let keys = keys_of(files);
    let digits = |j: int| date_digits(vstd::utf8::encode_utf8(names[j]@), pattern, at);
    law_wanted_files_are_those_in_range(names, names.len() as int, pattern, at, start, end);
    assert forall|k: int, l: int| 0 <= k <= l < files.len() implies (
    #[trigger] files[k]).yyyymmdd <= (#[trigger] files[l]).yyyymmdd by {
        assert(keys[k].0 <= keys[l].0);
    }
    assert forall|k: int| 0 <= k < files.len() && (#[trigger] files[k]).index == i implies ({
        &&& digits(i) is Some && files[k].date@ == dashed(digits(i)->0)
        &&& files[k].yyyymmdd == crate::text::decimal_value(digits(i)->0)
    }) by {
        assert(file_is_named(files[k], names, pattern, at));
    }
    if exists|k: int| 0 <= k < files.len() && (#[trigger] files[k]).index == i {
        let k = choose|k: int| 0 <= k < files.len() && (#[trigger] files[k]).index == i;
        assert(keys[k] == (files[k].yyyymmdd, files[k].index));
        assert(keys.contains(keys[k]));
        crate::sorting::law_stable_sort_keeps_the_items(wanted, keys, keys[k]);
        let j = choose|j: int| 0 <= j < wanted.len() && wanted[j] == keys[k];
        assert(wanted[j].1 == i);
    }
    if digits(i) is Some && in_range(dashed(digits(i)->0), start, end) {
        let j = choose|j: int| 0 <= j < wanted.len() && (#[trigger] wanted[j]).1 == i;
        assert(wanted.contains(wanted[j]));
        crate::sorting::law_stable_sort_keeps_the_items(wanted, keys, wanted[j]);
        let k = choose|k: int| 0 <= k < keys.len() && keys[k] == wanted[j];
        assert(files[k].index == i);
    }
}

} // verus!
