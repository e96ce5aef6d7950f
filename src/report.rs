use vstd::prelude::*;

use crate::station::{StationForecast, StationRecord};
use crate::text::{chars_of, is_space, is_word_char, space_char, word_char};
use crate::wind::{wind_in, wind_of, Wind};

verus! {

/// Altitude columns of a station row.
pub const COLUMNS: usize = 9;

/// Characters of a station row after its station code: a blank before each of the
/// nine columns, the columns themselves, and the blank that closes the row.
pub const ROW_TAIL: usize = 67;

/// Where column `k` starts, counted from the end of the station code.
pub open spec fn column_offset(k: int) -> int {
    if k == 0 { 1 }
    else if k == 1 { 6 }
    else if k == 2 { 14 }
    else if k == 3 { 22 }
    else if k == 4 { 30 }
    else if k == 5 { 38 }
    else if k == 6 { 46 }
    else if k == 7 { 53 }
    else { 60 }
}

/// How many characters column `k` takes.
pub open spec fn column_width(k: int) -> int {
    if k == 0 { 4 }
    else if k <= 5 { 7 }
    else { 6 }
}

/// The altitude in feet that column `k` reports.
pub open spec fn column_altitude(k: int) -> u32 {
    if k == 0 { 3000 }
    else if k == 1 { 6000 }
    else if k == 2 { 9000 }
    else if k == 3 { 12000 }
    else if k == 4 { 18000 }
    else if k == 5 { 24000 }
    else if k == 6 { 30000 }
    else if k == 7 { 34000 }
    else { 39000 }
}

/// Offsets within a row tail that hold the blank before a column or after the last one.
pub open spec fn is_separator(j: int) -> bool {
    j == 0 || j == 5 || j == 13 || j == 21 || j == 29 || j == 37 || j == 45 || j == 52
        || j == 59 || j == 66
}

/// The end of the run of word characters that starts at `p`.
pub open spec fn word_end(s: Seq<char>, p: int) -> int
    decreases s.len() - p,
{
    if 0 <= p < s.len() && is_word_char(s[p]) {
        word_end(s, p + 1)
    } else {
        p
    }
}

/// A row tail starts at `q`: a blank at each separator offset, no line break elsewhere.
pub open spec fn tail_fits(s: Seq<char>, q: int) -> bool {
    &&& 0 <= q
    &&& q + ROW_TAIL <= s.len()
    &&& forall|j: int|
        0 <= j < ROW_TAIL ==> if is_separator(j) {
            is_space(#[trigger] s[q + j])
        } else {
            s[q + j] != '\n'
        }
}

/// A station row starts at `p`: a station code, then a row tail.
pub open spec fn row_at(s: Seq<char>, p: int) -> bool {
    &&& 0 <= p < s.len()
    &&& is_word_char(s[p])
    &&& tail_fits(s, word_end(s, p))
}

pub open spec fn row_end(s: Seq<char>, p: int) -> int {
    word_end(s, p) + ROW_TAIL
}

/// The text of column `k` of the row tail at `q`.
pub open spec fn column_text(s: Seq<char>, q: int, k: int) -> Seq<char> {
    s.subrange(q + column_offset(k), q + column_offset(k) + column_width(k))
}

/// The winds read from the first `k` columns of the row tail at `q`; a column
/// that holds no wind is left out.
pub open spec fn row_winds(s: Seq<char>, q: int, k: int) -> Seq<Wind>
    decreases k,
{
    if k <= 0 {
        seq![]
    } else {
        let prev = row_winds(s, q, k - 1);
        match wind_of(column_text(s, q, k - 1), column_altitude(k - 1)) {
            Some(w) => prev.push(w),
            None => prev,
        }
    }
}

/// The station record of the row that starts at `p`.
pub open spec fn row_record(s: Seq<char>, p: int) -> StationRecord {
    StationRecord {
        station: s.subrange(p, word_end(s, p)),
        winds: row_winds(s, word_end(s, p), COLUMNS as int),
    }
}

pub proof fn lemma_word_end(s: Seq<char>, p: int)
    ensures
        p <= word_end(s, p),
        0 <= p <= s.len() ==> word_end(s, p) <= s.len(),
        0 <= p ==> forall|j: int| p <= j < word_end(s, p) ==> is_word_char(#[trigger] s[j]),
    decreases s.len() - p,
{
    if 0 <= p < s.len() && is_word_char(s[p]) {
        lemma_word_end(s, p + 1);
    }
}

/// The station records of a bulletin read from position `from` on: rows are found
/// left to right, each search starting where the previous row ended.
pub open spec fn rows_from(s: Seq<char>, from: int) -> Seq<StationRecord>
    decreases s.len() - from,
{
    if from < 0 || from >= s.len() {
        seq![]
    } else if row_at(s, from) {
        proof {
            lemma_word_end(s, from);
        }
        seq![row_record(s, from)] + rows_from(s, row_end(s, from))
    } else {
        rows_from(s, from + 1)
    }
}

/// The station records of a whole bulletin, in the order in which they appear.
pub open spec fn station_rows(s: Seq<char>) -> Seq<StationRecord> {
    rows_from(s, 0)
}

/// Every column of the row tail at `q` holds a readable wind.
pub open spec fn all_columns_read(s: Seq<char>, q: int) -> bool {
    forall|k: int| 0 <= k < COLUMNS ==> (#[trigger] wind_of(column_text(s, q, k), column_altitude(k))) is Some
}

proof fn lemma_row_winds_full(s: Seq<char>, q: int, k: int)
    requires
        0 <= k <= COLUMNS,
        all_columns_read(s, q),
    ensures
        row_winds(s, q, k).len() == k,
        forall|i: int| 0 <= i < k ==> (#[trigger] row_winds(s, q, k)[i]).altitude == column_altitude(i),
    decreases k,
{
    if k > 0 {
        lemma_row_winds_full(s, q, k - 1);
        assert(wind_of(column_text(s, q, k - 1), column_altitude(k - 1)) is Some);
    }
}

/// A station row whose nine columns all hold a readable wind gives nine winds, at
/// 3000, 6000, 9000, 12000, 18000, 24000, 30000, 34000 and 39000 feet in that order;
/// a bulletin that opens with such a row has it as its first record.
pub proof fn lemma_full_row_has_every_altitude(s: Seq<char>, p: int)
    requires
        row_at(s, p),
        all_columns_read(s, word_end(s, p)),
    ensures
        row_record(s, p).winds.len() == COLUMNS,
        forall|k: int| 0 <= k < COLUMNS ==> (#[trigger] row_record(s, p).winds[k]).altitude == column_altitude(k),
        row_record(s, p).winds.map_values(|w: Wind| w.altitude).to_set() == set![3000u32, 6000u32, 9000u32, 12000u32, 18000u32, 24000u32, 30000u32, 34000u32, 39000u32],
        p == 0 ==> station_rows(s).len() >= 1 && station_rows(s)[0] == row_record(s, p),
{
    let q = word_end(s, p);
    lemma_row_winds_full(s, q, COLUMNS as int);
    let alts = row_record(s, p).winds.map_values(|w: Wind| w.altitude);
    assert(alts =~= seq![3000u32, 6000u32, 9000u32, 12000u32, 18000u32, 24000u32, 30000u32, 34000u32, 39000u32]);
    assert(alts.to_set() =~= set![3000u32, 6000u32, 9000u32, 12000u32, 18000u32, 24000u32, 30000u32, 34000u32, 39000u32]) by {
        assert forall|a: u32| alts.to_set().contains(a) <==> set![3000u32, 6000u32, 9000u32, 12000u32, 18000u32, 24000u32, 30000u32, 34000u32, 39000u32].contains(a) by {
            if a == 3000 { assert(alts[0] == a); }
            if a == 6000 { assert(alts[1] == a); }
            if a == 9000 { assert(alts[2] == a); }
            if a == 12000 { assert(alts[3] == a); }
            if a == 18000 { assert(alts[4] == a); }
            if a == 24000 { assert(alts[5] == a); }
            if a == 30000 { assert(alts[6] == a); }
            if a == 34000 { assert(alts[7] == a); }
            if a == 39000 { assert(alts[8] == a); }
        }
    }
    if p == 0 {
        lemma_word_end(s, 0);
    }
}

/// Reading a bulletin twice gives the same station records: what is read depends on
/// the text alone.
pub proof fn lemma_reading_is_repeatable(body: Seq<char>, first: Seq<StationForecast>, second: Seq<StationForecast>)
    requires
        first.map_values(|f: StationForecast| f@) == station_rows(body),
        second.map_values(|f: StationForecast| f@) == station_rows(body),
    ensures
        first.len() == second.len(),
        forall|i: int| 0 <= i < first.len() ==> (#[trigger] first[i])@ == second[i]@,
{
    assert(first.map_values(|f: StationForecast| f@).len() == first.len());
    assert(second.map_values(|f: StationForecast| f@).len() == second.len());
    assert forall|i: int| 0 <= i < first.len() implies (#[trigger] first[i])@ == second[i]@ by {
        assert(first.map_values(|f: StationForecast| f@)[i] == first[i]@);
        assert(second.map_values(|f: StationForecast| f@)[i] == second[i]@);
    }
}

fn column(k: usize) -> (r: (usize, usize, u32))
    requires
        k < COLUMNS,
    ensures
        r.0 == column_offset(k as int),
        r.1 == column_width(k as int),
        r.2 == column_altitude(k as int),
{
    if k == 0 { (1, 4, 3000) }
    else if k == 1 { (6, 7, 6000) }
    else if k == 2 { (14, 7, 9000) }
    else if k == 3 { (22, 7, 12000) }
    else if k == 4 { (30, 7, 18000) }
    else if k == 5 { (38, 7, 24000) }
    else if k == 6 { (46, 6, 30000) }
    else if k == 7 { (53, 6, 34000) }
    else { (60, 6, 39000) }
}

fn separator(j: usize) -> (r: bool)
    ensures
        r == is_separator(j as int),
{
    j == 0 || j == 5 || j == 13 || j == 21 || j == 29 || j == 37 || j == 45 || j == 52 || j == 59
        || j == 66
}

fn find_word_end(cs: &Vec<char>, p: usize) -> (r: usize)
    requires
        p <= cs@.len(),
    ensures
        r == word_end(cs@, p as int),
        p <= r <= cs@.len(),
{
    let mut i: usize = p;
    while i < cs.len() && word_char(cs[i])
        invariant
            p <= i <= cs@.len(),
            word_end(cs@, i as int) == word_end(cs@, p as int),
        decreases cs@.len() - i,
    {
        i = i + 1;
    }
    i
}

fn tail_starts_at(cs: &Vec<char>, q: usize) -> (r: bool)
    requires
        q <= cs@.len(),
    ensures
        r == tail_fits(cs@, q as int),
{
    let n = cs.len();
    if n - q < ROW_TAIL {
        return false;
    }
    let mut j: usize = 0;
    while j < ROW_TAIL
        invariant
            j <= ROW_TAIL,
            n == cs@.len(),
            q + ROW_TAIL <= cs@.len(),
            forall|i: int|
                0 <= i < j ==> if is_separator(i) {
                    is_space(#[trigger] cs@[q + i])
                } else {
                    cs@[q + i] != '\n'
                },
        decreases ROW_TAIL - j,
    {
        let c = cs[q + j];
        if separator(j) {
            if !space_char(c) {
                return false;
            }
        } else if c == '\n' {
            return false;
        }
        j = j + 1;
    }
    true
}

fn read_row_winds(cs: &Vec<char>, q: usize) -> (r: Vec<Wind>)
    requires
        tail_fits(cs@, q as int),
    ensures
        r@ == row_winds(cs@, q as int, COLUMNS as int),
{
    let n = cs.len();
    let mut winds: Vec<Wind> = Vec::new();
    let mut k: usize = 0;
    while k < COLUMNS
        invariant
            k <= COLUMNS,
            n == cs@.len(),
            tail_fits(cs@, q as int),
            winds@ == row_winds(cs@, q as int, k as int),
        decreases COLUMNS - k,
    {
        let (offset, width, altitude) = column(k);
        match wind_in(cs, q + offset, q + offset + width, altitude) {
            Some(w) => winds.push(w),
            None => {},
        }
        k = k + 1;
    }
    winds
}

/// Reads every station row of a bulletin, in order of appearance. A row is a station
/// code followed by nine fixed-width columns (winds at 3000 to 39000 feet), each after
/// one blank, and a closing blank; a column that holds no readable wind is left out.
pub fn winds_from_body(body: &str) -> (r: Vec<StationForecast>)
    ensures
        r@.map_values(|f: StationForecast| f@) == station_rows(body@),
{
    let cs = chars_of(body);
    let n = cs.len();
    let mut out: Vec<StationForecast> = Vec::new();
    let mut i: usize = 0;
    while i < n
        invariant
            i <= n,
            n == cs@.len(),
            cs@ == body@,
            out@.map_values(|f: StationForecast| f@) + rows_from(cs@, i as int) == rows_from(cs@, 0),
        decreases n - i,
    {
        let ghost before = out@.map_values(|f: StationForecast| f@);
        let q = find_word_end(&cs, i);
        if q > i && tail_starts_at(&cs, q) {
            proof {
                lemma_word_end(cs@, i as int);
            }
            let station = body.substring_char(i, q);
            let winds = read_row_winds(&cs, q);
            out.push(StationForecast::new(station, winds));
            assert(out@.map_values(|f: StationForecast| f@) =~= before.push(row_record(cs@, i as int)));
            assert(rows_from(cs@, i as int) == seq![row_record(cs@, i as int)] + rows_from(cs@, q + ROW_TAIL));
            assert(before + rows_from(cs@, i as int) =~= before.push(row_record(cs@, i as int)) + rows_from(cs@, q + ROW_TAIL));
            i = q + ROW_TAIL;
        } else {
            proof {
                lemma_word_end(cs@, i + 1);
            }
            assert(!row_at(cs@, i as int));
            assert(rows_from(cs@, i as int) == rows_from(cs@, i + 1));
            i = i + 1;
        }
    }
    assert(out@.map_values(|f: StationForecast| f@) + rows_from(cs@, i as int) =~= out@.map_values(|f: StationForecast| f@));
    out
}

} // verus!
