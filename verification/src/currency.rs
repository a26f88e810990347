//! The historical exchange-rate table. Rates are kept as fixed-point
//! integers (millionths of a unit), all relative to one base currency (EUR),
//! and a conversion multiplier is returned as an exact rational so that the
//! engine's arithmetic stays exact. A lookup falls back day by day for at
//! most seven attempts, the starting day included.

use crate::dates::Date;
use crate::text;
use crate::SyncError;
use vstd::prelude::*;

verus! {

/// The error type of the zip archive reader, opaque to the engine.
#[verifier::external_type_specification]
#[verifier::external_body]
pub struct ExZipError(zip::result::ZipError);

/// The error type of the record reader, opaque to the engine.
#[verifier::external_type_specification]
#[verifier::external_body]
pub struct ExCsvError(csv::Error);

/// Fixed-point scale: rate cells hold millionths of a unit.
pub const RATE_SCALE: u64 = 1000000;

/// A conversion multiplier as an exact rational: multiply by `num`, divide
/// by `den`. Both parts are rate cells in millionths, so the scale cancels.
#[derive(Debug, Clone, Copy, PartialEq, Eq, Structural)]
pub struct Rate {
    pub num: u64,
    pub den: u64,
}

/// Holds one row of rate cells per day, keyed by day number, plus the list
/// of tracked currency codes, one per cell, in cell order.
pub struct CurrencyConverter {
    currencies: Vec<String>,
    rows: Vec<(u64, Vec<u64>)>,
}

/// The value of the row keyed `k`, the latest inserted winning.
pub open spec fn row_for(table: Seq<(u64, Seq<u64>)>, k: u64) -> Option<Seq<u64>>
    decreases table.len(),
{
    if table.len() == 0 {
        None
    } else if table.last().0 == k {
        Some(table.last().1)
    } else {
        row_for(table.drop_last(), k)
    }
}

/// The row for day `k`, else for `k - 1`, and so on, giving up after
/// `tries` attempts.
pub open spec fn lookback(table: Seq<(u64, Seq<u64>)>, k: int, tries: nat) -> Option<Seq<u64>>
    decreases tries,
{
    if tries == 0 {
        None
    } else if 0 <= k && k <= u64::MAX && row_for(table, k as u64) is Some {
        row_for(table, k as u64)
    } else {
        lookback(table, k - 1, (tries - 1) as nat)
    }
}

proof fn lemma_lookback_low(table: Seq<(u64, Seq<u64>)>, k: int, tries: nat)
    requires
        k < 0,
    ensures
        lookback(table, k, tries) is None,
    decreases tries,
{
    if tries > 0 {
        lemma_lookback_low(table, k - 1, (tries - 1) as nat);
    }
}

/// The first position at or after `i` whose code equals `cur` up to ASCII
/// case.
pub open spec fn first_ci_index(curs: Seq<Seq<char>>, cur: Seq<char>, i: int) -> Option<int>
    recommends
        0 <= i,
    decreases curs.len() - i + 1,
{
    if i < 0 || i >= curs.len() {
        None
    } else if text::eq_ignore_case(curs[i], cur) {
        Some(i)
    } else {
        first_ci_index(curs, cur, i + 1)
    }
}

/// The rate cell an index resolves to: the base currency, and any code not
/// in the tracked list, resolves to an implicit 1.0.
pub open spec fn rate_part(row: Seq<u64>, idx: Option<int>) -> u64 {
    match idx {
        None => RATE_SCALE,
        Some(i) => if 0 <= i < row.len() {
            row[i]
        } else {
            RATE_SCALE
        },
    }
}

/// What `parse_rate` accepts: decimal digits with at most one point and at
/// most six fractional digits, read in millionths. A cell of any other
/// shape, or one too large for the fixed-point range, reads as 0 — the
/// table tolerates malformed cells rather than aborting its load.
pub open spec fn spec_parse_rate(s: Seq<char>) -> u64 {
    match text::first_match_from(s, "."@, 0) {
        None => if s.len() > 0 && text::all_digits(s) {
            let v = text::digits_value(s) * 1000000;
            if v <= u64::MAX {
                v as u64
            } else {
                0
            }
        } else {
            0
        },
        Some(p) => {
            let ip = s.take(p);
            let fp = s.skip(p + 1);
            if (ip.len() > 0 || fp.len() > 0) && fp.len() <= 6 && text::all_digits(ip)
                && text::all_digits(fp) {
                let v = text::digits_value(ip) * 1000000 + text::digits_value(fp) * text::pow10(
                    (6 - fp.len()) as nat,
                );
                if v <= u64::MAX {
                    v as u64
                } else {
                    0
                }
            } else {
                0
            }
        },
    }
}

/// Reads the digits of `s` in `lo..hi` as a value, `None` when a non-digit
/// occurs or the value passes `u64::MAX`.
fn read_digits(s: &str, lo: usize, hi: usize) -> (r: Option<u64>)
    requires
        lo <= hi <= s@.len(),
    ensures
        match r {
            Some(v) => text::all_digits(s@.subrange(lo as int, hi as int)) && v
                == text::digits_value(s@.subrange(lo as int, hi as int)),
            None => !(text::all_digits(s@.subrange(lo as int, hi as int)) && text::digits_value(
                s@.subrange(lo as int, hi as int),
            ) <= u64::MAX),
        },
{
    let ghost whole = s@.subrange(lo as int, hi as int);
    let mut acc: u128 = 0;
    let mut i: usize = lo;
    assert(whole.subrange(0, 0) =~= whole.take(0));
    while i < hi
        invariant
            lo <= i <= hi <= s@.len(),
            whole == s@.subrange(lo as int, hi as int),
            text::all_digits(whole.take(i - lo)),
            acc == text::digits_value(whole.take(i - lo)),
            acc <= u64::MAX,
        decreases hi - i,
    {
        let c: char = s.get_char(i);
        assert(whole[i - lo] == c);
        match text::read_digit(c) {
            None => {
                assert(!text::all_digits(whole)) by {
                    assert(!text::is_digit(whole[i - lo]));
                }
                return None;
            },
            Some(d) => {
                assert(whole.take(i - lo + 1).drop_last() =~= whole.take(i - lo));
                assert(whole.take(i - lo + 1).last() == c);
                acc = acc * 10 + (d as u128);
                if acc > u64::MAX as u128 {
                    proof {
                        text::lemma_digits_value_take_le(whole, i - lo + 1);
                    }
                    return None;
                }
            },
        }
        i = i + 1;
    }
    assert(whole.take(hi - lo) =~= whole);
    Some(acc as u64)
}

/// Parses one rate cell into millionths of a unit; malformed or oversized
/// cells parse as 0.
pub fn parse_rate(s: &str) -> (r: u64)
    ensures
        r == spec_parse_rate(s@),
{
    proof {
        reveal_strlit(".");
    }
    let slen: usize = s.unicode_len();
    let dot: Option<usize> = text::find_str(s, ".", 0);
    match dot {
        None => {
            if slen == 0 {
                return 0;
            }
            assert(s@.subrange(0, slen as int) =~= s@);
            match read_digits(s, 0, slen) {
                None => {
                    proof {
                        if text::all_digits(s@) {
                            text::lemma_digits_value_nonneg(s@);
                            assert(text::digits_value(s@) * 1000000 >= text::digits_value(s@))
                                by (nonlinear_arith)
                                requires
                                    text::digits_value(s@) >= 0,
                            ;
                        }
                    }
                    0
                },
                Some(v) => {
                    proof {
                        text::lemma_digits_value_nonneg(s@);
                    }
                    let prod: u128 = (v as u128) * 1000000;
                    if prod > u64::MAX as u128 {
                        0
                    } else {
                        prod as u64
                    }
                },
            }
        },
        Some(p) => {
            assert(p + 1 <= slen) by {
                assert(text::match_at(s@, "."@, p as int));
            }
            let ghost ip = s@.take(p as int);
            let ghost fp = s@.skip(p as int + 1);
            assert(s@.subrange(0, p as int) =~= ip);
            assert(s@.subrange(p as int + 1, slen as int) =~= fp);
            if p == 0 && p + 1 == slen {
                return 0;
            }
            let fp_len: usize = slen - (p + 1);
            if fp_len > 6 {
                return 0;
            }
            let vi: u64 = match read_digits(s, 0, p) {
                None => {
                    proof {
                        lemma_cell_overflow_is_malformed(ip, fp);
                    }
                    return 0;
                },
                Some(v) => v,
            };
            let vf: u64 = match read_digits(s, p + 1, slen) {
                None => {
                    proof {
                        if text::all_digits(fp) {
                            text::lemma_digits_value_bound(fp);
                            proof_pow10_small((fp.len()) as nat);
                        }
                    }
                    return 0;
                },
                Some(v) => v,
            };
            proof {
                text::lemma_digits_value_bound(fp);
                proof_pow10_small(fp.len() as nat);
                text::lemma_digits_value_nonneg(ip);
            }
            let mut scale: u64 = 1;
            let mut k: usize = 0;
            let missing: usize = 6 - fp_len;
            while k < missing
                invariant
                    k <= missing <= 6,
                    scale == text::pow10(k as nat),
                    scale <= 1000000,
                decreases missing - k,
            {
                proof {
                    proof_pow10_small((k + 1) as nat);
                }
                scale = scale * 10;
                k = k + 1;
            }
            proof {
                assert(fp.len() == fp_len as int);
                lemma_frac_scaled_bound(fp);
                assert((vf as int) * (scale as int) == text::digits_value(fp) * text::pow10(
                    (6 - fp.len()) as nat,
                ));
            }
            let frac: u128 = (vf as u128) * (scale as u128);
            let total: u128 = (vi as u128) * 1000000 + frac;
            if total > u64::MAX as u128 {
                0
            } else {
                total as u64
            }
        },
    }
}

/// The first seven powers of ten, spelled out.
proof fn proof_pow10_values()
    ensures
        text::pow10(0) == 1,
        text::pow10(1) == 10,
        text::pow10(2) == 100,
        text::pow10(3) == 1000,
        text::pow10(4) == 10000,
        text::pow10(5) == 100000,
        text::pow10(6) == 1000000,
{
    assert(text::pow10(0) == 1);
    assert(text::pow10(1) == 10);
    assert(text::pow10(2) == 100);
    assert(text::pow10(3) == 1000);
    assert(text::pow10(4) == 10000);
    assert(text::pow10(5) == 100000);
    assert(text::pow10(6) == 1000000);
}

/// Ten to the `n` stays within one million for `n` up to six.
proof fn proof_pow10_small(n: nat)
    requires
        n <= 6,
    ensures
        1 <= text::pow10(n) <= 1000000,
        n < 6 ==> 10 * text::pow10(n) <= 1000000,
{
    proof_pow10_values();
    if n == 0 {
    } else if n == 1 {
    } else if n == 2 {
    } else if n == 3 {
    } else if n == 4 {
    } else if n == 5 {
    } else {
        assert(n == 6);
    }
}

/// Up to six fractional digits scale to below one whole unit in millionths.
proof fn lemma_frac_scaled_bound(fp: Seq<char>)
    requires
        text::all_digits(fp),
        fp.len() <= 6,
    ensures
        0 <= text::digits_value(fp) * text::pow10((6 - fp.len()) as nat) < 1000000,
{
    text::lemma_digits_value_bound(fp);
    proof_pow10_small(fp.len() as nat);
    proof_pow10_small((6 - fp.len()) as nat);
    lemma_pow10_split(fp.len() as nat, (6 - fp.len()) as nat);
    proof_pow10_values();
    assert(text::pow10(fp.len() as nat) * text::pow10((6 - fp.len()) as nat) == 1000000);
    assert(text::digits_value(fp) * text::pow10((6 - fp.len()) as nat) <= (text::pow10(
        fp.len() as nat,
    ) - 1) * text::pow10((6 - fp.len()) as nat)) by (nonlinear_arith)
        requires
            text::digits_value(fp) <= text::pow10(fp.len() as nat) - 1,
            text::pow10((6 - fp.len()) as nat) >= 1,
    ;
    assert((text::pow10(fp.len() as nat) - 1) * text::pow10((6 - fp.len()) as nat) < text::pow10(
        fp.len() as nat,
    ) * text::pow10((6 - fp.len()) as nat)) by (nonlinear_arith)
        requires
            text::pow10((6 - fp.len()) as nat) >= 1,
    ;
    assert(text::digits_value(fp) * text::pow10((6 - fp.len()) as nat) >= 0) by (nonlinear_arith)
        requires
            text::digits_value(fp) >= 0,
            text::pow10((6 - fp.len()) as nat) >= 1,
    ;
}

/// Ten to a sum is the product of the powers.
proof fn lemma_pow10_split(a: nat, b: nat)
    ensures
        text::pow10(a + b) == text::pow10(a) * text::pow10(b),
    decreases a,
{
    if a == 0 {
        assert(text::pow10(b) == 1 * text::pow10(b)) by (nonlinear_arith);
    } else {
        lemma_pow10_split((a - 1) as nat, b);
        assert((a + b) as nat == (((a - 1) as nat) + b) + 1);
        assert(text::pow10(((a - 1) as nat + b) + 1) == 10 * text::pow10((a - 1) as nat + b));
        assert(10 * (text::pow10((a - 1) as nat) * text::pow10(b)) == (10 * text::pow10(
            (a - 1) as nat,
        )) * text::pow10(b)) by (nonlinear_arith);
    }
}

/// An integer part too large for the range makes the whole cell malformed,
/// whatever the fraction holds.
proof fn lemma_cell_overflow_is_malformed(ip: Seq<char>, fp: Seq<char>)
    requires
        !(text::all_digits(ip) && text::digits_value(ip) <= u64::MAX),
        fp.len() <= 6,
    ensures
        text::all_digits(ip) && text::all_digits(fp) ==> text::digits_value(ip) * 1000000
            + text::digits_value(fp) * text::pow10((6 - fp.len()) as nat) > u64::MAX,
{
    if text::all_digits(ip) && text::all_digits(fp) {
        text::lemma_digits_value_nonneg(ip);
        lemma_frac_scaled_bound(fp);
        assert(text::digits_value(ip) * 1000000 >= text::digits_value(ip)) by (nonlinear_arith)
            requires
                text::digits_value(ip) >= 0,
        ;
    }
}

impl CurrencyConverter {
    /// The tracked currency codes, in cell order.
    pub closed spec fn currency_views(self) -> Seq<Seq<char>> {
        self.currencies.deep_view()
    }

    /// The rate rows: day number and cells, in insertion order.
    pub closed spec fn table(self) -> Seq<(u64, Seq<u64>)> {
        self.rows@.map_values(|p: (u64, Vec<u64>)| (p.0, p.1@))
    }

    /// Every row holds one cell per tracked currency.
    pub open spec fn wf(self) -> bool {
        forall|i: int|
            0 <= i < self.table().len() ==> (#[trigger] self.table()[i]).1.len()
                == self.currency_views().len()
    }

    /// The cell index a currency code resolves to; the base currency (EUR)
    /// is absent from the list and resolves to `None`, as does any unknown
    /// code.
    pub open spec fn spec_currency_index(self, cur: Seq<char>) -> Option<int> {
        if text::eq_ignore_case(cur, "EUR"@) {
            None
        } else {
            first_ci_index(self.currency_views(), cur, 0)
        }
    }

    /// What `get_rate` returns: 1 for a same-currency conversion whatever
    /// the table holds; otherwise the pair of cells of the nearest row at
    /// most six days before the requested day, `None` if that window holds
    /// no row.
    pub open spec fn spec_get_rate(self, date: Date, source: Seq<char>, dest: Seq<char>) -> Option<
        Rate,
    > {
        if text::eq_ignore_case(source, dest) {
            Some(Rate { num: RATE_SCALE, den: RATE_SCALE })
        } else {
            match lookback(self.table(), date.spec_day_number(), 7) {
                None => None,
                Some(row) => Some(
                    Rate {
                        num: rate_part(row, self.spec_currency_index(dest)),
                        den: rate_part(row, self.spec_currency_index(source)),
                    },
                ),
            }
        }
    }

    /// Resolves a currency code to its cell index, case-insensitively.
    fn get_index(&self, cur: &str) -> (r: Option<usize>)
        ensures
            match r {
                Some(i) => self.spec_currency_index(cur@) == Some(i as int) && i
                    < self.currency_views().len(),
                None => self.spec_currency_index(cur@) is None,
            },
    {
        if text::str_eq_ignore_case(cur, "EUR") {
            return None;
        }
        assert(!text::eq_ignore_case(cur@, "EUR"@));
        let n: usize = self.currencies.len();
        let mut i: usize = 0;
        while i < n
            invariant
                n == self.currencies.len(),
                i <= n,
                !text::eq_ignore_case(cur@, "EUR"@),
                first_ci_index(self.currency_views(), cur@, 0) == first_ci_index(
                    self.currency_views(),
                    cur@,
                    i as int,
                ),
            decreases n - i,
        {
            if text::str_eq_ignore_case(self.currencies[i].as_str(), cur) {
                assert(self.currency_views()[i as int] == self.currencies@[i as int]@);
                assert(text::eq_ignore_case(self.currency_views()[i as int], cur@));
                assert(first_ci_index(self.currency_views(), cur@, i as int) == Some(i as int));
                return Some(i);
            }
            assert(self.currency_views()[i as int] == self.currencies@[i as int]@);
            assert(first_ci_index(self.currency_views(), cur@, i as int) == first_ci_index(
                self.currency_views(),
                cur@,
                i + 1,
            ));
            i = i + 1;
        }
        None
    }

    /// Finds the index of the row keyed `k`, the latest winning.
    fn find_row(&self, k: u64) -> (r: Option<usize>)
        ensures
            match r {
                Some(i) => i < self.rows.len() && row_for(self.table(), k) == Some(
                    self.table()[i as int].1,
                ),
                None => row_for(self.table(), k) is None,
            },
    {
        let n: usize = self.rows.len();
        let mut i: usize = n;
        assert(self.table().take(n as int) =~= self.table());
        while i > 0
            invariant
                n == self.rows.len(),
                i <= n,
                row_for(self.table(), k) == row_for(self.table().take(i as int), k),
            decreases i,
        {
            i = i - 1;
            if self.rows[i].0 == k {
                assert(self.table().take(i + 1).last() == self.table()[i as int]);
                return Some(i);
            }
            assert(self.table().take(i + 1).drop_last() =~= self.table().take(i as int));
        }
        assert(self.table().take(0) =~= Seq::<(u64, Seq<u64>)>::empty());
        None
    }

    /// Walks back from day `key`, at most `tries` attempts, to the nearest
    /// row.
    fn find_row_back(&self, key: u64, tries: u64) -> (r: Option<usize>)
        ensures
            match r {
                Some(i) => i < self.rows.len() && lookback(self.table(), key as int, tries as nat)
                    == Some(self.table()[i as int].1),
                None => lookback(self.table(), key as int, tries as nat) is None,
            },
        decreases tries,
    {
        if tries == 0 {
            return None;
        }
        match self.find_row(key) {
            Some(i) => Some(i),
            None => {
                if key == 0 {
                    proof {
                        lemma_lookback_low(self.table(), -1, (tries - 1) as nat);
                    }
                    None
                } else {
                    self.find_row_back(key - 1, tries - 1)
                }
            },
        }
    }

    /// The multiplier to convert an amount in `source` into `dest` as of
    /// `date`, falling back up to six days earlier; `None` when the window
    /// holds no row. A same-currency conversion is 1 whatever the table
    /// holds. Codes compare case-insensitively.
    pub fn get_rate(&self, date: Date, source: &str, dest: &str) -> (r: Option<Rate>)
        requires
            self.wf(),
            date.valid(),
        ensures
            r == self.spec_get_rate(date, source@, dest@),
    {
        if text::str_eq_ignore_case(source, dest) {
            return Some(Rate { num: RATE_SCALE, den: RATE_SCALE });
        }
        let k: u64 = date.day_number();
        match self.find_row_back(k, 7) {
            None => None,
            Some(i) => {
                let row: &Vec<u64> = &self.rows[i].1;
                let num: u64 = match self.get_index(dest) {
                    None => RATE_SCALE,
                    Some(j) => row[j],
                };
                let den: u64 = match self.get_index(source) {
                    None => RATE_SCALE,
                    Some(j) => row[j],
                };
                Some(Rate { num, den })
            },
        }
    }
}

/// What decompressing the first file of an archive yields: a function of
/// the archive bytes alone.
pub uninterp spec fn unzipped_first_of(bytes: Seq<u8>) -> Seq<u8>;

/// Whether the bytes decompress at all: whether they form an archive with
/// a readable first file, a property of the bytes alone.
pub uninterp spec fn unzip_ok_of(bytes: Seq<u8>) -> bool;

/// What splitting comma-separated bytes into records of fields yields: a
/// function of the bytes alone.
pub uninterp spec fn csv_rows_of(bytes: Seq<u8>) -> Seq<Seq<Seq<char>>>;

/// Whether the bytes split into records at all: records of equal length in
/// valid text, a property of the bytes alone.
pub uninterp spec fn csv_ok_of(bytes: Seq<u8>) -> bool;

/// Relies on zip's `ZipArchive::new`, `by_index` and the entry's `Read`:
/// decompresses the first file of the archive; whether that succeeds and
/// what it yields are pure functions of the archive bytes.
#[verifier::external_body]
fn unzip_first(bytes: &[u8]) -> (r: Result<Vec<u8>, zip::result::ZipError>)
    ensures
        r is Ok <==> unzip_ok_of(bytes@),
        r matches Ok(v) ==> v@ == unzipped_first_of(bytes@),
{
    let mut archive = zip::ZipArchive::new(std::io::Cursor::new(bytes))?;
    let mut file = archive.by_index(0)?;
    let mut out: Vec<u8> = Vec::new();
    std::io::Read::read_to_end(&mut file, &mut out).map_err(zip::result::ZipError::Io)?;
    Ok(out)
}

/// Relies on csv's `Reader`: splits the bytes into records of fields
/// (strict record lengths, no header handling); whether that succeeds and
/// what it yields are pure functions of the bytes.
#[verifier::external_body]
fn csv_records(bytes: &[u8]) -> (r: Result<Vec<Vec<String>>, csv::Error>)
    ensures
        r is Ok <==> csv_ok_of(bytes@),
        r matches Ok(rows) ==> rows.deep_view() == csv_rows_of(bytes@),
{
    let mut reader = csv::ReaderBuilder::new().has_headers(false).from_reader(bytes);
    let mut rows: Vec<Vec<String>> = Vec::new();
    for record in reader.records() {
        let record = record?;
        rows.push(record.iter().map(|field| field.to_string()).collect());
    }
    Ok(rows)
}

/// The cells of one data row, one per tracked currency; cells the row does
/// not hold read as 0.
pub open spec fn spec_row_cells(row: Seq<Seq<char>>, ncur: int) -> Seq<u64> {
    Seq::new(
        ncur as nat,
        |i: int|
            if 1 + i < row.len() {
                spec_parse_rate(row[1 + i])
            } else {
                0u64
            },
    )
}

/// The table the data rows build: a row of fewer than two cells is skipped,
/// a row whose first cell is no date aborts the build, and every other row
/// contributes its day number and cells.
pub open spec fn spec_table(rows: Seq<Seq<Seq<char>>>, ncur: int) -> Option<Seq<(u64, Seq<u64>)>>
    decreases rows.len(),
{
    if rows.len() == 0 {
        Some(Seq::empty())
    } else {
        match spec_table(rows.drop_last(), ncur) {
            None => None,
            Some(t) => {
                let row = rows.last();
                if row.len() < 2 {
                    Some(t)
                } else {
                    match crate::dates::spec_parse_date(row[0]) {
                        None => None,
                        Some(d) => Some(t.push(((d.spec_day_number() as u64), spec_row_cells(row, ncur)))),
                    }
                }
            },
        }
    }
}

/// A build aborted by a bad date stays aborted however many rows follow.
proof fn lemma_spec_table_none(rows: Seq<Seq<Seq<char>>>, i: int, ncur: int)
    requires
        0 <= i <= rows.len(),
        spec_table(rows.take(i), ncur) is None,
    ensures
        spec_table(rows, ncur) is None,
    decreases rows.len() - i,
{
    if i < rows.len() {
        assert(rows.take(i + 1).drop_last() =~= rows.take(i));
        lemma_spec_table_none(rows, i + 1, ncur);
    } else {
        assert(rows.take(i) =~= rows);
    }
}

/// `cv` is the converter that `rows` describe: the first row names the
/// currencies (its first cell is the date column), the rest build the table.
pub open spec fn built_from(cv: CurrencyConverter, rows: Seq<Seq<Seq<char>>>) -> bool {
    if rows.len() == 0 {
        cv.currency_views() =~= Seq::<Seq<char>>::empty() && cv.table() =~= Seq::<(
            u64,
            Seq<u64>,
        )>::empty()
    } else {
        let curs = if rows[0].len() >= 1 {
            rows[0].skip(1)
        } else {
            Seq::<Seq<char>>::empty()
        };
        cv.currency_views() =~= curs && spec_table(rows.skip(1), curs.len() as int) == Some(
            cv.table(),
        )
    }
}

/// Whether the data rows build at all: they do unless a data row of two or
/// more cells starts with something that is no date.
pub open spec fn rows_build(rows: Seq<Seq<Seq<char>>>) -> bool {
    rows.len() == 0 || {
        let ncur = if rows[0].len() >= 1 {
            rows[0].len() - 1
        } else {
            0
        };
        spec_table(rows.skip(1), ncur as int) is Some
    }
}

impl CurrencyConverter {
    /// Builds the converter from records: the first names the tracked
    /// currencies, each further one holds a date and that day's cells.
    #[verifier::loop_isolation(false)]
    pub fn from_rows(rows: Vec<Vec<String>>) -> (r: Result<CurrencyConverter, SyncError>)
        ensures
            r is Ok <==> rows_build(rows.deep_view()),
            r matches Ok(cv) ==> cv.wf() && built_from(cv, rows.deep_view()),
            r is Err ==> r matches Err(SyncError::InvalidRateDate),
    {
        let ghost rv = rows.deep_view();
        if rows.len() == 0 {
            let cv = CurrencyConverter { currencies: Vec::new(), rows: Vec::new() };
            assert(cv.currency_views() =~= Seq::<Seq<char>>::empty());
            assert(cv.table() =~= Seq::<(u64, Seq<u64>)>::empty());
            return Ok(cv);
        }
        let mut currencies: Vec<String> = Vec::new();
        let hdr_len: usize = rows[0].len();
        let mut j: usize = 1;
        while j < hdr_len
            invariant
                1 <= j,
                hdr_len >= 1 ==> j <= hdr_len,
                hdr_len >= 1 ==> currencies.deep_view() =~= rv[0].subrange(1, j as int),
                hdr_len == 0 ==> currencies.deep_view() =~= Seq::<Seq<char>>::empty(),
            decreases hdr_len - j,
        {
            currencies.push(rows[0][j].clone());
            assert(currencies.deep_view() =~= rv[0].subrange(1, j + 1));
            j = j + 1;
        }
        let ghost curs = if rv[0].len() >= 1 {
            rv[0].skip(1)
        } else {
            Seq::<Seq<char>>::empty()
        };
        proof {
            if rv[0].len() >= 1 {
                assert(rv[0].subrange(1, rv[0].len() as int) =~= rv[0].skip(1));
            }
            assert(currencies.deep_view() =~= curs);
        }
        let ncur: usize = currencies.len();
        let mut table: Vec<(u64, Vec<u64>)> = Vec::new();
        let ghost data = rv.skip(1);
        let mut i: usize = 1;
        assert(data.take(0) =~= Seq::<Seq<Seq<char>>>::empty());
        assert(table@.map_values(|p: (u64, Vec<u64>)| (p.0, p.1@)) =~= Seq::<(
            u64,
            Seq<u64>,
        )>::empty());
        while i < rows.len()
            invariant
                rv == rows.deep_view(),
                rows.len() >= 1,
                data == rv.skip(1),
                ncur == currencies.len(),
                curs.len() == ncur,
                1 <= i <= rows.len(),
                spec_table(data.take(i - 1), ncur as int) == Some(
                    table@.map_values(|p: (u64, Vec<u64>)| (p.0, p.1@)),
                ),
                forall|t: int|
                    0 <= t < table.len() ==> (#[trigger] table@[t]).1@.len() == ncur,
            decreases rows.len() - i,
        {
            let ghost prefix = data.take(i - 1);
            let ghost next = data.take(i as int);
            proof {
                assert(next.drop_last() =~= prefix);
                assert(next.last() == rv[i as int]);
            }
            let row_len: usize = rows[i].len();
            assert(row_len == rv[i as int].len());
            if row_len >= 2 {
                let d: crate::dates::Date = match crate::dates::parse_date(rows[i][0].as_str()) {
                    None => {
                        proof {
                            assert(spec_table(next, ncur as int) is None);
                            lemma_spec_table_none(data, i as int, ncur as int);
                        }
                        return Err(SyncError::InvalidRateDate);
                    },
                    Some(d) => d,
                };
                let key: u64 = d.day_number();
                let mut cells: Vec<u64> = Vec::new();
                let mut c: usize = 0;
                assert(cells@ =~= spec_row_cells(rv[i as int], ncur as int).take(0));
                while c < ncur
                    invariant
                        rv == rows.deep_view(),
                        1 <= i < rows.len(),
                        c <= ncur,
                        row_len == rv[i as int].len(),
                        row_len == rows[i as int].len(),
                        cells@ =~= spec_row_cells(rv[i as int], ncur as int).take(c as int),
                    decreases ncur - c,
                {
                    let cell: u64 = if 1 + c < row_len {
                        assert(rows[i as int]@[1 + c]@ == rv[i as int][1 + c]);
                        parse_rate(rows[i][1 + c].as_str())
                    } else {
                        0
                    };
                    cells.push(cell);
                    assert(cells@ =~= spec_row_cells(rv[i as int], ncur as int).take(c + 1));
                    c = c + 1;
                }
                proof {
                    assert(spec_row_cells(rv[i as int], ncur as int).take(ncur as int)
                        =~= spec_row_cells(rv[i as int], ncur as int));
                }
                table.push((key, cells));
                proof {
                    assert(table@.map_values(|p: (u64, Vec<u64>)| (p.0, p.1@)) =~= table@.drop_last(
                    ).map_values(|p: (u64, Vec<u64>)| (p.0, p.1@)).push(
                        (key, spec_row_cells(rv[i as int], ncur as int)),
                    ));
                }
            }
            i = i + 1;
        }
        proof {
            assert(data.take(rows.len() - 1) =~= data);
        }
        let cv = CurrencyConverter { currencies, rows: table };
        Ok(cv)
    }

    /// Builds the rate table from a downloaded archive: its first file is
    /// read as comma-separated records, the first record naming the tracked
    /// currencies, each later one a date and that day's rate cells. Loading
    /// succeeds exactly when the bytes decompress, the result splits into
    /// records, and those records build; each failure is reported as its
    /// own error.
    pub fn load(zip_bytes: &[u8]) -> (r: Result<CurrencyConverter, SyncError>)
        ensures
            r is Ok <==> unzip_ok_of(zip_bytes@) && csv_ok_of(unzipped_first_of(zip_bytes@))
                && rows_build(csv_rows_of(unzipped_first_of(zip_bytes@))),
            r matches Ok(cv) ==> cv.wf() && built_from(
                cv,
                csv_rows_of(unzipped_first_of(zip_bytes@)),
            ),
            !unzip_ok_of(zip_bytes@) ==> r matches Err(SyncError::Archive(_)),
            unzip_ok_of(zip_bytes@) && !csv_ok_of(unzipped_first_of(zip_bytes@)) ==> r matches Err(
                SyncError::Records(_),
            ),
            unzip_ok_of(zip_bytes@) && csv_ok_of(unzipped_first_of(zip_bytes@)) && !rows_build(
                csv_rows_of(unzipped_first_of(zip_bytes@)),
            ) ==> r matches Err(SyncError::InvalidRateDate),
    {
        let raw: Vec<u8> = match unzip_first(zip_bytes) {
            Ok(v) => v,
            Err(e) => {
                return Err(SyncError::Archive(e));
            },
        };
        let rows: Vec<Vec<String>> = match csv_records(raw.as_slice()) {
            Ok(v) => v,
            Err(e) => {
                return Err(SyncError::Records(e));
            },
        };
        CurrencyConverter::from_rows(rows)
    }
}

/// Law: a same-currency conversion is exactly one, whatever the date and
/// whatever the table holds.
pub proof fn lemma_rate_same_currency(cv: CurrencyConverter, date: crate::dates::Date, cur: Seq<char>)
    ensures
        ({
            let r = cv.spec_get_rate(date, cur, cur);
            r is Some && r->Some_0.num == r->Some_0.den && r->Some_0.num > 0
        }),
{
    assert(text::eq_ignore_case(cur, cur));
}

/// Law: swapping source and destination swaps the rational's parts, so the
/// two multipliers are exact reciprocals wherever both parts are nonzero;
/// the two lookups resolve on exactly the same inputs.
pub proof fn lemma_rate_reciprocal(
    cv: CurrencyConverter,
    date: crate::dates::Date,
    x: Seq<char>,
    y: Seq<char>,
)
    ensures
        (cv.spec_get_rate(date, x, y) is Some) == (cv.spec_get_rate(date, y, x) is Some),
        cv.spec_get_rate(date, x, y) matches Some(r) ==> {
            let r2 = cv.spec_get_rate(date, y, x)->Some_0;
            &&& r2.num == r.den
            &&& r2.den == r.num
            &&& (r.num > 0 && r.den > 0 ==> r.num * r2.num == r.den * r2.den)
        },
{
    text::lemma_eq_ignore_case_symm(x, y);
    let ro = cv.spec_get_rate(date, x, y);
    if ro is Some {
        let r = ro->Some_0;
        let r2 = cv.spec_get_rate(date, y, x)->Some_0;
        assert(r.num > 0 && r.den > 0 ==> r.num * r2.num == r.den * r2.den) by (nonlinear_arith)
            requires
                r2.num == r.den,
                r2.den == r.num,
        ;
    }
}

/// No row within `tries` days at or below `k` means the fallback finds
/// nothing.
proof fn lemma_lookback_none(table: Seq<(u64, Seq<u64>)>, k: int, tries: nat)
    requires
        forall|j: int| 0 <= j && k - tries < j <= k ==> row_for(table, #[trigger] (j as u64)) is None,
    ensures
        lookback(table, k, tries) is None,
    decreases tries,
{
    if tries > 0 {
        if 0 <= k && k <= u64::MAX {
            assert(row_for(table, k as u64) is None);
        }
        lemma_lookback_none(table, k - 1, (tries - 1) as nat);
    }
}

/// Law: the fallback never reaches back more than seven days. When the
/// table holds no row keyed within the window of the requested day and the
/// six days before it, a cross-currency lookup reports no rate. (A
/// same-currency lookup is excluded: it is one whatever the table holds.)
pub proof fn lemma_rate_lookback_bounded(
    cv: CurrencyConverter,
    date: crate::dates::Date,
    source: Seq<char>,
    dest: Seq<char>,
)
    requires
        !text::eq_ignore_case(source, dest),
        forall|j: int|
            0 <= j && date.spec_day_number() - 6 <= j <= date.spec_day_number() ==> row_for(
                cv.table(),
                #[trigger] (j as u64),
            ) is None,
    ensures
        cv.spec_get_rate(date, source, dest) is None,
{
    lemma_lookback_none(cv.table(), date.spec_day_number(), 7);
}

} // verus!
