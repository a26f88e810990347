//! Tests of the exchange-rate table: same-currency conversions, the
//! reciprocal relationship, the seven-day fallback window, cell parsing,
//! and loading from a compressed archive.

use import_ynab::currency::{CurrencyConverter, Rate};
use import_ynab::dates::Date;
use import_ynab::SyncError;
use std::io::Write;

fn rows(data: &[&[&str]]) -> Vec<Vec<String>> {
    data.iter().map(|r| r.iter().map(|c| c.to_string()).collect()).collect()
}

fn table(data: &[&[&str]]) -> CurrencyConverter {
    CurrencyConverter::from_rows(rows(data)).unwrap()
}

#[test]
fn test_converter() {
    let converter = table(&[&["Date", "USD"], &["2024-01-15", "1.25"]]);
    let today = Date { year: 2024, month: 1, day: 15 };
    let eur = converter.get_rate(today, "EUR", "EUR").unwrap();
    assert_eq!(eur.num, eur.den);
    assert!(eur.num > 0);
    let usd = converter.get_rate(today, "USD", "USD").unwrap();
    assert_eq!(usd.num, usd.den);
    assert!(usd.num > 0);
}

#[test]
fn same_currency_ignores_table_contents() {
    let empty = table(&[]);
    let d = Date { year: 2020, month: 6, day: 1 };
    let r = empty.get_rate(d, "USD", "usd").unwrap();
    assert_eq!(r, Rate { num: 1000000, den: 1000000 });
    // case-insensitive across the two codes
    let r2 = empty.get_rate(d, "GbP", "gBp").unwrap();
    assert_eq!(r2.num, r2.den);
}

#[test]
fn reciprocal_rates_swap_the_parts() {
    let cv = table(&[&["Date", "USD", "GBP"], &["2024-01-15", "1.1", "0.9"]]);
    let d = Date { year: 2024, month: 1, day: 15 };
    let ab = cv.get_rate(d, "USD", "GBP").unwrap();
    let ba = cv.get_rate(d, "GBP", "USD").unwrap();
    assert_eq!(ab.num, ba.den);
    assert_eq!(ab.den, ba.num);
    // exact product is one: num/den * num'/den' == 1
    assert_eq!((ab.num as u128) * (ba.num as u128), (ab.den as u128) * (ba.den as u128));
    assert_eq!(ab, Rate { num: 900000, den: 1100000 });
}

#[test]
fn fallback_stops_after_seven_days() {
    // Row exactly six days before the requested date: still found.
    let cv = table(&[&["Date", "USD"], &["2024-01-09", "1.5"]]);
    let d = Date { year: 2024, month: 1, day: 15 };
    let r = cv.get_rate(d, "USD", "EUR").unwrap();
    assert_eq!(r, Rate { num: 1000000, den: 1500000 });

    // Row seven days before: out of the window.
    let cv2 = table(&[&["Date", "USD"], &["2024-01-08", "1.5"]]);
    assert!(cv2.get_rate(d, "USD", "EUR").is_none());
}

#[test]
fn fallback_takes_the_nearest_row() {
    let cv = table(&[
        &["Date", "USD"],
        &["2024-01-10", "2.0"],
        &["2024-01-12", "4.0"],
    ]);
    let d = Date { year: 2024, month: 1, day: 15 };
    let r = cv.get_rate(d, "EUR", "USD").unwrap();
    assert_eq!(r, Rate { num: 4000000, den: 1000000 });
}

#[test]
fn unknown_currency_resolves_like_the_base() {
    // A code absent from the tracked list resolves to the implicit 1.0,
    // exactly as the base currency does.
    let cv = table(&[&["Date", "USD"], &["2024-01-15", "1.25"]]);
    let d = Date { year: 2024, month: 1, day: 15 };
    let r = cv.get_rate(d, "XXX", "EUR").unwrap();
    assert_eq!(r, Rate { num: 1000000, den: 1000000 });
}

#[test]
fn rate_cells_parse_as_millionths() {
    assert_eq!(import_ynab::currency::parse_rate("1.2345"), 1234500);
    assert_eq!(import_ynab::currency::parse_rate("0.9"), 900000);
    assert_eq!(import_ynab::currency::parse_rate("12"), 12000000);
    assert_eq!(import_ynab::currency::parse_rate("1."), 1000000);
    assert_eq!(import_ynab::currency::parse_rate(".5"), 500000);
    assert_eq!(import_ynab::currency::parse_rate("1.111111"), 1111111);
}

#[test]
fn malformed_rate_cells_parse_as_zero() {
    assert_eq!(import_ynab::currency::parse_rate(""), 0);
    assert_eq!(import_ynab::currency::parse_rate("N/A"), 0);
    assert_eq!(import_ynab::currency::parse_rate("1.2.3"), 0);
    assert_eq!(import_ynab::currency::parse_rate("."), 0);
    assert_eq!(import_ynab::currency::parse_rate("-1.5"), 0);
    assert_eq!(import_ynab::currency::parse_rate("99999999999999999999"), 0);
}

#[test]
fn malformed_cell_poisons_conversions_through_it() {
    // A tolerated zero cell does not abort the load, but any conversion
    // sourced in that currency is refused rather than dividing by zero —
    // the zero-default is a data hazard, not a usable rate.
    let cv = table(&[&["Date", "USD", "GBP"], &["2024-01-15", "N/A", "0.9"]]);
    let d = Date { year: 2024, month: 1, day: 15 };
    let r = cv.get_rate(d, "USD", "GBP").unwrap();
    assert_eq!(r, Rate { num: 900000, den: 0 });
    assert!(matches!(
        import_ynab::ynab::convert_amount(1000, r),
        Err(SyncError::RateUnusable)
    ));
}

#[test]
fn bad_date_row_refuses_the_whole_load() {
    let r = CurrencyConverter::from_rows(rows(&[
        &["Date", "USD"],
        &["2024-01-15", "1.0"],
        &["not-a-date", "2.0"],
    ]));
    assert!(matches!(r, Err(SyncError::InvalidRateDate)));
}

#[test]
fn short_rows_are_skipped_not_fatal() {
    let cv = CurrencyConverter::from_rows(rows(&[
        &["Date", "USD"],
        &["odd"],
        &["2024-01-15", "1.25"],
    ]))
    .unwrap();
    let d = Date { year: 2024, month: 1, day: 15 };
    assert_eq!(cv.get_rate(d, "EUR", "USD").unwrap(), Rate { num: 1250000, den: 1000000 });
}

#[test]
fn loads_rates_from_a_compressed_archive() {
    let mut writer = zip::ZipWriter::new(std::io::Cursor::new(Vec::new()));
    writer
        .start_file("eurofxref-hist.csv", zip::write::SimpleFileOptions::default())
        .unwrap();
    writer
        .write_all(b"Date,USD,GBP\n2024-01-15,1.1,0.9\n2024-01-12,1.2,0.8\n")
        .unwrap();
    let buf: Vec<u8> = writer.finish().unwrap().into_inner();
    let cv = CurrencyConverter::load(&buf).unwrap();
    let d = Date { year: 2024, month: 1, day: 15 };
    assert_eq!(cv.get_rate(d, "EUR", "USD").unwrap(), Rate { num: 1100000, den: 1000000 });
    let earlier = Date { year: 2024, month: 1, day: 13 };
    assert_eq!(cv.get_rate(earlier, "GBP", "EUR").unwrap(), Rate { num: 1000000, den: 800000 });
}

#[test]
fn garbage_bytes_are_an_archive_error() {
    let r = CurrencyConverter::load(b"this is no archive");
    assert!(matches!(r, Err(SyncError::Archive(_))));
}

#[test]
fn ragged_records_are_a_record_error() {
    let mut writer = zip::ZipWriter::new(std::io::Cursor::new(Vec::new()));
    writer
        .start_file("rates.csv", zip::write::SimpleFileOptions::default())
        .unwrap();
    writer
        .write_all(b"Date,USD,GBP\n2024-01-15,1.1,0.9,extra-cell\n")
        .unwrap();
    let buf: Vec<u8> = writer.finish().unwrap().into_inner();
    let r = CurrencyConverter::load(&buf);
    assert!(matches!(r, Err(SyncError::Records(_))));
}
