use agenda::pallet::Pallet;
use agenda::text::{parse_i32, parse_u32, split_bytes};
use agenda::types::Error;

fn ts(text: &str) -> Result<u64, Error> {
    Pallet::convert_to_timestamp(text.as_bytes().to_vec())
}

fn hour(text: &str) -> Result<(), Error> {
    Pallet::validate_hour_input(text.as_bytes().to_vec())
}

#[test]
fn leap_day_2000_is_day_11016() {
    assert_eq!(ts("29/02/2000"), Ok(11016 * 86400));
    assert_eq!(ts("01/03/2000"), Ok(11017 * 86400));
}

#[test]
fn february_1900_is_not_leap() {
    // 1900 is before the epoch, so only the days inside the year count;
    // February has 28 days, so its 29th falls where March 1st does.
    assert_eq!(ts("29/02/1900"), Ok(59 * 86400));
    assert_eq!(ts("01/03/1900"), Ok(59 * 86400));
    assert_eq!(ts("01/03/2100"), ts("29/02/2100"));
}

#[test]
fn out_of_range_date_is_refused() {
    assert_eq!(ts("32/13/1990"), Err(Error::DataInvalida));
    assert_eq!(ts("00/01/1990"), Err(Error::DataInvalida));
    assert_eq!(ts("01/00/1990"), Err(Error::DataInvalida));
    assert_eq!(ts("01/13/1990"), Err(Error::DataInvalida));
    assert_eq!(ts("32/01/1990"), Err(Error::DataInvalida));
}

#[test]
fn first_of_1990_is_day_7305() {
    assert_eq!(ts("01/01/1990"), Ok(7305 * 86400));
    assert_eq!(ts("1/1/1970"), Ok(0));
    assert_eq!(ts("10/02/2025"), Ok(20129 * 86400));
    assert_eq!(ts("02/02/1990"), Ok(7337 * 86400));
}

#[test]
fn far_years() {
    assert_eq!(ts("01/01/2100"), Ok(47482 * 86400));
    assert_eq!(ts("01/01/2401"), Ok(157420 * 86400));
    assert_eq!(ts("01/01/2147483647"), Ok(784351576412 * 86400));
    assert_eq!(ts("01/01/2147483648"), Err(Error::DataInvalida));
}

#[test]
fn day_is_only_held_to_31() {
    // 31 February 2001 is read as 3 March 2001
    assert_eq!(ts("31/02/2001"), Ok(11384 * 86400));
    assert_eq!(ts("31/02/2001"), ts("03/03/2001"));
}

#[test]
fn malformed_dates_are_refused() {
    for text in [
        "",
        "01/01",
        "01/01/1990/1",
        "01-01-1990",
        "01/01/1990 ",
        " 01/01/1990",
        "aa/01/1990",
        "01//1990",
        "01/01/",
        "-1/01/1990",
        "01/+/1990",
        "01/01/99999999999",
        "01/01/4294967296",
    ] {
        assert_eq!(ts(text), Err(Error::DataInvalida), "{}", text);
    }
    assert_eq!(
        Pallet::convert_to_timestamp(vec![0xff, b'/', b'1', b'/', b'1']),
        Err(Error::DataInvalida)
    );
}

#[test]
fn signs_are_read_as_integer_parsing_does() {
    assert_eq!(ts("+01/+01/+1990"), Ok(7305 * 86400));
    // a year before 1970 counts no whole years
    assert_eq!(ts("01/01/-5"), Ok(0));
    assert_eq!(ts("01/03/1969"), Ok(59 * 86400));
}

#[test]
fn time_of_day_bounds() {
    assert_eq!(hour("25:00"), Err(Error::HoraInvalida));
    assert_eq!(hour("24:00"), Err(Error::HoraInvalida));
    assert_eq!(hour("12:60"), Err(Error::HoraInvalida));
    assert_eq!(hour("23:59"), Ok(()));
    assert_eq!(hour("00:00"), Ok(()));
    assert_eq!(hour("9:5"), Ok(()));
}

#[test]
fn malformed_times_are_refused() {
    for text in ["", "1200", "12:00:00", "12:", ":30", "ab:cd", "12 :00", "-1:00", "12:-0"] {
        assert_eq!(hour(text), Err(Error::HoraInvalida), "{}", text);
    }
}

#[test]
fn duration_bounds() {
    assert_eq!(Pallet::validate_duration_input(0), Err(Error::DuracaoInvalida));
    assert_eq!(Pallet::validate_duration_input(601), Err(Error::DuracaoInvalida));
    assert_eq!(Pallet::validate_duration_input(u64::MAX), Err(Error::DuracaoInvalida));
    assert_eq!(Pallet::validate_duration_input(1), Ok(()));
    assert_eq!(Pallet::validate_duration_input(600), Ok(()));
}

#[test]
fn split_keeps_empty_pieces() {
    let pieces = split_bytes(&b"/a//bc/".to_vec(), b'/');
    assert_eq!(pieces, vec![vec![], vec![b'a'], vec![], vec![b'b', b'c'], vec![]]);
    assert_eq!(split_bytes(&Vec::new(), b'/'), vec![Vec::<u8>::new()]);
}

#[test]
fn integers_parse_like_from_str() {
    assert_eq!(parse_u32(&b"4294967295".to_vec()), Some(u32::MAX));
    assert_eq!(parse_u32(&b"4294967296".to_vec()), None);
    assert_eq!(parse_u32(&b"+7".to_vec()), Some(7));
    assert_eq!(parse_u32(&b"-0".to_vec()), None);
    assert_eq!(parse_u32(&b"+".to_vec()), None);
    assert_eq!(parse_u32(&b"".to_vec()), None);
    assert_eq!(parse_u32(&b"007".to_vec()), Some(7));
    assert_eq!(parse_i32(&b"-2147483648".to_vec()), Some(i32::MIN));
    assert_eq!(parse_i32(&b"2147483647".to_vec()), Some(i32::MAX));
    assert_eq!(parse_i32(&b"2147483648".to_vec()), None);
    assert_eq!(parse_i32(&b"-2147483649".to_vec()), None);
    assert_eq!(parse_i32(&b"-".to_vec()), None);
    assert_eq!(parse_i32(&b"--1".to_vec()), None);
    for text in ["0", "+12", "-12", "99", "-0", "2147483647"] {
        assert_eq!(parse_i32(&text.as_bytes().to_vec()), text.parse::<i32>().ok(), "{}", text);
    }
}
