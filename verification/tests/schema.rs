use maimai_scraping::maimai::schema::latest::{Idx, IdxParseError as E, PlayTime};

/// 2023-09-13 16:55:03 as seconds since 1970-01-01 00:00.
const TIMESTAMP: i64 = 1694624103;

fn idx(index: u8, timestamp: Option<i64>) -> Idx {
    Idx::new(index, timestamp).unwrap()
}

#[test]
fn parse_idx() {
    assert_eq!(Idx::from_str("0"), Ok(idx(0, None)));
    assert_eq!(Idx::from_str("12"), Ok(idx(12, None)));
    assert_eq!(Idx::from_str("49"), Ok(idx(49, None)));
    assert_eq!(Idx::from_str("50"), Err(E::IndexOutOfRange(50)));
    assert_eq!(Idx::from_str("255"), Err(E::IndexOutOfRange(255)));
    assert!(matches!(Idx::from_str("256"), Err(E::ParseIntError)));
    let timestamp = Some(TIMESTAMP);
    assert_eq!(Idx::from_str("0,1694624103"), Ok(idx(0, timestamp)));
    assert_eq!(Idx::from_str("12,1694624103"), Ok(idx(12, timestamp)));
    assert_eq!(Idx::from_str("49,1694624103"), Ok(idx(49, timestamp)));
    assert_eq!(Idx::from_str("50,1694624103"), Err(E::IndexOutOfRange(50)));
    assert_eq!(Idx::from_str("255,1694624103"), Err(E::IndexOutOfRange(255)));
    assert!(matches!(Idx::from_str("256,1694624103"), Err(E::ParseIntError)));
    assert!(matches!(Idx::from_str("255,abc,def"), Err(E::TimestampParseError)));
    assert!(matches!(Idx::from_str("abcdef"), Err(E::ParseIntError)));
}

#[test]
fn display_idx() {
    assert_eq!(&idx(0, None).to_string(), "0");
    assert_eq!(&idx(32, None).to_string(), "32");
    assert_eq!(&idx(12, Some(TIMESTAMP)).to_string(), "12,1694624103");
}

#[test]
fn play_time_from_utc() {
    let utc = TIMESTAMP;
    // 2023-09-14 01:55:03
    let jst = 1694656503;
    assert_eq!(PlayTime::from_utc(utc), PlayTime::from_naive_seconds(jst));
}

#[test]
fn idx_text_reads_back() {
    for i in 0..50u8 {
        let x = idx(i, None);
        assert_eq!(Idx::from_str(&x.to_string()), Ok(x));
    }
    let x = idx(7, Some(TIMESTAMP));
    assert_eq!(Idx::from_str(&x.to_string()), Ok(x));
}

#[test]
fn play_time_text() {
    assert_eq!(PlayTime::from_naive_seconds(TIMESTAMP).to_string(), "2023-09-13 16:55:03");
}
