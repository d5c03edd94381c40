use csv::ByteRecord;
use ledger::record::{is_record_header, parse_amount, parse_unsigned};
use ledger::{Record, RecordError, TransactionKind};

#[test]
fn test_record_parsing() {
    let csv_row = vec!["deposit", "    1", "3", "2.0"];
    let mut byte_record = ByteRecord::from(csv_row);

    let record = Record {
        transaction_kind: TransactionKind::Deposit,
        client: 1,
        tx: 3,
        amount: 20000,
    };
    assert_eq!(record, Record::from_byterecord(&mut byte_record).unwrap());
}

#[test]
fn test_parsing_bad_record_transaction() {
    let csv_row = vec!["rule the world", "  xxx", "3", "2.0"];
    let mut byte_record = ByteRecord::from(csv_row);

    assert!(Record::from_byterecord(&mut byte_record).is_err());
}

#[test]
fn test_parsing_numerical_bad_record() {
    let csv_row = vec!["resolve", "  xxx", "3", "2.0"];
    let mut byte_record = ByteRecord::from(csv_row);

    assert!(Record::from_byterecord(&mut byte_record).is_err());
}

#[test]
fn test_record_is_valid() {
    let csv_row = vec!["deposit", "  7", "3", "-10.0"];
    let mut byte_record = ByteRecord::from(csv_row);

    assert!(Record::from_byterecord(&mut byte_record).is_err());
}

#[test]
fn test_record_disallow_neg_infinity() {
    let csv_row = vec!["withdrawal", "  7", "3", "-3.5e38"];
    let mut byte_record = ByteRecord::from(csv_row);

    assert!(Record::from_byterecord(&mut byte_record).is_err());
}

#[test]
fn test_record_disallow_infinity() {
    let csv_row = vec!["deposit", "  7", "3", "3.5e38"];
    let mut byte_record = ByteRecord::from(csv_row);

    assert!(Record::from_byterecord(&mut byte_record).is_err());
}

#[test]
fn decoding_trims_every_field() {
    let mut row = ByteRecord::from(vec!["  dispute\t", " 12 ", "\r99", "  "]);
    let record = Record::from_byterecord(&mut row).unwrap();
    assert_eq!(
        record,
        Record { transaction_kind: TransactionKind::Dispute, client: 12, tx: 99, amount: 0 }
    );
    assert_eq!(row.get(0), Some(&b"dispute"[..]));
    assert_eq!(row.get(3), Some(&b""[..]));
}

#[test]
fn decoding_reports_each_error_kind() {
    let mut negative = ByteRecord::from(vec!["deposit", "1", "1", "-0.5"]);
    assert_eq!(Record::from_byterecord(&mut negative), Err(RecordError::Invalid));
    let mut short = ByteRecord::from(vec!["deposit", "1", "1"]);
    assert_eq!(Record::from_byterecord(&mut short), Err(RecordError::Parse));
    let mut big_client = ByteRecord::from(vec!["deposit", "65536", "1", "1.0"]);
    assert_eq!(Record::from_byterecord(&mut big_client), Err(RecordError::Parse));
    let mut max_client = ByteRecord::from(vec!["deposit", "65535", "4294967295", "1.0"]);
    assert_eq!(
        Record::from_byterecord(&mut max_client),
        Ok(Record {
            transaction_kind: TransactionKind::Deposit,
            client: 65535,
            tx: 4294967295,
            amount: 10000,
        })
    );
}

#[test]
fn unsigned_numbers_parse_with_bounds() {
    assert_eq!(parse_unsigned(b"42", 100), Some(42));
    assert_eq!(parse_unsigned(b"+42", 100), Some(42));
    assert_eq!(parse_unsigned(b"101", 100), None);
    assert_eq!(parse_unsigned(b"", 100), None);
    assert_eq!(parse_unsigned(b"+", 100), None);
    assert_eq!(parse_unsigned(b"-1", 100), None);
    assert_eq!(parse_unsigned(b"4a", 100), None);
    assert_eq!(parse_unsigned(b"00018446744073709551615", u64::MAX), Some(u64::MAX));
    assert_eq!(parse_unsigned(b"18446744073709551616", u64::MAX), None);
}

#[test]
fn amounts_parse_to_ten_thousandths() {
    assert_eq!(parse_amount(b"2.0"), Some(20000));
    assert_eq!(parse_amount(b"1.2345"), Some(12345));
    assert_eq!(parse_amount(b"-10.0"), Some(-100000));
    assert_eq!(parse_amount(b"+3"), Some(30000));
    assert_eq!(parse_amount(b".5"), Some(5000));
    assert_eq!(parse_amount(b"7."), Some(70000));
    assert_eq!(parse_amount(b""), Some(0));
    assert_eq!(parse_amount(b"1.23456"), None);
    assert_eq!(parse_amount(b"."), None);
    assert_eq!(parse_amount(b"-"), None);
    assert_eq!(parse_amount(b"1e5"), None);
    assert_eq!(parse_amount(b"1.2.3"), None);
    assert_eq!(parse_amount(b"100000000000000"), Some(1_000_000_000_000_000_000));
    assert_eq!(parse_amount(b"100000000000000.0001"), None);
}

#[test]
fn header_row_must_name_the_four_columns() {
    assert!(is_record_header(&ByteRecord::from(vec!["type", "client", "tx", "amount"])));
    assert!(!is_record_header(&ByteRecord::from(vec!["type", "client", "tx"])));
    assert!(!is_record_header(&ByteRecord::from(vec!["type", "client", "tx", "amount", "x"])));
    assert!(!is_record_header(&ByteRecord::from(vec!["type", "client", "id", "amount"])));
}
