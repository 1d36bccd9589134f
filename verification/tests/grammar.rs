use num_bigint::BigUint;

use zzledger::ZzParseOptions;
use zzledger::parsers::csv_parser::CsvParserResult;
use zzledger::parsers::tx_parser::parse_zztx_csv;
use zzledger::parsers::tx_parser::parse_zztx_csv_headers;
use zzledger::transaction::ZzTx;
use zzledger::transaction::ZzTxSerializeCsv;
use zzledger::transaction::ZzTxType;
use zzledger::zz_amount::ZzUAmount;

#[test]
fn test_parse_zztx_happy_path() {
    let opts = &ZzParseOptions::default();

    let ctrl = parse_zztx_csv(opts, b"deposit,1,10,50").unwrap();
    match ctrl {
        CsvParserResult::Parsed(tx) => match tx.tx_type {
            ZzTxType::Deposit(amount) => assert_eq!(amount.display_string(), "50"),
            _ => panic!("Expected Deposit"),
        },
        _ => panic!("Expected Parsed"),
    }

    let ctrl = parse_zztx_csv(opts, b"withdrawal,2,20,30").unwrap();
    match ctrl {
        CsvParserResult::Parsed(tx) => match tx.tx_type {
            ZzTxType::Withdrawal(amount) => assert_eq!(amount.display_string(), "30"),
            _ => panic!("Expected Withdraw"),
        },
        _ => panic!("Expected Parsed"),
    }

    let ctrl = parse_zztx_csv(opts, b"dispute,3,30,").unwrap();
    match ctrl {
        CsvParserResult::Parsed(tx) => assert!(matches!(tx.tx_type, ZzTxType::Dispute)),
        _ => panic!("Expected Parsed"),
    }
}

#[test]
fn test_missing_field_behavior() {
    let opts = &ZzParseOptions::default();

    let ctrl = parse_zztx_csv(opts, b"deposit,1,10").unwrap();
    assert!(matches!(ctrl, CsvParserResult::MissingRequiredField));
}

#[test]
fn test_excessive_field_behavior() {
    let opts = &ZzParseOptions::default();

    // Dispute should not have amount
    let ctrl = parse_zztx_csv(opts, b"dispute,1,42,999").unwrap();
    assert_eq!(
        ctrl,
        CsvParserResult::ContainsExcessiveFields(ZzTx {
            tx_type: ZzTxType::Dispute,
            client_id: 1,
            tx_id: 42
        })
    );
}

#[test]
fn test_invalid_or_garbage() {
    let opts = &ZzParseOptions::default();

    // Unknown transaction type: fail
    let res = parse_zztx_csv(opts, b"foobar,1,2,3");
    assert!(res.is_err());

    // Trailing garbage: fail
    let res = parse_zztx_csv(opts, b"deposit,1,2,30xxx");
    assert!(res.is_err());
}

#[test]
fn test_with_spaces_variations() {
    let opts = &ZzParseOptions::default();

    let ctrl = parse_zztx_csv(opts, b"deposit ,   42 ,  99 ,   1000").unwrap();
    match ctrl {
        CsvParserResult::Parsed(tx) => {
            assert_eq!(tx.client_id, 42);
            assert_eq!(tx.tx_id, 99);
            match tx.tx_type {
                ZzTxType::Deposit(amount) => assert_eq!(amount.display_string(), "1000"),
                _ => panic!("Expected Deposit"),
            }
        },
        _ => panic!("Expected Parsed"),
    }
}

#[test]
fn test_spaces_rejected_when_trimming_off() {
    let opts = &ZzParseOptions { dont_trim_spaces: true, ..Default::default() };
    assert!(parse_zztx_csv(opts, b"deposit , 1 , 2 , 30").is_err());
    assert!(parse_zztx_csv(opts, b"deposit,1,2,30").is_ok());
}

#[test]
fn test_missing_client_or_tx_reported_in_order() {
    let opts = &ZzParseOptions::default();

    // An empty client column is reported as missing before the rest of the
    // row is even examined.
    let ctrl = parse_zztx_csv(opts, b"dispute,,1,garbage").unwrap();
    assert!(matches!(ctrl, CsvParserResult::MissingRequiredField));

    let ctrl = parse_zztx_csv(opts, b"resolve,1,,").unwrap();
    assert!(matches!(ctrl, CsvParserResult::MissingRequiredField));

    // An empty row is missing its type.
    let ctrl = parse_zztx_csv(opts, b"").unwrap();
    assert!(matches!(ctrl, CsvParserResult::MissingRequiredField));
}

#[test]
fn test_out_of_range_ids_fail_row() {
    let opts = &ZzParseOptions::default();
    // client above 16 bits
    assert!(parse_zztx_csv(opts, b"deposit,70000,1,5").is_err());
    // tx above 32 bits
    assert!(parse_zztx_csv(opts, b"deposit,1,4294967296,5").is_err());
    // boundary values pass
    assert!(parse_zztx_csv(opts, b"deposit,65535,4294967295,5").is_ok());
}

#[test]
fn test_amount_digit_limit_fails_row() {
    let opts = &ZzParseOptions { zz_amount_max_size: 3, ..Default::default() };
    assert!(parse_zztx_csv(opts, b"deposit,1,2,1234").is_err());
    assert!(parse_zztx_csv(opts, b"deposit,1,2,999").is_ok());
}

#[test]
fn test_columns_past_the_fourth_are_ignored() {
    let opts = &ZzParseOptions::default();
    let ctrl = parse_zztx_csv(opts, b"deposit,1,2,30,extra,columns").unwrap();
    assert!(matches!(ctrl, CsvParserResult::Parsed(_)));
}

#[test]
fn test_serialized_rows_parse_back_unchanged() {
    let opts = &ZzParseOptions::default();
    let records = [
        ZzTx {
            tx_type: ZzTxType::Deposit(ZzUAmount::new(BigUint::from(42u32), 5).unwrap()),
            client_id: 7,
            tx_id: 1000,
        },
        ZzTx {
            tx_type: ZzTxType::Withdrawal(ZzUAmount::new(BigUint::from(0u32), 9999).unwrap()),
            client_id: 65535,
            tx_id: 4294967295,
        },
        ZzTx { tx_type: ZzTxType::Dispute, client_id: 0, tx_id: 0 },
        ZzTx { tx_type: ZzTxType::Resolve, client_id: 1, tx_id: 2 },
        ZzTx { tx_type: ZzTxType::Chargeback, client_id: 3, tx_id: 4 },
    ];
    for record in records {
        let line = ZzTxSerializeCsv(record).display_string();
        let parsed = parse_zztx_csv(opts, line.as_bytes()).unwrap();
        match parsed {
            CsvParserResult::Parsed(tx) => assert_eq!(ZzTxSerializeCsv(tx).display_string(), line),
            _ => panic!("Expected Parsed"),
        }
    }
}

#[test]
fn test_parse_zztx_csv_headers() {
    let opts = &ZzParseOptions::default();
    assert!(parse_zztx_csv_headers(opts, b"type,client,tx,amount"));
    assert!(parse_zztx_csv_headers(opts, b"type, client, tx, amount"));
    // Empty columns are tolerated in a header row.
    assert!(parse_zztx_csv_headers(opts, b"type,client,,"));
    // A data row is not a header.
    assert!(!parse_zztx_csv_headers(opts, b"deposit,1,2,30"));
    assert!(!parse_zztx_csv_headers(opts, b"client,type,tx,amount"));
}
