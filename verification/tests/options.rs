use zzledger::ParserImplOptions;
use zzledger::ParsingStrictnessOptions;
use zzledger::ZzExecuteOptions;
use zzledger::ZzParseOptions;

#[test]
fn test_strictness_predicates() {
    assert!(ParsingStrictnessOptions::Fail.fail());
    assert!(!ParsingStrictnessOptions::Fail.allow());
    assert!(!ParsingStrictnessOptions::Fail.ignore());
    assert!(ParsingStrictnessOptions::Allow.allow());
    assert!(ParsingStrictnessOptions::Ignore.ignore());
}

#[test]
fn test_parse_options_defaults() {
    let opts = ZzParseOptions::default();
    assert_eq!(opts.zz_amount_max_size, 200);
    assert!(opts.on_missing_field.fail());
    assert!(opts.on_excessive_field.fail());
    assert!(opts.on_parse_error.fail());
    assert_eq!(opts.max_line_width, 4096);
    assert!(!opts.dont_trim_spaces);
}

#[test]
fn test_execute_options_defaults() {
    let opts = ZzExecuteOptions::default();
    assert_eq!(opts.buffers_mb, None);
    assert_eq!(opts.io_threads, None);
    assert_eq!(opts.total_buffers, None);
}

#[test]
fn test_parser_impl_options_are_plain_data() {
    let nom = ParserImplOptions::Nom;
    let serde = ParserImplOptions::Serde;
    assert_ne!(nom, serde);
    assert_eq!(nom, ParserImplOptions::Nom);
}
