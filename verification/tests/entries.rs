use clipboard_log::entries::{at_least_one, lenient_form, lenient_si_number, num_entries_parser};

const NO_ENTRY: &str = "At least one entry must be generated.";

#[test]
fn plain_count_is_read() {
    assert_eq!(num_entries_parser("10000"), Ok(10000));
    assert_eq!(num_entries_parser("1"), Ok(1));
}

#[test]
fn metric_prefix_multiplies() {
    assert_eq!(num_entries_parser("2k"), Ok(2000));
    assert_eq!(num_entries_parser("3M"), Ok(3_000_000));
    assert_eq!(num_entries_parser("3k3"), Ok(3300));
    assert_eq!(num_entries_parser("1.5k"), Ok(1500));
}

#[test]
fn upper_case_k_reads_as_kilo() {
    assert_eq!(num_entries_parser("10K"), Ok(10_000));
    assert_eq!(lenient_si_number("7K"), Ok(7000));
}

#[test]
fn commas_and_underscores_group_digits() {
    assert_eq!(num_entries_parser("1,000"), Ok(1000));
    assert_eq!(num_entries_parser("1_000_000"), Ok(1_000_000));
    assert_eq!(num_entries_parser("1,0_0K"), Ok(100_000));
}

#[test]
fn zero_entries_are_refused() {
    assert_eq!(num_entries_parser("0"), Err(NO_ENTRY.to_string()));
    assert_eq!(num_entries_parser("0k"), Err(NO_ENTRY.to_string()));
    assert_eq!(lenient_si_number("0"), Ok(0));
}

#[test]
fn text_that_is_no_number_is_refused_with_the_parser_message() {
    let refused = num_entries_parser("many");
    assert!(refused.is_err());
    assert_ne!(refused, Err(NO_ENTRY.to_string()));
    assert_eq!(refused, lenient_si_number("many"));
    assert!(num_entries_parser("").is_err());
    assert!(num_entries_parser("-3").is_err());
    assert!(num_entries_parser("k").is_err());
}

#[test]
fn lenient_form_folds_and_drops() {
    assert_eq!(lenient_form("1,0_0K"), "100k");
    assert_eq!(lenient_form("KK,_k"), "kkk");
    assert_eq!(lenient_form(""), "");
    assert_eq!(lenient_form("12M"), "12M");
    assert_eq!(lenient_form("é_K,ü"), "ékü");
}

#[test]
fn at_least_one_keeps_what_is_not_zero() {
    assert_eq!(at_least_one(Ok(5)), Ok(5));
    assert_eq!(at_least_one(Ok(usize::MAX)), Ok(usize::MAX));
    assert_eq!(at_least_one(Ok(0)), Err(NO_ENTRY.to_string()));
    assert_eq!(at_least_one(Err("no".to_string())), Err("no".to_string()));
}
