use file_transfer::names::{candidate_name, is_valid_file_name, is_valid_prefix};

#[test]
fn candidate_name_pads_suffix_to_three_digits() {
    assert_eq!(candidate_name("data", 7), "data007.txt");
    assert_eq!(candidate_name("data", 42), "data042.txt");
    assert_eq!(candidate_name("data", 0), "data000.txt");
    assert_eq!(candidate_name("log-", 999), "log-999.txt");
    assert_eq!(candidate_name("x", 100), "x100.txt");
}

#[test]
fn candidate_name_keeps_non_ascii_prefix() {
    assert_eq!(candidate_name("données", 5), "données005.txt");
}

#[test]
fn file_name_validation() {
    assert!(is_valid_file_name("datafile.txt"));
    assert!(is_valid_file_name("a"));
    assert!(is_valid_file_name("..a"));
    assert!(is_valid_file_name(".hidden"));
    assert!(!is_valid_file_name(""));
    assert!(!is_valid_file_name("."));
    assert!(!is_valid_file_name(".."));
    assert!(!is_valid_file_name("a/b"));
    assert!(!is_valid_file_name("/"));
}

#[test]
fn prefix_validation() {
    assert!(is_valid_prefix("data"));
    assert!(is_valid_prefix("."));
    assert!(!is_valid_prefix(""));
    assert!(!is_valid_prefix("a/b"));
}
