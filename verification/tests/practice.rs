use dirscan::practice::contains_rust;
use dirscan::practice::filter_even_numbers;
use dirscan::practice::string_length_owner;

#[test]
fn test_ownership_exercise() {
    assert_eq!(2 + 2, 4);
}

#[test]
fn string_length_owner_counts_bytes() {
    assert_eq!(string_length_owner(String::from("hello")), 5);
    assert_eq!(string_length_owner(String::new()), 0);
    // a two-byte character counts as two bytes
    assert_eq!(string_length_owner(String::from("h\u{e9}llo")), 6);
}

#[test]
fn contains_rust_finds_the_word() {
    assert!(contains_rust("I love rust!"));
    assert!(contains_rust("ferrust"));
    assert!(contains_rust("rust"));
    assert!(!contains_rust("Rust"));
    assert!(!contains_rust("rus"));
    assert!(!contains_rust(""));
}

#[test]
fn filter_even_numbers_keeps_evens_in_order() {
    assert_eq!(filter_even_numbers(vec![1, 2, 3, 4, -2, -3, 0]), vec![2, 4, -2, 0]);
    assert_eq!(filter_even_numbers(vec![]), Vec::<i32>::new());
    assert_eq!(filter_even_numbers(vec![7, 9]), Vec::<i32>::new());
}
