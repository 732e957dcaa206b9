use flashcow::util::contains_duplicates;

fn strings(values: &[&str]) -> Vec<String> {
    values.iter().map(|value| value.to_string()).collect()
}

#[test]
fn no_values_hold_no_duplicate() {
    assert!(!contains_duplicates(&Vec::new()));
}

#[test]
fn one_value_holds_no_duplicate() {
    assert!(!contains_duplicates(&strings(&["Finance"])));
}

#[test]
fn distinct_values_hold_no_duplicate() {
    assert!(!contains_duplicates(&strings(&["Finance", "Operations", "Budget"])));
}

#[test]
fn neighbours_that_agree_are_a_duplicate() {
    assert!(contains_duplicates(&strings(&["Finance", "Finance"])));
}

#[test]
fn first_and_last_that_agree_are_a_duplicate() {
    assert!(contains_duplicates(&strings(&["FIN", "OPS", "BUD", "FIN"])));
}

#[test]
fn a_duplicate_at_the_end_is_found() {
    assert!(contains_duplicates(&strings(&["FIN", "OPS", "BUD", "BUD"])));
}

#[test]
fn comparison_is_case_sensitive() {
    assert!(!contains_duplicates(&strings(&["Finance", "finance", "FINANCE"])));
}

#[test]
fn comparison_is_exact() {
    assert!(!contains_duplicates(&strings(&["Finance", "Finance ", " Finance"])));
}

#[test]
fn empty_strings_count_as_values() {
    assert!(contains_duplicates(&strings(&["", "FIN", ""])));
    assert!(!contains_duplicates(&strings(&["", "FIN"])));
}
