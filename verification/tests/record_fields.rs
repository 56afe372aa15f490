use tensor_vm::record_fields::exact_comma_fields;

#[test]
fn exact_comma_fields_rejects_padded_empty_and_wrong_count_records() {
    assert_eq!(
        exact_comma_fields("alpha,beta", 2),
        Some(vec!["alpha", "beta"])
    );
    assert_eq!(exact_comma_fields("alpha,beta,gamma", 2), None);
    assert_eq!(exact_comma_fields("alpha,", 2), None);
    assert_eq!(exact_comma_fields("alpha, beta", 2), None);
    assert_eq!(exact_comma_fields(" alpha,beta", 2), None);
}

#[test]
fn exact_comma_fields_counts_every_separator() {
    assert_eq!(exact_comma_fields("", 1), None);
    assert_eq!(exact_comma_fields("a", 1), Some(vec!["a"]));
    assert_eq!(exact_comma_fields(",", 2), None);
    assert_eq!(exact_comma_fields("a,b\t", 2), None);
    assert_eq!(exact_comma_fields("x,y,z", 3), Some(vec!["x", "y", "z"]));
}
