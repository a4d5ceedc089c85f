use cocox::messages::{commit_type_invalid_error, header_length_error};

#[test]
fn header_length_error_names_the_limit() {
    assert_eq!(header_length_error(72), "Header must not be longer than 72 bytes.");
    assert_eq!(header_length_error(0), "Header must not be longer than 0 bytes.");
    assert_eq!(header_length_error(1009), "Header must not be longer than 1009 bytes.");
}

#[test]
fn invalid_type_error_names_the_type() {
    assert_eq!(commit_type_invalid_error("wip"), "Invalid commit type 'wip'.");
    assert_eq!(commit_type_invalid_error("fé"), "Invalid commit type 'fé'.");
}
