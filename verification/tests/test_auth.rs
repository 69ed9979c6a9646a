use animus::auth::validate_token;

#[test]
fn valid_token_passes() {
    assert!(validate_token("correct_token", "correct_token"));
}

#[test]
fn wrong_token_fails() {
    assert!(!validate_token("correct_token", "wrong_token"));
}

#[test]
fn empty_token_fails() {
    assert!(!validate_token("correct_token", ""));
}

#[test]
fn empty_expected_token_never_passes() {
    assert!(!validate_token("", ""));
    assert!(!validate_token("", "anything"));
}

#[test]
fn tokens_of_one_length_differ_in_one_byte() {
    assert!(!validate_token("correct_token", "correct_tokem"));
    assert!(!validate_token("correct_token", "dorrect_token"));
    assert!(validate_token("schlüssel🔑", "schlüssel🔑"));
    assert!(!validate_token("schlüssel🔑", "schlüssel🔒"));
}
