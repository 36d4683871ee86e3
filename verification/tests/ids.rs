use stellarshot::ids::{new_profile_id, new_remote_name};

#[test]
fn a_profile_id_is_a_version_four_uuid_in_lowercase_hex() {
    let id = new_profile_id();
    let digits: Vec<char> = id.chars().collect();
    assert_eq!(digits.len(), 32);
    assert!(digits.iter().all(|c| c.is_ascii_digit() || ('a'..='f').contains(c)));
    assert_eq!(digits[12], '4');
    assert!(matches!(digits[16], '8' | '9' | 'a' | 'b'));
    assert_ne!(new_profile_id(), id, "two identifiers differ");
}

#[test]
fn a_remote_name_is_the_prefix_and_eight_hex_digits() {
    let name = new_remote_name();
    assert_eq!(name.len(), 20);
    assert!(name.starts_with("stellarshot-"));
    assert!(name[12..].chars().all(|c| c.is_ascii_digit() || ('a'..='f').contains(&c)));
}
