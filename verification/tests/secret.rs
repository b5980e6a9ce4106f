use client_shell::secret::{recovery_due, secret_mode, SecretMode};

#[test]
fn unset_tag_means_masked_entry() {
    assert_eq!(secret_mode(None), SecretMode::Masked);
}

#[test]
fn production_tag_means_masked_entry() {
    assert_eq!(secret_mode(Some("prod")), SecretMode::Masked);
}

#[test]
fn any_other_tag_means_visible_entry() {
    assert_eq!(secret_mode(Some("test")), SecretMode::Visible);
    assert_eq!(secret_mode(Some("stage")), SecretMode::Visible);
    assert_eq!(secret_mode(Some("")), SecretMode::Visible);
    assert_eq!(secret_mode(Some("PROD")), SecretMode::Visible);
    assert_eq!(secret_mode(Some("production")), SecretMode::Visible);
    assert_eq!(secret_mode(Some("prod ")), SecretMode::Visible);
}

#[test]
fn recovery_is_due_for_a_secret_or_a_file() {
    let file = Some("wallet.mnemonic".to_string());
    assert!(!recovery_due("", &None));
    assert!(recovery_due("talent sunset", &None));
    assert!(recovery_due("", &file));
    assert!(recovery_due("talent sunset", &file));
    assert!(recovery_due(" ", &None));
}
