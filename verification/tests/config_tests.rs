use cosmic_caldav::config::{account_id_for, display_name_for, zeroize_string, Account, AccountMeta, Config};

fn account(id: &str, password: &str) -> Account {
    Account {
        id: id.to_string(),
        display_name: format!("{id} (CalDAV)"),
        url: "https://dav.example.com".to_string(),
        username: id.to_string(),
        password: password.to_string(),
    }
}

#[test]
fn account_ids_and_names() {
    assert_eq!(
        account_id_for("https://cloud.example.com/remote.php", "alice"),
        "alice-https_cloud.example.com_remote.php"
    );
    assert_eq!(display_name_for("https://cloud.example.com/remote.php", "alice@example.com"), "alice (Nextcloud)");
    assert_eq!(
        display_name_for("https://www.google.com/calendar/dav/me@gmail.com/events/", "me@gmail.com"),
        "me (Google)"
    );
    assert_eq!(display_name_for("https://outlook.office365.com/", "bob"), "bob (Outlook)");
    assert_eq!(display_name_for("https://dav.example.org", "carol"), "carol (CalDAV)");
}

#[test]
fn adding_an_account_replaces_one_with_the_same_id() {
    let mut config = Config::new();
    config.insert_account(account("a", "1"));
    config.insert_account(account("b", "2"));
    config.insert_account(account("a", "3"));
    assert_eq!(config.accounts.len(), 2);
    assert_eq!(config.accounts[0].id, "b");
    assert_eq!(config.accounts[1].id, "a");
    assert_eq!(config.account_by_id("a").map(|a| a.password.clone()), Some("3".to_string()));
    assert!(config.account_by_id("zz").is_none());
}

#[test]
fn removing_an_account_removes_every_entry_with_its_id() {
    let mut config = Config { accounts: vec![account("a", "1"), account("b", "2"), account("a", "3")] };
    config.remove_account_entry("a");
    assert_eq!(config.accounts.len(), 1);
    assert_eq!(config.accounts[0].id, "b");
    assert!(config.account_by_id("a").is_none());
}

#[test]
fn stored_accounts_carry_no_password_and_read_back() {
    let config = Config { accounts: vec![account("a", "1"), account("b", "2")] };
    let stored: Vec<AccountMeta> = config.stored_accounts();
    assert_eq!(stored.len(), 2);
    assert_eq!(stored[1].id, "b");
    let back = Config::from_stored(stored.clone(), vec![Some("1".to_string()), Some("2".to_string())]);
    assert_eq!(back.accounts.len(), 2);
    assert_eq!(back.accounts[0].password, "1");
    assert_eq!(back.accounts[1].password, "2");
    // An entry whose password the keyring did not return is left out.
    let partial = Config::from_stored(stored, vec![None, Some("2".to_string())]);
    assert_eq!(partial.accounts.len(), 1);
    assert_eq!(partial.accounts[0].id, "b");
}

#[test]
fn zeroized_strings_are_empty() {
    let mut secret = "hunter2".to_string();
    zeroize_string(&mut secret);
    assert!(secret.is_empty());
}
