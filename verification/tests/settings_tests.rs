use cosmic_caldav::app::{
    card_date, card_description, card_location, AccountForm, App, AppCommand, Message, Provider, View,
};
use cosmic_caldav::caldav::{Calendar, CalendarEvent};
use cosmic_caldav::config::{Account, Config};
use cosmic_caldav::time::{CivilDate, Stamp};

fn account(id: &str) -> Account {
    Account {
        id: id.to_string(),
        display_name: "Alice (Nextcloud)".to_string(),
        url: "https://cloud.example.com/".to_string(),
        username: "alice".to_string(),
        password: "pw".to_string(),
    }
}

fn event(uid: &str, start: Option<(u32, u32)>) -> CalendarEvent {
    CalendarEvent {
        uid: uid.to_string(),
        href: format!("/cal/{uid}.ics"),
        etag: None,
        summary: uid.to_string(),
        start: start.map(|(d, h)| Stamp {
            date: CivilDate { year: 2026, month: 1, day: d },
            hour: h,
            minute: 0,
            second: 0,
        }),
        end: None,
        description: None,
        location: None,
    }
}

#[test]
fn providers_fill_in_their_urls() {
    assert_eq!(
        Provider::Google.default_url("me@gmail.com"),
        Some("https://www.google.com/calendar/dav/me@gmail.com/events/".to_string())
    );
    assert_eq!(Provider::Outlook.default_url("x"), Some("https://outlook.office365.com/".to_string()));
    assert_eq!(Provider::Nextcloud.default_url("x"), None);
    assert_eq!(Provider::Nextcloud.url_placeholder(), "https://cloud.example.com");
    assert!(Provider::Google.help_text().starts_with("Google requires an App Password"));
}

#[test]
fn account_form_follows_provider_and_username() {
    let mut form = AccountForm::default();
    assert_eq!(form.provider, Provider::Nextcloud);
    form.select_provider(Provider::Google);
    assert_eq!(form.url, "https://www.google.com/calendar/dav//events/");
    form.set_username("me@gmail.com".to_string());
    assert_eq!(form.url, "https://www.google.com/calendar/dav/me@gmail.com/events/");
    assert!(!form.is_complete());
    form.password = "secret".to_string();
    assert!(form.is_complete());
    let client = form.into_client();
    assert_eq!(client.base_url(), "https://www.google.com/calendar/dav/me@gmail.com/events");
    form.select_provider(Provider::Nextcloud);
    assert_eq!(form.url, "");
    form.reset();
    assert_eq!(form.username, "");
    assert_eq!(form.password, "");
}

#[test]
fn saving_an_incomplete_form_is_refused() {
    let mut app = App::new(Config::new());
    let cmd = app.update(Message::SaveAccount);
    assert!(matches!(cmd, AppCommand::Nothing));
    assert_eq!(app.status_message.as_deref(), Some("Please fill in all fields"));
}

#[test]
fn saving_an_account_verifies_stores_and_lists_it() {
    let mut app = App::new(Config::new());
    app.update(Message::ViewAddAccount);
    app.update(Message::UrlChanged("https://cloud.example.com".to_string()));
    app.update(Message::UsernameChanged("alice".to_string()));
    app.update(Message::PasswordChanged("pw".to_string()));
    let cmd = app.update(Message::SaveAccount);
    assert!(matches!(cmd, AppCommand::VerifyAccount { .. }));
    assert!(app.is_loading);
    assert_eq!(app.status_message.as_deref(), Some("Verifying..."));

    let cmd = app.update(Message::AccountSaveVerified(Ok(())));
    let account = match cmd {
        AppCommand::StoreAccount { account } => account,
        _ => panic!("expected the account to be stored"),
    };
    assert_eq!(account.id, "alice-https_cloud.example.com");
    assert_eq!(account.display_name, "alice (CalDAV)");

    let cmd = app.update(Message::AccountStored { account, result: Ok(()) });
    assert!(matches!(cmd, AppCommand::SaveConfig));
    assert_eq!(app.config.accounts.len(), 1);
    assert_eq!(app.form.password, "");
    assert!(matches!(app.view, View::Accounts));
}

#[test]
fn a_failed_verification_is_reported() {
    let mut app = App::new(Config::new());
    let cmd = app.update(Message::AccountSaveVerified(Err("HTTP 401".to_string())));
    assert!(matches!(cmd, AppCommand::Nothing));
    assert_eq!(app.status_message.as_deref(), Some("✗ HTTP 401"));
    app.update(Message::ConnectionTestFinished(Ok(())));
    assert_eq!(app.status_message.as_deref(), Some("✓ Connection successful!"));
}

#[test]
fn calendar_and_event_pages_load_for_known_accounts() {
    let mut app = App::new(Config { accounts: vec![account("a")] });
    let cmd = app.update(Message::ViewCalendars { account_id: "missing".to_string() });
    assert!(matches!(cmd, AppCommand::Nothing));
    assert_eq!(app.status_message.as_deref(), Some("Account not found"));

    let cmd = app.update(Message::ViewCalendars { account_id: "a".to_string() });
    match cmd {
        AppCommand::FetchCalendars { account_id, client } => {
            assert_eq!(account_id, "a");
            assert_eq!(client.base_url(), "https://cloud.example.com");
        }
        _ => panic!("expected a calendar fetch"),
    }
    let calendars = vec![Calendar { href: "/cal/".to_string(), display_name: "Work".to_string(), color: None }];
    app.update(Message::CalendarsLoaded { account_id: "a".to_string(), result: Ok(calendars) });
    assert_eq!(app.calendars.len(), 1);
    assert!(!app.is_loading);

    let cmd = app.update(Message::ViewEvents { account_id: "a".to_string(), calendar_href: "/cal/".to_string() });
    assert!(matches!(cmd, AppCommand::FetchEvents { .. }));
    assert_eq!(app.current_calendar_name, "Work");
    let events = vec![event("late", Some((20, 9))), event("none", None), event("early", Some((2, 9)))];
    app.update(Message::EventsLoaded {
        account_id: "a".to_string(),
        calendar_href: "/cal/".to_string(),
        result: Ok(events),
    });
    let order: Vec<&str> = app.events.iter().map(|e| e.uid.as_str()).collect();
    assert_eq!(order, vec!["none", "early", "late"]);
}

#[test]
fn results_for_another_page_are_ignored() {
    let mut app = App::new(Config { accounts: vec![account("a")] });
    app.update(Message::ViewCalendars { account_id: "a".to_string() });
    app.update(Message::ViewAccounts);
    app.update(Message::CalendarsLoaded { account_id: "a".to_string(), result: Err("boom".to_string()) });
    assert!(app.calendars.is_empty());
    assert_eq!(app.status_message, None);
}

#[test]
fn deleting_an_account_forgets_it() {
    let mut app = App::new(Config { accounts: vec![account("a"), account("b")] });
    let cmd = app.update(Message::DeleteAccount("a".to_string()));
    match cmd {
        AppCommand::ForgetAccount { id } => assert_eq!(id, "a"),
        _ => panic!("expected the account to be forgotten"),
    }
    assert_eq!(app.config.accounts.len(), 1);
    assert_eq!(app.config.accounts[0].id, "b");
}

#[test]
fn event_card_lines() {
    assert_eq!(card_location(&Some("Room 4".to_string())), Some("📍 Room 4".to_string()));
    assert_eq!(card_location(&Some(String::new())), None);
    assert_eq!(card_location(&None), None);
    let long: String = "é".repeat(120);
    let cut = card_description(&Some(long)).unwrap();
    assert_eq!(cut.chars().count(), 101);
    assert!(cut.ends_with('…'));
    assert_eq!(card_description(&Some("short".to_string())), Some("short".to_string()));
    assert_eq!(card_description(&Some(String::new())), None);
    let start = Stamp { date: CivilDate { year: 2026, month: 1, day: 5 }, hour: 9, minute: 0, second: 0 };
    let end = Stamp { date: CivilDate { year: 2026, month: 1, day: 5 }, hour: 10, minute: 30, second: 0 };
    assert_eq!(card_date(Some(start), Some(end)), "Mon, 05 Jan 2026  09:00 – 10:30");
    assert_eq!(card_date(Some(start), None), "Mon, 05 Jan 2026  09:00");
    assert_eq!(card_date(None, Some(end)), "No date");
}
