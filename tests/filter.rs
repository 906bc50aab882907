use mail_sync::config::Command;
use mail_sync::config::Config;
use mail_sync::config::ConfigData;
use mail_sync::filter::CatalogError;
use mail_sync::filter::MailboxFilter;

fn strings(v: &[&str]) -> Vec<String> {
    v.iter().map(|s| s.to_string()).collect()
}

#[test]
fn absent_wanted_setting_lists_everything() {
    let f = MailboxFilter::build(None, None);
    assert_eq!(f.selector(), "*");
    assert!(f.matches(&"INBOX".to_string()));
}

#[test]
fn empty_wanted_setting_lists_everything() {
    let f = MailboxFilter::build(Some(String::new()), None);
    assert_eq!(f.selector(), "*");
}

#[test]
fn selector_joins_trimmed_patterns() {
    let f = MailboxFilter::build(Some("Work, Personal ,Lists/*".to_string()), None);
    assert_eq!(f.selector(), "Work Personal Lists/*");
}

#[test]
fn include_and_exclude_scenario() {
    let f = MailboxFilter::build(
        Some("Work,Personal".to_string()),
        Some("Personal".to_string()),
    );
    assert_eq!(f.selector(), "Work Personal");
    let listed = strings(&["Work", "Personal"]);
    assert_eq!(f.select_listed(Some(listed)), Ok(strings(&["Work"])));
}

#[test]
fn exclude_wins_over_listing() {
    let f = MailboxFilter::build(None, Some(" Spam , Trash".to_string()));
    let listed = strings(&["INBOX", "Spam", "Work", "Trash", "Spam"]);
    assert_eq!(f.select_listed(Some(listed)), Ok(strings(&["INBOX", "Work"])));
    assert!(!f.matches(&"Spam".to_string()));
    assert!(!f.matches(&"Trash".to_string()));
    assert!(f.matches(&"spam".to_string()));
}

#[test]
fn listing_order_is_kept() {
    let f = MailboxFilter::build(None, None);
    let listed = strings(&["Z", "A", "M"]);
    assert_eq!(f.select_listed(Some(listed.clone())), Ok(listed));
}

#[test]
fn unavailable_listing_is_an_error() {
    let f = MailboxFilter::build(None, None);
    assert_eq!(f.select_listed(None), Err(CatalogError::CatalogUnavailable));
}

#[test]
fn filter_from_endpoint_settings() {
    let data = ConfigData {
        host: "imap.example.org".to_string(),
        user: "u".to_string(),
        password: "pw".to_string(),
        wanted: Some("INBOX,Sent".to_string()),
        exclude: Some("Sent".to_string()),
    };
    let config = Config { src: data.clone(), dst: data };
    let f = MailboxFilter::from_config(&config.src);
    assert_eq!(f.selector(), "INBOX Sent");
    assert_eq!(f.select_listed(Some(strings(&["INBOX", "Sent"]))), Ok(strings(&["INBOX"])));
    assert_ne!(Command::List, Command::Sync);
}

#[test]
fn name_listed_twice_is_processed_once() {
    let f = MailboxFilter::build(None, Some("Spam".to_string()));
    let listed = strings(&["A", "B", "A", "Spam", "C", "B"]);
    assert_eq!(f.select_listed(Some(listed)), Ok(strings(&["A", "B", "C"])));
}
