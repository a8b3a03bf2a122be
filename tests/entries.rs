use passman::config::Config;
use passman::generator::{generate_pw, password_from_choices};
use passman::manager::entry::{read_password_request, Entry, PasswordRequest};

#[test]
fn literal_password_round_trips() {
    let e = Entry::new(
        "Mail".to_string(),
        "mail.example".to_string(),
        "me".to_string(),
        "pässwörd ✓".to_string(),
    );
    assert_eq!(e.password, "pässwörd ✓".as_bytes().to_vec());
    assert!(e.has_text_password());
    assert_eq!(e.show_password(), "pässwörd ✓");
    assert!(e.notes.is_empty());
}

#[test]
fn invalid_utf8_password_is_not_text() {
    let mut e = Entry::new(
        "Mail".to_string(),
        "l".to_string(),
        "me".to_string(),
        "x".to_string(),
    );
    e.password = vec![0xff, 0xfe];
    assert!(!e.has_text_password());
}

#[test]
fn names_compare_without_case() {
    let e = Entry::new(
        "GitHub".to_string(),
        "l".to_string(),
        "u".to_string(),
        "p".to_string(),
    );
    assert!(e.is_named("github"));
    assert!(e.is_named("GITHUB"));
    assert!(!e.is_named("gitlab"));
}

#[test]
fn request_reading() {
    assert_eq!(read_password_request("pw1"), PasswordRequest::Literal);
    assert_eq!(read_password_request("!ge"), PasswordRequest::Literal);
    assert_eq!(read_password_request("!Gen12"), PasswordRequest::Literal);
    assert_eq!(
        read_password_request("!gen12"),
        PasswordRequest::Generate {
            length: 12,
            numbers: true,
            special: true
        }
    );
    assert_eq!(
        read_password_request("!gen 1x6 -n -s"),
        PasswordRequest::Generate {
            length: 16,
            numbers: false,
            special: false
        }
    );
    assert_eq!(
        read_password_request("!gen8 -s"),
        PasswordRequest::Generate {
            length: 8,
            numbers: true,
            special: false
        }
    );
    assert_eq!(read_password_request("!gen"), PasswordRequest::BadLength);
    assert_eq!(read_password_request("!gen -n"), PasswordRequest::BadLength);
    assert_eq!(
        read_password_request("!gen4294967295"),
        PasswordRequest::Generate {
            length: 4294967295,
            numbers: true,
            special: true
        }
    );
    assert_eq!(
        read_password_request("!gen4294967296"),
        PasswordRequest::BadLength
    );
}

#[test]
fn generated_entry_password_follows_request() {
    let e = Entry::new(
        "Bank".to_string(),
        "l".to_string(),
        "u".to_string(),
        "!gen20 -n".to_string(),
    );
    let pw = e.show_password();
    assert_eq!(pw.chars().count(), 20);
    assert!(pw
        .chars()
        .all(|c| c.is_ascii_alphabetic() || "!@#$%^&*".contains(c)));
}

#[test]
fn generated_password_length_and_alphabet() {
    let pw = generate_pw(50, false, false);
    assert_eq!(pw.len(), 50);
    assert!(pw.chars().all(|c| c.is_ascii_alphabetic()));
    let pw = generate_pw(200, true, true);
    assert_eq!(pw.len(), 200);
    assert!(pw
        .chars()
        .all(|c| c.is_ascii_alphanumeric() || "!@#$%^&*".contains(c)));
    assert_eq!(generate_pw(0, true, true), "");
}

#[test]
fn choices_pick_from_alphabet() {
    assert_eq!(password_from_choices(&vec![0, 25, 26, 51], false, false), "AZaz");
    assert_eq!(password_from_choices(&vec![52, 61, 62, 69], true, true), "09!*");
    assert_eq!(password_from_choices(&vec![52, 59], false, true), "!*");
    assert_eq!(password_from_choices(&vec![], true, false), "");
}

#[test]
fn config_resolves_file() {
    let c = Config {
        file: "/home/me/.passman.json".to_string(),
    };
    assert_eq!(c.resolve(Some("other.json".to_string())), "other.json");
    assert_eq!(c.resolve(None), "/home/me/.passman.json");
}
