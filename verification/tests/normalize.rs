use pastebin::form::Entry;
use pastebin::form::normalize;
use pastebin::form::parse_expires;

fn plain_form() -> Entry {
    Entry {
        text: String::from("FooBarBaz"),
        extension: Some(String::from("rs")),
        expires: None,
        password: String::new(),
        title: String::new(),
        burn_after_reading: None,
    }
}

#[test]
fn passthrough_fields() {
    let form = plain_form();
    let r = normalize(&form);
    assert_eq!(r.text, "FooBarBaz");
    assert_eq!(r.extension, Some(String::from("rs")));
    assert_eq!(r.expires, None);
    assert_eq!(r.burn_after_reading, None);
    assert_eq!(r.uid, None);
    assert_eq!(r.password, None);
    assert_eq!(r.title, None);
}

#[test]
fn nonempty_password_and_title_kept() {
    let mut form = plain_form();
    form.password = String::from("hunter2");
    form.title = String::from("notes");
    let r = normalize(&form);
    assert_eq!(r.password, Some(String::from("hunter2")));
    assert_eq!(r.title, Some(String::from("notes")));
}

#[test]
fn expires_valid_values() {
    let mut form = plain_form();
    form.expires = Some(String::from("10"));
    assert_eq!(normalize(&form).expires, Some(10));
    form.expires = Some(String::from("+7"));
    assert_eq!(normalize(&form).expires, Some(7));
    form.expires = Some(String::from("007"));
    assert_eq!(normalize(&form).expires, Some(7));
    form.expires = Some(String::from("4294967295"));
    assert_eq!(normalize(&form).expires, Some(u32::MAX));
}

#[test]
fn expires_degrades_to_absent() {
    let mut form = plain_form();
    for bad in ["", "abc", "0", "+0", "-5", "1.5", "4294967296", "99999999999999999999", " 3"] {
        form.expires = Some(String::from(bad));
        assert_eq!(normalize(&form).expires, None, "expires token {bad:?}");
    }
}

#[test]
fn parse_expires_matches_normalize() {
    assert_eq!(parse_expires("10"), Some(10));
    assert_eq!(parse_expires("0"), None);
    assert_eq!(parse_expires("nope"), None);
}

#[test]
fn burn_flag_is_on_literal_only() {
    let mut form = plain_form();
    assert_eq!(normalize(&form).burn_after_reading, None);
    for (raw, want) in [("on", true), ("true", false), ("1", false), ("ON", false), ("", false)] {
        form.burn_after_reading = Some(String::from(raw));
        assert_eq!(normalize(&form).burn_after_reading, Some(want), "raw value {raw:?}");
    }
}

#[test]
fn normalize_is_idempotent() {
    let mut form = plain_form();
    form.expires = Some(String::from("60"));
    form.password = String::from("p");
    form.title = String::from("t");
    form.burn_after_reading = Some(String::from("on"));
    let a = normalize(&form);
    let b = normalize(&form);
    assert_eq!(a.text, b.text);
    assert_eq!(a.extension, b.extension);
    assert_eq!(a.expires, b.expires);
    assert_eq!(a.burn_after_reading, b.burn_after_reading);
    assert_eq!(a.uid, b.uid);
    assert_eq!(a.password, b.password);
    assert_eq!(a.title, b.title);
}
