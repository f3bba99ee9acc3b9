use pastebin::form::Entry;
use pastebin::id::Id;
use pastebin::insert::InsertError;
use pastebin::insert::OwnerAction;
use pastebin::insert::plan_insert;
use pastebin::insert::resolve_owner;

fn plain_form() -> Entry {
    Entry {
        text: String::from("FooBarBaz"),
        extension: Some(String::from("rs")),
        expires: None,
        password: String::new(),
        title: String::new(),
        burn_after_reading: None,
    }
}

#[test]
fn url_path_holds_id_and_extension() {
    let id = Id { value: 123 };
    let entry = pastebin::form::normalize(&plain_form());
    assert_eq!(id.to_url_path(&entry), "123.rs");
    let mut form = plain_form();
    form.extension = None;
    let entry = pastebin::form::normalize(&form);
    assert_eq!(id.to_url_path(&entry), "123");
}

#[test]
fn plan_redirects_to_the_new_paste() {
    let form = plain_form();
    let plan = plan_insert(&form, Id { value: 99 }, 7, false);
    assert_eq!(plan.location, "/99.rs");
    assert_eq!(plan.entry.uid, Some(7));
    assert_eq!(plan.entry.text, "FooBarBaz");
    assert_eq!(plan.entry.extension, Some(String::from("rs")));
}

#[test]
fn plan_cookie_attributes() {
    let form = plain_form();
    let plan = plan_insert(&form, Id { value: 99 }, -12, true);
    assert_eq!(plan.cookie.name, "uid");
    assert_eq!(plan.cookie.value, "-12");
    assert!(plan.cookie.http_only);
    assert!(plan.cookie.same_site_strict);
    assert!(plan.cookie.secure);
    let plan = plan_insert(&form, Id { value: 99 }, 7, false);
    assert!(!plan.cookie.secure);
}

#[test]
fn burn_after_reading_lives_under_burn_path() {
    let mut form = plain_form();
    form.burn_after_reading = Some(String::from("on"));
    let plan = plan_insert(&form, Id { value: 5 }, 1, false);
    assert!(plan.location.starts_with("/burn/"));
    assert_eq!(plan.location, "/burn/5.rs");
    form.burn_after_reading = Some(String::from("true"));
    let plan = plan_insert(&form, Id { value: 5 }, 1, false);
    assert_eq!(plan.location, "/5.rs");
}

#[test]
fn owner_resolution_decisions() {
    assert_eq!(resolve_owner(None), Ok(OwnerAction::Allocate));
    assert_eq!(resolve_owner(Some("42")), Ok(OwnerAction::Use(42)));
    assert_eq!(resolve_owner(Some("-3")), Ok(OwnerAction::Use(-3)));
    assert_eq!(resolve_owner(Some("")), Err(InsertError::CookieParsing));
    assert_eq!(resolve_owner(Some("abc")), Err(InsertError::CookieParsing));
    assert_eq!(
        resolve_owner(Some("99999999999999999999")),
        Err(InsertError::CookieParsing)
    );
}

#[test]
fn planned_cookie_reuses_owner() {
    let form = plain_form();
    for uid in [0i64, 7, -7, i64::MIN, i64::MAX] {
        let plan = plan_insert(&form, Id { value: 1 }, uid, false);
        assert_eq!(resolve_owner(Some(plan.cookie.value.as_str())), Ok(OwnerAction::Use(uid)));
    }
}

#[test]
fn generated_id_yields_a_rooted_location() {
    let id = Id::generate();
    let other = Id::generate();
    let plan = plan_insert(&plain_form(), id, 7, false);
    assert!(plan.location.starts_with('/'));
    assert_eq!(plan.location, format!("/{}.rs", id.value));
    let plan = plan_insert(&plain_form(), other, 7, false);
    assert_eq!(plan.location, format!("/{}.rs", other.value));
}
