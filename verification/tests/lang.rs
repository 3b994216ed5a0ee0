use gristmill::lang::{load_translations, Translation};

fn entry(key: &str, value: &str) -> Translation {
    Translation { key: String::from(key), value: String::from(value) }
}

#[test]
fn known_key_is_translated() {
    let translations = load_translations(vec![entry("ok", "Okay"), entry("quit", "Leave")]);
    assert_eq!(translations.tr("ok"), "Okay");
    assert_eq!(translations.tr("quit"), "Leave");
}

#[test]
fn unknown_key_stands_for_itself() {
    let translations = load_translations(vec![entry("ok", "Okay")]);
    assert_eq!(translations.tr("cancel"), "cancel");
    assert_eq!(translations.tr(""), "");
    assert_eq!(load_translations(vec![]).tr("ok"), "ok");
}

#[test]
fn later_entry_replaces_an_earlier_one() {
    let translations = load_translations(vec![entry("ok", "Okay"), entry("ok", "Fine")]);
    assert_eq!(translations.tr("ok"), "Fine");
    assert_eq!(translations.entries.len(), 2);
}
