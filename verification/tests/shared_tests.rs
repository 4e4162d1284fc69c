use browser_selector::error::{BSError, ErrorKind};
use browser_selector::conf::{Config, ConfigHideBrowsers};
use browser_selector::shared::{
    binary_type_from_code, decimal_text, is_light_color, pick_translation, rgba_to_bgra, wide_slice_to_str,
    wide_to_str,
    ActiveWindowInfo, BinaryType, Browser, VersionInfo,
};
use std::collections::hash_map::DefaultHasher;
use std::hash::{Hash, Hasher};

#[test]
fn error_new_carries_the_message() {
    let e = BSError::new("something broke");
    assert_eq!(e.kind(), ErrorKind::Other);
    assert_eq!(e.message(), "something broke");
    let d = BSError::default();
    assert_eq!(d.message(), "");
    let k = BSError::with_kind(ErrorKind::Store, "disk full");
    assert_eq!(k.kind, ErrorKind::Store);
    assert_eq!(k.msg, "disk full");
    let s = BSError::store("database is locked");
    assert_eq!(s.kind, ErrorKind::Store);
    assert_eq!(s.message(), "SQLite Error:- database is locked");
}

#[test]
fn rgba_to_bgra_packs_premultiplied_channels() {
    assert_eq!(rgba_to_bgra(0x11, 0x22, 0x33, 0xff), 0x3322_11ff);
    assert_eq!(rgba_to_bgra(255, 255, 255, 255), 0xffff_ffff);
    assert_eq!(rgba_to_bgra(255, 255, 255, 0), 0);
    // 200 * 128 / 255 = 100, 100 * 128 / 255 = 50, 50 * 128 / 255 = 25
    assert_eq!(rgba_to_bgra(200, 100, 50, 128), (25 << 24) | (50 << 16) | (100 << 8) | 128);
}

#[test]
fn wide_to_str_decodes_utf16() {
    let units: Vec<u16> = "héllo wörld €".encode_utf16().collect();
    assert_eq!(wide_to_str(&units), "héllo wörld €");
    assert_eq!(wide_slice_to_str(&units[..5]), "héllo");
    assert_eq!(wide_to_str(&Vec::new()), "");
}

#[test]
fn wide_to_str_replaces_lone_surrogates() {
    let units: Vec<u16> = vec![0x0041, 0xD800, 0x0042];
    assert_eq!(wide_to_str(&units), "A\u{FFFD}B");
    let pair: Vec<u16> = vec![0xD83D, 0xDE00];
    assert_eq!(wide_slice_to_str(&pair), "\u{1F600}");
}

#[test]
fn browser_hash_is_a_decimal_fingerprint_of_the_path() {
    let mut a = Browser::default();
    a.exe_path = String::from("C:\\Program Files\\Browser\\browser.exe");
    let mut b = Browser::default();
    b.exe_path = String::from("C:\\Program Files\\Other\\other.exe");
    b.name = String::from("Other");
    let ha = a.get_hash();
    assert!(!ha.is_empty());
    assert!(ha.chars().all(|c| c.is_ascii_digit()));
    assert!(ha.parse::<u64>().is_ok());
    assert_ne!(ha, a.exe_path);
    assert_eq!(ha, a.get_hash());
    assert_ne!(ha, b.get_hash());
    b.exe_path = a.exe_path.clone();
    assert_eq!(ha, b.get_hash());
}

#[test]
fn browser_to_selection_has_path_and_fingerprint() {
    let mut a = Browser::default();
    a.exe_path = String::from("/usr/bin/browser");
    let s = a.to_selection();
    assert_eq!(s.id, None);
    assert_eq!(s.path.as_deref(), Some("/usr/bin/browser"));
    assert_eq!(s.path_hash, Some(a.get_hash()));
}

#[test]
fn defaults_are_empty() {
    let b = Browser::default();
    assert!(b.exe_path.is_empty() && b.arguments.is_empty() && b.name.is_empty() && b.icon.is_empty());
    assert!(!b.exe_exists && !b.icon_exists);
    let v = VersionInfo::default();
    assert!(v.company_name.is_empty() && v.product_name.is_empty());
    assert_eq!(v.binary_type, BinaryType::Unknown);
    assert_eq!(BinaryType::default(), BinaryType::Unknown);
    let w = ActiveWindowInfo::default();
    assert!(w.window_name.is_none() && w.exe_path.is_none());
}

#[test]
fn binary_type_labels() {
    assert_eq!(BinaryType::Bits32.label(), "32 bits");
    assert_eq!(BinaryType::Bits64.label(), "64 bits");
    assert_eq!(BinaryType::Unknown.label(), "");
}

#[test]
fn browser_hash_is_the_default_hash_of_the_path_text() {
    for path in ["", "/usr/bin/firefox", "C:\\Программы\\браузер.exe", "/opt/ブラウザ/bin"] {
        let mut browser = Browser::default();
        browser.exe_path = String::from(path);
        let mut hasher = DefaultHasher::new();
        browser.exe_path.hash(&mut hasher);
        assert_eq!(browser.get_hash(), hasher.finish().to_string());
    }
}

#[test]
fn binary_type_codes() {
    assert_eq!(binary_type_from_code(0), BinaryType::Bits32);
    assert_eq!(binary_type_from_code(6), BinaryType::Bits64);
    assert_eq!(binary_type_from_code(1), BinaryType::Unknown);
    assert_eq!(binary_type_from_code(12345678), BinaryType::Unknown);
}

#[test]
fn translation_in_the_users_language_comes_first() {
    assert_eq!(pick_translation(&vec![0x0407, 0, 0x0409, 0x0409], 0x0409), 2);
    assert_eq!(pick_translation(&vec![0x0409], 0x0409), 0);
}

#[test]
fn neutral_translation_is_the_second_choice() {
    assert_eq!(pick_translation(&vec![0x0407, 0x040c, 0, 0], 0x0409), 2);
}

#[test]
fn first_translation_is_the_last_resort() {
    assert_eq!(pick_translation(&vec![0x0407, 0x040c], 0x0409), 0);
}

#[test]
fn light_and_dark_colours() {
    assert!(is_light_color(255, 255, 255));
    assert!(!is_light_color(0, 0, 0));
    // 5 * 128 + 2 * 128 + 128 = 1024 is middle grey, which is not light
    assert!(!is_light_color(128, 128, 128));
    assert!(is_light_color(128, 128, 129));
    assert!(is_light_color(0, 205, 0));
    assert!(!is_light_color(255, 0, 255));
}

#[test]
fn default_config_opens_the_home_page() {
    let c = Config::default();
    assert_eq!(c.version, 1);
    assert_eq!(c.default_url, "about:home");
    assert!(c.hide.is_empty());
    let h = ConfigHideBrowsers::default();
    assert!(h.path.is_empty() && h.name.is_empty());
}

#[test]
fn decimal_text_writes_the_digits() {
    assert_eq!(decimal_text(0), "0");
    assert_eq!(decimal_text(7), "7");
    assert_eq!(decimal_text(10), "10");
    assert_eq!(decimal_text(1234567890), "1234567890");
    assert_eq!(decimal_text(9_007_199_254_740_993), "9007199254740993");
    assert_eq!(decimal_text(u64::MAX), "18446744073709551615");
    for n in [1u64, 9, 99, 100, 101, 65535, 4294967296, u64::MAX - 1] {
        assert_eq!(decimal_text(n), n.to_string());
    }
}
