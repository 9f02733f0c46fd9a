use jingzhuo::archive::{jsonl_file_name, summary_file_name};
use jingzhuo::config::{config_path, config_side_names};
use jingzhuo::file_access::backup_extension;
use jingzhuo::clock::{
    index_from_nanos, millis_from_nanos, make_id, now_text, random_index, seconds_text, stamp_text, timestamp,
    timestamp_compact, timestamp_ms,
};
use jingzhuo::file_access::{app_data_root, archive_root, file_access_root, roots_path};
use jingzhuo::paths::{extension_of_name, ComponentKind, PathComponent, PathText};
use jingzhuo::text::{
    blank, chars_of, decimal_string, in_list, parse_u32_range, str_eq, text_contains,
    text_ends_with, text_starts_with, trimmed,
};

/// A component with the key `std::path` compares it by: a drive prefix as its variant and
/// letter, a name as its bytes, nothing for a root.
fn comp(kind: ComponentKind, text: &str) -> PathComponent {
    let key = match kind {
        ComponentKind::Prefix => vec![5, text.as_bytes()[0]],
        ComponentKind::Normal => text.as_bytes().to_vec(),
        _ => vec![],
    };
    PathComponent { kind, text: text.to_string(), key }
}

fn roaming() -> PathText {
    PathText {
        text: "C:\\Users\\me\\AppData\\Roaming".to_string(),
        components: vec![
            comp(ComponentKind::Prefix, "C:"),
            comp(ComponentKind::RootDir, "\\"),
            comp(ComponentKind::Normal, "Users"),
            comp(ComponentKind::Normal, "me"),
            comp(ComponentKind::Normal, "AppData"),
            comp(ComponentKind::Normal, "Roaming"),
        ],
    }
}

fn all_digits(s: &str) -> bool {
    !s.is_empty() && s.chars().all(|c| c.is_ascii_digit())
}

#[test]
fn trimming_uses_unicode_whitespace() {
    assert_eq!(trimmed("\u{3000} 静桌 \t\n"), "静桌");
    assert_eq!(trimmed("a b"), "a b");
    assert!(blank(" \u{2003}\r\n"));
    assert!(!blank(" x "));
    assert!(blank(""));
}

#[test]
fn decimal_texts() {
    assert_eq!(decimal_string(0), "0");
    assert_eq!(decimal_string(60000), "60000");
    assert_eq!(decimal_string(u64::MAX), "18446744073709551615");
    assert_eq!(seconds_text(Some(1714557600)), "1714557600");
    assert_eq!(seconds_text(None), "0");
    assert_eq!(stamp_text(Some(42)), "42Z");
    assert_eq!(stamp_text(None), "0Z");
}

#[test]
fn parsing_unsigned_numbers() {
    let v = chars_of("x+25y4294967295 4294967296");
    assert_eq!(parse_u32_range(&v, 1, 4), Some(25));
    assert_eq!(parse_u32_range(&v, 5, 15), Some(u32::MAX));
    assert_eq!(parse_u32_range(&v, 16, 26), None);
    assert_eq!(parse_u32_range(&v, 0, 4), None);
    assert_eq!(parse_u32_range(&v, 1, 2), None);
    assert_eq!(parse_u32_range(&v, 3, 3), None);
}

#[test]
fn searching_texts() {
    assert!(text_contains("c:\\users\\me\\.ssh", "\\.ssh"));
    assert!(!text_contains("abc", "abd"));
    assert!(text_contains("abc", ""));
    assert!(text_ends_with("c:\\", ":\\"));
    assert!(text_starts_with("https://x", "https"));
    assert!(!text_starts_with("ht", "https"));
    assert!(in_list("md", &["txt", "md"]));
    assert!(!in_list("MD", &["txt", "md"]));
    assert!(str_eq("静", "静"));
    assert!(!str_eq("a", "ab"));
}

#[test]
fn extensions_of_names() {
    assert_eq!(extension_of_name("a.tar.gz"), Some("gz".to_string()));
    assert_eq!(extension_of_name(".bashrc"), None);
    assert_eq!(extension_of_name("file."), Some("".to_string()));
    assert_eq!(extension_of_name("README"), None);
}

#[test]
fn clock_texts_have_their_shapes() {
    assert!(all_digits(&timestamp()));
    assert!(all_digits(&timestamp_compact()));
    let n = now_text();
    assert!(n.ends_with('Z'));
    assert!(all_digits(&n[..n.len() - 1]));
    let id = make_id("root");
    assert!(id.starts_with("root-"));
    assert!(all_digits(&id[5..]));
    assert!(timestamp_ms() > 1_600_000_000_000);
}

#[test]
fn indexes_stay_in_range() {
    assert_eq!(index_from_nanos(17, 5), 2);
    assert_eq!(index_from_nanos(17, 1), 0);
    assert_eq!(index_from_nanos(17, 0), 0);
    assert_eq!(random_index(0), 0);
    assert_eq!(random_index(1), 0);
    for _ in 0..20 {
        assert!(random_index(7) < 7);
    }
}

#[test]
fn joining_names_onto_paths() {
    let j = roaming().join_name("Jingzhuo");
    assert_eq!(j.text, "C:\\Users\\me\\AppData\\Roaming\\Jingzhuo");
    assert_eq!(j.components.len(), 7);
    assert!(j.components[6].kind == ComponentKind::Normal);
    let drive = PathText { text: "C:".to_string(), components: vec![comp(ComponentKind::Prefix, "C:")] };
    assert_eq!(drive.join_name("x").text, "C:x");
    let rooted = PathText {
        text: "C:\\".to_string(),
        components: vec![comp(ComponentKind::Prefix, "C:"), comp(ComponentKind::RootDir, "\\")],
    };
    assert_eq!(rooted.join_name("x").text, "C:\\x");
    let empty = PathText { text: String::new(), components: vec![] };
    assert_eq!(empty.join_name("x").text, "x");
}

#[test]
fn application_folders() {
    let data = app_data_root(Some(roaming()), Err("unused".to_string())).ok().unwrap();
    assert_eq!(data.text, "C:\\Users\\me\\AppData\\Roaming\\Jingzhuo");
    let cwd = PathText {
        text: "D:\\app".to_string(),
        components: vec![
            comp(ComponentKind::Prefix, "D:"),
            comp(ComponentKind::RootDir, "\\"),
            comp(ComponentKind::Normal, "app"),
        ],
    };
    let from_cwd = app_data_root(None, Ok(cwd)).ok().unwrap();
    assert_eq!(from_cwd.text, "D:\\app\\Jingzhuo");
    assert_eq!(
        app_data_root(None, Err("denied".to_string())).err(),
        Some("获取应用目录失败：denied".to_string())
    );
    let archive = archive_root(app_data_root(Some(roaming()), Err(String::new()))).ok().unwrap();
    assert_eq!(archive.text, "C:\\Users\\me\\AppData\\Roaming\\Jingzhuo\\archive");
    let fa = file_access_root(app_data_root(Some(roaming()), Err(String::new()))).ok().unwrap();
    assert_eq!(fa.text, "C:\\Users\\me\\AppData\\Roaming\\Jingzhuo\\file-access");
    let rp = roots_path(app_data_root(Some(roaming()), Err(String::new()))).ok().unwrap();
    assert_eq!(rp.text, "C:\\Users\\me\\AppData\\Roaming\\Jingzhuo\\file-access\\authorized-roots.json");
    assert_eq!(archive_root(Err("e".to_string())).err(), Some("e".to_string()));
}

#[test]
fn settings_file_location_and_side_files() {
    let p = config_path(Some(roaming()));
    assert_eq!(p.text, "C:\\Users\\me\\AppData\\Roaming\\Jingzhuo\\config.json");
    assert_eq!(p.components.len(), 8);
    let local = config_path(None);
    assert_eq!(local.text, "jingzhuo.config.json");
    assert_eq!(local.components.len(), 1);
    let (tmp, bak, replaced) = config_side_names("1714557600");
    assert_eq!(tmp, "config.json.tmp");
    assert_eq!(bak, "config.json.bak.1714557600");
    assert_eq!(replaced, "config.json.replaced.1714557600");
}

#[test]
fn archive_file_names() {
    assert_eq!(summary_file_name("2024-05-01"), "2024-05-01.summary.md");
    assert_eq!(jsonl_file_name("unknown-date"), "unknown-date.jsonl");
    assert_eq!(backup_extension("17"), "bak.17");
}

#[test]
fn milliseconds_of_readings() {
    assert_eq!(millis_from_nanos(Some(1_234_567_890)), 1234);
    assert_eq!(millis_from_nanos(None), 0);
    assert_eq!(millis_from_nanos(Some(u128::MAX)), (u128::MAX / 1_000_000) as u64);
}

#[test]
fn decimal_text_parses_back() {
    for n in [0u32, 7, 25, 60_000, u32::MAX] {
        let text = decimal_string(n as u64);
        let v = chars_of(&text);
        assert_eq!(parse_u32_range(&v, 0, v.len()), Some(n));
    }
}

#[test]
fn components_compare_by_their_keys() {
    let lone = |key: Vec<u8>| PathText {
        text: "\u{FFFD}".to_string(),
        components: vec![PathComponent { kind: ComponentKind::Normal, text: "\u{FFFD}".to_string(), key }],
    };
    let a = lone(vec![0xED, 0xA0, 0x80]);
    let b = lone(vec![0xED, 0xA0, 0x81]);
    assert!(!a.same_as(&b));
    assert!(!a.starts_with(&b));
    assert!(a.less_than(&b));
    assert!(!b.less_than(&a));
    assert!(a.same_as(&lone(vec![0xED, 0xA0, 0x80])));
}
