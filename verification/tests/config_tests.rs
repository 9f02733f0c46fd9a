use jingzhuo::config::{
    check_config_save, config_from_text, config_or_default, has_empty_form_overwrite_risk,
    loose_bool, loose_string, loose_u32, loose_value, nonempty_critical_count, normalize_config,
    recover_config_from_loose_json, string_field, AppConfig, JsonFields,
};

fn fields(entries: &[(&str, Option<&str>)]) -> JsonFields {
    JsonFields {
        entries: entries
            .iter()
            .map(|(k, v)| (k.to_string(), v.map(|s| s.to_string())))
            .collect(),
    }
}

fn full_config() -> AppConfig {
    let mut c = AppConfig::default();
    c.deepseek_api_key = "sk-1".to_string();
    c.weather_api_id = "id".to_string();
    c.weather_api_key = "key".to_string();
    c
}

#[test]
fn default_config_values() {
    let c = AppConfig::default();
    assert_eq!(c.weather_text, "天气未更新");
    assert_eq!(c.focus_minutes, 25);
    assert!(c.show_spectrum);
    assert_eq!(c.wallpaper_status_text, "背景");
    assert_eq!(c.default_wallpaper_folder, "D:\\BaiduNetdiskDownload\\desk_1");
    assert_eq!(c.alternate_wallpaper_folder, "D:\\BaiduNetdiskDownload\\desk_2");
    assert_eq!(c.wallpaper_interval_ms, 60_000);
    assert_eq!(c.deepseek_api_key, "");
    assert_eq!(c.deepseek_base_url, "https://api.deepseek.com");
    assert_eq!(c.deepseek_model, "deepseek-chat");
    assert_eq!(c.ai_reply_mode, "normal");
    assert_eq!(c.weather_city_code, "101010100");
    assert_eq!(c.weather_provider, "apihz");
    assert_eq!(c.weather_province, "北京");
    assert_eq!(c.weather_place, "北京");
    assert_eq!(c.weather_fallback_text, "未更新");
    assert_eq!(c.last_weather_text, "天气未更新");
    assert!(c.extra.is_empty());
}

#[test]
fn default_config_is_normalized() {
    let n = normalize_config(AppConfig::default(), None);
    assert_eq!(n.ai_reply_mode, "normal");
    assert_eq!(n.weather_provider, "apihz");
    assert_eq!(n.weather_fallback_text, "未更新");
}

#[test]
fn normalize_repairs_fields() {
    let mut c = AppConfig::default();
    c.ai_reply_mode = "loud".to_string();
    c.weather_provider = "   ".to_string();
    c.weather_fallback_text = "\u{3000}".to_string();
    c.deepseek_model = "kept".to_string();
    let n = normalize_config(c, None);
    assert_eq!(n.ai_reply_mode, "normal");
    assert_eq!(n.weather_provider, "apihz");
    assert_eq!(n.weather_fallback_text, "未更新");
    assert_eq!(n.deepseek_model, "kept");
}

#[test]
fn normalize_keeps_valid_modes() {
    for mode in ["normal", "expert", "night"] {
        let mut c = AppConfig::default();
        c.ai_reply_mode = mode.to_string();
        assert_eq!(normalize_config(c, None).ai_reply_mode, mode);
    }
}

#[test]
fn normalize_is_idempotent() {
    let mut c = AppConfig::default();
    c.ai_reply_mode = "x".to_string();
    c.weather_provider = String::new();
    let raw = fields(&[("weatherText", Some(" 晴 "))]);
    let once = normalize_config(c, Some(&raw));
    let twice = normalize_config(clone_config(&once), Some(&raw));
    assert_eq!(once.ai_reply_mode, twice.ai_reply_mode);
    assert_eq!(once.weather_provider, twice.weather_provider);
    assert_eq!(once.weather_fallback_text, twice.weather_fallback_text);
    assert_eq!(twice.weather_fallback_text, "晴");
}

fn clone_config(c: &AppConfig) -> AppConfig {
    let mut n = AppConfig::default();
    n.weather_text = c.weather_text.clone();
    n.ai_reply_mode = c.ai_reply_mode.clone();
    n.weather_provider = c.weather_provider.clone();
    n.weather_fallback_text = c.weather_fallback_text.clone();
    n
}

#[test]
fn normalize_takes_old_weather_text_as_fallback() {
    let raw = fields(&[("weather_text", Some("  多云 18°  ")), ("other", None)]);
    let n = normalize_config(AppConfig::default(), Some(&raw));
    assert_eq!(n.weather_fallback_text, "多云 18°");
}

#[test]
fn normalize_respects_new_fallback_key() {
    let raw = fields(&[("weatherFallbackText", Some("未更新")), ("weatherText", Some("雨"))]);
    let n = normalize_config(AppConfig::default(), Some(&raw));
    assert_eq!(n.weather_fallback_text, "未更新");
}

#[test]
fn normalize_ignores_non_string_weather_text() {
    let raw = fields(&[("weatherText", None), ("weather_text", Some("雪"))]);
    let n = normalize_config(AppConfig::default(), Some(&raw));
    assert_eq!(n.weather_fallback_text, "雪");
}

#[test]
fn string_field_stops_at_first_string() {
    let raw = fields(&[("a", Some("   ")), ("b", Some("x"))]);
    assert_eq!(string_field(&raw, &["a", "b"]), None);
    assert_eq!(string_field(&raw, &["c", "b"]), Some("x".to_string()));
    assert_eq!(string_field(&raw, &["c"]), None);
}

#[test]
fn loose_value_reads_plain_and_quoted_values() {
    let raw = "{\n  \"focusMinutes\": 45,\n  \"deepseekModel\": \"deepseek-reasoner\",\n  \"quote\": \"a\\\"b\",\n  \"gone\": null,\n  \"open\": \"abc\n}";
    assert_eq!(loose_value(raw, "focusMinutes"), Some("45".to_string()));
    assert_eq!(loose_value(raw, "deepseekModel"), Some("deepseek-reasoner".to_string()));
    assert_eq!(loose_value(raw, "quote"), Some("a\"b".to_string()));
    assert_eq!(loose_value(raw, "gone"), None);
    assert_eq!(loose_value(raw, "open"), Some("abc".to_string()));
    assert_eq!(loose_value(raw, "missing"), None);
}

#[test]
fn loose_value_skips_bad_json_strings() {
    let raw = "\"k\": \"bad\\q\",\n\"k\": \"good\",";
    assert_eq!(loose_value(raw, "k"), Some("good".to_string()));
}

#[test]
fn loose_value_handles_crlf_and_trailing_commas() {
    let raw = "\"k\": 7,,,\r\n";
    assert_eq!(loose_value(raw, "k"), Some("7".to_string()));
}

#[test]
fn loose_string_uses_first_key_with_value() {
    let raw = "\"a\": \"  \",\n\"b\": \"x\"";
    assert_eq!(loose_string(raw, &["a", "b"]), None);
    assert_eq!(loose_string(raw, &["c", "b"]), Some("x".to_string()));
}

#[test]
fn loose_numbers_and_booleans() {
    let raw = "\"n\": +7,\n\"big\": 4294967296,\n\"neg\": -1,\n\"t\": true,\n\"f\": false,\n\"y\": yes";
    assert_eq!(loose_u32(raw, &["n"]), Some(7));
    assert_eq!(loose_u32(raw, &["big"]), None);
    assert_eq!(loose_u32(raw, &["neg"]), None);
    assert_eq!(loose_bool(raw, &["t"]), Some(true));
    assert_eq!(loose_bool(raw, &["f"]), Some(false));
    assert_eq!(loose_bool(raw, &["y"]), None);
}

#[test]
fn recover_from_damaged_file() {
    let raw = "{\n  \"focusMinutes\": 45,\n  \"showSpectrum\": false,\n  \"weatherProvider\": \"\",\n  \"aiReplyMode\": \"shout\",\n  \"wallpaper_dir\": \"E:\\\\pics\",\n  broken";
    let c = recover_config_from_loose_json(raw).expect("recovered");
    assert_eq!(c.focus_minutes, 45);
    assert!(!c.show_spectrum);
    assert_eq!(c.weather_provider, "apihz");
    assert_eq!(c.ai_reply_mode, "normal");
    assert_eq!(c.default_wallpaper_folder, "E:\\pics");
    assert_eq!(c.deepseek_model, "deepseek-chat");
}

#[test]
fn recover_nothing() {
    assert!(recover_config_from_loose_json("not json at all").is_none());
}

#[test]
fn recover_weather_text_fills_fallback() {
    let c = recover_config_from_loose_json("\"weatherText\": \"晴\"").expect("recovered");
    assert_eq!(c.weather_text, "晴");
    assert_eq!(c.weather_fallback_text, "晴");
}

#[test]
fn config_from_valid_json() {
    let raw = "{\"weatherText\": \"小雨\", \"focusMinutes\": 30}";
    let mut typed = AppConfig::default();
    typed.focus_minutes = 30;
    let c = config_from_text(raw, Ok(typed)).expect("ok");
    assert_eq!(c.focus_minutes, 30);
    assert_eq!(c.weather_fallback_text, "小雨");
}

#[test]
fn config_from_json_with_field_error() {
    let r = config_from_text("{\"focusMinutes\": \"x\"}", Err("bad type".to_string()));
    assert_eq!(r.err().unwrap(), "配置字段解析失败，已停止读取：bad type");
}

#[test]
fn config_from_invalid_json_without_values() {
    let r = config_from_text("{{{", Err("unused".to_string()));
    let e = r.err().unwrap();
    assert!(e.starts_with("配置文件解析失败，已停止读取："));
    assert!(e.len() > "配置文件解析失败，已停止读取：".len());
}

#[test]
fn config_from_invalid_json_recovers() {
    let r = config_from_text("{\n\"focusMinutes\": 50,\n", Err("unused".to_string()));
    assert_eq!(r.unwrap().focus_minutes, 50);
}

#[test]
fn critical_count_and_risk() {
    let full = full_config();
    assert_eq!(nonempty_critical_count(&full), 9);
    let mut empty = AppConfig::default();
    empty.deepseek_base_url = String::new();
    empty.deepseek_model = " ".to_string();
    empty.weather_province = String::new();
    empty.weather_place = String::new();
    empty.default_wallpaper_folder = String::new();
    empty.alternate_wallpaper_folder = String::new();
    assert_eq!(nonempty_critical_count(&empty), 0);
    assert!(has_empty_form_overwrite_risk(&full, &empty));
    assert!(!has_empty_form_overwrite_risk(&empty, &full));
}

#[test]
fn save_refuses_empty_form_over_full_settings() {
    let full = full_config();
    let mut form = AppConfig::default();
    form.deepseek_base_url = String::new();
    form.deepseek_model = String::new();
    form.weather_province = String::new();
    form.weather_place = String::new();
    form.default_wallpaper_folder = String::new();
    form.alternate_wallpaper_folder = String::new();
    let r = check_config_save(form, Some(full));
    assert_eq!(r.err().unwrap(), "配置尚未正确加载，已阻止覆盖旧配置");
}

#[test]
fn save_accepts_normal_edit() {
    let mut form = full_config();
    form.ai_reply_mode = "whatever".to_string();
    let r = check_config_save(form, Some(full_config())).unwrap();
    assert_eq!(r.ai_reply_mode, "normal");
    let r2 = check_config_save(AppConfig::default(), None).unwrap();
    assert_eq!(r2.weather_provider, "apihz");
}

#[test]
fn save_allows_six_of_nine() {
    let mut form = full_config();
    form.deepseek_api_key = String::new();
    form.weather_api_id = String::new();
    form.weather_api_key = String::new();
    assert_eq!(nonempty_critical_count(&form), 6);
    assert!(check_config_save(form, Some(full_config())).is_ok());
}

#[test]
fn load_without_file_gives_defaults() {
    assert_eq!(config_or_default(None).focus_minutes, 25);
    let mut c = AppConfig::default();
    c.focus_minutes = 10;
    assert_eq!(config_or_default(Some(c)).focus_minutes, 10);
}

#[test]
fn saved_settings_reload_unchanged() {
    let mut saved = full_config();
    saved.weather_text = "晴 20°".to_string();
    let raw = "{\n  \"weatherText\": \"晴 20°\",\n  \"weatherFallbackText\": \"未更新\",\n  \"focusMinutes\": 25\n}";
    let mut typed = clone_config(&saved);
    typed.deepseek_api_key = saved.deepseek_api_key.clone();
    let c = config_from_text(raw, Ok(typed)).expect("ok");
    assert_eq!(c.weather_fallback_text, "未更新");
    assert_eq!(c.weather_text, "晴 20°");
    assert_eq!(c.deepseek_api_key, saved.deepseek_api_key);
    assert_eq!(c.ai_reply_mode, saved.ai_reply_mode);
}
