use jingzhuo::config::AppConfig;
use jingzhuo::weather::{
    clean_text, code_is_success, condition_text, fallback_result, masked_id, number_prefix,
    request_failed, response_unreadable, value_to_text, weather_from_payload, weather_query,
    JsonScalar, NowInfo, WeatherPayload, WeatherQuery,
};

fn s(x: &str) -> String {
    x.to_string()
}

fn configured() -> AppConfig {
    let mut c = AppConfig::default();
    c.weather_api_id = s(" 10001234 ");
    c.weather_api_key = s("k3y");
    c.weather_province = s("北京");
    c.weather_place = s("海淀");
    c
}

fn query() -> WeatherQuery {
    match weather_query(&configured()) {
        Ok(q) => q,
        Err(_) => panic!("the settings are complete"),
    }
}

fn payload(code: JsonScalar) -> WeatherPayload {
    WeatherPayload {
        code,
        msg: None,
        sheng: None,
        shi: None,
        name: None,
        uptime: None,
        weather1: None,
        weather2: None,
        nowinfo: None,
    }
}

#[test]
fn clean_text_trims_and_drops_blank() {
    assert_eq!(clean_text(Some(s("  晴 "))), Some(s("晴")));
    assert_eq!(clean_text(Some(s(" \t\u{3000}"))), None);
    assert_eq!(clean_text(None), None);
}

#[test]
fn value_to_text_reads_strings_and_numbers() {
    assert_eq!(value_to_text(Some(JsonScalar::Text(s(" 45% ")))), Some(s("45%")));
    assert_eq!(value_to_text(Some(JsonScalar::Number(s("45")))), Some(s("45")));
    assert_eq!(value_to_text(Some(JsonScalar::Other)), None);
    assert_eq!(value_to_text(None), None);
}

#[test]
fn success_code_is_200_number_or_string() {
    assert!(code_is_success(&JsonScalar::Number(s("200"))));
    assert!(code_is_success(&JsonScalar::Text(s("200"))));
    assert!(!code_is_success(&JsonScalar::Number(s("400"))));
    assert!(!code_is_success(&JsonScalar::Number(s("200.0"))));
    assert!(!code_is_success(&JsonScalar::Text(s(" 200"))));
    assert!(!code_is_success(&JsonScalar::Other));
}

#[test]
fn number_prefix_takes_the_first_number() {
    assert_eq!(number_prefix("温度 23.5℃"), "23.5");
    assert_eq!(number_prefix("-3°C"), "-3");
    assert_eq!(number_prefix("约12-15度"), "12");
    assert_eq!(number_prefix("无数据"), "");
    assert_eq!(number_prefix("--5"), "-");
}

#[test]
fn condition_joins_two_conditions() {
    assert_eq!(condition_text(Some(s("晴")), Some(s("多云"))), Some(s("晴转多云")));
    assert_eq!(condition_text(Some(s("晴 ")), Some(s(" 晴"))), Some(s("晴")));
    assert_eq!(condition_text(None, Some(s("雨"))), Some(s("雨")));
    assert_eq!(condition_text(Some(s("雪")), Some(s("  "))), Some(s("雪")));
    assert_eq!(condition_text(None, None), None);
}

#[test]
fn ids_are_masked() {
    assert_eq!(masked_id("1234"), "****");
    assert_eq!(masked_id("10001234"), "10****34");
    assert_eq!(masked_id("abcde"), "ab****de");
}

#[test]
fn fallback_uses_configured_text_unless_placeholder() {
    let mut c = AppConfig::default();
    let r = fallback_result(&c, None);
    assert_eq!(r.text, "天气未更新");
    assert_eq!(r.source, "none");
    c.weather_fallback_text = s(" 多云 20° ");
    let r = fallback_result(&c, Some(s("e")));
    assert_eq!(r.text, "多云 20°");
    assert_eq!(r.source, "fallback");
    assert_eq!(r.error, Some(s("e")));
    assert_eq!(r.city, None);
    assert_eq!(r.condition, None);
}

#[test]
fn incomplete_settings_make_no_query() {
    let mut c = configured();
    c.weather_api_key = s("   ");
    match weather_query(&c) {
        Ok(_) => panic!("the key is blank"),
        Err(r) => {
            assert_eq!(r.text, "天气未更新");
            assert_eq!(r.error, Some(s("接口盒子天气配置不完整")));
        }
    }
}

#[test]
fn query_pairs_are_trimmed_settings() {
    let q = query();
    assert_eq!(q.id, "10001234");
    let pairs = q.pairs();
    let expected = vec![
        (s("id"), s("10001234")),
        (s("key"), s("k3y")),
        (s("sheng"), s("北京")),
        (s("place"), s("海淀")),
        (s("day"), s("1")),
        (s("hourtype"), s("0")),
    ];
    assert_eq!(pairs, expected);
}

#[test]
fn request_errors_become_fallback() {
    let c = configured();
    let r = request_failed(&c, &s("timeout"));
    assert_eq!(r.error, Some(s("接口盒子天气请求失败：timeout")));
    assert_eq!(r.source, "none");
    let r = response_unreadable(&c, &s("eof"));
    assert_eq!(r.error, Some(s("接口盒子天气响应解析失败：eof")));
}

#[test]
fn error_code_uses_message() {
    let c = configured();
    let mut p = payload(JsonScalar::Number(s("400")));
    p.msg = Some(s("key 错误"));
    let r = weather_from_payload(&query(), &c, p, Some(s("20")));
    assert_eq!(r.error, Some(s("key 错误")));
    assert_eq!(r.text, "天气未更新");
    let mut p = payload(JsonScalar::Text(s("500")));
    p.msg = Some(s("  "));
    let r = weather_from_payload(&query(), &c, p, Some(s("20")));
    assert_eq!(r.error, Some(s("接口盒子天气接口返回错误")));
}

#[test]
fn missing_temperature_is_an_error() {
    let c = configured();
    let r = weather_from_payload(&query(), &c, payload(JsonScalar::Number(s("200"))), None);
    assert_eq!(r.error, Some(s("接口盒子天气缺少温度字段")));
    assert_eq!(r.source, "none");
}

#[test]
fn full_answer_builds_the_line() {
    let c = configured();
    let mut p = payload(JsonScalar::Number(s("200")));
    p.sheng = Some(s(" 北京市 "));
    p.shi = Some(s("北京"));
    p.name = Some(s("海淀区"));
    p.uptime = Some(s("2024-05-01 08:00"));
    p.weather1 = Some(s("晴"));
    p.weather2 = Some(s("多云"));
    p.nowinfo = Some(NowInfo {
        humidity: Some(JsonScalar::Number(s("45"))),
        wind_direction: Some(s("北风")),
        wind_scale: Some(s(" 3级 ")),
        uptime: Some(s("  ")),
    });
    let r = weather_from_payload(&query(), &c, p, Some(s("24")));
    assert_eq!(r.text, "海淀区 24° · 晴转多云");
    assert_eq!(r.city, Some(s("海淀区")));
    assert_eq!(r.province, Some(s("北京市")));
    assert_eq!(r.humidity, Some(s("45")));
    assert_eq!(r.wind_direction, Some(s("北风")));
    assert_eq!(r.wind_scale, Some(s("3级")));
    assert_eq!(r.condition, Some(s("晴转多云")));
    assert_eq!(r.updated_at, Some(s("2024-05-01 08:00")));
    assert_eq!(r.source, "apihz");
    assert_eq!(r.error, None);
}

#[test]
fn sparse_answer_falls_back_to_settings() {
    let c = configured();
    let r = weather_from_payload(&query(), &c, payload(JsonScalar::Text(s("200"))), Some(s("-3")));
    assert_eq!(r.text, "海淀 -3°");
    assert_eq!(r.city, Some(s("海淀")));
    assert_eq!(r.province, Some(s("北京")));
    assert_eq!(r.condition, None);
    assert_eq!(r.humidity, None);
    assert_eq!(r.updated_at, None);
}

fn assert_no_details(r: &jingzhuo::weather::WeatherSummary) {
    assert_eq!(r.city, None);
    assert_eq!(r.province, None);
    assert_eq!(r.humidity, None);
    assert_eq!(r.wind_direction, None);
    assert_eq!(r.wind_scale, None);
    assert_eq!(r.condition, None);
    assert_eq!(r.updated_at, None);
}

#[test]
fn every_fallback_carries_no_details() {
    let mut c = AppConfig::default();
    c.weather_api_id = s("   ");
    c.weather_api_key = s("k");
    c.weather_fallback_text = s(" 小雨 ");
    match weather_query(&c) {
        Ok(_) => panic!("the id is blank"),
        Err(r) => {
            assert_eq!(r.text, "小雨");
            assert_eq!(r.source, "fallback");
            assert_eq!(r.error, Some(s("接口盒子天气配置不完整")));
            assert_no_details(&r);
        }
    }
    let c = configured();
    assert_no_details(&request_failed(&c, &s("x")));
    assert_no_details(&response_unreadable(&c, &s("x")));
    let mut p = payload(JsonScalar::Number(s("500")));
    p.name = Some(s("海淀区"));
    p.weather1 = Some(s("晴"));
    assert_no_details(&weather_from_payload(&query(), &c, p, Some(s("20"))));
    let mut p = payload(JsonScalar::Number(s("200")));
    p.name = Some(s("海淀区"));
    assert_no_details(&weather_from_payload(&query(), &c, p, None));
}
