//! Weather: when the weather service may be asked, and how its answer, or its failure,
//! becomes the line the overlay shows.
use vstd::prelude::*;
use crate::config::{opt_view, AppConfig};
use crate::text::{
    blank, chars_of, is_blank, is_digit, str_eq, string_of_range, trim, trimmed,
};

verus! {

pub const APIHZ_WEATHER_URL: &'static str = "https://cn.apihz.cn/api/tianqi/tqyb.php";

/// `clean_text`: the text trimmed, when it is not blank.
pub open spec fn clean_spec(value: Option<Seq<char>>) -> Option<Seq<char>> {
    match value {
        Some(t) => if trim(t).len() > 0 {
            Some(trim(t))
        } else {
            None
        },
        None => None,
    }
}

pub fn clean_text(value: Option<String>) -> (r: Option<String>)
    ensures
        opt_view(r) == clean_spec(opt_view(value)),
{
    match value {
        Some(t) => {
            let s = trimmed(t.as_str());
            if s.as_str().is_empty() {
                None
            } else {
                Some(s)
            }
        },
        None => None,
    }
}

/// A JSON value as the weather answer is read: a string, a number (with the text its
/// `Display` gives) or any other value.
pub enum JsonScalar {
    Text(String),
    Number(String),
    Other,
}

/// `value_to_text`: a string cleaned, a number's text, nothing for other values.
pub open spec fn value_text_spec(value: Option<JsonScalar>) -> Option<Seq<char>> {
    match value {
        Some(JsonScalar::Text(t)) => clean_spec(Some(t@)),
        Some(JsonScalar::Number(n)) => Some(n@),
        _ => None,
    }
}

pub fn value_to_text(value: Option<JsonScalar>) -> (r: Option<String>)
    ensures
        opt_view(r) == value_text_spec(value),
{
    match value {
        Some(JsonScalar::Text(t)) => clean_text(Some(t)),
        Some(JsonScalar::Number(n)) => Some(n),
        _ => None,
    }
}

/// `code_is_success`: the number 200 or the string `"200"`.
pub open spec fn code_success_spec(value: JsonScalar) -> bool {
    match value {
        JsonScalar::Number(n) => n@ == "200"@,
        JsonScalar::Text(t) => t@ == "200"@,
        JsonScalar::Other => false,
    }
}

pub fn code_is_success(value: &JsonScalar) -> (b: bool)
    ensures
        b == code_success_spec(*value),
{
    match value {
        JsonScalar::Number(n) => str_eq(n.as_str(), "200"),
        JsonScalar::Text(t) => str_eq(t.as_str(), "200"),
        JsonScalar::Other => false,
    }
}

/// The characters `parse_number_from_text` collects: from the first digit, `.` or `-`,
/// the run of digits and dots that follows (a `-` only first).
pub open spec fn number_start(c: char) -> bool {
    is_digit(c) || c == '.' || c == '-'
}

pub open spec fn number_more(c: char) -> bool {
    is_digit(c) || c == '.'
}

/// The position of the first character that starts a number.
pub open spec fn first_number_start(s: Seq<char>) -> Option<int>
    decreases s.len(),
{
    if s.len() == 0 {
        None
    } else if number_start(s[0]) {
        Some(0)
    } else {
        match first_number_start(s.drop_first()) {
            Some(k) => Some(k + 1),
            None => None,
        }
    }
}

/// The length of the run of digits and dots at the start of `s`.
pub open spec fn run_length(s: Seq<char>) -> nat
    decreases s.len(),
{
    if s.len() > 0 && number_more(s[0]) {
        1 + run_length(s.drop_first())
    } else {
        0
    }
}

pub open spec fn number_prefix_spec(s: Seq<char>) -> Seq<char> {
    match first_number_start(s) {
        None => Seq::empty(),
        Some(k) => s.subrange(k, k + 1 + run_length(s.skip(k + 1))),
    }
}

proof fn lemma_first_number_start(s: Seq<char>, i: int)
    requires
        0 <= i <= s.len(),
        forall|j: int| 0 <= j < i ==> !number_start(#[trigger] s[j]),
    ensures
        first_number_start(s) == match first_number_start(s.skip(i)) {
            Some(k) => Some(k + i),
            None => None::<int>,
        },
    decreases i,
{
    if i > 0 {
        lemma_first_number_start(s, i - 1);
        assert(s.skip(i - 1).drop_first() =~= s.skip(i));
        assert(s.skip(i - 1)[0] == s[i - 1]);
    } else {
        assert(s.skip(0) =~= s);
    }
}

proof fn lemma_run_length(s: Seq<char>, i: int)
    requires
        0 <= i <= s.len(),
        forall|j: int| 0 <= j < i ==> number_more(#[trigger] s[j]),
    ensures
        run_length(s) == i + run_length(s.skip(i)),
    decreases i,
{
    if i > 0 {
        lemma_run_length(s, i - 1);
        assert(s.skip(i - 1).drop_first() =~= s.skip(i));
        assert(s.skip(i - 1)[0] == s[i - 1]);
    } else {
        assert(s.skip(0) =~= s);
    }
}

/// The text `parse_number_from_text` hands to the number parser.
pub fn number_prefix(text: &str) -> (r: String)
    ensures
        r@ == number_prefix_spec(text@),
{
    let v = chars_of(text);
    let mut i: usize = 0;
    while i < v.len() && !(('0' <= v[i] && v[i] <= '9') || v[i] == '.' || v[i] == '-')
        invariant
            i <= v@.len(),
            v@ == text@,
            forall|j: int| 0 <= j < i ==> !number_start(#[trigger] v@[j]),
        decreases v.len() - i,
    {
        i = i + 1;
    }
    proof {
        lemma_first_number_start(v@, i as int);
    }
    if i == v.len() {
        assert(v@.skip(i as int).len() == 0);
        return String::new();
    }
    assert(v@.skip(i as int)[0] == v@[i as int]);
    let mut e = i + 1;
    while e < v.len() && (('0' <= v[e] && v[e] <= '9') || v[e] == '.')
        invariant
            i < e <= v@.len(),
            v@ == text@,
            forall|j: int| i + 1 <= j < e ==> number_more(#[trigger] v@[j]),
        decreases v.len() - e,
    {
        e = e + 1;
    }
    proof {
        let t = v@.skip(i + 1);
        assert forall|j: int| 0 <= j < e - i - 1 implies number_more(#[trigger] t[j]) by {
            assert(t[j] == v@[i + 1 + j]);
        }
        lemma_run_length(t, e - i - 1);
        if e < v.len() {
            assert(t.skip(e - i - 1)[0] == v@[e as int]);
        } else {
            assert(t.skip(e - i - 1).len() == 0);
        }
    }
    string_of_range(&v, i, e)
}

/// `condition_text`: the two conditions of the day joined with `转`, once when equal.
pub open spec fn condition_spec(w1: Option<Seq<char>>, w2: Option<Seq<char>>) -> Option<Seq<char>> {
    match (clean_spec(w1), clean_spec(w2)) {
        (Some(a), Some(b)) => if a == b {
            Some(a)
        } else {
            Some(a + "转"@ + b)
        },
        (Some(a), None) => Some(a),
        (None, Some(b)) => Some(b),
        (None, None) => None,
    }
}

pub fn condition_text(weather1: Option<String>, weather2: Option<String>) -> (r: Option<String>)
    ensures
        opt_view(r) == condition_spec(opt_view(weather1), opt_view(weather2)),
{
    let first = clean_text(weather1);
    let second = clean_text(weather2);
    match (first, second) {
        (Some(a), Some(b)) => {
            if str_eq(a.as_str(), b.as_str()) {
                Some(a)
            } else {
                let mut s = a;
                s.append("转");
                s.append(b.as_str());
                Some(s)
            }
        },
        (Some(a), None) => Some(a),
        (None, Some(b)) => Some(b),
        (None, None) => None,
    }
}

/// `masked_id`: `****` for a short id, else its first two and last two characters around
/// `****`.
pub open spec fn masked_spec(id: Seq<char>) -> Seq<char> {
    if id.len() <= 4 {
        "****"@
    } else {
        id.take(2) + "****"@ + id.skip(id.len() - 2)
    }
}

pub fn masked_id(api_id: &str) -> (r: String)
    ensures
        r@ == masked_spec(api_id@),
{
    let v = chars_of(api_id);
    if v.len() <= 4 {
        return String::from_str("****");
    }
    let mut s = string_of_range(&v, 0, 2);
    s.append("****");
    let tail = string_of_range(&v, v.len() - 2, v.len());
    s.append(tail.as_str());
    assert(v@.subrange(0, 2) =~= v@.take(2));
    assert(v@.subrange(v@.len() - 2, v@.len() as int) =~= v@.skip(v@.len() - 2));
    s
}

/// The weather line and its details, everything the overlay shows but the temperature.
pub struct WeatherSummary {
    pub text: String,
    pub city: Option<String>,
    pub province: Option<String>,
    pub humidity: Option<String>,
    pub wind_direction: Option<String>,
    pub wind_scale: Option<String>,
    pub condition: Option<String>,
    pub updated_at: Option<String>,
    pub source: String,
    pub error: Option<String>,
}

/// The line shown when the service cannot be used: the configured fallback text when
/// it is set and not the placeholder `未更新`, else `天气未更新`.
pub open spec fn fallback_line(config_fallback: Seq<char>) -> (Seq<char>, Seq<char>) {
    let f = trim(config_fallback);
    if f.len() > 0 && f != "未更新"@ {
        (f, "fallback"@)
    } else {
        ("天气未更新"@, "none"@)
    }
}

/// A result that carries none of the details: no city, province, humidity, wind,
/// condition or update time.
pub open spec fn no_details(r: WeatherSummary) -> bool {
    &&& r.city is None
    &&& r.province is None
    &&& r.humidity is None
    &&& r.wind_direction is None
    &&& r.wind_scale is None
    &&& r.condition is None
    &&& r.updated_at is None
}

/// `fallback_result`: that line with its source, no details, and the error.
pub fn fallback_result(config: &AppConfig, error: Option<String>) -> (r: WeatherSummary)
    ensures
        (r.text@, r.source@) == fallback_line(config.weather_fallback_text@),
        opt_view(r.error) == opt_view(error),
        no_details(r),
{
    let fallback = trimmed(config.weather_fallback_text.as_str());
    let (text, source) = if !fallback.as_str().is_empty() && !str_eq(fallback.as_str(), "未更新") {
        (fallback, String::from_str("fallback"))
    } else {
        (String::from_str("天气未更新"), String::from_str("none"))
    };
    WeatherSummary {
        text,
        city: None,
        province: None,
        humidity: None,
        wind_direction: None,
        wind_scale: None,
        condition: None,
        updated_at: None,
        source,
        error,
    }
}

/// What is sent to the weather service: the four settings, trimmed.
pub struct WeatherQuery {
    pub id: String,
    pub key: String,
    pub province: String,
    pub place: String,
}

/// The settings the service needs are all filled in.
pub open spec fn weather_config_complete(c: AppConfig) -> bool {
    !is_blank(c.weather_api_id@) && !is_blank(c.weather_api_key@) && !is_blank(
        c.weather_province@,
    ) && !is_blank(c.weather_place@)
}

/// The first step of `refresh_weather`: the query when the settings are complete, else the
/// fallback line with the error saying they are not (and no request is made).
pub fn weather_query(config: &AppConfig) -> (r: Result<WeatherQuery, WeatherSummary>)
    ensures
        weather_config_complete(*config) ==> {
            &&& r is Ok
            &&& r->Ok_0.id@ == trim(config.weather_api_id@)
            &&& r->Ok_0.key@ == trim(config.weather_api_key@)
            &&& r->Ok_0.province@ == trim(config.weather_province@)
            &&& r->Ok_0.place@ == trim(config.weather_place@)
        },
        !weather_config_complete(*config) ==> {
            &&& r is Err
            &&& (r->Err_0.text@, r->Err_0.source@) == fallback_line(config.weather_fallback_text@)
            &&& no_details(r->Err_0)
            &&& opt_view(r->Err_0.error) == Some("接口盒子天气配置不完整"@)
        },
{
    let id = trimmed(config.weather_api_id.as_str());
    let key = trimmed(config.weather_api_key.as_str());
    let province = trimmed(config.weather_province.as_str());
    let place = trimmed(config.weather_place.as_str());
    if id.as_str().is_empty() || key.as_str().is_empty() || province.as_str().is_empty()
        || place.as_str().is_empty() {
        return Err(fallback_result(config, Some(String::from_str("接口盒子天气配置不完整"))));
    }
    Ok(WeatherQuery { id, key, province, place })
}

impl WeatherQuery {
    /// The query string pairs of the request, in order.
    pub fn pairs(&self) -> (p: Vec<(String, String)>)
        ensures
            p@.map_values(|e: (String, String)| (e.0@, e.1@)) == seq![
                ("id"@, self.id@),
                ("key"@, self.key@),
                ("sheng"@, self.province@),
                ("place"@, self.place@),
                ("day"@, "1"@),
                ("hourtype"@, "0"@),
            ],
    {
        let mut p: Vec<(String, String)> = Vec::new();
        p.push((String::from_str("id"), self.id.clone()));
        p.push((String::from_str("key"), self.key.clone()));
        p.push((String::from_str("sheng"), self.province.clone()));
        p.push((String::from_str("place"), self.place.clone()));
        p.push((String::from_str("day"), String::from_str("1")));
        p.push((String::from_str("hourtype"), String::from_str("0")));
        assert(p@.map_values(|e: (String, String)| (e.0@, e.1@)) =~= seq![
            ("id"@, self.id@),
            ("key"@, self.key@),
            ("sheng"@, self.province@),
            ("place"@, self.place@),
            ("day"@, "1"@),
            ("hourtype"@, "0"@),
        ]);
        p
    }
}

/// The current conditions of the service's answer, but the temperature.
pub struct NowInfo {
    pub humidity: Option<JsonScalar>,
    pub wind_direction: Option<String>,
    pub wind_scale: Option<String>,
    pub uptime: Option<String>,
}

/// The service's answer, but its temperatures.
pub struct WeatherPayload {
    pub code: JsonScalar,
    pub msg: Option<String>,
    pub sheng: Option<String>,
    pub shi: Option<String>,
    pub name: Option<String>,
    pub uptime: Option<String>,
    pub weather1: Option<String>,
    pub weather2: Option<String>,
    pub nowinfo: Option<NowInfo>,
}

/// The failure of the request itself, or of reading its answer, as the fallback line.
pub fn request_failed(config: &AppConfig, error: &String) -> (r: WeatherSummary)
    ensures
        (r.text@, r.source@) == fallback_line(config.weather_fallback_text@),
        no_details(r),
        opt_view(r.error) == Some("接口盒子天气请求失败："@ + error@),
{
    let mut m = String::from_str("接口盒子天气请求失败：");
    m.append(error.as_str());
    fallback_result(config, Some(m))
}

pub fn response_unreadable(config: &AppConfig, error: &String) -> (r: WeatherSummary)
    ensures
        (r.text@, r.source@) == fallback_line(config.weather_fallback_text@),
        no_details(r),
        opt_view(r.error) == Some("接口盒子天气响应解析失败："@ + error@),
{
    let mut m = String::from_str("接口盒子天气响应解析失败：");
    m.append(error.as_str());
    fallback_result(config, Some(m))
}

/// The city shown: the answer's place name, else its city, else the configured place.
pub open spec fn city_spec(p: WeatherPayload, place: Seq<char>) -> Seq<char> {
    match clean_spec(opt_view(p.name)) {
        Some(n) => n,
        None => match clean_spec(opt_view(p.shi)) {
            Some(s) => s,
            None => place,
        },
    }
}

/// The weather line: `city temperature°`, then ` · condition` when there is one.
pub open spec fn line_spec(city: Seq<char>, temperature: Seq<char>, condition: Option<Seq<char>>) -> Seq<
    char,
> {
    match condition {
        Some(c) => city + " "@ + temperature + "° · "@ + c,
        None => city + " "@ + temperature + "°"@,
    }
}

/// The error when the service answers with another code: its message when not blank.
pub open spec fn code_error_spec(msg: Option<Seq<char>>) -> Seq<char> {
    match msg {
        Some(m) if !is_blank(m) => m,
        _ => "接口盒子天气接口返回错误"@,
    }
}

/// How `refresh_weather` reads the service's answer. `temperature` is the temperature
/// found in it, already written as the line shows it (rounded, no decimals), or `None`
/// when the answer has none. A code other than 200 and a missing temperature give the
/// fallback line with their errors; otherwise the line and details come from the answer.
pub fn weather_from_payload(
    query: &WeatherQuery,
    config: &AppConfig,
    payload: WeatherPayload,
    temperature: Option<String>,
) -> (r: WeatherSummary)
    ensures
        !code_success_spec(payload.code) ==> {
            &&& (r.text@, r.source@) == fallback_line(config.weather_fallback_text@)
            &&& no_details(r)
            &&& opt_view(r.error) == Some(code_error_spec(opt_view(payload.msg)))
        },
        code_success_spec(payload.code) && temperature is None ==> {
            &&& (r.text@, r.source@) == fallback_line(config.weather_fallback_text@)
            &&& no_details(r)
            &&& opt_view(r.error) == Some("接口盒子天气缺少温度字段"@)
        },
        code_success_spec(payload.code) && temperature is Some ==> {
            let city = city_spec(payload, query.place@);
            let condition = condition_spec(opt_view(payload.weather1), opt_view(payload.weather2));
            &&& r.text@ == line_spec(city, temperature->Some_0@, condition)
            &&& opt_view(r.city) == Some(city)
            &&& opt_view(r.province) == Some(
                match clean_spec(opt_view(payload.sheng)) {
                    Some(s) => s,
                    None => query.province@,
                },
            )
            &&& opt_view(r.condition) == condition
            &&& opt_view(r.humidity) == match payload.nowinfo {
                Some(n) => value_text_spec(n.humidity),
                None => None,
            }
            &&& opt_view(r.wind_direction) == match payload.nowinfo {
                Some(n) => clean_spec(opt_view(n.wind_direction)),
                None => None,
            }
            &&& opt_view(r.wind_scale) == match payload.nowinfo {
                Some(n) => clean_spec(opt_view(n.wind_scale)),
                None => None,
            }
            &&& opt_view(r.updated_at) == match payload.nowinfo {
                Some(n) => match clean_spec(opt_view(n.uptime)) {
                    Some(u) => Some(u),
                    None => clean_spec(opt_view(payload.uptime)),
                },
                None => clean_spec(opt_view(payload.uptime)),
            }
            &&& r.source@ == "apihz"@
            &&& r.error is None
        },
{
    if !code_is_success(&payload.code) {
        let message = match payload.msg {
            Some(m) => {
                if !blank(m.as_str()) {
                    m
                } else {
                    String::from_str("接口盒子天气接口返回错误")
                }
            },
            None => String::from_str("接口盒子天气接口返回错误"),
        };
        return fallback_result(config, Some(message));
    }
    let temperature = match temperature {
        None => {
            return fallback_result(config, Some(String::from_str("接口盒子天气缺少温度字段")));
        },
        Some(t) => t,
    };
    let city = match clean_text(payload.name) {
        Some(n) => n,
        None => match clean_text(payload.shi) {
            Some(s) => s,
            None => query.place.clone(),
        },
    };
    let province = match clean_text(payload.sheng) {
        Some(s) => s,
        None => query.province.clone(),
    };
    let condition = condition_text(payload.weather1, payload.weather2);
    let mut text = city.clone();
    text.append(" ");
    text.append(temperature.as_str());
    match &condition {
        Some(c) => {
            text.append("° · ");
            text.append(c.as_str());
        },
        None => {
            text.append("°");
        },
    }
    let (humidity, wind_direction, wind_scale, now_uptime) = match payload.nowinfo {
        Some(n) => (
            value_to_text(n.humidity),
            clean_text(n.wind_direction),
            clean_text(n.wind_scale),
            clean_text(n.uptime),
        ),
        None => (None, None, None, None),
    };
    let updated_at = match now_uptime {
        Some(u) => Some(u),
        None => clean_text(payload.uptime),
    };
    WeatherSummary {
        text,
        city: Some(city),
        province: Some(province),
        humidity,
        wind_direction,
        wind_scale,
        condition,
        updated_at,
        source: String::from_str("apihz"),
        error: None,
    }
}

/// A fallback line is never mistaken for an answer of the service: its source is
/// `fallback` or `none`, never `apihz`, whatever the configured fallback text.
pub proof fn law_fallback_source(config_fallback: Seq<char>)
    ensures
        fallback_line(config_fallback).1 == "fallback"@ || fallback_line(config_fallback).1
            == "none"@,
        fallback_line(config_fallback).1 != "apihz"@,
{
    reveal_strlit("fallback");
    reveal_strlit("none");
    reveal_strlit("apihz");
    assert("fallback"@[0] != "apihz"@[0]);
    assert("none"@[0] != "apihz"@[0]);
}

/// The fallback line is the configured fallback text, trimmed, unless that is blank or the
/// placeholder `未更新`; then it is `天气未更新`.
pub proof fn law_fallback_text(config_fallback: Seq<char>)
    ensures
        trim(config_fallback).len() > 0 && trim(config_fallback) != "未更新"@ ==> fallback_line(
            config_fallback,
        ).0 == trim(config_fallback),
        trim(config_fallback).len() == 0 || trim(config_fallback) == "未更新"@ ==> fallback_line(
            config_fallback,
        ).0 == "天气未更新"@,
{
}

} // verus!
