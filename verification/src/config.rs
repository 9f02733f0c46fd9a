//! The overlay's settings: defaults, normalisation, the guard against saving an
//! emptied form over a full one, and the recovery of settings from damaged JSON text.
use vstd::prelude::*;
use crate::paths::{
    join_name_spec, plain_char, plain_name, ComponentKind, PathComponent, PathText, PathView,
};
use vstd::string::StrSliceExecFns;
use vstd::utf8::encode_utf8;
use crate::text::{
    after_first, all_digits, keys_view, blank, chars_of, find_char, is_blank, line_ranges, parse_u32,
    parse_u32_range, range_equals, range_starts_with, skip_back, split_lines, starts_with,
    str_eq, strip_back, string_of_range, trim, trim_char, trim_range, trimmed, CharPred,
};

verus! {

/// The settings the overlay keeps between runs. `extra` holds the keys of the
/// settings file that no field names, each with its value written as JSON text, each
/// key once and in increasing order as [`extra_ordered`] says.
pub struct AppConfig {
    pub weather_text: String,
    pub focus_minutes: u32,
    pub show_spectrum: bool,
    pub wallpaper_status_text: String,
    pub default_wallpaper_folder: String,
    pub alternate_wallpaper_folder: String,
    pub wallpaper_interval_ms: u32,
    pub deepseek_api_key: String,
    pub deepseek_base_url: String,
    pub deepseek_model: String,
    pub ai_reply_mode: String,
    pub weather_city_code: String,
    pub weather_provider: String,
    pub weather_api_id: String,
    pub weather_api_key: String,
    pub weather_province: String,
    pub weather_place: String,
    pub weather_fallback_text: String,
    pub smart_weather_app_id: String,
    pub smart_weather_private_key: String,
    pub last_weather_text: String,
    pub extra: Vec<(String, String)>,
}

/// The mathematical value of an [`AppConfig`].
pub struct ConfigView {
    pub weather_text: Seq<char>,
    pub focus_minutes: u32,
    pub show_spectrum: bool,
    pub wallpaper_status_text: Seq<char>,
    pub default_wallpaper_folder: Seq<char>,
    pub alternate_wallpaper_folder: Seq<char>,
    pub wallpaper_interval_ms: u32,
    pub deepseek_api_key: Seq<char>,
    pub deepseek_base_url: Seq<char>,
    pub deepseek_model: Seq<char>,
    pub ai_reply_mode: Seq<char>,
    pub weather_city_code: Seq<char>,
    pub weather_provider: Seq<char>,
    pub weather_api_id: Seq<char>,
    pub weather_api_key: Seq<char>,
    pub weather_province: Seq<char>,
    pub weather_place: Seq<char>,
    pub weather_fallback_text: Seq<char>,
    pub smart_weather_app_id: Seq<char>,
    pub smart_weather_private_key: Seq<char>,
    pub last_weather_text: Seq<char>,
    pub extra: Seq<(Seq<char>, Seq<char>)>,
}

impl View for AppConfig {
    type V = ConfigView;

    open spec fn view(&self) -> ConfigView {
        ConfigView {
            weather_text: self.weather_text@,
            focus_minutes: self.focus_minutes,
            show_spectrum: self.show_spectrum,
            wallpaper_status_text: self.wallpaper_status_text@,
            default_wallpaper_folder: self.default_wallpaper_folder@,
            alternate_wallpaper_folder: self.alternate_wallpaper_folder@,
            wallpaper_interval_ms: self.wallpaper_interval_ms,
            deepseek_api_key: self.deepseek_api_key@,
            deepseek_base_url: self.deepseek_base_url@,
            deepseek_model: self.deepseek_model@,
            ai_reply_mode: self.ai_reply_mode@,
            weather_city_code: self.weather_city_code@,
            weather_provider: self.weather_provider@,
            weather_api_id: self.weather_api_id@,
            weather_api_key: self.weather_api_key@,
            weather_province: self.weather_province@,
            weather_place: self.weather_place@,
            weather_fallback_text: self.weather_fallback_text@,
            smart_weather_app_id: self.smart_weather_app_id@,
            smart_weather_private_key: self.smart_weather_private_key@,
            last_weather_text: self.last_weather_text@,
            extra: self.extra@.map_values(|e: (String, String)| (e.0@, e.1@)),
        }
    }
}

pub open spec fn default_config() -> ConfigView {
    ConfigView {
        weather_text: "天气未更新"@,
        focus_minutes: 25,
        show_spectrum: true,
        wallpaper_status_text: "背景"@,
        default_wallpaper_folder: "D:\\BaiduNetdiskDownload\\desk_1"@,
        alternate_wallpaper_folder: "D:\\BaiduNetdiskDownload\\desk_2"@,
        wallpaper_interval_ms: 60_000,
        deepseek_api_key: Seq::empty(),
        deepseek_base_url: "https://api.deepseek.com"@,
        deepseek_model: "deepseek-chat"@,
        ai_reply_mode: "normal"@,
        weather_city_code: "101010100"@,
        weather_provider: "apihz"@,
        weather_api_id: Seq::empty(),
        weather_api_key: Seq::empty(),
        weather_province: "北京"@,
        weather_place: "北京"@,
        weather_fallback_text: "未更新"@,
        smart_weather_app_id: Seq::empty(),
        smart_weather_private_key: Seq::empty(),
        last_weather_text: "天气未更新"@,
        extra: Seq::empty(),
    }
}

impl Default for AppConfig {
    fn default() -> (c: Self)
        ensures
            c@ == default_config(),
    {
        let c = AppConfig {
            weather_text: String::from_str("天气未更新"),
            focus_minutes: 25,
            show_spectrum: true,
            wallpaper_status_text: String::from_str("背景"),
            default_wallpaper_folder: String::from_str("D:\\BaiduNetdiskDownload\\desk_1"),
            alternate_wallpaper_folder: String::from_str("D:\\BaiduNetdiskDownload\\desk_2"),
            wallpaper_interval_ms: 60_000,
            deepseek_api_key: String::new(),
            deepseek_base_url: String::from_str("https://api.deepseek.com"),
            deepseek_model: String::from_str("deepseek-chat"),
            ai_reply_mode: String::from_str("normal"),
            weather_city_code: String::from_str("101010100"),
            weather_provider: String::from_str("apihz"),
            weather_api_id: String::new(),
            weather_api_key: String::new(),
            weather_province: String::from_str("北京"),
            weather_place: String::from_str("北京"),
            weather_fallback_text: String::from_str("未更新"),
            smart_weather_app_id: String::new(),
            smart_weather_private_key: String::new(),
            last_weather_text: String::from_str("天气未更新"),
            extra: Vec::new(),
        };
        assert(c@.extra =~= Seq::<(Seq<char>, Seq<char>)>::empty());
        c
    }
}

// ------------------------------------------------------------ JSON object fields

/// The top-level members of a JSON object, each key with its value when that value
/// is a JSON string (`None` for any other kind of value).
pub struct JsonFields {
    pub entries: Vec<(String, Option<String>)>,
}

pub open spec fn opt_view(o: Option<String>) -> Option<Seq<char>> {
    match o {
        Some(s) => Some(s@),
        None => None,
    }
}

impl View for JsonFields {
    type V = Seq<(Seq<char>, Option<Seq<char>>)>;

    open spec fn view(&self) -> Seq<(Seq<char>, Option<Seq<char>>)> {
        self.entries@.map_values(|e: (String, Option<String>)| (e.0@, opt_view(e.1)))
    }
}

/// What `serde_json::from_str::<Value>` gives for `raw`, as the top-level members when
/// the value is an object (no members for any other value), or the error's text.
pub uninterp spec fn json_object_fields(raw: Seq<char>) -> Result<
    Seq<(Seq<char>, Option<Seq<char>>)>,
    Seq<char>,
>;

/// What `serde_json::from_str::<String>` gives for `text`: the string a JSON string
/// literal stands for, or `None` when `text` is not one.
pub uninterp spec fn json_string_value(text: Seq<char>) -> Option<Seq<char>>;

/// Calls `serde_json::from_str::<serde_json::Value>`; the contract says only that the
/// result is the one [`json_object_fields`] names for this text.
#[verifier::external_body]
fn parse_json_fields(raw: &str) -> (r: Result<JsonFields, String>)
    ensures
        match r {
            Ok(f) => json_object_fields(raw@) == Ok::<_, Seq<char>>(f@),
            Err(e) => json_object_fields(raw@) == Err::<Seq<(Seq<char>, Option<Seq<char>>)>, _>(
                e@,
            ),
        },
{
    match serde_json::from_str::<serde_json::Value>(raw) {
        Ok(serde_json::Value::Object(map)) => Ok(JsonFields {
            entries: map.into_iter().map(|(k, v)| match v {
                serde_json::Value::String(s) => (k, Some(s)),
                _ => (k, None),
            }).collect(),
        }),
        Ok(_) => Ok(JsonFields { entries: Vec::new() }),
        Err(err) => Err(err.to_string()),
    }
}

/// Calls `serde_json::from_str::<String>`; the contract says only that the result is
/// the one [`json_string_value`] names.
#[verifier::external_body]
fn parse_json_string(text: &str) -> (r: Option<String>)
    ensures
        json_string_value(text@) == opt_view(r),
{
    serde_json::from_str::<String>(text).ok()
}

/// The value of the first member named `key`, when there is one.
pub open spec fn field_lookup(f: Seq<(Seq<char>, Option<Seq<char>>)>, key: Seq<char>) -> Option<
    Option<Seq<char>>,
>
    decreases f.len(),
{
    if f.len() == 0 {
        None
    } else if f[0].0 == key {
        Some(f[0].1)
    } else {
        field_lookup(f.drop_first(), key)
    }
}

pub open spec fn has_field(f: Seq<(Seq<char>, Option<Seq<char>>)>, key: Seq<char>) -> bool {
    field_lookup(f, key) is Some
}

/// The string held by the first of `keys` whose member is a string.
pub open spec fn first_string_field(
    f: Seq<(Seq<char>, Option<Seq<char>>)>,
    keys: Seq<Seq<char>>,
) -> Option<Seq<char>>
    decreases keys.len(),
{
    if keys.len() == 0 {
        None
    } else {
        match field_lookup(f, keys[0]) {
            Some(Some(s)) => Some(s),
            _ => first_string_field(f, keys.drop_first()),
        }
    }
}

/// That string trimmed, when it is not blank.
pub open spec fn string_field_spec(
    f: Seq<(Seq<char>, Option<Seq<char>>)>,
    keys: Seq<Seq<char>>,
) -> Option<Seq<char>> {
    match first_string_field(f, keys) {
        Some(s) => if trim(s).len() > 0 {
            Some(trim(s))
        } else {
            None
        },
        None => None,
    }
}

fn lookup_field(fields: &JsonFields, key: &str) -> (r: Option<Option<String>>)
    ensures
        match r {
            Some(v) => field_lookup(fields@, key@) == Some(opt_view(v)),
            None => field_lookup(fields@, key@) is None,
        },
{
    let mut i: usize = 0;
    assert(fields@.skip(0) =~= fields@);
    while i < fields.entries.len()
        invariant
            i <= fields.entries.len(),
            field_lookup(fields@, key@) == field_lookup(fields@.skip(i as int), key@),
        decreases fields.entries.len() - i,
    {
        let ghost rest = fields@.skip(i as int);
        assert(rest[0] == fields@[i as int]);
        assert(rest.drop_first() =~= fields@.skip(i + 1));
        if str_eq(fields.entries[i].0.as_str(), key) {
            let v = match &fields.entries[i].1 {
                Some(s) => Some(s.clone()),
                None => None,
            };
            return Some(v);
        }
        i = i + 1;
    }
    assert(fields@.skip(i as int).len() == 0);
    None
}

/// The first of `keys` whose member is a JSON string, its text trimmed, when not blank.
pub fn string_field(fields: &JsonFields, keys: &[&str]) -> (r: Option<String>)
    ensures
        opt_view(r) == string_field_spec(fields@, keys_view(keys@)),
        r matches Some(t) ==> !is_blank(t@),
{
    let ghost ks = keys_view(keys@);
    let mut i: usize = 0;
    let mut found: Option<String> = None;
    assert(ks.skip(0) =~= ks);
    while i < keys.len() && found.is_none()
        invariant
            i <= keys.len(),
            ks == keys_view(keys@),
            found is None ==> first_string_field(fields@, ks) == first_string_field(
                fields@,
                ks.skip(i as int),
            ),
            found matches Some(s) ==> first_string_field(fields@, ks) == Some(s@),
        decreases keys.len() - i,
    {
        let ghost rest = ks.skip(i as int);
        assert(rest[0] == keys@[i as int]@);
        assert(rest.drop_first() =~= ks.skip(i + 1));
        match lookup_field(fields, keys[i]) {
            Some(Some(s)) => {
                found = Some(s);
            },
            _ => {},
        }
        i = i + 1;
    }
    match found {
        Some(s) => {
            let t = trimmed(s.as_str());
            proof {
                crate::text::lemma_trim_idempotent(s@);
            }
            if t.as_str().is_empty() {
                None
            } else {
                Some(t)
            }
        },
        None => {
            assert(ks.skip(i as int).len() == 0);
            None
        },
    }
}

// ------------------------------------------------------------ normalisation

pub open spec fn is_reply_mode(m: Seq<char>) -> bool {
    m == "normal"@ || m == "expert"@ || m == "night"@
}

/// The first three repairs, which look at the settings alone.
pub open spec fn repair_fields(c: ConfigView) -> ConfigView {
    let c1 = if is_reply_mode(c.ai_reply_mode) {
        c
    } else {
        ConfigView { ai_reply_mode: "normal"@, ..c }
    };
    let c2 = if is_blank(c1.weather_provider) {
        ConfigView { weather_provider: "apihz"@, ..c1 }
    } else {
        c1
    };
    if is_blank(c2.weather_fallback_text) {
        ConfigView { weather_fallback_text: "未更新"@, ..c2 }
    } else {
        c2
    }
}

/// `normalize_config`: repairs an unknown reply mode, a blank weather provider and a
/// blank fallback text; then, when the file the settings came from has no fallback key
/// of its own and the fallback text is the default one, takes the file's old
/// `weatherText` (trimmed, when not blank) as the fallback text.
pub open spec fn normalize_spec(
    c: ConfigView,
    raw: Option<Seq<(Seq<char>, Option<Seq<char>>)>>,
) -> ConfigView {
    let c3 = repair_fields(c);
    match raw {
        None => c3,
        Some(f) => {
            let has_new_fallback = has_field(f, "weatherFallbackText"@) || has_field(
                f,
                "weather_fallback_text"@,
            );
            if !has_new_fallback && c3.weather_fallback_text == "未更新"@ {
                match string_field_spec(f, seq!["weatherText"@, "weather_text"@]) {
                    Some(t) => ConfigView { weather_fallback_text: t, ..c3 },
                    None => c3,
                }
            } else {
                c3
            }
        },
    }
}

/// What every normalised configuration satisfies.
pub open spec fn is_normalized(c: ConfigView) -> bool {
    &&& is_reply_mode(c.ai_reply_mode)
    &&& !is_blank(c.weather_provider)
    &&& !is_blank(c.weather_fallback_text)
}

pub open spec fn json_fields_opt(raw: Option<&JsonFields>) -> Option<
    Seq<(Seq<char>, Option<Seq<char>>)>,
> {
    match raw {
        Some(f) => Some(f@),
        None => None,
    }
}

proof fn lemma_blank_literals()
    ensures
        !is_blank("apihz"@),
        !is_blank("未更新"@),
{
    reveal_strlit("apihz");
    reveal_strlit("未更新");
    assert(!crate::text::is_ws('a'));
    assert(!crate::text::is_ws('未'));
    let a = "apihz"@;
    assert(crate::text::strip_front(a, CharPred::Space) == a);
    assert(crate::text::strip_back(a, CharPred::Space) == a);
    let b = "未更新"@;
    assert(!crate::text::is_ws('新'));
    assert(crate::text::strip_front(b, CharPred::Space) == b);
    assert(crate::text::strip_back(b, CharPred::Space) == b);
}

/// Repairs the settings as [`normalize_spec`] says.
pub fn normalize_config(config: AppConfig, raw: Option<&JsonFields>) -> (r: AppConfig)
    ensures
        r@ == normalize_spec(config@, json_fields_opt(raw)),
        is_normalized(r@),
{
    proof {
        lemma_blank_literals();
    }
    let ghost c0 = config@;
    let mut config = config;
    if !(str_eq(config.ai_reply_mode.as_str(), "normal") || str_eq(
        config.ai_reply_mode.as_str(),
        "expert",
    ) || str_eq(config.ai_reply_mode.as_str(), "night")) {
        config.ai_reply_mode = String::from_str("normal");
    }
    if blank(config.weather_provider.as_str()) {
        config.weather_provider = String::from_str("apihz");
    }
    if blank(config.weather_fallback_text.as_str()) {
        config.weather_fallback_text = String::from_str("未更新");
    }
    assert(config@ == repair_fields(c0));
    match raw {
        None => config,
        Some(f) => {
            let has_new = lookup_field(f, "weatherFallbackText").is_some() || lookup_field(
                f,
                "weather_fallback_text",
            ).is_some();
            if !has_new && str_eq(config.weather_fallback_text.as_str(), "未更新") {
                let keys: [&str; 2] = ["weatherText", "weather_text"];
                assert(keys_view(keys@) =~= seq!["weatherText"@, "weather_text"@]);
                match string_field(f, &keys) {
                    Some(t) => {
                        config.weather_fallback_text = t;
                    },
                    None => {},
                }
            }
            config
        },
    }
}

} // verus!

verus! {

// ------------------------------------------------------------ loose recovery

/// `"key"`, the text a member's name starts with.
pub open spec fn quoted(key: Seq<char>) -> Seq<char> {
    seq!['"'] + key + seq!['"']
}

/// What one line yields for `key` before any JSON decoding: `None` when the trimmed
/// line does not start with `"key"`, has no `:`, or its value is empty or `null`;
/// otherwise whether the value is a whole JSON string literal, and the text to use.
pub open spec fn line_candidate(line: Seq<char>, key: Seq<char>) -> Option<(bool, Seq<char>)> {
    let t = trim(line);
    if !starts_with(t, quoted(key)) {
        None
    } else {
        match after_first(t, ':') {
            None => None,
            Some(rest) => {
                let v = trim(strip_back(trim(rest), CharPred::Exactly(',')));
                if v.len() == 0 || v == "null"@ {
                    None
                } else if v[0] == '"' && v.last() == '"' && v.len() >= 2 {
                    Some((true, v))
                } else if v[0] == '"' {
                    Some((false, strip_back(v.drop_first(), CharPred::Exactly('"'))))
                } else {
                    Some((false, trim_char(v, '"')))
                }
            },
        }
    }
}

/// The value one line gives for `key`; a quoted value is decoded as a JSON string.
pub open spec fn line_result(line: Seq<char>, key: Seq<char>) -> Option<Seq<char>> {
    match line_candidate(line, key) {
        None => None,
        Some((true, v)) => json_string_value(v),
        Some((false, v)) => Some(v),
    }
}

pub open spec fn first_line_result(lines: Seq<Seq<char>>, key: Seq<char>) -> Option<Seq<char>>
    decreases lines.len(),
{
    if lines.len() == 0 {
        None
    } else {
        match line_result(lines[0], key) {
            Some(v) => Some(v),
            None => first_line_result(lines.drop_first(), key),
        }
    }
}

/// `loose_value`: the first line of `raw` that yields a value for `key`.
pub open spec fn loose_value_spec(raw: Seq<char>, key: Seq<char>) -> Option<Seq<char>> {
    first_line_result(split_lines(raw), key)
}

/// The value of the first of `keys` that some line yields.
pub open spec fn first_key_value(raw: Seq<char>, keys: Seq<Seq<char>>) -> Option<Seq<char>>
    decreases keys.len(),
{
    if keys.len() == 0 {
        None
    } else {
        match loose_value_spec(raw, keys[0]) {
            Some(v) => Some(v),
            None => first_key_value(raw, keys.drop_first()),
        }
    }
}

/// `loose_string`: that value trimmed, when it is not blank.
pub open spec fn loose_string_spec(raw: Seq<char>, keys: Seq<Seq<char>>) -> Option<Seq<char>> {
    match first_key_value(raw, keys) {
        Some(v) => if trim(v).len() > 0 {
            Some(trim(v))
        } else {
            None
        },
        None => None,
    }
}

pub open spec fn loose_u32_spec(raw: Seq<char>, keys: Seq<Seq<char>>) -> Option<u32> {
    match loose_string_spec(raw, keys) {
        Some(v) => parse_u32(v),
        None => None,
    }
}

pub open spec fn loose_bool_spec(raw: Seq<char>, keys: Seq<Seq<char>>) -> Option<bool> {
    match loose_string_spec(raw, keys) {
        Some(v) => if v == "true"@ {
            Some(true)
        } else if v == "false"@ {
            Some(false)
        } else {
            None
        },
        None => None,
    }
}

/// The text of `raw` split into lines, kept with their bounds.
struct RawLines {
    chars: Vec<char>,
    lines: Vec<(usize, usize)>,
}

impl RawLines {
    spec fn wf(&self) -> bool {
        &&& self.lines@.len() == split_lines(self.chars@).len()
        &&& forall|j: int|
            0 <= j < self.lines@.len() ==> {
                &&& (#[trigger] self.lines@[j]).0 <= self.lines@[j].1 <= self.chars@.len()
                &&& self.chars@.subrange(self.lines@[j].0 as int, self.lines@[j].1 as int)
                    == split_lines(self.chars@)[j]
            }
    }

    fn new(raw: &str) -> (r: RawLines)
        ensures
            r.wf(),
            r.chars@ == raw@,
    {
        let chars = chars_of(raw);
        let lines = line_ranges(&chars);
        RawLines { chars, lines }
    }
}

fn quoted_key(key: &str) -> (n: Vec<char>)
    ensures
        n@ == quoted(key@),
{
    let mut n: Vec<char> = Vec::new();
    n.push('"');
    let k = chars_of(key);
    let mut i: usize = 0;
    while i < k.len()
        invariant
            i <= k.len(),
            n@ == seq!['"'] + k@.take(i as int),
        decreases k.len() - i,
    {
        n.push(k[i]);
        assert(k@.take(i + 1) =~= k@.take(i as int).push(k@[i as int]));
        i = i + 1;
    }
    n.push('"');
    assert(k@.take(k@.len() as int) =~= k@);
    assert(n@ =~= quoted(key@));
    n
}

/// The value that the line `v[a..b]` gives for the key whose quoted name is `needle`.
fn line_value(v: &Vec<char>, a: usize, b: usize, needle: &Vec<char>, key: Ghost<Seq<char>>) -> (r:
    Option<String>)
    requires
        a <= b <= v.len(),
        needle@ == quoted(key@),
    ensures
        opt_view(r) == line_result(v@.subrange(a as int, b as int), key@),
{
    let ghost line = v@.subrange(a as int, b as int);
    let (ta, tb) = trim_range(v, a, b);
    if !range_starts_with(v, ta, tb, needle) {
        return None;
    }
    let colon = find_char(v, ta, tb, ':');
    let k = match colon {
        None => {
            return None;
        },
        Some(k) => k,
    };
    let (ra, rb) = trim_range(v, k + 1, tb);
    let cb = skip_back(v, ra, rb, CharPred::Exactly(','));
    let (va, vb) = trim_range(v, ra, cb);
    let ghost val = v@.subrange(va as int, vb as int);
    if va == vb {
        return None;
    }
    let null = chars_of("null");
    if range_equals(v, va, vb, &null) {
        return None;
    }
    assert(val[0] == v@[va as int]);
    assert(val.last() == v@[vb - 1]);
    if v[va] == '"' && v[vb - 1] == '"' && vb - va >= 2 {
        let text = string_of_range(v, va, vb);
        parse_json_string(text.as_str())
    } else if v[va] == '"' {
        assert(val.drop_first() =~= v@.subrange(va + 1, vb as int));
        let e = skip_back(v, va + 1, vb, CharPred::Exactly('"'));
        Some(string_of_range(v, va + 1, e))
    } else {
        let s = crate::text::skip_front(v, va, vb, CharPred::Exactly('"'));
        let e = skip_back(v, s, vb, CharPred::Exactly('"'));
        Some(string_of_range(v, s, e))
    }
}

fn loose_value_in(raw: &RawLines, key: &str) -> (r: Option<String>)
    requires
        raw.wf(),
    ensures
        opt_view(r) == loose_value_spec(raw.chars@, key@),
{
    let needle = quoted_key(key);
    let ghost ls = split_lines(raw.chars@);
    let mut j: usize = 0;
    assert(ls.skip(0) =~= ls);
    while j < raw.lines.len()
        invariant
            raw.wf(),
            ls == split_lines(raw.chars@),
            needle@ == quoted(key@),
            j <= raw.lines@.len(),
            first_line_result(ls, key@) == first_line_result(ls.skip(j as int), key@),
        decreases raw.lines.len() - j,
    {
        let ghost rest = ls.skip(j as int);
        assert(rest[0] == ls[j as int]);
        assert(rest.drop_first() =~= ls.skip(j + 1));
        let (a, b) = raw.lines[j];
        match line_value(&raw.chars, a, b, &needle, Ghost(key@)) {
            Some(x) => {
                return Some(x);
            },
            None => {},
        }
        j = j + 1;
    }
    assert(ls.skip(j as int).len() == 0);
    None
}

/// The value that the first matching line of `raw` gives for `key`.
pub fn loose_value(raw: &str, key: &str) -> (r: Option<String>)
    ensures
        opt_view(r) == loose_value_spec(raw@, key@),
{
    let lines = RawLines::new(raw);
    loose_value_in(&lines, key)
}

fn loose_string_in(raw: &RawLines, keys: &[&str]) -> (r: Option<String>)
    requires
        raw.wf(),
    ensures
        opt_view(r) == loose_string_spec(raw.chars@, keys_view(keys@)),
        r matches Some(t) ==> !is_blank(t@),
{
    let ghost ks = keys_view(keys@);
    let mut i: usize = 0;
    let mut found: Option<String> = None;
    assert(ks.skip(0) =~= ks);
    while i < keys.len() && found.is_none()
        invariant
            raw.wf(),
            i <= keys.len(),
            ks == keys_view(keys@),
            found is None ==> first_key_value(raw.chars@, ks) == first_key_value(
                raw.chars@,
                ks.skip(i as int),
            ),
            found matches Some(s) ==> first_key_value(raw.chars@, ks) == Some(s@),
        decreases keys.len() - i,
    {
        let ghost rest = ks.skip(i as int);
        assert(rest[0] == keys@[i as int]@);
        assert(rest.drop_first() =~= ks.skip(i + 1));
        found = loose_value_in(raw, keys[i]);
        i = i + 1;
    }
    match found {
        Some(s) => {
            let t = trimmed(s.as_str());
            proof {
                crate::text::lemma_trim_idempotent(s@);
            }
            if t.as_str().is_empty() {
                None
            } else {
                Some(t)
            }
        },
        None => {
            assert(ks.skip(i as int).len() == 0);
            None
        },
    }
}

/// `loose_string`: the first of `keys` that a line of `raw` gives a value for,
/// trimmed, when it is not blank.
pub fn loose_string(raw: &str, keys: &[&str]) -> (r: Option<String>)
    ensures
        opt_view(r) == loose_string_spec(raw@, keys_view(keys@)),
{
    let lines = RawLines::new(raw);
    loose_string_in(&lines, keys)
}

fn loose_u32_in(raw: &RawLines, keys: &[&str]) -> (r: Option<u32>)
    requires
        raw.wf(),
    ensures
        r == loose_u32_spec(raw.chars@, keys_view(keys@)),
{
    match loose_string_in(raw, keys) {
        Some(s) => {
            let c = chars_of(s.as_str());
            let r = parse_u32_range(&c, 0, c.len());
            assert(c@.subrange(0, c@.len() as int) =~= c@);
            r
        },
        None => None,
    }
}

/// `loose_u32`: that text read as a `u32`.
pub fn loose_u32(raw: &str, keys: &[&str]) -> (r: Option<u32>)
    ensures
        r == loose_u32_spec(raw@, keys_view(keys@)),
{
    let lines = RawLines::new(raw);
    loose_u32_in(&lines, keys)
}

fn loose_bool_in(raw: &RawLines, keys: &[&str]) -> (r: Option<bool>)
    requires
        raw.wf(),
    ensures
        r == loose_bool_spec(raw.chars@, keys_view(keys@)),
{
    match loose_string_in(raw, keys) {
        Some(s) => {
            if str_eq(s.as_str(), "true") {
                Some(true)
            } else if str_eq(s.as_str(), "false") {
                Some(false)
            } else {
                None
            }
        },
        None => None,
    }
}

/// `loose_bool`: that text when it is `true` or `false`.
pub fn loose_bool(raw: &str, keys: &[&str]) -> (r: Option<bool>)
    ensures
        r == loose_bool_spec(raw@, keys_view(keys@)),
{
    let lines = RawLines::new(raw);
    loose_bool_in(&lines, keys)
}

} // verus!

verus! {

/// Each setting that some line of `raw` gives a value for, the default for the rest.
pub open spec fn recovered_fields(raw: Seq<char>) -> ConfigView {
    let d = default_config();
    ConfigView {
        weather_text: match loose_string_spec(raw, seq!["weatherText"@, "weather_text"@]) {
            Some(v) => v,
            None => d.weather_text,
        },
        focus_minutes: match loose_u32_spec(raw, seq!["focusMinutes"@, "focus_minutes"@]) {
            Some(v) => v,
            None => d.focus_minutes,
        },
        show_spectrum: match loose_bool_spec(raw, seq!["showSpectrum"@, "show_spectrum"@]) {
            Some(v) => v,
            None => d.show_spectrum,
        },
        wallpaper_status_text: match loose_string_spec(raw, seq!["wallpaperStatusText"@, "wallpaper_status_text"@]) {
            Some(v) => v,
            None => d.wallpaper_status_text,
        },
        default_wallpaper_folder: match loose_string_spec(raw, seq!["defaultWallpaperFolder"@, "default_wallpaper_folder"@, "wallpaperDir"@, "wallpaper_dir"@]) {
            Some(v) => v,
            None => d.default_wallpaper_folder,
        },
        alternate_wallpaper_folder: match loose_string_spec(raw, seq!["alternateWallpaperFolder"@, "alternate_wallpaper_folder"@, "backupWallpaperDir"@, "backup_wallpaper_dir"@]) {
            Some(v) => v,
            None => d.alternate_wallpaper_folder,
        },
        wallpaper_interval_ms: match loose_u32_spec(raw, seq!["wallpaperIntervalMs"@, "wallpaper_interval_ms"@]) {
            Some(v) => v,
            None => d.wallpaper_interval_ms,
        },
        deepseek_api_key: match loose_string_spec(raw, seq!["deepseekApiKey"@, "deepseek_api_key"@]) {
            Some(v) => v,
            None => d.deepseek_api_key,
        },
        deepseek_base_url: match loose_string_spec(raw, seq!["deepseekBaseUrl"@, "deepseek_base_url"@]) {
            Some(v) => v,
            None => d.deepseek_base_url,
        },
        deepseek_model: match loose_string_spec(raw, seq!["deepseekModel"@, "deepseek_model"@]) {
            Some(v) => v,
            None => d.deepseek_model,
        },
        ai_reply_mode: match loose_string_spec(raw, seq!["aiReplyMode"@, "ai_reply_mode"@]) {
            Some(v) => v,
            None => d.ai_reply_mode,
        },
        weather_city_code: match loose_string_spec(raw, seq!["weatherCityCode"@, "weather_city_code"@]) {
            Some(v) => v,
            None => d.weather_city_code,
        },
        weather_provider: match loose_string_spec(raw, seq!["weatherProvider"@, "weather_provider"@]) {
            Some(v) => v,
            None => d.weather_provider,
        },
        weather_api_id: match loose_string_spec(raw, seq!["weatherApiId"@, "weather_api_id"@]) {
            Some(v) => v,
            None => d.weather_api_id,
        },
        weather_api_key: match loose_string_spec(raw, seq!["weatherApiKey"@, "weather_api_key"@]) {
            Some(v) => v,
            None => d.weather_api_key,
        },
        weather_province: match loose_string_spec(raw, seq!["weatherProvince"@, "weather_province"@]) {
            Some(v) => v,
            None => d.weather_province,
        },
        weather_place: match loose_string_spec(raw, seq!["weatherPlace"@, "weather_place"@]) {
            Some(v) => v,
            None => d.weather_place,
        },
        weather_fallback_text: match loose_string_spec(raw, seq!["weatherFallbackText"@, "weather_fallback_text"@, "weatherText"@, "weather_text"@]) {
            Some(v) => v,
            None => d.weather_fallback_text,
        },
        smart_weather_app_id: match loose_string_spec(raw, seq!["smartWeatherAppId"@, "smart_weather_app_id"@]) {
            Some(v) => v,
            None => d.smart_weather_app_id,
        },
        smart_weather_private_key: match loose_string_spec(raw, seq!["smartWeatherPrivateKey"@, "smart_weather_private_key"@]) {
            Some(v) => v,
            None => d.smart_weather_private_key,
        },
        last_weather_text: match loose_string_spec(raw, seq!["lastWeatherText"@, "last_weather_text"@]) {
            Some(v) => v,
            None => d.last_weather_text,
        },
        extra: d.extra,
    }
}

/// Whether some line of `raw` gives a value for at least one setting.
pub open spec fn anything_recovered(raw: Seq<char>) -> bool {
    ||| loose_u32_spec(raw, seq!["focusMinutes"@, "focus_minutes"@]) is Some
    ||| loose_bool_spec(raw, seq!["showSpectrum"@, "show_spectrum"@]) is Some
    ||| loose_u32_spec(raw, seq!["wallpaperIntervalMs"@, "wallpaper_interval_ms"@]) is Some
    ||| loose_string_spec(raw, seq!["weatherText"@, "weather_text"@]) is Some
    ||| loose_string_spec(raw, seq!["wallpaperStatusText"@, "wallpaper_status_text"@]) is Some
    ||| loose_string_spec(raw, seq!["defaultWallpaperFolder"@, "default_wallpaper_folder"@, "wallpaperDir"@, "wallpaper_dir"@]) is Some
    ||| loose_string_spec(raw, seq!["alternateWallpaperFolder"@, "alternate_wallpaper_folder"@, "backupWallpaperDir"@, "backup_wallpaper_dir"@]) is Some
    ||| loose_string_spec(raw, seq!["deepseekApiKey"@, "deepseek_api_key"@]) is Some
    ||| loose_string_spec(raw, seq!["deepseekBaseUrl"@, "deepseek_base_url"@]) is Some
    ||| loose_string_spec(raw, seq!["deepseekModel"@, "deepseek_model"@]) is Some
    ||| loose_string_spec(raw, seq!["aiReplyMode"@, "ai_reply_mode"@]) is Some
    ||| loose_string_spec(raw, seq!["weatherCityCode"@, "weather_city_code"@]) is Some
    ||| loose_string_spec(raw, seq!["weatherProvider"@, "weather_provider"@]) is Some
    ||| loose_string_spec(raw, seq!["weatherApiId"@, "weather_api_id"@]) is Some
    ||| loose_string_spec(raw, seq!["weatherApiKey"@, "weather_api_key"@]) is Some
    ||| loose_string_spec(raw, seq!["weatherProvince"@, "weather_province"@]) is Some
    ||| loose_string_spec(raw, seq!["weatherPlace"@, "weather_place"@]) is Some
    ||| loose_string_spec(raw, seq!["weatherFallbackText"@, "weather_fallback_text"@, "weatherText"@, "weather_text"@]) is Some
    ||| loose_string_spec(raw, seq!["smartWeatherAppId"@, "smart_weather_app_id"@]) is Some
    ||| loose_string_spec(raw, seq!["smartWeatherPrivateKey"@, "smart_weather_private_key"@]) is Some
    ||| loose_string_spec(raw, seq!["lastWeatherText"@, "last_weather_text"@]) is Some
}

fn text_or(o: Option<String>, d: String) -> (r: String)
    ensures
        r@ == match opt_view(o) {
            Some(v) => v,
            None => d@,
        },
{
    match o {
        Some(v) => v,
        None => d,
    }
}

/// `recover_config_from_loose_json`: the settings that the lines of a file that is not
/// valid JSON still give, normalised; `None` when no line gives any.
#[verifier::rlimit(30)]
pub fn recover_config_from_loose_json(raw: &str) -> (r: Option<AppConfig>)
    ensures
        match r {
            Some(c) => anything_recovered(raw@) && c@ == normalize_spec(recovered_fields(raw@), None),
            None => !anything_recovered(raw@),
        },
        r matches Some(c) ==> is_normalized(c@),
{
    let lines = RawLines::new(raw);
    let d = AppConfig::default();
    let k: [&str; 2] = ["focusMinutes", "focus_minutes"];
    assert(keys_view(k@) =~= seq!["focusMinutes"@, "focus_minutes"@]);
    let v_focus_minutes = loose_u32_in(&lines, &k);
    let k: [&str; 2] = ["showSpectrum", "show_spectrum"];
    assert(keys_view(k@) =~= seq!["showSpectrum"@, "show_spectrum"@]);
    let v_show_spectrum = loose_bool_in(&lines, &k);
    let k: [&str; 2] = ["wallpaperIntervalMs", "wallpaper_interval_ms"];
    assert(keys_view(k@) =~= seq!["wallpaperIntervalMs"@, "wallpaper_interval_ms"@]);
    let v_wallpaper_interval_ms = loose_u32_in(&lines, &k);
    let k: [&str; 2] = ["weatherText", "weather_text"];
    assert(keys_view(k@) =~= seq!["weatherText"@, "weather_text"@]);
    let v_weather_text = loose_string_in(&lines, &k);
    let k: [&str; 2] = ["wallpaperStatusText", "wallpaper_status_text"];
    assert(keys_view(k@) =~= seq!["wallpaperStatusText"@, "wallpaper_status_text"@]);
    let v_wallpaper_status_text = loose_string_in(&lines, &k);
    let k: [&str; 4] = ["defaultWallpaperFolder", "default_wallpaper_folder", "wallpaperDir", "wallpaper_dir"];
    assert(keys_view(k@) =~= seq!["defaultWallpaperFolder"@, "default_wallpaper_folder"@, "wallpaperDir"@, "wallpaper_dir"@]);
    let v_default_wallpaper_folder = loose_string_in(&lines, &k);
    let k: [&str; 4] = ["alternateWallpaperFolder", "alternate_wallpaper_folder", "backupWallpaperDir", "backup_wallpaper_dir"];
    assert(keys_view(k@) =~= seq!["alternateWallpaperFolder"@, "alternate_wallpaper_folder"@, "backupWallpaperDir"@, "backup_wallpaper_dir"@]);
    let v_alternate_wallpaper_folder = loose_string_in(&lines, &k);
    let k: [&str; 2] = ["deepseekApiKey", "deepseek_api_key"];
    assert(keys_view(k@) =~= seq!["deepseekApiKey"@, "deepseek_api_key"@]);
    let v_deepseek_api_key = loose_string_in(&lines, &k);
    let k: [&str; 2] = ["deepseekBaseUrl", "deepseek_base_url"];
    assert(keys_view(k@) =~= seq!["deepseekBaseUrl"@, "deepseek_base_url"@]);
    let v_deepseek_base_url = loose_string_in(&lines, &k);
    let k: [&str; 2] = ["deepseekModel", "deepseek_model"];
    assert(keys_view(k@) =~= seq!["deepseekModel"@, "deepseek_model"@]);
    let v_deepseek_model = loose_string_in(&lines, &k);
    let k: [&str; 2] = ["aiReplyMode", "ai_reply_mode"];
    assert(keys_view(k@) =~= seq!["aiReplyMode"@, "ai_reply_mode"@]);
    let v_ai_reply_mode = loose_string_in(&lines, &k);
    let k: [&str; 2] = ["weatherCityCode", "weather_city_code"];
    assert(keys_view(k@) =~= seq!["weatherCityCode"@, "weather_city_code"@]);
    let v_weather_city_code = loose_string_in(&lines, &k);
    let k: [&str; 2] = ["weatherProvider", "weather_provider"];
    assert(keys_view(k@) =~= seq!["weatherProvider"@, "weather_provider"@]);
    let v_weather_provider = loose_string_in(&lines, &k);
    let k: [&str; 2] = ["weatherApiId", "weather_api_id"];
    assert(keys_view(k@) =~= seq!["weatherApiId"@, "weather_api_id"@]);
    let v_weather_api_id = loose_string_in(&lines, &k);
    let k: [&str; 2] = ["weatherApiKey", "weather_api_key"];
    assert(keys_view(k@) =~= seq!["weatherApiKey"@, "weather_api_key"@]);
    let v_weather_api_key = loose_string_in(&lines, &k);
    let k: [&str; 2] = ["weatherProvince", "weather_province"];
    assert(keys_view(k@) =~= seq!["weatherProvince"@, "weather_province"@]);
    let v_weather_province = loose_string_in(&lines, &k);
    let k: [&str; 2] = ["weatherPlace", "weather_place"];
    assert(keys_view(k@) =~= seq!["weatherPlace"@, "weather_place"@]);
    let v_weather_place = loose_string_in(&lines, &k);
    let k: [&str; 4] = ["weatherFallbackText", "weather_fallback_text", "weatherText", "weather_text"];
    assert(keys_view(k@) =~= seq!["weatherFallbackText"@, "weather_fallback_text"@, "weatherText"@, "weather_text"@]);
    let v_weather_fallback_text = loose_string_in(&lines, &k);
    let k: [&str; 2] = ["smartWeatherAppId", "smart_weather_app_id"];
    assert(keys_view(k@) =~= seq!["smartWeatherAppId"@, "smart_weather_app_id"@]);
    let v_smart_weather_app_id = loose_string_in(&lines, &k);
    let k: [&str; 2] = ["smartWeatherPrivateKey", "smart_weather_private_key"];
    assert(keys_view(k@) =~= seq!["smartWeatherPrivateKey"@, "smart_weather_private_key"@]);
    let v_smart_weather_private_key = loose_string_in(&lines, &k);
    let k: [&str; 2] = ["lastWeatherText", "last_weather_text"];
    assert(keys_view(k@) =~= seq!["lastWeatherText"@, "last_weather_text"@]);
    let v_last_weather_text = loose_string_in(&lines, &k);
    let recovered = v_focus_minutes.is_some() || v_show_spectrum.is_some() || v_wallpaper_interval_ms.is_some() || v_weather_text.is_some() || v_wallpaper_status_text.is_some() || v_default_wallpaper_folder.is_some() || v_alternate_wallpaper_folder.is_some() || v_deepseek_api_key.is_some() || v_deepseek_base_url.is_some() || v_deepseek_model.is_some() || v_ai_reply_mode.is_some() || v_weather_city_code.is_some() || v_weather_provider.is_some() || v_weather_api_id.is_some() || v_weather_api_key.is_some() || v_weather_province.is_some() || v_weather_place.is_some() || v_weather_fallback_text.is_some() || v_smart_weather_app_id.is_some() || v_smart_weather_private_key.is_some() || v_last_weather_text.is_some();
    let config = AppConfig {
        weather_text: text_or(v_weather_text, d.weather_text),
        focus_minutes: match v_focus_minutes {
            Some(v) => v,
            None => d.focus_minutes,
        },
        show_spectrum: match v_show_spectrum {
            Some(v) => v,
            None => d.show_spectrum,
        },
        wallpaper_status_text: text_or(v_wallpaper_status_text, d.wallpaper_status_text),
        default_wallpaper_folder: text_or(v_default_wallpaper_folder, d.default_wallpaper_folder),
        alternate_wallpaper_folder: text_or(v_alternate_wallpaper_folder, d.alternate_wallpaper_folder),
        wallpaper_interval_ms: match v_wallpaper_interval_ms {
            Some(v) => v,
            None => d.wallpaper_interval_ms,
        },
        deepseek_api_key: text_or(v_deepseek_api_key, d.deepseek_api_key),
        deepseek_base_url: text_or(v_deepseek_base_url, d.deepseek_base_url),
        deepseek_model: text_or(v_deepseek_model, d.deepseek_model),
        ai_reply_mode: text_or(v_ai_reply_mode, d.ai_reply_mode),
        weather_city_code: text_or(v_weather_city_code, d.weather_city_code),
        weather_provider: text_or(v_weather_provider, d.weather_provider),
        weather_api_id: text_or(v_weather_api_id, d.weather_api_id),
        weather_api_key: text_or(v_weather_api_key, d.weather_api_key),
        weather_province: text_or(v_weather_province, d.weather_province),
        weather_place: text_or(v_weather_place, d.weather_place),
        weather_fallback_text: text_or(v_weather_fallback_text, d.weather_fallback_text),
        smart_weather_app_id: text_or(v_smart_weather_app_id, d.smart_weather_app_id),
        smart_weather_private_key: text_or(v_smart_weather_private_key, d.smart_weather_private_key),
        last_weather_text: text_or(v_last_weather_text, d.last_weather_text),
        extra: d.extra,
    };
    assert(config@ == recovered_fields(raw@));
    if recovered {
        Some(normalize_config(config, None))
    } else {
        None
    }
}

} // verus!

verus! {

// ------------------------------------------------------------ loading and saving

pub open spec fn filled(s: Seq<char>) -> nat {
    if is_blank(s) { 0 } else { 1 }
}

/// How many of the nine settings a lost form would empty are filled in.
pub open spec fn critical_count_spec(c: ConfigView) -> nat {
    filled(c.deepseek_api_key) + filled(c.deepseek_base_url) + filled(c.deepseek_model)
        + filled(c.weather_api_id) + filled(c.weather_api_key) + filled(c.weather_province)
        + filled(c.weather_place) + filled(c.default_wallpaper_folder) + filled(
        c.alternate_wallpaper_folder,
    )
}

/// A save would put a mostly empty form over settings that had at least five of them.
pub open spec fn overwrite_risk_spec(old: ConfigView, new: ConfigView) -> bool {
    critical_count_spec(old) >= 5 && critical_count_spec(new) + 3 < critical_count_spec(old)
}

fn filled_exec(s: &String) -> (n: usize)
    ensures
        n == filled(s@),
{
    if blank(s.as_str()) {
        0
    } else {
        1
    }
}

/// How many of the nine critical settings are filled in.
pub fn nonempty_critical_count(config: &AppConfig) -> (n: usize)
    ensures
        n == critical_count_spec(config@),
        n <= 9,
{
    filled_exec(&config.deepseek_api_key) + filled_exec(&config.deepseek_base_url) + filled_exec(
        &config.deepseek_model,
    ) + filled_exec(&config.weather_api_id) + filled_exec(&config.weather_api_key) + filled_exec(
        &config.weather_province,
    ) + filled_exec(&config.weather_place) + filled_exec(&config.default_wallpaper_folder)
        + filled_exec(&config.alternate_wallpaper_folder)
}

/// Whether saving `new_config` would put a mostly empty form over `old`.
pub fn has_empty_form_overwrite_risk(old: &AppConfig, new_config: &AppConfig) -> (r: bool)
    ensures
        r == overwrite_risk_spec(old@, new_config@),
{
    let old_count = nonempty_critical_count(old);
    let new_count = nonempty_critical_count(new_config);
    old_count >= 5 && new_count + 3 < old_count
}

pub open spec fn result_view(r: Result<AppConfig, String>) -> Result<ConfigView, Seq<char>> {
    match r {
        Ok(c) => Ok(c@),
        Err(e) => Err(e@),
    }
}

/// What reading the text of the settings file gives: when the text is JSON, the settings
/// that `serde` read from it (`typed`), normalised with the file's own members, or the
/// field error; when it is not JSON, the settings its lines still give, or the JSON error.
pub open spec fn config_from_text_spec(raw: Seq<char>, typed: Result<ConfigView, Seq<char>>) -> Result<
    ConfigView,
    Seq<char>,
> {
    match json_object_fields(raw) {
        Ok(f) => match typed {
            Ok(c) => Ok(normalize_spec(c, Some(f))),
            Err(e) => Err("配置字段解析失败，已停止读取："@ + e),
        },
        Err(e) => if anything_recovered(raw) {
            Ok(normalize_spec(recovered_fields(raw), None))
        } else {
            Err("配置文件解析失败，已停止读取："@ + e)
        },
    }
}

/// The decision of `read_existing_config` once the file's text is read: `typed` is what
/// `serde` gives for the same JSON value, with its error's text.
pub fn config_from_text(raw: &str, typed: Result<AppConfig, String>) -> (r: Result<AppConfig, String>)
    ensures
        result_view(r) == config_from_text_spec(raw@, result_view(typed)),
        r matches Ok(c) ==> is_normalized(c@),
{
    match parse_json_fields(raw) {
        Ok(fields) => match typed {
            Ok(parsed) => Ok(normalize_config(parsed, Some(&fields))),
            Err(e) => {
                let mut msg = String::from_str("配置字段解析失败，已停止读取：");
                msg.append(e.as_str());
                Err(msg)
            },
        },
        Err(e) => match recover_config_from_loose_json(raw) {
            Some(c) => Ok(c),
            None => {
                let mut msg = String::from_str("配置文件解析失败，已停止读取：");
                msg.append(e.as_str());
                Err(msg)
            },
        },
    }
}

/// What `save_config` lets through: the settings normalised, unless they would put a
/// mostly empty form over the saved settings.
pub open spec fn config_save_spec(config: ConfigView, old: Option<ConfigView>) -> Result<
    ConfigView,
    Seq<char>,
> {
    let next = normalize_spec(config, None);
    match old {
        Some(o) => if overwrite_risk_spec(o, next) {
            Err("配置尚未正确加载，已阻止覆盖旧配置"@)
        } else {
            Ok(next)
        },
        None => Ok(next),
    }
}

pub open spec fn option_view(o: Option<AppConfig>) -> Option<ConfigView> {
    match o {
        Some(c) => Some(c@),
        None => None,
    }
}

/// The decision of `save_config` once the saved settings (if any) are read.
pub fn check_config_save(config: AppConfig, old: Option<AppConfig>) -> (r: Result<AppConfig, String>)
    ensures
        result_view(r) == config_save_spec(config@, option_view(old)),
        r matches Ok(c) ==> is_normalized(c@),
{
    let next = normalize_config(config, None);
    match old {
        Some(o) => {
            if has_empty_form_overwrite_risk(&o, &next) {
                Err(String::from_str("配置尚未正确加载，已阻止覆盖旧配置"))
            } else {
                Ok(next)
            }
        },
        None => Ok(next),
    }
}

/// A file of the application: `name` in the `Jingzhuo` folder under the folder the
/// `APPDATA` variable names (`appdata`, when it is set), else `local` in the working folder.
pub open spec fn app_file_spec(appdata: Option<PathView>, name: Seq<char>, local: Seq<char>) -> PathView {
    match appdata {
        Some(a) => join_name_spec(join_name_spec(a, "Jingzhuo"@), name),
        None => PathView {
            text: local,
            components: seq![(ComponentKind::Normal, local)],
            keys: seq![(ComponentKind::Normal, encode_utf8(local))],
        },
    }
}

pub open spec fn opt_path_view(o: Option<PathText>) -> Option<PathView> {
    match o {
        Some(p) => Some(p@),
        None => None,
    }
}

pub fn app_file_path(appdata: Option<PathText>, name: &str, local: &str) -> (p: PathText)
    requires
        plain_name(name@),
        plain_name(local@),
    ensures
        p@ == app_file_spec(opt_path_view(appdata), name@, local@),
{
    proof {
        reveal_strlit("Jingzhuo");
        assert forall|i: int| 0 <= i < "Jingzhuo"@.len() implies plain_char(
            "Jingzhuo"@[i],
        ) by {}
        assert(plain_name("Jingzhuo"@));
    }
    match appdata {
        Some(a) => a.join_name("Jingzhuo").join_name(name),
        None => {
            let mut components: Vec<PathComponent> = Vec::new();
            components.push(
                PathComponent {
                    kind: ComponentKind::Normal,
                    text: String::from_str(local),
                    key: local.as_bytes_vec(),
                },
            );
            let p = PathText { text: String::from_str(local), components };
            assert(p@.components =~= seq![(ComponentKind::Normal, local@)]);
            assert(p@.keys =~= seq![(ComponentKind::Normal, encode_utf8(local@))]);
            p
        },
    }
}

/// Where the settings file is: `config.json` in the application's folder, else
/// `jingzhuo.config.json` in the working folder.
pub fn config_path(appdata: Option<PathText>) -> (p: PathText)
    ensures
        p@ == app_file_spec(opt_path_view(appdata), "config.json"@, "jingzhuo.config.json"@),
{
    proof {
        reveal_strlit("config.json");
        assert forall|i: int| 0 <= i < "config.json"@.len() implies plain_char(
            "config.json"@[i],
        ) by {}
        assert(plain_name("config.json"@));
        reveal_strlit("jingzhuo.config.json");
        assert forall|i: int| 0 <= i < "jingzhuo.config.json"@.len() implies plain_char(
            "jingzhuo.config.json"@[i],
        ) by {}
        assert(plain_name("jingzhuo.config.json"@));
    }
    app_file_path(appdata, "config.json", "jingzhuo.config.json")
}

/// The file names `write_config_atomic` uses beside the settings file, for a time stamp:
/// the temporary file, the backup copy and the set-aside old file.
pub fn config_side_names(stamp: &str) -> (r: (String, String, String))
    ensures
        r.0@ == "config.json.tmp"@,
        r.1@ == "config.json.bak."@ + stamp@,
        r.2@ == "config.json.replaced."@ + stamp@,
{
    let tmp = String::from_str("config.json.tmp");
    let mut backup = String::from_str("config.json.bak.");
    backup.append(stamp);
    let mut replaced = String::from_str("config.json.replaced.");
    replaced.append(stamp);
    (tmp, backup, replaced)
}

/// `load_config` once the file is read: no file gives the defaults.
pub fn config_or_default(found: Option<AppConfig>) -> (c: AppConfig)
    ensures
        c@ == match found {
            Some(f) => f@,
            None => default_config(),
        },
{
    match found {
        Some(f) => f,
        None => AppConfig::default(),
    }
}

// ------------------------------------------------------------ laws

/// Normalising settings that are already normalised changes nothing.
pub proof fn law_normalize_idempotent(
    c: ConfigView,
    raw: Option<Seq<(Seq<char>, Option<Seq<char>>)>>,
)
    ensures
        normalize_spec(normalize_spec(c, raw), raw) == normalize_spec(c, raw),
        is_normalized(normalize_spec(c, raw)),
{
    lemma_blank_literals();
    let keys = seq!["weatherText"@, "weather_text"@];
    let r = repair_fields(c);
    assert(is_normalized(r));
    assert(repair_fields(r) == r);
    match raw {
        None => {},
        Some(f) => {
            match string_field_spec(f, keys) {
                Some(t) => {
                    crate::text::lemma_trim_idempotent(first_string_field(f, keys).unwrap());
                    assert(!is_blank(t));
                    let n = normalize_spec(c, raw);
                    assert(is_normalized(n));
                    assert(repair_fields(n) == n);
                },
                None => {},
            }
        },
    }
}

/// A recovered value: the text trimmed, or the default when it is blank.
pub open spec fn text_or_default(v: Seq<char>, default: Seq<char>) -> Seq<char> {
    if trim(v).len() > 0 {
        trim(v)
    } else {
        default
    }
}

proof fn lemma_two_keys(raw: Seq<char>, k1: Seq<char>, k2: Seq<char>)
    ensures
        first_key_value(raw, seq![k1, k2]) == match loose_value_spec(raw, k1) {
            Some(v) => Some(v),
            None => loose_value_spec(raw, k2),
        },
{
    assert(seq![k1, k2].drop_first() =~= seq![k2]);
    assert(seq![k2].drop_first() =~= Seq::<Seq<char>>::empty());
    reveal_with_fuel(first_key_value, 3);
}

proof fn lemma_four_keys(raw: Seq<char>, k1: Seq<char>, k2: Seq<char>, k3: Seq<char>, k4: Seq<char>)
    ensures
        loose_value_spec(raw, k1) matches Some(v) ==> first_key_value(raw, seq![k1, k2, k3, k4])
            == Some(v),
        loose_value_spec(raw, k1) is None && loose_value_spec(raw, k2) is None && loose_value_spec(
            raw,
            k3,
        ) is None && loose_value_spec(raw, k4) is None ==> first_key_value(
            raw,
            seq![k1, k2, k3, k4],
        ) is None,
{
    let s = seq![k1, k2, k3, k4];
    assert(s.drop_first() =~= seq![k2, k3, k4]);
    assert(seq![k2, k3, k4].drop_first() =~= seq![k3, k4]);
    assert(seq![k3, k4].drop_first() =~= seq![k4]);
    assert(seq![k4].drop_first() =~= Seq::<Seq<char>>::empty());
    reveal_with_fuel(first_key_value, 5);
}

/// Each setting recovered from a damaged file comes from its own keys: the value that the
/// lines give for its first key (the camelCase name), trimmed, or when that key gives
/// none the value for the next of its keys; a blank value, or none at all, leaves the
/// default. A number must read as a `u32`, a switch as `true` or `false`. The recovered
/// settings are these, normalised.
pub proof fn law_recovery_takes_own_keys(raw: Seq<char>)
    ensures
        recovered_fields(raw).extra == default_config().extra,
        normalize_spec(recovered_fields(raw), None) == (ConfigView {
                ai_reply_mode: normalize_spec(recovered_fields(raw), None).ai_reply_mode,
                weather_provider: normalize_spec(recovered_fields(raw), None).weather_provider,
                weather_fallback_text: normalize_spec(recovered_fields(raw), None).weather_fallback_text,
                ..recovered_fields(raw)
            }),
        (loose_value_spec(raw, "weatherText"@) matches Some(v) ==> recovered_fields(raw).weather_text == text_or_default(v, default_config().weather_text)),
        (loose_value_spec(raw, "weatherText"@) is None ==> recovered_fields(raw).weather_text == match loose_value_spec(raw, "weather_text"@) {
            Some(v) => text_or_default(v, default_config().weather_text),
            None => default_config().weather_text,
            }),
        (loose_value_spec(raw, "wallpaperStatusText"@) matches Some(v) ==> recovered_fields(raw).wallpaper_status_text == text_or_default(v, default_config().wallpaper_status_text)),
        (loose_value_spec(raw, "wallpaperStatusText"@) is None ==> recovered_fields(raw).wallpaper_status_text == match loose_value_spec(raw, "wallpaper_status_text"@) {
            Some(v) => text_or_default(v, default_config().wallpaper_status_text),
            None => default_config().wallpaper_status_text,
            }),
        (loose_value_spec(raw, "deepseekApiKey"@) matches Some(v) ==> recovered_fields(raw).deepseek_api_key == text_or_default(v, default_config().deepseek_api_key)),
        (loose_value_spec(raw, "deepseekApiKey"@) is None ==> recovered_fields(raw).deepseek_api_key == match loose_value_spec(raw, "deepseek_api_key"@) {
            Some(v) => text_or_default(v, default_config().deepseek_api_key),
            None => default_config().deepseek_api_key,
            }),
        (loose_value_spec(raw, "deepseekBaseUrl"@) matches Some(v) ==> recovered_fields(raw).deepseek_base_url == text_or_default(v, default_config().deepseek_base_url)),
        (loose_value_spec(raw, "deepseekBaseUrl"@) is None ==> recovered_fields(raw).deepseek_base_url == match loose_value_spec(raw, "deepseek_base_url"@) {
            Some(v) => text_or_default(v, default_config().deepseek_base_url),
            None => default_config().deepseek_base_url,
            }),
        (loose_value_spec(raw, "deepseekModel"@) matches Some(v) ==> recovered_fields(raw).deepseek_model == text_or_default(v, default_config().deepseek_model)),
        (loose_value_spec(raw, "deepseekModel"@) is None ==> recovered_fields(raw).deepseek_model == match loose_value_spec(raw, "deepseek_model"@) {
            Some(v) => text_or_default(v, default_config().deepseek_model),
            None => default_config().deepseek_model,
            }),
        (loose_value_spec(raw, "aiReplyMode"@) matches Some(v) ==> recovered_fields(raw).ai_reply_mode == text_or_default(v, default_config().ai_reply_mode)),
        (loose_value_spec(raw, "aiReplyMode"@) is None ==> recovered_fields(raw).ai_reply_mode == match loose_value_spec(raw, "ai_reply_mode"@) {
            Some(v) => text_or_default(v, default_config().ai_reply_mode),
            None => default_config().ai_reply_mode,
            }),
        (loose_value_spec(raw, "weatherCityCode"@) matches Some(v) ==> recovered_fields(raw).weather_city_code == text_or_default(v, default_config().weather_city_code)),
        (loose_value_spec(raw, "weatherCityCode"@) is None ==> recovered_fields(raw).weather_city_code == match loose_value_spec(raw, "weather_city_code"@) {
            Some(v) => text_or_default(v, default_config().weather_city_code),
            None => default_config().weather_city_code,
            }),
        (loose_value_spec(raw, "weatherProvider"@) matches Some(v) ==> recovered_fields(raw).weather_provider == text_or_default(v, default_config().weather_provider)),
        (loose_value_spec(raw, "weatherProvider"@) is None ==> recovered_fields(raw).weather_provider == match loose_value_spec(raw, "weather_provider"@) {
            Some(v) => text_or_default(v, default_config().weather_provider),
            None => default_config().weather_provider,
            }),
        (loose_value_spec(raw, "weatherApiId"@) matches Some(v) ==> recovered_fields(raw).weather_api_id == text_or_default(v, default_config().weather_api_id)),
        (loose_value_spec(raw, "weatherApiId"@) is None ==> recovered_fields(raw).weather_api_id == match loose_value_spec(raw, "weather_api_id"@) {
            Some(v) => text_or_default(v, default_config().weather_api_id),
            None => default_config().weather_api_id,
            }),
        (loose_value_spec(raw, "weatherApiKey"@) matches Some(v) ==> recovered_fields(raw).weather_api_key == text_or_default(v, default_config().weather_api_key)),
        (loose_value_spec(raw, "weatherApiKey"@) is None ==> recovered_fields(raw).weather_api_key == match loose_value_spec(raw, "weather_api_key"@) {
            Some(v) => text_or_default(v, default_config().weather_api_key),
            None => default_config().weather_api_key,
            }),
        (loose_value_spec(raw, "weatherProvince"@) matches Some(v) ==> recovered_fields(raw).weather_province == text_or_default(v, default_config().weather_province)),
        (loose_value_spec(raw, "weatherProvince"@) is None ==> recovered_fields(raw).weather_province == match loose_value_spec(raw, "weather_province"@) {
            Some(v) => text_or_default(v, default_config().weather_province),
            None => default_config().weather_province,
            }),
        (loose_value_spec(raw, "weatherPlace"@) matches Some(v) ==> recovered_fields(raw).weather_place == text_or_default(v, default_config().weather_place)),
        (loose_value_spec(raw, "weatherPlace"@) is None ==> recovered_fields(raw).weather_place == match loose_value_spec(raw, "weather_place"@) {
            Some(v) => text_or_default(v, default_config().weather_place),
            None => default_config().weather_place,
            }),
        (loose_value_spec(raw, "smartWeatherAppId"@) matches Some(v) ==> recovered_fields(raw).smart_weather_app_id == text_or_default(v, default_config().smart_weather_app_id)),
        (loose_value_spec(raw, "smartWeatherAppId"@) is None ==> recovered_fields(raw).smart_weather_app_id == match loose_value_spec(raw, "smart_weather_app_id"@) {
            Some(v) => text_or_default(v, default_config().smart_weather_app_id),
            None => default_config().smart_weather_app_id,
            }),
        (loose_value_spec(raw, "smartWeatherPrivateKey"@) matches Some(v) ==> recovered_fields(raw).smart_weather_private_key == text_or_default(v, default_config().smart_weather_private_key)),
        (loose_value_spec(raw, "smartWeatherPrivateKey"@) is None ==> recovered_fields(raw).smart_weather_private_key == match loose_value_spec(raw, "smart_weather_private_key"@) {
            Some(v) => text_or_default(v, default_config().smart_weather_private_key),
            None => default_config().smart_weather_private_key,
            }),
        (loose_value_spec(raw, "lastWeatherText"@) matches Some(v) ==> recovered_fields(raw).last_weather_text == text_or_default(v, default_config().last_weather_text)),
        (loose_value_spec(raw, "lastWeatherText"@) is None ==> recovered_fields(raw).last_weather_text == match loose_value_spec(raw, "last_weather_text"@) {
            Some(v) => text_or_default(v, default_config().last_weather_text),
            None => default_config().last_weather_text,
            }),
        (loose_value_spec(raw, "defaultWallpaperFolder"@) matches Some(v) ==> recovered_fields(raw).default_wallpaper_folder == text_or_default(v, default_config().default_wallpaper_folder)),
        (loose_value_spec(raw, "defaultWallpaperFolder"@) is None && loose_value_spec(raw, "default_wallpaper_folder"@) is None && loose_value_spec(raw, "wallpaperDir"@) is None && loose_value_spec(raw, "wallpaper_dir"@) is None ==> recovered_fields(raw).default_wallpaper_folder == default_config().default_wallpaper_folder),
        (loose_value_spec(raw, "alternateWallpaperFolder"@) matches Some(v) ==> recovered_fields(raw).alternate_wallpaper_folder == text_or_default(v, default_config().alternate_wallpaper_folder)),
        (loose_value_spec(raw, "alternateWallpaperFolder"@) is None && loose_value_spec(raw, "alternate_wallpaper_folder"@) is None && loose_value_spec(raw, "backupWallpaperDir"@) is None && loose_value_spec(raw, "backup_wallpaper_dir"@) is None ==> recovered_fields(raw).alternate_wallpaper_folder == default_config().alternate_wallpaper_folder),
        (loose_value_spec(raw, "weatherFallbackText"@) matches Some(v) ==> recovered_fields(raw).weather_fallback_text == text_or_default(v, default_config().weather_fallback_text)),
        (loose_value_spec(raw, "weatherFallbackText"@) is None && loose_value_spec(raw, "weather_fallback_text"@) is None && loose_value_spec(raw, "weatherText"@) is None && loose_value_spec(raw, "weather_text"@) is None ==> recovered_fields(raw).weather_fallback_text == default_config().weather_fallback_text),
        (loose_value_spec(raw, "focusMinutes"@) matches Some(v) ==> recovered_fields(raw).focus_minutes == match parse_u32(trim(v)) {
            Some(n) => if trim(v).len() > 0 { n } else { default_config().focus_minutes },
            None => default_config().focus_minutes,
            }),
        (loose_value_spec(raw, "focusMinutes"@) is None && loose_value_spec(raw, "focus_minutes"@) is None ==> recovered_fields(raw).focus_minutes == default_config().focus_minutes),
        (loose_value_spec(raw, "wallpaperIntervalMs"@) matches Some(v) ==> recovered_fields(raw).wallpaper_interval_ms == match parse_u32(trim(v)) {
            Some(n) => if trim(v).len() > 0 { n } else { default_config().wallpaper_interval_ms },
            None => default_config().wallpaper_interval_ms,
            }),
        (loose_value_spec(raw, "wallpaperIntervalMs"@) is None && loose_value_spec(raw, "wallpaper_interval_ms"@) is None ==> recovered_fields(raw).wallpaper_interval_ms == default_config().wallpaper_interval_ms),
        (loose_value_spec(raw, "showSpectrum"@) matches Some(v) ==> recovered_fields(raw).show_spectrum == if trim(v) == "true"@ {
            true
            } else if trim(v) == "false"@ {
            false
            } else {
            default_config().show_spectrum
            }),
        (loose_value_spec(raw, "showSpectrum"@) is None && loose_value_spec(raw, "show_spectrum"@) is None
            ==> recovered_fields(raw).show_spectrum == default_config().show_spectrum),
{
    reveal_strlit("true");
    reveal_strlit("false");
    lemma_two_keys(raw, "weatherText"@, "weather_text"@);
    lemma_two_keys(raw, "wallpaperStatusText"@, "wallpaper_status_text"@);
    lemma_two_keys(raw, "deepseekApiKey"@, "deepseek_api_key"@);
    lemma_two_keys(raw, "deepseekBaseUrl"@, "deepseek_base_url"@);
    lemma_two_keys(raw, "deepseekModel"@, "deepseek_model"@);
    lemma_two_keys(raw, "aiReplyMode"@, "ai_reply_mode"@);
    lemma_two_keys(raw, "weatherCityCode"@, "weather_city_code"@);
    lemma_two_keys(raw, "weatherProvider"@, "weather_provider"@);
    lemma_two_keys(raw, "weatherApiId"@, "weather_api_id"@);
    lemma_two_keys(raw, "weatherApiKey"@, "weather_api_key"@);
    lemma_two_keys(raw, "weatherProvince"@, "weather_province"@);
    lemma_two_keys(raw, "weatherPlace"@, "weather_place"@);
    lemma_two_keys(raw, "smartWeatherAppId"@, "smart_weather_app_id"@);
    lemma_two_keys(raw, "smartWeatherPrivateKey"@, "smart_weather_private_key"@);
    lemma_two_keys(raw, "lastWeatherText"@, "last_weather_text"@);
    lemma_two_keys(raw, "focusMinutes"@, "focus_minutes"@);
    lemma_two_keys(raw, "wallpaperIntervalMs"@, "wallpaper_interval_ms"@);
    lemma_two_keys(raw, "showSpectrum"@, "show_spectrum"@);
    lemma_four_keys(raw, "defaultWallpaperFolder"@, "default_wallpaper_folder"@, "wallpaperDir"@, "wallpaper_dir"@);
    lemma_four_keys(raw, "alternateWallpaperFolder"@, "alternate_wallpaper_folder"@, "backupWallpaperDir"@, "backup_wallpaper_dir"@);
    lemma_four_keys(raw, "weatherFallbackText"@, "weather_fallback_text"@, "weatherText"@, "weather_text"@);
}

/// What normalising repairs, and only that: a reply mode other than `normal`, `expert` or
/// `night` becomes `normal`; a blank weather provider becomes `apihz`; a blank fallback
/// text becomes `未更新`; without the file's members every other setting is kept.
pub proof fn law_normalize_repairs(c: ConfigView)
    ensures
        ({
            let n = normalize_spec(c, None);
            &&& n.ai_reply_mode == if c.ai_reply_mode == "normal"@ || c.ai_reply_mode == "expert"@
                || c.ai_reply_mode == "night"@ {
                c.ai_reply_mode
            } else {
                "normal"@
            }
            &&& n.weather_provider == if trim(c.weather_provider).len() == 0 {
                "apihz"@
            } else {
                c.weather_provider
            }
            &&& n.weather_fallback_text == if trim(c.weather_fallback_text).len() == 0 {
                "未更新"@
            } else {
                c.weather_fallback_text
            }
            &&& n == (ConfigView {
                ai_reply_mode: n.ai_reply_mode,
                weather_provider: n.weather_provider,
                weather_fallback_text: n.weather_fallback_text,
                ..c
            })
        }),
{
}

/// Saved settings read back unchanged: settings that were normalised before saving, read
/// from a file that has its own `weatherFallbackText` member (as every saved file does),
/// are left as they are by the normalisation that loading applies.
pub proof fn law_saved_settings_reload(c: ConfigView, fields: Seq<(Seq<char>, Option<Seq<char>>)>)
    requires
        is_normalized(c),
        has_field(fields, "weatherFallbackText"@),
    ensures
        normalize_spec(c, Some(fields)) == c,
{
    assert(repair_fields(c) == c);
}

/// The unknown members of the settings file as a `BTreeMap<String, Value>` holds them:
/// each key once, in increasing order.
pub open spec fn extra_ordered(extra: Seq<(Seq<char>, Seq<char>)>) -> bool {
    forall|i: int, j: int|
        0 <= i < j < extra.len() ==> crate::paths::text_lt(#[trigger] extra[i].0, #[trigger] extra[j].0)
}

/// The settings' unknown members pass through loading, normalising and saving as they
/// are, so they stay each key once, in order; the defaults have none.
pub proof fn law_extra_kept(c: ConfigView, raw: Option<Seq<(Seq<char>, Option<Seq<char>>)>>)
    ensures
        normalize_spec(c, raw).extra == c.extra,
        extra_ordered(c.extra) ==> extra_ordered(normalize_spec(c, raw).extra),
        extra_ordered(default_config().extra),
        config_save_spec(c, None) matches Ok(n) && n.extra == c.extra,
{
}

/// The default settings are normalised: normalising them changes nothing.
pub proof fn law_default_is_normalized()
    ensures
        normalize_spec(default_config(), None) == default_config(),
        is_normalized(default_config()),
{
    lemma_blank_literals();
    reveal_strlit("normal");
}

/// A form whose nine critical settings are all blank is never saved over settings that
/// had five or more of them filled in.
pub proof fn law_empty_form_never_overwrites(old: ConfigView, form: ConfigView)
    requires
        critical_count_spec(old) >= 5,
        critical_count_spec(normalize_spec(form, None)) == 0,
    ensures
        config_save_spec(form, Some(old)) is Err,
{
}

/// A save that goes through stores normalised settings, and with nothing saved before,
/// every save goes through.
pub proof fn law_save_without_old_succeeds(form: ConfigView)
    ensures
        config_save_spec(form, None) == Ok::<ConfigView, Seq<char>>(normalize_spec(form, None)),
        is_normalized(normalize_spec(form, None)),
{
    law_normalize_idempotent(form, None);
}

} // verus!
