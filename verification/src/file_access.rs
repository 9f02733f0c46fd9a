//! Read access to folders the user has authorised: which folders may be authorised,
//! which files are indexed and which may be read as text.
use vstd::prelude::*;
use crate::clock::stamp_text;
use crate::clock::stamp_text_spec;
use crate::paths::{
    extension_spec, file_name_spec, join_name_spec, path_starts_with, plain_char, plain_name, PathText,
    PathView,
};
use crate::text::{
    contains, ends_with, in_list, is_blank, keys_view, lower_text, text_contains, text_ends_with,
    to_lowercase,
};

verus! {

pub const MAX_SCAN_FILE_BYTES: u64 = 20 * 1024 * 1024;

pub const MAX_TEXT_FILE_BYTES: u64 = 1024 * 1024;

pub open spec fn skip_dirs() -> Seq<Seq<char>> {
    seq![".git"@, ".next"@, "build"@, "dist"@, "node_modules"@, "target"@]
}

pub open spec fn allowed_extensions() -> Seq<Seq<char>> {
    seq![
        ".md"@,
        ".txt"@,
        ".json"@,
        ".ts"@,
        ".tsx"@,
        ".css"@,
        ".rs"@,
        ".toml"@,
        ".yaml"@,
        ".yml"@,
        ".html"@,
        ".xml"@,
    ]
}

pub open spec fn blocked_patterns() -> Seq<Seq<char>> {
    seq![
        ".env"@,
        ".env.local"@,
        ".env.production"@,
        "id_rsa"@,
        "id_ed25519"@,
        "token"@,
        "secret"@,
        "password"@,
        "cookie"@,
        "cookies"@,
        "credential"@,
        "credentials"@,
        "key.pem"@,
        "private"@,
        ".ssh"@,
    ]
}

fn skip_dir_list() -> (r: [&'static str; 6])
    ensures
        keys_view(r@) == skip_dirs(),
{
    let r = [".git", ".next", "build", "dist", "node_modules", "target"];
    assert(keys_view(r@) =~= skip_dirs());
    r
}

fn allowed_extension_list() -> (r: [&'static str; 12])
    ensures
        keys_view(r@) == allowed_extensions(),
{
    let r = [
        ".md",
        ".txt",
        ".json",
        ".ts",
        ".tsx",
        ".css",
        ".rs",
        ".toml",
        ".yaml",
        ".yml",
        ".html",
        ".xml",
    ];
    assert(keys_view(r@) =~= allowed_extensions());
    r
}

fn blocked_pattern_list() -> (r: [&'static str; 15])
    ensures
        keys_view(r@) == blocked_patterns(),
{
    let r = [
        ".env",
        ".env.local",
        ".env.production",
        "id_rsa",
        "id_ed25519",
        "token",
        "secret",
        "password",
        "cookie",
        "cookies",
        "credential",
        "credentials",
        "key.pem",
        "private",
        ".ssh",
    ];
    assert(keys_view(r@) =~= blocked_patterns());
    r
}

// ------------------------------------------------------------ the application's folders

pub open spec fn app_data_root_spec(
    appdata: Option<PathView>,
    current_dir: Result<PathView, Seq<char>>,
) -> Result<PathView, Seq<char>> {
    match appdata {
        Some(a) => Ok(join_name_spec(a, "Jingzhuo"@)),
        None => match current_dir {
            Ok(c) => Ok(join_name_spec(c, "Jingzhuo"@)),
            Err(e) => Err("获取应用目录失败："@ + e),
        },
    }
}

/// The application's data folder: `Jingzhuo` under the folder the `APPDATA` variable
/// names (`appdata`, when it is set), else under the working folder (`current_dir`, or
/// the error reading it).
pub fn app_data_root(appdata: Option<PathText>, current_dir: Result<PathText, String>) -> (r: Result<
    PathText,
    String,
>)
    ensures
        path_result_view(r) == app_data_root_spec(
            match appdata {
                Some(a) => Some(a@),
                None => None,
            },
            path_result_view(current_dir),
        ),
{
    proof {
        reveal_strlit("Jingzhuo");
        assert forall|i: int| 0 <= i < "Jingzhuo"@.len() implies plain_char(
            "Jingzhuo"@[i],
        ) by {}
        assert(plain_name("Jingzhuo"@));
    }
    match appdata {
        Some(a) => Ok(a.join_name("Jingzhuo")),
        None => match current_dir {
            Ok(c) => Ok(c.join_name("Jingzhuo")),
            Err(e) => {
                let mut m = String::from_str("获取应用目录失败：");
                m.append(e.as_str());
                Err(m)
            },
        },
    }
}

/// A folder under the data folder, or the data folder's error.
fn under_app_data(app_data: Result<PathText, String>, name: &str) -> (r: Result<PathText, String>)
    requires
        plain_name(name@),
    ensures
        path_result_view(r) == match path_result_view(app_data) {
            Ok(p) => Ok(join_name_spec(p, name@)),
            Err(e) => Err::<PathView, Seq<char>>(e),
        },
{
    match app_data {
        Ok(p) => Ok(p.join_name(name)),
        Err(e) => Err(e),
    }
}

/// The archive folder: `archive` under the data folder.
pub fn archive_root(app_data: Result<PathText, String>) -> (r: Result<PathText, String>)
    ensures
        path_result_view(r) == match path_result_view(app_data) {
            Ok(p) => Ok(join_name_spec(p, "archive"@)),
            Err(e) => Err::<PathView, Seq<char>>(e),
        },
{
    proof {
        reveal_strlit("archive");
        assert forall|i: int| 0 <= i < "archive"@.len() implies plain_char(
            "archive"@[i],
        ) by {}
        assert(plain_name("archive"@));
    }
    under_app_data(app_data, "archive")
}

/// The file-access folder: `file-access` under the data folder.
pub fn file_access_root(app_data: Result<PathText, String>) -> (r: Result<PathText, String>)
    ensures
        path_result_view(r) == match path_result_view(app_data) {
            Ok(p) => Ok(join_name_spec(p, "file-access"@)),
            Err(e) => Err::<PathView, Seq<char>>(e),
        },
{
    proof {
        reveal_strlit("file-access");
        assert forall|i: int| 0 <= i < "file-access"@.len() implies plain_char(
            "file-access"@[i],
        ) by {}
        assert(plain_name("file-access"@));
    }
    under_app_data(app_data, "file-access")
}

/// The file that lists the authorised folders: `authorized-roots.json` in the file-access
/// folder.
pub fn roots_path(app_data: Result<PathText, String>) -> (r: Result<PathText, String>)
    ensures
        path_result_view(r) == match path_result_view(app_data) {
            Ok(p) => Ok(join_name_spec(join_name_spec(p, "file-access"@), "authorized-roots.json"@)),
            Err(e) => Err::<PathView, Seq<char>>(e),
        },
{
    proof {
        reveal_strlit("authorized-roots.json");
        assert forall|i: int| 0 <= i < "authorized-roots.json"@.len() implies plain_char(
            "authorized-roots.json"@[i],
        ) by {}
        assert(plain_name("authorized-roots.json"@));
    }
    let dir = file_access_root(app_data);
    under_app_data(dir, "authorized-roots.json")
}

/// The extension an archive file's backup gets: `bak.` and the time stamp.
pub fn backup_extension(stamp: &str) -> (e: String)
    ensures
        e@ == "bak."@ + stamp@,
{
    let mut e = String::from_str("bak.");
    e.append(stamp);
    e
}

/// A folder the user has allowed the overlay to read.
pub struct AuthorizedRoot {
    pub id: String,
    pub path: String,
    pub label: String,
    pub created_at: String,
    pub last_indexed_at: Option<String>,
}

pub struct RootView {
    pub id: Seq<char>,
    pub path: Seq<char>,
    pub label: Seq<char>,
    pub created_at: Seq<char>,
    pub last_indexed_at: Option<Seq<char>>,
}

impl View for AuthorizedRoot {
    type V = RootView;

    open spec fn view(&self) -> RootView {
        RootView {
            id: self.id@,
            path: self.path@,
            label: self.label@,
            created_at: self.created_at@,
            last_indexed_at: match self.last_indexed_at {
                Some(t) => Some(t@),
                None => None,
            },
        }
    }
}

impl AuthorizedRoot {
    pub fn copy(&self) -> (r: AuthorizedRoot)
        ensures
            r@ == self@,
    {
        AuthorizedRoot {
            id: self.id.clone(),
            path: self.path.clone(),
            label: self.label.clone(),
            created_at: self.created_at.clone(),
            last_indexed_at: match &self.last_indexed_at {
                Some(t) => Some(t.clone()),
                None => None,
            },
        }
    }
}

pub open spec fn roots_view(roots: Seq<AuthorizedRoot>) -> Seq<RootView> {
    roots.map_values(|r: AuthorizedRoot| r@)
}

/// One file found while indexing an authorised folder.
pub struct FileIndexItem {
    pub id: String,
    pub root_id: String,
    pub path: String,
    pub relative_path: String,
    pub name: String,
    pub extension: String,
    pub size_bytes: u64,
    pub modified_at: String,
    pub kind: String,
}

/// The limits on reading, as the settings page shows them.
pub struct FileReadPolicy {
    pub max_text_file_bytes: u64,
    pub allowed_extensions: Vec<String>,
    pub blocked_patterns: Vec<String>,
}

pub open spec fn strings_view(v: Seq<String>) -> Seq<Seq<char>> {
    v.map_values(|s: String| s@)
}

fn strings_of(list: &[&str]) -> (r: Vec<String>)
    ensures
        strings_view(r@) == keys_view(list@),
{
    let mut r: Vec<String> = Vec::new();
    let mut i: usize = 0;
    while i < list.len()
        invariant
            i <= list.len(),
            strings_view(r@) == keys_view(list@).take(i as int),
        decreases list.len() - i,
    {
        let t = String::from_str(list[i]);
        assert(t@ == keys_view(list@)[i as int]);
        let ghost old_r = r@;
        r.push(t);
        assert(r@ == old_r.push(t));
        assert(strings_view(r@) =~= keys_view(list@).take(i + 1)) by {
            assert(strings_view(r@) =~= strings_view(old_r).push(t@));
        }
        i = i + 1;
    }
    assert(keys_view(list@).take(list.len() as int) =~= keys_view(list@));
    r
}

/// `file_read_policy`: the 1 MiB text limit, the extensions that may be read and the
/// patterns that block a path, in their order.
pub fn file_read_policy() -> (p: FileReadPolicy)
    ensures
        p.max_text_file_bytes == MAX_TEXT_FILE_BYTES,
        strings_view(p.allowed_extensions@) == allowed_extensions(),
        strings_view(p.blocked_patterns@) == blocked_patterns(),
{
    let a = allowed_extension_list();
    let b = blocked_pattern_list();
    FileReadPolicy {
        max_text_file_bytes: MAX_TEXT_FILE_BYTES,
        allowed_extensions: strings_of(&a),
        blocked_patterns: strings_of(&b),
    }
}

// ------------------------------------------------------------ path rules

/// The lowercased text of the path contains one of the blocked patterns, which are
/// written in lowercase.
pub open spec fn is_blocked_spec(text: Seq<char>) -> bool {
    exists|i: int|
        0 <= i < blocked_patterns().len() && contains(lower_text(text), #[trigger] blocked_patterns()[i])
}

/// `is_blocked_path`: the path's text names something secret (`.env`, keys, tokens…).
pub fn is_blocked_path(path: &PathText) -> (r: bool)
    ensures
        r == is_blocked_spec(path@.text),
{
    let lower = to_lowercase(path.text.as_str());
    let list = blocked_pattern_list();
    let mut i: usize = 0;
    while i < 15
        invariant
            i <= 15,
            lower@ == lower_text(path@.text),
            keys_view(list@) == blocked_patterns(),
            forall|j: int| 0 <= j < i ==> !contains(lower@, #[trigger] blocked_patterns()[j]),
        decreases 15 - i,
    {
        let pattern = list[i];
        assert(pattern@ == blocked_patterns()[i as int]);
        if text_contains(lower.as_str(), pattern) {
            return true;
        }
        i = i + 1;
    }
    false
}

/// `"." + extension`, lowercased, or the empty text for a path with no extension.
pub open spec fn dotted_extension(p: PathView) -> Seq<char> {
    match extension_spec(p) {
        Some(e) => seq!['.'] + lower_text(e),
        None => Seq::empty(),
    }
}

fn dotted_extension_exec(path: &PathText) -> (r: String)
    ensures
        r@ == dotted_extension(path@),
{
    match path.extension() {
        Some(e) => {
            let mut s = String::from_str(".");
            let l = to_lowercase(e.as_str());
            s.append(l.as_str());
            proof {
                reveal_strlit(".");
            }
            assert(s@ =~= seq!['.'] + lower_text(e@));
            s
        },
        None => String::new(),
    }
}

/// `is_allowed_text_file`: the path's extension, lowercased, is one that may be read.
pub fn is_allowed_text_file(path: &PathText) -> (r: bool)
    ensures
        r == allowed_extensions().contains(dotted_extension(path@)),
{
    let ext = dotted_extension_exec(path);
    let list = allowed_extension_list();
    in_list(ext.as_str(), &list)
}

/// Folders that may not be authorised: a drive or other single-component path, the
/// Windows and Users folders, and anything under `.ssh`, `AppData` or a browser profile.
pub open spec fn is_bad_root_spec(p: PathView) -> bool {
    let lower = lower_text(p.text);
    ||| p.components.len() <= 1
    ||| ends_with(lower, ":\\"@)
    ||| ends_with(lower, "\\windows"@)
    ||| ends_with(lower, "\\users"@)
    ||| contains(lower, "\\.ssh"@)
    ||| contains(lower, "\\appdata\\"@)
    ||| contains(lower, "\\google\\chrome\\"@)
    ||| contains(lower, "\\microsoft\\edge\\"@)
    ||| contains(lower, "\\mozilla\\firefox\\"@)
}

/// Whether a folder may not be authorised, as [`is_bad_root_spec`] says.
pub fn is_bad_root(path: &PathText) -> (r: bool)
    ensures
        r == is_bad_root_spec(path@),
{
    let lower = to_lowercase(path.text.as_str());
    let l = lower.as_str();
    path.components.len() <= 1 || text_ends_with(l, ":\\") || text_ends_with(l, "\\windows")
        || text_ends_with(l, "\\users") || text_contains(l, "\\.ssh") || text_contains(
        l,
        "\\appdata\\",
    ) || text_contains(l, "\\google\\chrome\\") || text_contains(l, "\\microsoft\\edge\\")
        || text_contains(l, "\\mozilla\\firefox\\")
}

/// Folders the index does not enter: hidden ones, build and dependency folders, and
/// blocked paths. A path with no file name is entered.
pub open spec fn skip_dir_spec(p: PathView) -> bool {
    match file_name_spec(p) {
        None => false,
        Some(n) => {
            let l = lower_text(n);
            (l.len() > 0 && l[0] == '.') || skip_dirs().contains(l) || is_blocked_spec(p.text)
        },
    }
}

/// Whether indexing passes over a folder, as [`skip_dir_spec`] says.
pub fn skip_dir(path: &PathText) -> (r: bool)
    ensures
        r == skip_dir_spec(path@),
{
    let name = match path.file_name() {
        Some(n) => n,
        None => {
            return false;
        },
    };
    let l = to_lowercase(name.as_str());
    let lv = crate::text::chars_of(l.as_str());
    let list = skip_dir_list();
    (lv.len() > 0 && lv[0] == '.') || in_list(l.as_str(), &list) || is_blocked_path(path)
}

pub open spec fn text_exts() -> Seq<Seq<char>> {
    allowed_extensions()
}

pub open spec fn image_exts() -> Seq<Seq<char>> {
    seq![".png"@, ".jpg"@, ".jpeg"@, ".gif"@, ".webp"@]
}

pub open spec fn office_exts() -> Seq<Seq<char>> {
    seq![".doc"@, ".docx"@, ".ppt"@, ".pptx"@, ".xls"@, ".xlsx"@]
}

/// The kind of file an extension (with its dot) names.
pub open spec fn kind_spec(ext: Seq<char>) -> Seq<char> {
    if text_exts().contains(ext) {
        "text"@
    } else if image_exts().contains(ext) {
        "image"@
    } else if ext == ".pdf"@ {
        "pdf"@
    } else if office_exts().contains(ext) {
        "office"@
    } else {
        "unknown"@
    }
}

/// The kind of file a dotted extension names: text, image, pdf, office or unknown.
pub fn kind_from_extension(extension: &str) -> (k: String)
    ensures
        k@ == kind_spec(extension@),
{
    let texts = allowed_extension_list();
    let images = [".png", ".jpg", ".jpeg", ".gif", ".webp"];
    assert(keys_view(images@) =~= image_exts());
    let office = [".doc", ".docx", ".ppt", ".pptx", ".xls", ".xlsx"];
    assert(keys_view(office@) =~= office_exts());
    if in_list(extension, &texts) {
        String::from_str("text")
    } else if in_list(extension, &images) {
        String::from_str("image")
    } else if crate::text::str_eq(extension, ".pdf") {
        String::from_str("pdf")
    } else if in_list(extension, &office) {
        String::from_str("office")
    } else {
        String::from_str("unknown")
    }
}

} // verus!

verus! {

// ------------------------------------------------------------ containment

pub open spec fn path_result_view(r: Result<PathText, String>) -> Result<PathView, Seq<char>> {
    match r {
        Ok(p) => Ok(p@),
        Err(e) => Err(e@),
    }
}

pub open spec fn path_results_view(v: Seq<Result<PathText, String>>) -> Seq<
    Result<PathView, Seq<char>>,
> {
    v.map_values(|r: Result<PathText, String>| path_result_view(r))
}

/// The roots are tried in order: the first one that cannot be resolved ends the search
/// with its error, the first one that holds the path ends it with success.
pub open spec fn inside_roots_spec(p: PathView, roots: Seq<Result<PathView, Seq<char>>>) -> Result<
    (),
    Seq<char>,
>
    decreases roots.len(),
{
    if roots.len() == 0 {
        Err("拒绝读取授权目录之外的文件"@)
    } else {
        match roots[0] {
            Err(e) => Err("解析授权目录失败："@ + e),
            Ok(r) => if path_starts_with(p, r) {
                Ok(())
            } else {
                inside_roots_spec(p, roots.drop_first())
            },
        }
    }
}

pub open spec fn ensure_inside_spec(
    path: Result<PathView, Seq<char>>,
    roots: Seq<Result<PathView, Seq<char>>>,
) -> Result<(), Seq<char>> {
    match path {
        Err(e) => Err("解析文件路径失败："@ + e),
        Ok(p) => inside_roots_spec(p, roots),
    }
}

/// The root resolved and holds the path.
pub open spec fn root_holds(r: Result<PathView, Seq<char>>, p: PathView) -> bool {
    match r {
        Ok(x) => path_starts_with(p, x),
        Err(_) => false,
    }
}

fn err_with(prefix: &str, e: &String) -> (r: String)
    ensures
        r@ == prefix@ + e@,
{
    let mut m = String::from_str(prefix);
    m.append(e.as_str());
    m
}

/// `ensure_inside_authorized_root`, given the path and each root as resolved
/// (`canonicalize`), roots in order.
pub fn ensure_inside_authorized_root(
    path: &Result<PathText, String>,
    roots: &Vec<Result<PathText, String>>,
) -> (r: Result<(), String>)
    ensures
        match r {
            Ok(()) => ensure_inside_spec(path_result_view(*path), path_results_view(roots@))
                == Ok::<(), Seq<char>>(()),
            Err(e) => ensure_inside_spec(path_result_view(*path), path_results_view(roots@))
                == Err::<(), Seq<char>>(e@),
        },
        r is Ok ==> path is Ok && exists|i: int|
            0 <= i < roots@.len() && root_holds(
                path_result_view(#[trigger] roots@[i]),
                path_result_view(*path)->Ok_0,
            ),
{
    let p = match path {
        Err(e) => {
            return Err(err_with("解析文件路径失败：", e));
        },
        Ok(p) => p,
    };
    let ghost rv = path_results_view(roots@);
    let mut i: usize = 0;
    assert(rv.skip(0) =~= rv);
    while i < roots.len()
        invariant
            i <= roots@.len(),
            rv == path_results_view(roots@),
            *path == Ok::<PathText, String>(*p),
            inside_roots_spec(p@, rv) == inside_roots_spec(p@, rv.skip(i as int)),
        decreases roots.len() - i,
    {
        let ghost rest = rv.skip(i as int);
        assert(rest[0] == path_result_view(roots@[i as int]));
        assert(rest.drop_first() =~= rv.skip(i + 1));
        match &roots[i] {
            Err(e) => {
                return Err(err_with("解析授权目录失败：", e));
            },
            Ok(root) => {
                if p.starts_with(root) {
                    proof {
                        assert(root_holds(path_result_view(roots@[i as int]), p@));
                    }
                    return Ok(());
                }
            },
        }
        i = i + 1;
    }
    assert(rv.skip(i as int).len() == 0);
    Err(String::from_str("拒绝读取授权目录之外的文件"))
}

/// The check of `ensure_inside_app_archive` once both paths are resolved.
pub fn check_inside_archive(check_path: &PathText, root: &PathText) -> (r: Result<(), String>)
    ensures
        r is Ok <==> path_starts_with(check_path@, root@),
        r matches Err(e) ==> e@ == "拒绝写入应用留档目录之外的路径"@,
{
    if check_path.starts_with(root) {
        Ok(())
    } else {
        Err(String::from_str("拒绝写入应用留档目录之外的路径"))
    }
}

// ------------------------------------------------------------ the list of roots

/// The first root with the given id.
pub open spec fn first_with_id(s: Seq<RootView>, id: Seq<char>) -> Option<int>
    decreases s.len(),
{
    if s.len() == 0 {
        None
    } else if s[0].id == id {
        Some(0)
    } else {
        match first_with_id(s.drop_first(), id) {
            Some(k) => Some(k + 1),
            None => None,
        }
    }
}

proof fn lemma_first_with_id(s: Seq<RootView>, id: Seq<char>, i: int)
    requires
        0 <= i <= s.len(),
        forall|j: int| 0 <= j < i ==> (#[trigger] s[j]).id != id,
    ensures
        first_with_id(s, id) == match first_with_id(s.skip(i), id) {
            Some(k) => Some(k + i),
            None => None::<int>,
        },
    decreases i,
{
    if i > 0 {
        lemma_first_with_id(s, id, i - 1);
        assert(s.skip(i - 1).drop_first() =~= s.skip(i));
        assert(s.skip(i - 1)[0] == s[i - 1]);
    } else {
        assert(s.skip(0) =~= s);
    }
}

proof fn lemma_first_with_id_bounds(s: Seq<RootView>, id: Seq<char>)
    ensures
        first_with_id(s, id) matches Some(k) ==> 0 <= k < s.len() && s[k].id == id && forall|
            j: int,
        | 0 <= j < k ==> (#[trigger] s[j]).id != id,
        first_with_id(s, id) is None ==> forall|j: int| 0 <= j < s.len() ==> (#[trigger] s[j]).id
            != id,
    decreases s.len(),
{
    if s.len() > 0 && s[0].id != id {
        lemma_first_with_id_bounds(s.drop_first(), id);
        assert forall|j: int| 1 <= j < s.len() implies s[j] == s.drop_first()[j - 1] by {}
    }
}

fn index_of_id(roots: &Vec<AuthorizedRoot>, root_id: &str) -> (r: Option<usize>)
    ensures
        match r {
            Some(k) => first_with_id(roots_view(roots@), root_id@) == Some(k as int),
            None => first_with_id(roots_view(roots@), root_id@) is None,
        },
        r matches Some(k) ==> k < roots@.len(),
{
    let ghost s = roots_view(roots@);
    let mut i: usize = 0;
    while i < roots.len()
        invariant
            i <= roots@.len(),
            s == roots_view(roots@),
            forall|j: int| 0 <= j < i ==> (#[trigger] s[j]).id != root_id@,
        decreases roots.len() - i,
    {
        if crate::text::str_eq(roots[i].id.as_str(), root_id) {
            proof {
                lemma_first_with_id(s, root_id@, i as int);
                assert(s.skip(i as int)[0].id == root_id@);
            }
            return Some(i);
        }
        i = i + 1;
    }
    proof {
        lemma_first_with_id(s, root_id@, i as int);
    }
    None
}

/// The root with the given id, as `file_scan_authorized_root` and `file_read_text`
/// look it up: the first one, or the error they give when there is none.
pub fn find_authorized_root(roots: &Vec<AuthorizedRoot>, root_id: &str) -> (r: Result<
    AuthorizedRoot,
    String,
>)
    ensures
        match r {
            Ok(root) => exists|k: int|
                first_with_id(roots_view(roots@), root_id@) == Some(k) && root@ == roots@[k]@,
            Err(e) => first_with_id(roots_view(roots@), root_id@) is None && e@ == "未找到授权目录"@,
        },
{
    match index_of_id(roots, root_id) {
        Some(k) => Ok(roots[k].copy()),
        None => Err(String::from_str("未找到授权目录")),
    }
}

/// The roots without those of the given id, in their order.
pub open spec fn without_id(s: Seq<RootView>, id: Seq<char>) -> Seq<RootView>
    decreases s.len(),
{
    if s.len() == 0 {
        s
    } else if s.last().id == id {
        without_id(s.drop_last(), id)
    } else {
        without_id(s.drop_last(), id).push(s.last())
    }
}

proof fn lemma_without_id(s: Seq<RootView>, id: Seq<char>)
    ensures
        forall|j: int| 0 <= j < without_id(s, id).len() ==> (#[trigger] without_id(s, id)[j]).id
            != id,
        forall|j: int| 0 <= j < s.len() && (#[trigger] s[j]).id != id ==> without_id(s, id).contains(
            s[j],
        ),
    decreases s.len(),
{
    if s.len() > 0 {
        lemma_without_id(s.drop_last(), id);
        let w = without_id(s.drop_last(), id);
        assert forall|j: int| 0 <= j < s.len() && (#[trigger] s[j]).id != id implies without_id(
            s,
            id,
        ).contains(s[j]) by {
            if j < s.len() - 1 {
                assert(s[j] == s.drop_last()[j]);
                if s.last().id != id {
                    let k = choose|k: int| 0 <= k < w.len() && w[k] == s[j];
                    assert(w.push(s.last())[k] == s[j]);
                }
            } else {
                assert(w.push(s.last())[w.len() as int] == s[j]);
            }
        }
    }
}

/// `file_remove_authorized_root`'s change to the list: every root of the given id goes,
/// the others stay in their order.
pub fn remove_authorized_root(roots: Vec<AuthorizedRoot>, root_id: &str) -> (r: Vec<
    AuthorizedRoot,
>)
    ensures
        roots_view(r@) == without_id(roots_view(roots@), root_id@),
        forall|j: int| 0 <= j < r@.len() ==> (#[trigger] r@[j]).id@ != root_id@,
{
    let mut out: Vec<AuthorizedRoot> = Vec::new();
    let mut i: usize = 0;
    while i < roots.len()
        invariant
            i <= roots@.len(),
            roots_view(out@) == without_id(roots_view(roots@).take(i as int), root_id@),
        decreases roots.len() - i,
    {
        let ghost t = roots_view(roots@).take(i + 1);
        assert(t.drop_last() =~= roots_view(roots@).take(i as int));
        assert(t.last() == roots@[i as int]@);
        if !crate::text::str_eq(roots[i].id.as_str(), root_id) {
            let c = roots[i].copy();
            let ghost before = out@;
            out.push(c);
            assert(roots_view(out@) =~= roots_view(before).push(c@));
        }
        i = i + 1;
    }
    assert(roots_view(roots@).take(roots@.len() as int) =~= roots_view(roots@));
    proof {
        lemma_without_id(roots_view(roots@), root_id@);
        assert forall|j: int| 0 <= j < out@.len() implies (#[trigger] out@[j]).id@ != root_id@ by {
            assert(roots_view(out@)[j] == out@[j]@);
        }
    }
    out
}

/// The roots after indexing: the first root of the given id records `stamp` as the
/// time it was last indexed; nothing else changes.
pub open spec fn mark_indexed_spec(s: Seq<RootView>, id: Seq<char>, stamp: Seq<char>) -> Seq<
    RootView,
> {
    match first_with_id(s, id) {
        Some(k) => s.update(k, RootView { last_indexed_at: Some(stamp), ..s[k] }),
        None => s,
    }
}

/// The change that `file_scan_authorized_root` makes to the list of roots.
pub fn mark_indexed(roots: &mut Vec<AuthorizedRoot>, root_id: &str, stamp: String)
    ensures
        roots_view(final(roots)@) == mark_indexed_spec(roots_view(old(roots)@), root_id@, stamp@),
{
    match index_of_id(roots, root_id) {
        Some(k) => {
            let mut r = roots[k].copy();
            r.last_indexed_at = Some(stamp);
            let ghost before = roots@;
            roots.set(k, r);
            assert(roots_view(roots@) =~= roots_view(before).update(k as int, r@));
        },
        None => {},
    }
}

// ------------------------------------------------------------ authorising a folder

/// The label a new root gets: the one given when not blank, else the folder's name,
/// else a generic name.
pub open spec fn root_label_spec(label: Option<Seq<char>>, folder: PathView) -> Seq<char> {
    match label {
        Some(l) if !is_blank(l) => l,
        _ => match file_name_spec(folder) {
            Some(n) => n,
            None => "授权文件夹"@,
        },
    }
}

/// The first root whose stored path is the given text.
pub open spec fn first_with_path(s: Seq<RootView>, path: Seq<char>) -> Option<int>
    decreases s.len(),
{
    if s.len() == 0 {
        None
    } else if s[0].path == path {
        Some(0)
    } else {
        match first_with_path(s.drop_first(), path) {
            Some(k) => Some(k + 1),
            None => None,
        }
    }
}

/// What authorising a folder does, once it is resolved and the stored roots are read.
pub enum AddRootOutcome {
    /// The folder was already authorised: this root, and nothing to store.
    Existing(AuthorizedRoot),
    /// A new root, and the list to store: the old one with it at the end.
    Added(AuthorizedRoot, Vec<AuthorizedRoot>),
}

pub open spec fn opt_text_view(o: Option<String>) -> Option<Seq<char>> {
    match o {
        Some(s) => Some(s@),
        None => None,
    }
}

/// The refusals of `file_add_authorized_root`, in the order it makes them.
pub open spec fn add_root_refusal(
    canonical: Result<PathView, Seq<char>>,
    is_dir: bool,
    roots: Result<Seq<RootView>, Seq<char>>,
) -> Option<Seq<char>> {
    match canonical {
        Err(e) => Some("授权目录不存在或无法访问："@ + e),
        Ok(p) => if !is_dir {
            Some("授权路径必须是文件夹"@)
        } else if is_bad_root_spec(p) || is_blocked_spec(p.text) {
            Some("拒绝授权系统目录或敏感目录"@)
        } else {
            match roots {
                Err(e) => Some(e),
                Ok(_) => None,
            }
        },
    }
}

pub open spec fn roots_result_view(r: Result<Vec<AuthorizedRoot>, String>) -> Result<
    Seq<RootView>,
    Seq<char>,
> {
    match r {
        Ok(v) => Ok(roots_view(v@)),
        Err(e) => Err(e@),
    }
}

fn find_path(roots: &Vec<AuthorizedRoot>, path: &str) -> (r: Option<usize>)
    ensures
        match r {
            Some(k) => k < roots@.len() && first_with_path(roots_view(roots@), path@) == Some(
                k as int,
            ),
            None => first_with_path(roots_view(roots@), path@) is None,
        },
{
    let ghost s = roots_view(roots@);
    let mut i: usize = 0;
    assert(s.skip(0) =~= s);
    while i < roots.len()
        invariant
            i <= roots@.len(),
            s == roots_view(roots@),
            forall|j: int| 0 <= j < i ==> (#[trigger] s[j]).path != path@,
            first_with_path(s, path@) == match first_with_path(s.skip(i as int), path@) {
                Some(k) => Some(k + i),
                None => None::<int>,
            },
        decreases roots.len() - i,
    {
        let ghost rest = s.skip(i as int);
        assert(rest[0] == s[i as int]);
        assert(rest.drop_first() =~= s.skip(i + 1));
        if crate::text::str_eq(roots[i].path.as_str(), path) {
            return Some(i);
        }
        i = i + 1;
    }
    None
}

fn copy_roots(roots: &Vec<AuthorizedRoot>) -> (r: Vec<AuthorizedRoot>)
    ensures
        roots_view(r@) == roots_view(roots@),
{
    let mut out: Vec<AuthorizedRoot> = Vec::new();
    let mut i: usize = 0;
    while i < roots.len()
        invariant
            i <= roots@.len(),
            roots_view(out@) == roots_view(roots@).take(i as int),
        decreases roots.len() - i,
    {
        let c = roots[i].copy();
        let ghost before = out@;
        out.push(c);
        assert(roots_view(out@) =~= roots_view(roots@).take(i + 1)) by {
            assert(roots_view(out@) =~= roots_view(before).push(c@));
        }
        i = i + 1;
    }
    assert(roots_view(roots@).take(roots@.len() as int) =~= roots_view(roots@));
    out
}

/// The decision of `file_add_authorized_root`: `canonical` is the folder as resolved,
/// `is_dir` whether it is a folder, `roots` the stored roots as read, `id` and
/// `created_at` the new root's id and creation time. A folder already authorised (same
/// path text) gives its root back; a new one is added at the end of the list.
pub fn plan_add_authorized_root(
    canonical: Result<PathText, String>,
    is_dir: bool,
    roots: Result<Vec<AuthorizedRoot>, String>,
    label: Option<String>,
    id: String,
    created_at: String,
) -> (r: Result<AddRootOutcome, String>)
    ensures
        match add_root_refusal(path_result_view(canonical), is_dir, roots_result_view(roots)) {
            Some(e) => r matches Err(m) && m@ == e,
            None => r is Ok,
        },
        r matches Ok(AddRootOutcome::Existing(root)) ==> exists|k: int|
            first_with_path(roots_view(roots->Ok_0@), canonical->Ok_0@.text) == Some(k)
                && root@ == roots->Ok_0@[k]@,
        r matches Ok(AddRootOutcome::Added(root, list)) ==> {
            &&& first_with_path(roots_view(roots->Ok_0@), canonical->Ok_0@.text) is None
            &&& root@ == (RootView {
                id: id@,
                path: canonical->Ok_0@.text,
                label: root_label_spec(opt_text_view(label), canonical->Ok_0@),
                created_at: created_at@,
                last_indexed_at: None,
            })
            &&& roots_view(list@) == roots_view(roots->Ok_0@).push(root@)
        },
{
    let p = match canonical {
        Err(e) => {
            return Err(err_with("授权目录不存在或无法访问：", &e));
        },
        Ok(p) => p,
    };
    if !is_dir {
        return Err(String::from_str("授权路径必须是文件夹"));
    }
    if is_bad_root(&p) || is_blocked_path(&p) {
        return Err(String::from_str("拒绝授权系统目录或敏感目录"));
    }
    let list = match roots {
        Err(e) => {
            return Err(e);
        },
        Ok(list) => list,
    };
    if let Some(k) = find_path(&list, p.text.as_str()) {
        return Ok(AddRootOutcome::Existing(list[k].copy()));
    }
    let label_text = match label {
        Some(l) => {
            if !crate::text::blank(l.as_str()) {
                l
            } else {
                match p.file_name() {
                    Some(n) => n,
                    None => String::from_str("授权文件夹"),
                }
            }
        },
        None => match p.file_name() {
            Some(n) => n,
            None => String::from_str("授权文件夹"),
        },
    };
    let root = AuthorizedRoot {
        id,
        path: p.text.clone(),
        label: label_text,
        created_at,
        last_indexed_at: None,
    };
    let mut new_list = copy_roots(&list);
    let stored = root.copy();
    let ghost before = new_list@;
    new_list.push(stored);
    assert(roots_view(new_list@) =~= roots_view(before).push(root@));
    Ok(AddRootOutcome::Added(root, new_list))
}

} // verus!

verus! {

// ------------------------------------------------------------ indexing and reading

/// What the index learns of one entry of an authorised folder that is not a folder.
pub struct ScanEntry {
    /// The entry's path.
    pub path: PathText,
    /// The path with the root's path taken off its front (`strip_prefix`), when it has it.
    pub relative: Option<String>,
    pub is_file: bool,
    pub size_bytes: u64,
    /// Seconds since the epoch of its last change, when known.
    pub modified_secs: Option<u64>,
}

pub struct ItemView {
    pub id: Seq<char>,
    pub root_id: Seq<char>,
    pub path: Seq<char>,
    pub relative_path: Seq<char>,
    pub name: Seq<char>,
    pub extension: Seq<char>,
    pub size_bytes: u64,
    pub modified_at: Seq<char>,
    pub kind: Seq<char>,
}

impl View for FileIndexItem {
    type V = ItemView;

    open spec fn view(&self) -> ItemView {
        ItemView {
            id: self.id@,
            root_id: self.root_id@,
            path: self.path@,
            relative_path: self.relative_path@,
            name: self.name@,
            extension: self.extension@,
            size_bytes: self.size_bytes,
            modified_at: self.modified_at@,
            kind: self.kind@,
        }
    }
}

/// The item an entry gives: none for what is not a file, is over 20 MiB or is blocked.
pub open spec fn index_item_spec(root: RootView, e: ScanEntry) -> Option<ItemView> {
    if !e.is_file || e.size_bytes > MAX_SCAN_FILE_BYTES || is_blocked_spec(e.path@.text) {
        None
    } else {
        let relative = match e.relative {
            Some(r) => r@,
            None => e.path@.text,
        };
        let ext = dotted_extension(e.path@);
        Some(
            ItemView {
                id: root.id.push(':') + relative,
                root_id: root.id,
                path: e.path@.text,
                relative_path: relative,
                name: match file_name_spec(e.path@) {
                    Some(n) => n,
                    None => relative,
                },
                extension: ext,
                size_bytes: e.size_bytes,
                modified_at: stamp_text_spec(e.modified_secs),
                kind: kind_spec(ext),
            },
        )
    }
}

/// What `scan_dir` records for one entry that is not a folder.
pub fn index_entry(root: &AuthorizedRoot, entry: &ScanEntry) -> (r: Option<FileIndexItem>)
    ensures
        match r {
            Some(item) => index_item_spec(root@, *entry) == Some(item@),
            None => index_item_spec(root@, *entry) is None,
        },
{
    if !entry.is_file || entry.size_bytes > MAX_SCAN_FILE_BYTES || is_blocked_path(&entry.path) {
        return None;
    }
    let relative = match &entry.relative {
        Some(r) => r.clone(),
        None => entry.path.text.clone(),
    };
    let name = match entry.path.file_name() {
        Some(n) => n,
        None => relative.clone(),
    };
    let extension = dotted_extension_exec(&entry.path);
    let mut id = root.id.clone();
    crate::text::push_char(&mut id, ':');
    id.append(relative.as_str());
    let kind = kind_from_extension(extension.as_str());
    Some(
        FileIndexItem {
            id,
            root_id: root.id.clone(),
            path: entry.path.text.clone(),
            relative_path: relative,
            name,
            extension,
            size_bytes: entry.size_bytes,
            modified_at: stamp_text(entry.modified_secs),
            kind,
        },
    )
}

/// Why `file_read_text` refuses a file, once the candidate and the root are resolved and
/// the file's size is read, in the order it checks; `None` when it may be read.
pub open spec fn text_read_refusal(
    candidate: Result<PathView, Seq<char>>,
    root: Result<PathView, Seq<char>>,
    size: Result<u64, Seq<char>>,
) -> Option<Seq<char>> {
    match candidate {
        Err(e) => Some("文件不存在或无法访问："@ + e),
        Ok(c) => match ensure_inside_spec(Ok(c), seq![root]) {
            Err(e) => Some(e),
            Ok(_) => if is_blocked_spec(c.text) {
                Some("拒绝读取敏感文件"@)
            } else if !allowed_extensions().contains(dotted_extension(c)) {
                Some("只允许读取授权目录内的小型文本文件"@)
            } else {
                match size {
                    Err(e) => Some("读取文件信息失败："@ + e),
                    Ok(n) => if n > MAX_TEXT_FILE_BYTES {
                        Some("文件超过 1MB，已拒绝读取"@)
                    } else {
                        None
                    },
                }
            },
        },
    }
}

/// The checks of `file_read_text` before it reads: the file resolves, lies inside the
/// root, is not blocked, has a readable extension and is at most 1 MiB.
pub fn check_text_read(
    candidate: Result<PathText, String>,
    root: Result<PathText, String>,
    size: Result<u64, String>,
) -> (r: Result<(), String>)
    ensures
        match text_read_refusal(
            path_result_view(candidate),
            path_result_view(root),
            match size {
                Ok(n) => Ok(n),
                Err(e) => Err(e@),
            },
        ) {
            Some(e) => r matches Err(m) && m@ == e,
            None => r is Ok,
        },
        r is Ok ==> {
            &&& candidate is Ok && root is Ok && size is Ok
            &&& path_starts_with(candidate->Ok_0@, root->Ok_0@)
            &&& !is_blocked_spec(candidate->Ok_0@.text)
            &&& allowed_extensions().contains(dotted_extension(candidate->Ok_0@))
            &&& size->Ok_0 <= MAX_TEXT_FILE_BYTES
        },
{
    let c = match candidate {
        Err(e) => {
            return Err(err_with("文件不存在或无法访问：", &e));
        },
        Ok(c) => c,
    };
    let ghost rv = path_result_view(root);
    let roots = vec![root];
    assert(path_results_view(roots@) =~= seq![rv]);
    let again = Ok(c.copy());
    assert(path_result_view(again) == Ok::<PathView, Seq<char>>(c@));
    match ensure_inside_authorized_root(&again, &roots) {
        Err(e) => {
            return Err(e);
        },
        Ok(()) => {},
    }
    proof {
        assert(root_holds(path_results_view(roots@)[0], c@));
    }
    if is_blocked_path(&c) {
        return Err(String::from_str("拒绝读取敏感文件"));
    }
    if !is_allowed_text_file(&c) {
        return Err(String::from_str("只允许读取授权目录内的小型文本文件"));
    }
    match size {
        Err(e) => Err(err_with("读取文件信息失败：", &e)),
        Ok(n) => {
            if n > MAX_TEXT_FILE_BYTES {
                Err(String::from_str("文件超过 1MB，已拒绝读取"))
            } else {
                Ok(())
            }
        },
    }
}

} // verus!

verus! {

// ------------------------------------------------------------ laws

proof fn lemma_first_with_path_none(s: Seq<RootView>, path: Seq<char>)
    requires
        first_with_path(s, path) is None,
    ensures
        forall|j: int| 0 <= j < s.len() ==> (#[trigger] s[j]).path != path,
    decreases s.len(),
{
    if s.len() > 0 {
        lemma_first_with_path_none(s.drop_first(), path);
        assert forall|j: int| 0 <= j < s.len() implies (#[trigger] s[j]).path != path by {
            if j > 0 {
                assert(s[j] == s.drop_first()[j - 1]);
            }
        }
    }
}

proof fn lemma_first_with_path_push(s: Seq<RootView>, r: RootView)
    requires
        forall|j: int| 0 <= j < s.len() ==> (#[trigger] s[j]).path != r.path,
    ensures
        first_with_path(s.push(r), r.path) == Some(s.len() as int),
    decreases s.len(),
{
    if s.len() > 0 {
        lemma_first_with_path_push(s.drop_first(), r);
        assert(s.push(r).drop_first() =~= s.drop_first().push(r));
    }
}

/// Authorising a folder twice stores it once: once a new root is added, the same folder
/// is found among the stored roots, as that root.
pub proof fn law_add_root_once(roots: Seq<RootView>, root: RootView)
    requires
        first_with_path(roots, root.path) is None,
    ensures
        first_with_path(roots.push(root), root.path) == Some(roots.len() as int),
        roots.push(root)[roots.len() as int] == root,
{
    lemma_first_with_path_none(roots, root.path);
    lemma_first_with_path_push(roots, root);
}

proof fn lemma_first_with_id_none(s: Seq<RootView>, id: Seq<char>)
    requires
        forall|j: int| 0 <= j < s.len() ==> (#[trigger] s[j]).id != id,
    ensures
        first_with_id(s, id) is None,
    decreases s.len(),
{
    if s.len() > 0 {
        assert forall|j: int| 0 <= j < s.drop_first().len() implies (#[trigger] s.drop_first()[j]).id
            != id by {
            assert(s.drop_first()[j] == s[j + 1]);
        }
        lemma_first_with_id_none(s.drop_first(), id);
    }
}

/// Once a root is removed, looking it up by its id finds nothing, and indexing it changes
/// nothing.
pub proof fn law_removed_root_is_gone(roots: Seq<RootView>, id: Seq<char>, stamp: Seq<char>)
    ensures
        first_with_id(without_id(roots, id), id) is None,
        mark_indexed_spec(without_id(roots, id), id, stamp) == without_id(roots, id),
{
    lemma_without_id(roots, id);
    lemma_first_with_id_none(without_id(roots, id), id);
}

/// Indexing keeps every root's id, path, label and creation time, and the number of roots.
pub proof fn law_indexing_keeps_roots(roots: Seq<RootView>, id: Seq<char>, stamp: Seq<char>)
    ensures
        mark_indexed_spec(roots, id, stamp).len() == roots.len(),
        forall|j: int|
            0 <= j < roots.len() ==> {
                &&& (#[trigger] mark_indexed_spec(roots, id, stamp)[j]).id == roots[j].id
                &&& mark_indexed_spec(roots, id, stamp)[j].path == roots[j].path
                &&& mark_indexed_spec(roots, id, stamp)[j].label == roots[j].label
                &&& mark_indexed_spec(roots, id, stamp)[j].created_at == roots[j].created_at
            },
{
    lemma_first_with_id_bounds(roots, id);
}

/// The kind of each extension the index knows: `.md` `.txt` `.json` `.ts` `.tsx` `.css` `.rs`
/// `.toml` `.yaml` `.yml` `.html` `.xml` are text; `.png` `.jpg` `.jpeg` `.gif` `.webp` are
/// images; `.pdf` is pdf; `.doc` `.docx` `.ppt` `.pptx` `.xls` `.xlsx` are office files; any
/// other extension is unknown.
pub proof fn law_file_kinds(ext: Seq<char>)
    ensures
        kind_spec(ext) == if seq![".md"@, ".txt"@, ".json"@, ".ts"@, ".tsx"@, ".css"@, ".rs"@,
            ".toml"@, ".yaml"@, ".yml"@, ".html"@, ".xml"@].contains(ext) {
            "text"@
        } else if seq![".png"@, ".jpg"@, ".jpeg"@, ".gif"@, ".webp"@].contains(ext) {
            "image"@
        } else if ext == ".pdf"@ {
            "pdf"@
        } else if seq![".doc"@, ".docx"@, ".ppt"@, ".pptx"@, ".xls"@, ".xlsx"@].contains(ext) {
            "office"@
        } else {
            "unknown"@
        },
{
    assert(text_exts() =~= seq![".md"@, ".txt"@, ".json"@, ".ts"@, ".tsx"@, ".css"@, ".rs"@,
        ".toml"@, ".yaml"@, ".yml"@, ".html"@, ".xml"@]);
    assert(image_exts() =~= seq![".png"@, ".jpg"@, ".jpeg"@, ".gif"@, ".webp"@]);
    assert(office_exts() =~= seq![".doc"@, ".docx"@, ".ppt"@, ".pptx"@, ".xls"@, ".xlsx"@]);
}

/// A file may be read exactly when it resolves inside the resolved root, its path holds
/// none of the blocked patterns, its extension (lowercased, with its dot) is one of `.md`
/// `.txt` `.json` `.ts` `.tsx` `.css` `.rs` `.toml` `.yaml` `.yml` `.html` `.xml`, and its
/// size is read and at most 1 MiB (1048576 bytes).
pub proof fn law_text_read_allowed(c: PathView, root: PathView, size: u64)
    ensures
        text_read_refusal(Ok(c), Ok(root), Ok(size)) is None <==> {
            &&& path_starts_with(c, root)
            &&& !is_blocked_spec(c.text)
            &&& seq![".md"@, ".txt"@, ".json"@, ".ts"@, ".tsx"@, ".css"@, ".rs"@, ".toml"@,
                ".yaml"@, ".yml"@, ".html"@, ".xml"@].contains(dotted_extension(c))
            &&& size <= 1048576
        },
{
    let roots = seq![Ok::<PathView, Seq<char>>(root)];
    assert(roots.drop_first().len() == 0);
    reveal_with_fuel(inside_roots_spec, 2);
    assert(allowed_extensions() =~= seq![".md"@, ".txt"@, ".json"@, ".ts"@, ".tsx"@, ".css"@,
        ".rs"@, ".toml"@, ".yaml"@, ".yml"@, ".html"@, ".xml"@]);
}

/// A path is blocked exactly when its lowercased text contains one of `.env`,
/// `.env.local`, `.env.production`, `id_rsa`, `id_ed25519`, `token`, `secret`, `password`,
/// `cookie`, `cookies`, `credential`, `credentials`, `key.pem`, `private` or `.ssh`.
pub proof fn law_blocked_paths(text: Seq<char>)
    ensures
        ({
            let patterns = seq![".env"@, ".env.local"@, ".env.production"@, "id_rsa"@, "id_ed25519"@, "token"@, "secret"@, "password"@, "cookie"@, "cookies"@, "credential"@, "credentials"@, "key.pem"@, "private"@, ".ssh"@];
            is_blocked_spec(text) <==> exists|i: int|
                0 <= i < 15 && contains(lower_text(text), #[trigger] patterns[i])
        }),
{
    assert(blocked_patterns() =~= seq![".env"@, ".env.local"@, ".env.production"@, "id_rsa"@, "id_ed25519"@, "token"@, "secret"@, "password"@, "cookie"@, "cookies"@, "credential"@, "credentials"@, "key.pem"@, "private"@, ".ssh"@]);
}

/// Indexing passes over a folder exactly when its name, lowercased, starts with `.`, is
/// `.git`, `.next`, `build`, `dist`, `node_modules` or `target`, or its path is blocked; a
/// path without a name is entered.
pub proof fn law_skipped_folders(p: PathView)
    ensures
        skip_dir_spec(p) <==> (file_name_spec(p) matches Some(n) && ({
            let l = lower_text(n);
            (l.len() > 0 && l[0] == '.') || seq![".git"@, ".next"@, "build"@, "dist"@,
                "node_modules"@, "target"@].contains(l) || is_blocked_spec(p.text)
        })),
{
    assert(skip_dirs() =~= seq![".git"@, ".next"@, "build"@, "dist"@, "node_modules"@, "target"@]);
}

} // verus!
