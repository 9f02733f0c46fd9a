//! Wallpaper rotation: two folders, the images found in the current one, and the
//! next image to show.
use vstd::prelude::*;
use crate::clock::random_index;
use crate::config::AppConfig;
use crate::paths::{comps_lt, extension_spec, file_name_spec, path_le, same_path, PathText, PathView};
use vstd::relations::sorted_by;
use crate::text::{ascii_lower, chars_of, decimal, decimal_string, keys_view, str_eq};

verus! {

pub const DEFAULT_INTERVAL_MS: u32 = 60_000;

/// The rotation's state: the two folders, the folder in use, the images found in it and
/// the index of the one on screen.
pub struct WallpaperState {
    pub default_folder: PathText,
    pub alternate_folder: PathText,
    pub current_folder: PathText,
    pub current_images: Vec<PathText>,
    pub current_index: usize,
    pub interval_ms: u32,
}

pub struct WallpaperView {
    pub default_folder: PathView,
    pub alternate_folder: PathView,
    pub current_folder: PathView,
    pub current_images: Seq<PathView>,
    pub current_index: usize,
    pub interval_ms: u32,
}

pub open spec fn paths_view(v: Seq<PathText>) -> Seq<PathView> {
    v.map_values(|p: PathText| p@)
}

impl View for WallpaperState {
    type V = WallpaperView;

    open spec fn view(&self) -> WallpaperView {
        WallpaperView {
            default_folder: self.default_folder@,
            alternate_folder: self.alternate_folder@,
            current_folder: self.current_folder@,
            current_images: paths_view(self.current_images@),
            current_index: self.current_index,
            interval_ms: self.interval_ms,
        }
    }
}

pub open spec fn empty_path() -> PathView {
    PathView { text: Seq::empty(), components: Seq::empty(), keys: Seq::empty() }
}

fn new_path() -> (p: PathText)
    ensures
        p@ == empty_path(),
{
    let p = PathText { text: String::new(), components: Vec::new() };
    assert(p@.components =~= Seq::<(crate::paths::ComponentKind, Seq<char>)>::empty());
    assert(p@.keys =~= Seq::<(crate::paths::ComponentKind, Seq<u8>)>::empty());
    p
}

pub open spec fn interval_rule(ms: u32) -> u32 {
    if ms == 0 {
        DEFAULT_INTERVAL_MS
    } else {
        ms
    }
}

/// The message for a folder without images.
pub open spec fn no_images_message(folder: PathView) -> Seq<char> {
    "no wallpaper images found in "@ + folder.text
}

fn no_images(folder: &PathText) -> (m: String)
    ensures
        m@ == no_images_message(folder@),
{
    let mut m = String::from_str("no wallpaper images found in ");
    m.append(folder.text.as_str());
    m
}

/// `folder_label`: the folder's name, or its whole text when it has none.
pub open spec fn folder_label_spec(folder: PathView) -> Seq<char> {
    match file_name_spec(folder) {
        Some(n) => n,
        None => folder.text,
    }
}

pub fn folder_label(folder: &PathText) -> (l: String)
    ensures
        l@ == folder_label_spec(folder@),
{
    match folder.file_name() {
        Some(n) => n,
        None => folder.text.clone(),
    }
}

/// The target of `switch_wallpaper_folder`: the alternate folder when the default one is
/// in use, else the default one.
pub open spec fn switch_target_spec(s: WallpaperView) -> PathView {
    if same_path(s.current_folder, s.default_folder) {
        s.alternate_folder
    } else {
        s.default_folder
    }
}

/// One value that turning on the slideshow writes to the registry.
pub struct RegistryWrite {
    pub key: String,
    pub value_name: String,
    pub value_type: String,
    pub value: String,
}

pub struct RegistryWriteView {
    pub key: Seq<char>,
    pub value_name: Seq<char>,
    pub value_type: Seq<char>,
    pub value: Seq<char>,
}

impl View for RegistryWrite {
    type V = RegistryWriteView;

    open spec fn view(&self) -> RegistryWriteView {
        RegistryWriteView {
            key: self.key@,
            value_name: self.value_name@,
            value_type: self.value_type@,
            value: self.value@,
        }
    }
}

pub open spec fn slideshow_key() -> Seq<char> {
    "HKCU\\Control Panel\\Personalization\\Desktop Slideshow"@
}

pub open spec fn explorer_key() -> Seq<char> {
    "HKCU\\Software\\Microsoft\\Windows\\CurrentVersion\\Explorer\\Wallpapers\\Slideshow"@
}

/// The four writes of `set_slideshow_registry`, in order: the slideshow folder (twice),
/// the interval and shuffle.
pub open spec fn slideshow_writes_spec(folder: PathView, interval_ms: u32) -> Seq<RegistryWriteView> {
    seq![
        RegistryWriteView {
            key: slideshow_key(),
            value_name: "SlideshowSourceFolder"@,
            value_type: "REG_SZ"@,
            value: folder.text,
        },
        RegistryWriteView {
            key: explorer_key(),
            value_name: "ImagesFolderPath"@,
            value_type: "REG_SZ"@,
            value: folder.text,
        },
        RegistryWriteView {
            key: explorer_key(),
            value_name: "Interval"@,
            value_type: "REG_DWORD"@,
            value: decimal(interval_ms as nat),
        },
        RegistryWriteView {
            key: explorer_key(),
            value_name: "Shuffle"@,
            value_type: "REG_DWORD"@,
            value: "1"@,
        },
    ]
}

pub open spec fn writes_view(v: Seq<RegistryWrite>) -> Seq<RegistryWriteView> {
    v.map_values(|w: RegistryWrite| w@)
}

fn registry_write(key: &str, value_name: &str, value_type: &str, value: String) -> (w:
    RegistryWrite)
    ensures
        w@ == (RegistryWriteView {
            key: key@,
            value_name: value_name@,
            value_type: value_type@,
            value: value@,
        }),
{
    RegistryWrite {
        key: String::from_str(key),
        value_name: String::from_str(value_name),
        value_type: String::from_str(value_type),
        value,
    }
}

/// `set_slideshow_registry`: the registry writes that point the Windows slideshow at a
/// folder, in the order they are made.
pub fn set_slideshow_registry(folder: &PathText, interval_ms: u32) -> (w: Vec<RegistryWrite>)
    ensures
        writes_view(w@) == slideshow_writes_spec(folder@, interval_ms),
{
    let slideshow = "HKCU\\Control Panel\\Personalization\\Desktop Slideshow";
    let explorer = "HKCU\\Software\\Microsoft\\Windows\\CurrentVersion\\Explorer\\Wallpapers\\Slideshow";
    let mut w: Vec<RegistryWrite> = Vec::new();
    w.push(registry_write(slideshow, "SlideshowSourceFolder", "REG_SZ", folder.text.clone()));
    w.push(registry_write(explorer, "ImagesFolderPath", "REG_SZ", folder.text.clone()));
    w.push(
        registry_write(explorer, "Interval", "REG_DWORD", decimal_string(interval_ms as u64)),
    );
    w.push(registry_write(explorer, "Shuffle", "REG_DWORD", String::from_str("1")));
    assert(writes_view(w@) =~= slideshow_writes_spec(folder@, interval_ms));
    w
}

impl RegistryWrite {
    /// The arguments of `reg` that make this write.
    pub fn args(&self) -> (a: Vec<String>)
        ensures
            a@.map_values(|s: String| s@) == seq![
                "add"@,
                self.key@,
                "/v"@,
                self.value_name@,
                "/t"@,
                self.value_type@,
                "/d"@,
                self.value@,
                "/f"@,
            ],
    {
        let mut a: Vec<String> = Vec::new();
        a.push(String::from_str("add"));
        a.push(self.key.clone());
        a.push(String::from_str("/v"));
        a.push(self.value_name.clone());
        a.push(String::from_str("/t"));
        a.push(self.value_type.clone());
        a.push(String::from_str("/d"));
        a.push(self.value.clone());
        a.push(String::from_str("/f"));
        assert(a@.map_values(|s: String| s@) =~= seq![
            "add"@,
            self.key@,
            "/v"@,
            self.value_name@,
            "/t"@,
            self.value_type@,
            "/d"@,
            self.value@,
            "/f"@,
        ]);
        a
    }
}

/// What showing a folder asks of the system: the registry writes, then the image to set.
pub struct WallpaperPlan {
    pub registry: Vec<RegistryWrite>,
    pub wallpaper: PathText,
}

/// The state after a successful advance: the next index, cyclically.
pub open spec fn advance_spec(s: WallpaperView) -> WallpaperView {
    WallpaperView {
        current_index: ((s.current_index + 1) % (s.current_images.len() as int)) as usize,
        ..s
    }
}

impl WallpaperState {
    /// The state before any settings are read: empty folders and the default interval.
    pub fn initial() -> (s: WallpaperState)
        ensures
            s@.default_folder == empty_path(),
            s@.alternate_folder == empty_path(),
            s@.current_folder == empty_path(),
            s@.current_images.len() == 0,
            s@.current_index == 0,
            s@.interval_ms == DEFAULT_INTERVAL_MS,
    {
        WallpaperState {
            default_folder: new_path(),
            alternate_folder: new_path(),
            current_folder: new_path(),
            current_images: Vec::new(),
            current_index: 0,
            interval_ms: DEFAULT_INTERVAL_MS,
        }
    }

    /// `from_config`: the default folder in use, no images yet, and the configured interval
    /// (the default one when the setting is 0). `default_folder` and `alternate_folder` are
    /// the two folder settings of `config` as paths.
    pub fn from_config(config: &AppConfig, default_folder: PathText, alternate_folder: PathText) -> (s:
        WallpaperState)
        requires
            default_folder@.text == config.default_wallpaper_folder@,
            alternate_folder@.text == config.alternate_wallpaper_folder@,
        ensures
            s@.default_folder == default_folder@,
            s@.alternate_folder == alternate_folder@,
            s@.current_folder == default_folder@,
            s@.default_folder.text == config.default_wallpaper_folder@,
            s@.alternate_folder.text == config.alternate_wallpaper_folder@,
            s@.current_images.len() == 0,
            s@.current_index == 0,
            s@.interval_ms == interval_rule(config.wallpaper_interval_ms),
    {
        let current = default_folder.copy();
        WallpaperState {
            default_folder,
            alternate_folder,
            current_folder: current,
            current_images: Vec::new(),
            current_index: 0,
            interval_ms: if config.wallpaper_interval_ms == 0 {
                DEFAULT_INTERVAL_MS
            } else {
                config.wallpaper_interval_ms
            },
        }
    }

    /// `current_label`.
    pub fn current_label(&self) -> (l: String)
        ensures
            l@ == folder_label_spec(self@.current_folder),
    {
        folder_label(&self.current_folder)
    }

    /// The folder `switch_wallpaper_folder` turns to.
    pub fn switch_target(&self) -> (p: PathText)
        ensures
            p@ == switch_target_spec(self@),
    {
        if self.current_folder.same_as(&self.default_folder) {
            self.alternate_folder.copy()
        } else {
            self.default_folder.copy()
        }
    }

    /// `activate_folder` once the folder is scanned: a scan error or a folder without
    /// images leaves the state as it was; otherwise the folder and its images are taken,
    /// an image is picked at random, and the plan says what to write and show.
    pub fn activate_folder(&mut self, folder: PathText, scanned: Result<Vec<PathText>, String>) -> (r:
        Result<WallpaperPlan, String>)
        ensures
            match scanned {
                Err(e) => r is Err && r->Err_0@ == e@ && final(self)@ == old(self)@,
                Ok(images) => if images@.len() == 0 {
                    r is Err && r->Err_0@ == no_images_message(folder@) && final(self)@ == old(self)@
                } else {
                    &&& r is Ok
                    &&& final(self)@.current_folder == folder@
                    &&& final(self)@.current_images == paths_view(images@)
                    &&& final(self)@.current_index < images@.len()
                    &&& final(self)@.default_folder == old(self)@.default_folder
                    &&& final(self)@.alternate_folder == old(self)@.alternate_folder
                    &&& final(self)@.interval_ms == old(self)@.interval_ms
                    &&& writes_view(r->Ok_0.registry@) == slideshow_writes_spec(
                        folder@,
                        old(self)@.interval_ms,
                    )
                    &&& r->Ok_0.wallpaper@ == final(self)@.current_images[final(self)@.current_index as int]
                },
            },
    {
        let images = match scanned {
            Err(e) => {
                return Err(e);
            },
            Ok(images) => images,
        };
        if images.len() == 0 {
            return Err(no_images(&folder));
        }
        self.current_folder = folder;
        self.current_images = images;
        self.current_index = random_index(self.current_images.len());
        let registry = set_slideshow_registry(&self.current_folder, self.interval_ms);
        let wallpaper = self.current_images[self.current_index].copy();
        Ok(WallpaperPlan { registry, wallpaper })
    }

    /// Whether `next_wallpaper` must scan the current folder first: no images are known.
    pub fn needs_rescan(&self) -> (b: bool)
        ensures
            b == (self@.current_images.len() == 0),
    {
        self.current_images.len() == 0
    }

    /// Takes the result of that scan: its images, or its error with the state unchanged.
    pub fn take_rescan(&mut self, scanned: Result<Vec<PathText>, String>) -> (r: Result<(), String>)
        ensures
            match scanned {
                Err(e) => r is Err && r->Err_0@ == e@ && final(self)@ == old(self)@,
                Ok(images) => r is Ok && final(self)@ == (WallpaperView {
                    current_images: paths_view(images@),
                    ..old(self)@
                }),
            },
    {
        match scanned {
            Err(e) => Err(e),
            Ok(images) => {
                self.current_images = images;
                Ok(())
            },
        }
    }

    /// The step of `next_wallpaper`: with no images, the error naming the folder; else the
    /// index moves to the next image, cyclically, and that image is the one to show.
    pub fn advance(&mut self) -> (r: Result<PathText, String>)
        ensures
            old(self)@.current_images.len() == 0 ==> r is Err && r->Err_0@ == no_images_message(
                old(self)@.current_folder,
            ) && final(self)@ == old(self)@,
            old(self)@.current_images.len() > 0 ==> {
                &&& final(self)@ == advance_spec(old(self)@)
                &&& r is Ok
                &&& r->Ok_0@ == final(self)@.current_images[final(self)@.current_index as int]
                &&& final(self)@.current_index < final(self)@.current_images.len()
            },
    {
        let n = self.current_images.len();
        if n == 0 {
            return Err(no_images(&self.current_folder));
        }
        let i = self.current_index;
        self.current_index = (i % n + 1) % n;
        proof {
            let ii = i as int;
            let nn = n as int;
            vstd::arithmetic::div_mod::lemma_add_mod_noop(ii, 1, nn);
            vstd::arithmetic::div_mod::lemma_mod_twice(1, nn);
            assert((ii % nn + 1) % nn == (ii + 1) % nn) by {
                vstd::arithmetic::div_mod::lemma_add_mod_noop(ii % nn, 1, nn);
                vstd::arithmetic::div_mod::lemma_mod_twice(ii, nn);
            }
        }
        Ok(self.current_images[self.current_index].copy())
    }
}

// ------------------------------------------------------------ scanning

/// The image extensions, as `to_ascii_lowercase` leaves them.
pub open spec fn image_extensions() -> Seq<Seq<char>> {
    seq!["jpg"@, "jpeg"@, "png"@, "webp"@, "bmp"@]
}

fn ascii_lowercase(s: &str) -> (r: String)
    ensures
        r@ == ascii_lower(s@),
{
    let v = chars_of(s);
    let mut out = String::new();
    let mut i: usize = 0;
    while i < v.len()
        invariant
            i <= v@.len(),
            v@ == s@,
            out@ == ascii_lower(v@.take(i as int)),
        decreases v.len() - i,
    {
        let c = v[i];
        let l = if 'A' <= c && c <= 'Z' {
            let u = (c as u32) + 32;
            assert(u <= 0x7F);
            char_from_ascii(u)
        } else {
            c
        };
        crate::text::push_char(&mut out, l);
        assert(ascii_lower(v@.take(i + 1)) =~= ascii_lower(v@.take(i as int)).push(l));
        i = i + 1;
    }
    assert(v@.take(v@.len() as int) =~= v@);
    out
}

fn char_from_ascii(u: u32) -> (c: char)
    requires
        u <= 0x7F,
    ensures
        c == u as char,
{
    (u as u8) as char
}

/// A file the rotation uses: its extension, ASCII-lowercased, is an image one.
pub open spec fn is_wallpaper_image_spec(p: PathView) -> bool {
    match extension_spec(p) {
        Some(e) => image_extensions().contains(ascii_lower(e)),
        None => false,
    }
}

/// The test `scan_images_recursive` applies to each file it meets.
pub fn is_wallpaper_image(path: &PathText) -> (b: bool)
    ensures
        b == is_wallpaper_image_spec(path@),
{
    match path.extension() {
        Some(e) => {
            let l = ascii_lowercase(e.as_str());
            let list = ["jpg", "jpeg", "png", "webp", "bmp"];
            assert(keys_view(list@) =~= image_extensions());
            crate::text::in_list(l.as_str(), &list)
        },
        None => false,
    }
}

/// Sorts paths as `Vec<PathBuf>::sort` does: by components, keeping the order of paths
/// whose components are the same.
pub fn sort_paths(v: Vec<PathText>) -> (r: Vec<PathText>)
    ensures
        sorted_by(paths_view(r@), |a: PathView, b: PathView| path_le(a, b)),
        paths_view(r@).to_multiset() == paths_view(v@).to_multiset(),
{
    broadcast use vstd::seq_lib::to_multiset_insert;

    let ghost le = |a: PathView, b: PathView| path_le(a, b);
    let mut r: Vec<PathText> = Vec::new();
    let mut i: usize = 0;
    let mut v = v;
    assert(paths_view(r@) =~= paths_view(v@.take(0)));
    while i < v.len()
        invariant
            i <= v@.len(),
            sorted_by(paths_view(r@), le),
            le == (|a: PathView, b: PathView| path_le(a, b)),
            paths_view(r@).to_multiset() == paths_view(v@.take(i as int)).to_multiset(),
        decreases v.len() - i,
    {
        let x = v[i].copy();
        let mut k: usize = 0;
        while k < r.len() && !x.less_than(&r[k])
            invariant
                k <= r@.len(),
                forall|j: int| 0 <= j < k ==> !comps_lt(x@.keys, #[trigger] r@[j]@.keys),
            decreases r.len() - k,
        {
            k = k + 1;
        }
        let ghost before = paths_view(r@);
        let ghost xv = x@;
        assert(k < r@.len() ==> comps_lt(xv.keys, before[k as int].keys));
        r.insert(k, x);
        assert(paths_view(r@) =~= before.insert(k as int, xv));
        proof {
            let after = paths_view(r@);
            assert forall|a: int, b: int| 0 <= a < b < after.len() implies #[trigger] le(
                after[a],
                after[b],
            ) by {
                if a < k && b == k {
                    assert(after[a] == before[a]);
                    assert(after[b] == xv);
                    assert(!comps_lt(xv.keys, before[a].keys));
                    assert(path_le(after[a], after[b]));
                } else if a == k && b > k {
                    assert(after[b] == before[b - 1]);
                    assert(after[a] == xv);
                    if b - 1 > k {
                        assert(le(before[k as int], before[b - 1]));
                    }
                    crate::paths::lemma_comps_lt_irrefl(before[k as int].keys);
                    if comps_lt(before[b - 1].keys, xv.keys) {
                        crate::paths::lemma_comps_lt_trans(
                            before[b - 1].keys,
                            xv.keys,
                            before[k as int].keys,
                        );
                    }
                    assert(path_le(after[a], after[b]));
                } else {
                    let a0 = if a < k { a } else { a - 1 };
                    let b0 = if b < k { b } else { b - 1 };
                    assert(after[a] == before[a0]);
                    assert(after[b] == before[b0]);
                    assert(le(before[a0], before[b0]));
                }
            }
            assert(v@.take(i + 1) =~= v@.take(i as int).push(v@[i as int]));
            assert(paths_view(v@.take(i + 1)) =~= paths_view(v@.take(i as int)).push(x@));
            let pv = paths_view(v@.take(i as int));
            assert(pv.push(x@) =~= pv.insert(pv.len() as int, x@));
            vstd::seq_lib::to_multiset_insert(pv, pv.len() as int, x@);
            vstd::seq_lib::to_multiset_insert(before, k as int, x@);
        }
        i = i + 1;
    }
    assert(v@.take(v@.len() as int) =~= v@);
    r
}

/// `scan_images` once the folder is checked and walked: a missing folder or a failed walk
/// is an error; the images found come back sorted.
pub fn scan_images(folder: &PathText, exists: bool, found: Result<Vec<PathText>, String>) -> (r:
    Result<Vec<PathText>, String>)
    ensures
        !exists ==> r is Err && r->Err_0@ == "folder does not exist: "@ + folder@.text,
        exists && found is Err ==> r is Err && r->Err_0@ == found->Err_0@,
        exists && found is Ok ==> r is Ok && sorted_by(
            paths_view(r->Ok_0@),
            |a: PathView, b: PathView| path_le(a, b),
        ) && paths_view(r->Ok_0@).to_multiset() == paths_view(found->Ok_0@).to_multiset(),
{
    if !exists {
        let mut m = String::from_str("folder does not exist: ");
        m.append(folder.text.as_str());
        return Err(m);
    }
    match found {
        Err(e) => Err(e),
        Ok(images) => Ok(sort_paths(images)),
    }
}

// ------------------------------------------------------------ laws

/// Advancing `n` times from a state with `n` images comes back to the same image.
pub open spec fn advance_n(s: WallpaperView, k: nat) -> WallpaperView
    decreases k,
{
    if k == 0 {
        s
    } else {
        advance_spec(advance_n(s, (k - 1) as nat))
    }
}

proof fn lemma_advance_n(s: WallpaperView, k: nat)
    requires
        0 < s.current_images.len() <= usize::MAX,
        s.current_index < s.current_images.len(),
    ensures
        advance_n(s, k).current_index == (s.current_index + k) % (s.current_images.len() as int),
        advance_n(s, k) == (WallpaperView { current_index: advance_n(s, k).current_index, ..s }),
    decreases k,
{
    if k > 0 {
        lemma_advance_n(s, (k - 1) as nat);
        let n = s.current_images.len() as int;
        let i = s.current_index as int;
        let x = i + (k - 1);
        vstd::arithmetic::div_mod::lemma_add_mod_noop(x, 1, n);
        vstd::arithmetic::div_mod::lemma_add_mod_noop(x % n, 1, n);
        vstd::arithmetic::div_mod::lemma_mod_twice(x, n);
        assert((x % n + 1) % n == (i + k) % n);
    } else {
        assert((s.current_index as int) % (s.current_images.len() as int) == s.current_index) by {
            vstd::arithmetic::div_mod::lemma_small_mod(
                s.current_index as nat,
                s.current_images.len() as nat,
            );
        }
    }
}

/// After as many advances as there are images, the rotation shows the image it started
/// from, and every image shown on the way is one of the folder's.
pub proof fn law_rotation_cycles(s: WallpaperView)
    requires
        0 < s.current_images.len() <= usize::MAX,
        s.current_index < s.current_images.len(),
    ensures
        advance_n(s, s.current_images.len()) == s,
        forall|k: nat| #[trigger] advance_n(s, k).current_index < s.current_images.len(),
{
    let n = s.current_images.len();
    lemma_advance_n(s, n);
    assert((s.current_index + n) % (n as int) == s.current_index) by {
        vstd::arithmetic::div_mod::lemma_mod_add_multiples_vanish(s.current_index as int, n as int);
        vstd::arithmetic::div_mod::lemma_small_mod(s.current_index as nat, n as nat);
    }
    assert forall|k: nat| #[trigger] advance_n(s, k).current_index < s.current_images.len() by {
        lemma_advance_n(s, k);
    }
}

/// Switching twice from the default folder (when the two folders differ) comes back to it.
pub proof fn law_switch_toggles(s: WallpaperView)
    requires
        same_path(s.current_folder, s.default_folder),
        !same_path(s.alternate_folder, s.default_folder),
    ensures
        switch_target_spec(s) == s.alternate_folder,
        switch_target_spec(WallpaperView { current_folder: s.alternate_folder, ..s })
            == s.default_folder,
{
}

/// The rotation uses exactly the files whose extension, ASCII-lowercased, is `jpg`, `jpeg`,
/// `png`, `webp` or `bmp`: any other extension, or none, leaves a file out.
pub proof fn law_image_files(p: PathView)
    ensures
        is_wallpaper_image_spec(p) <==> (extension_spec(p) matches Some(e) && (ascii_lower(e)
            == "jpg"@ || ascii_lower(e) == "jpeg"@ || ascii_lower(e) == "png"@ || ascii_lower(e)
            == "webp"@ || ascii_lower(e) == "bmp"@)),
{
    if let Some(e) = extension_spec(p) {
        let l = ascii_lower(e);
        let list = image_extensions();
        assert(list[0] == "jpg"@ && list[1] == "jpeg"@ && list[2] == "png"@ && list[3] == "webp"@
            && list[4] == "bmp"@);
        if list.contains(l) {
            let k = choose|k: int| 0 <= k < list.len() && list[k] == l;
            assert(k == 0 || k == 1 || k == 2 || k == 3 || k == 4);
        }
        if l == "png"@ {
            assert(list[2] == l);
        }
        if l == "jpg"@ {
            assert(list[0] == l);
        }
        if l == "jpeg"@ {
            assert(list[1] == l);
        }
        if l == "webp"@ {
            assert(list[3] == l);
        }
        if l == "bmp"@ {
            assert(list[4] == l);
        }
    }
}

} // verus!
