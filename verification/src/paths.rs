//! Paths as the library reads them: the text of a path and its components, each with
//! its kind, its text and the bytes by which `std::path` compares it, in the order
//! `Path::components` yields them.
use vstd::prelude::*;
use crate::text::{chars_of, str_eq};
use vstd::string::StrSliceExecFns;
use vstd::utf8::encode_utf8;

verus! {

/// The kinds of `std::path::Component`.
#[derive(Clone, Copy, PartialEq, Eq, Structural)]
pub enum ComponentKind {
    Prefix,
    RootDir,
    CurDir,
    ParentDir,
    Normal,
}

/// One component of a path: its kind, its text (`as_os_str`, lossily) and its key, the
/// bytes by which `Component`'s `Eq` and `Ord` tell components of one kind apart: the
/// encoded bytes of a normal name, an encoding of the parsed prefix for a prefix (its
/// variant first, then its parts), and nothing for the other kinds.
pub struct PathComponent {
    pub kind: ComponentKind,
    pub text: String,
    pub key: Vec<u8>,
}

/// A path: its text (`to_string_lossy`) and its components.
pub struct PathText {
    pub text: String,
    pub components: Vec<PathComponent>,
}

/// The value of a path: its text, its components as kinds and texts (for names) and as
/// kinds and keys (for comparing paths).
pub struct PathView {
    pub text: Seq<char>,
    pub components: Seq<(ComponentKind, Seq<char>)>,
    pub keys: Seq<(ComponentKind, Seq<u8>)>,
}

impl View for PathText {
    type V = PathView;

    open spec fn view(&self) -> PathView {
        PathView {
            text: self.text@,
            components: self.components@.map_values(|c: PathComponent| (c.kind, c.text@)),
            keys: self.components@.map_values(|c: PathComponent| (c.kind, c.key@)),
        }
    }
}

/// `Path::file_name`: the last component when it is a normal one.
pub open spec fn file_name_spec(p: PathView) -> Option<Seq<char>> {
    if p.components.len() > 0 && p.components.last().0 == ComponentKind::Normal {
        Some(p.components.last().1)
    } else {
        None
    }
}

/// The position of the last `.` in `s`.
pub open spec fn last_dot(s: Seq<char>) -> Option<int>
    decreases s.len(),
{
    if s.len() == 0 {
        None
    } else if s.last() == '.' {
        Some(s.len() - 1)
    } else {
        last_dot(s.drop_last())
    }
}

/// The extension of a file name: what follows its last `.`, unless the name has no `.`
/// or its only `.` is its first character.
pub open spec fn name_extension(name: Seq<char>) -> Option<Seq<char>> {
    match last_dot(name) {
        None => None,
        Some(k) => if k == 0 {
            None
        } else {
            Some(name.skip(k + 1))
        },
    }
}

/// `Path::extension`.
pub open spec fn extension_spec(p: PathView) -> Option<Seq<char>> {
    match file_name_spec(p) {
        Some(n) => name_extension(n),
        None => None,
    }
}

/// `Path::starts_with`: `base`'s components begin `p`'s.
pub open spec fn path_starts_with(p: PathView, base: PathView) -> bool {
    base.keys.len() <= p.keys.len() && p.keys.take(base.keys.len() as int) == base.keys
}

/// `PathBuf == PathBuf`: the same components.
pub open spec fn same_path(a: PathView, b: PathView) -> bool {
    a.keys == b.keys
}

proof fn lemma_last_dot(s: Seq<char>, i: int)
    requires
        0 <= i <= s.len(),
        forall|j: int| i <= j < s.len() ==> #[trigger] s[j] != '.',
    ensures
        last_dot(s) == last_dot(s.take(i)),
    decreases s.len() - i,
{
    if i < s.len() {
        lemma_last_dot(s, i + 1);
        assert(s.take(i + 1).drop_last() =~= s.take(i));
        assert(s.take(i + 1).last() == s[i]);
    } else {
        assert(s.take(i) =~= s);
    }
}

proof fn lemma_last_dot_found(s: Seq<char>, k: int)
    requires
        0 <= k < s.len(),
        s[k] == '.',
        forall|j: int| k < j < s.len() ==> #[trigger] s[j] != '.',
    ensures
        last_dot(s) == Some(k),
{
    lemma_last_dot(s, k + 1);
    assert(s.take(k + 1).last() == '.');
}

/// `name_extension` computed.
pub fn extension_of_name(name: &str) -> (r: Option<String>)
    ensures
        match r {
            Some(e) => name_extension(name@) == Some(e@),
            None => name_extension(name@) is None,
        },
{
    let v = chars_of(name);
    let mut i = v.len();
    while i > 0 && v[i - 1] != '.'
        invariant
            i <= v.len(),
            v@ == name@,
            forall|j: int| i <= j < v@.len() ==> #[trigger] v@[j] != '.',
        decreases i,
    {
        i = i - 1;
    }
    if i == 0 {
        proof {
            lemma_last_dot(v@, 0);
        }
        return None;
    }
    proof {
        lemma_last_dot_found(v@, i - 1);
    }
    if i == 1 {
        return None;
    }
    let e = crate::text::string_of_range(&v, i, v.len());
    assert(v@.subrange(i as int, v@.len() as int) =~= v@.skip(i as int));
    Some(e)
}

impl PathText {
    /// `Path::file_name`, as text.
    pub fn file_name(&self) -> (r: Option<String>)
        ensures
            match r {
                Some(n) => file_name_spec(self@) == Some(n@),
                None => file_name_spec(self@) is None,
            },
    {
        let n = self.components.len();
        if n > 0 && self.components[n - 1].kind == ComponentKind::Normal {
            Some(self.components[n - 1].text.clone())
        } else {
            None
        }
    }

    /// `Path::extension`, as text.
    pub fn extension(&self) -> (r: Option<String>)
        ensures
            match r {
                Some(e) => extension_spec(self@) == Some(e@),
                None => extension_spec(self@) is None,
            },
    {
        match self.file_name() {
            Some(n) => extension_of_name(n.as_str()),
            None => None,
        }
    }

    /// `Path::starts_with`.
    pub fn starts_with(&self, base: &PathText) -> (r: bool)
        ensures
            r == path_starts_with(self@, base@),
    {
        let n = base.components.len();
        if n > self.components.len() {
            return false;
        }
        let mut i: usize = 0;
        while i < n
            invariant
                n == base.components@.len(),
                n <= self.components@.len(),
                i <= n,
                forall|j: int| 0 <= j < i ==> self@.keys[j] == base@.keys[j],
            decreases n - i,
        {
            let a = &self.components[i];
            let b = &base.components[i];
            if a.kind != b.kind || !bytes_equal(&a.key, &b.key) {
                assert(self@.keys.take(n as int)[i as int] != base@.keys[i as int]);
                return false;
            }
            i = i + 1;
        }
        assert(self@.keys.take(n as int) =~= base@.keys);
        true
    }

    /// `PathBuf == PathBuf`.
    pub fn same_as(&self, other: &PathText) -> (r: bool)
        ensures
            r == same_path(self@, other@),
    {
        if self.components.len() != other.components.len() {
            return false;
        }
        let r = self.starts_with(other);
        assert(self@.keys.take(self@.keys.len() as int) =~= self@.keys);
        r
    }

    /// A copy that keeps the text and every component.
    pub fn copy(&self) -> (r: PathText)
        ensures
            r@ == self@,
    {
        let mut comps: Vec<PathComponent> = Vec::new();
        let mut i: usize = 0;
        while i < self.components.len()
            invariant
                i <= self.components@.len(),
                comps@.len() == i,
                forall|j: int|
                    0 <= j < i ==> (#[trigger] comps@[j]).kind == self.components@[j].kind
                        && comps@[j].text@ == self.components@[j].text@ && comps@[j].key@
                        == self.components@[j].key@,
            decreases self.components.len() - i,
        {
            let c = &self.components[i];
            comps.push(PathComponent { kind: c.kind, text: c.text.clone(), key: c.key.clone() });
            i = i + 1;
        }
        let r = PathText { text: self.text.clone(), components: comps };
        assert(r@.components =~= self@.components);
        assert(r@.keys =~= self@.keys);
        r
    }

    /// `PathBuf::join` with a plain name, as on Windows.
    pub fn join_name(&self, name: &str) -> (r: PathText)
        requires
            plain_name(name@),
        ensures
            r@ == join_name_spec(self@, name@),
    {
        let mut r = self.copy();
        let v = chars_of(self.text.as_str());
        let n = v.len();
        let bare_drive = self.components.len() == 1 && self.components[0].kind
            == ComponentKind::Prefix && str_eq(self.components[0].text.as_str(), self.text.as_str())
            && n == 2 && v[1] == ':';
        if n > 0 && v[n - 1] != '\\' && v[n - 1] != '/' && !bare_drive {
            crate::text::push_char(&mut r.text, '\\');
        }
        r.text.append(name);
        let ghost before = r@.components;
        let ghost before_keys = r@.keys;
        let key = name.as_bytes_vec();
        r.components.push(
            PathComponent { kind: ComponentKind::Normal, text: String::from_str(name), key },
        );
        assert(r@.components =~= before.push((ComponentKind::Normal, name@)));
        assert(r@.keys =~= before_keys.push((ComponentKind::Normal, encode_utf8(name@))));
        r
    }
}

/// A character that may stand in a plain name: not a separator or a drive colon.
pub open spec fn plain_char(c: char) -> bool {
    c != '\\' && c != '/' && c != ':'
}

/// A name that joins as one normal component: not empty, not `.` or `..`, and without
/// separators or a drive colon.
pub open spec fn plain_name(name: Seq<char>) -> bool {
    &&& name.len() > 0
    &&& name != seq!['.']
    &&& name != seq!['.', '.']
    &&& forall|i: int| 0 <= i < name.len() ==> plain_char(#[trigger] name[i])
}

/// Whether joining onto `p` first adds a `\`: the text is not empty, does not end with a
/// separator, and is not a bare drive such as `C:`.
pub open spec fn join_needs_separator(p: PathView) -> bool {
    let t = p.text;
    &&& t.len() > 0
    &&& t.last() != '\\'
    &&& t.last() != '/'
    &&& !(p.components.len() == 1 && p.components[0].0 == ComponentKind::Prefix
        && p.components[0].1 == t && t.len() == 2 && t[1] == ':')
}

/// `p.join(name)`: the name is appended to the text (after a `\` when needed) and becomes
/// the last component, its key its UTF-8 bytes.
pub open spec fn join_name_spec(p: PathView, name: Seq<char>) -> PathView {
    PathView {
        text: if join_needs_separator(p) {
            p.text.push('\\') + name
        } else {
            p.text + name
        },
        components: p.components.push((ComponentKind::Normal, name)),
        keys: p.keys.push((ComponentKind::Normal, encode_utf8(name))),
    }
}

} // verus!

verus! {

// ------------------------------------------------------------ ordering

/// The order of `Component`'s variants.
pub open spec fn kind_rank(k: ComponentKind) -> int {
    match k {
        ComponentKind::Prefix => 0,
        ComponentKind::RootDir => 1,
        ComponentKind::CurDir => 2,
        ComponentKind::ParentDir => 3,
        ComponentKind::Normal => 4,
    }
}

/// Texts ordered character by character, a proper prefix first.
pub open spec fn text_lt(a: Seq<char>, b: Seq<char>) -> bool
    decreases a.len(),
{
    if b.len() == 0 {
        false
    } else if a.len() == 0 {
        true
    } else if a[0] != b[0] {
        (a[0] as u32) < (b[0] as u32)
    } else {
        text_lt(a.drop_first(), b.drop_first())
    }
}

/// Bytes ordered one by one, a proper prefix first, as `[u8]`'s `Ord` orders them.
pub open spec fn bytes_lt(a: Seq<u8>, b: Seq<u8>) -> bool
    decreases a.len(),
{
    if b.len() == 0 {
        false
    } else if a.len() == 0 {
        true
    } else if a[0] != b[0] {
        a[0] < b[0]
    } else {
        bytes_lt(a.drop_first(), b.drop_first())
    }
}

/// Components ordered as `Component`'s `Ord` orders them: by kind, then by key.
pub open spec fn comp_lt(a: (ComponentKind, Seq<u8>), b: (ComponentKind, Seq<u8>)) -> bool {
    kind_rank(a.0) < kind_rank(b.0) || (kind_rank(a.0) == kind_rank(b.0) && bytes_lt(a.1, b.1))
}

/// Paths ordered as `PathBuf`'s `Ord` orders them: component by component.
pub open spec fn comps_lt(a: Seq<(ComponentKind, Seq<u8>)>, b: Seq<(ComponentKind, Seq<u8>)>) -> bool
    decreases a.len(),
{
    if b.len() == 0 {
        false
    } else if a.len() == 0 {
        true
    } else if a[0] != b[0] {
        comp_lt(a[0], b[0])
    } else {
        comps_lt(a.drop_first(), b.drop_first())
    }
}

pub open spec fn path_le(a: PathView, b: PathView) -> bool {
    !comps_lt(b.keys, a.keys)
}

pub proof fn lemma_bytes_lt_trans(a: Seq<u8>, b: Seq<u8>, c: Seq<u8>)
    requires
        bytes_lt(a, b),
        bytes_lt(b, c),
    ensures
        bytes_lt(a, c),
    decreases a.len(),
{
    if a.len() > 0 && b.len() > 0 && c.len() > 0 && a[0] == b[0] && b[0] == c[0] {
        lemma_bytes_lt_trans(a.drop_first(), b.drop_first(), c.drop_first());
    }
}

pub proof fn lemma_bytes_lt_irrefl(a: Seq<u8>)
    ensures
        !bytes_lt(a, a),
    decreases a.len(),
{
    if a.len() > 0 {
        lemma_bytes_lt_irrefl(a.drop_first());
    }
}

pub proof fn lemma_comp_lt_trans(
    a: (ComponentKind, Seq<u8>),
    b: (ComponentKind, Seq<u8>),
    c: (ComponentKind, Seq<u8>),
)
    requires
        comp_lt(a, b),
        comp_lt(b, c),
    ensures
        comp_lt(a, c),
{
    if kind_rank(a.0) == kind_rank(b.0) && kind_rank(b.0) == kind_rank(c.0) {
        lemma_bytes_lt_trans(a.1, b.1, c.1);
    }
}

pub proof fn lemma_comp_lt_irrefl(a: (ComponentKind, Seq<u8>))
    ensures
        !comp_lt(a, a),
{
    lemma_bytes_lt_irrefl(a.1);
}

pub proof fn lemma_comps_lt_trans(
    a: Seq<(ComponentKind, Seq<u8>)>,
    b: Seq<(ComponentKind, Seq<u8>)>,
    c: Seq<(ComponentKind, Seq<u8>)>,
)
    requires
        comps_lt(a, b),
        comps_lt(b, c),
    ensures
        comps_lt(a, c),
    decreases a.len(),
{
    if a.len() > 0 && b.len() > 0 && c.len() > 0 {
        if a[0] == b[0] && b[0] == c[0] {
            lemma_comps_lt_trans(a.drop_first(), b.drop_first(), c.drop_first());
        } else if a[0] == b[0] {
            assert(comp_lt(b[0], c[0]));
        } else if b[0] == c[0] {
            assert(comp_lt(a[0], b[0]));
        } else {
            lemma_comp_lt_trans(a[0], b[0], c[0]);
            if a[0] == c[0] {
                lemma_comp_lt_irrefl(a[0]);
            }
        }
    }
}

pub proof fn lemma_comps_lt_irrefl(a: Seq<(ComponentKind, Seq<u8>)>)
    ensures
        !comps_lt(a, a),
    decreases a.len(),
{
    if a.len() > 0 {
        lemma_comps_lt_irrefl(a.drop_first());
    }
}

/// Whether two byte strings are equal.
fn bytes_equal(a: &Vec<u8>, b: &Vec<u8>) -> (r: bool)
    ensures
        r == (a@ == b@),
{
    if a.len() != b.len() {
        return false;
    }
    let mut i: usize = 0;
    while i < a.len()
        invariant
            a@.len() == b@.len(),
            i <= a@.len(),
            forall|j: int| 0 <= j < i ==> a@[j] == b@[j],
        decreases a.len() - i,
    {
        if a[i] != b[i] {
            return false;
        }
        i = i + 1;
    }
    assert(a@ =~= b@);
    true
}

fn bytes_less(a: &Vec<u8>, b: &Vec<u8>) -> (r: bool)
    ensures
        r == bytes_lt(a@, b@),
{
    let mut i: usize = 0;
    assert(a@.skip(0) =~= a@);
    assert(b@.skip(0) =~= b@);
    while i < a.len() && i < b.len() && a[i] == b[i]
        invariant
            i <= a@.len(),
            i <= b@.len(),
            bytes_lt(a@, b@) == bytes_lt(a@.skip(i as int), b@.skip(i as int)),
        decreases a.len() - i,
    {
        assert(a@.skip(i as int).drop_first() =~= a@.skip(i + 1));
        assert(b@.skip(i as int).drop_first() =~= b@.skip(i + 1));
        i = i + 1;
    }
    if i == b.len() {
        false
    } else if i == a.len() {
        true
    } else {
        a[i] < b[i]
    }
}

fn rank(k: ComponentKind) -> (r: u8)
    ensures
        r == kind_rank(k),
{
    match k {
        ComponentKind::Prefix => 0,
        ComponentKind::RootDir => 1,
        ComponentKind::CurDir => 2,
        ComponentKind::ParentDir => 3,
        ComponentKind::Normal => 4,
    }
}

impl PathText {
    /// `self < other` in `PathBuf`'s order.
    pub fn less_than(&self, other: &PathText) -> (r: bool)
        ensures
            r == comps_lt(self@.keys, other@.keys),
    {
        let ghost a = self@.keys;
        let ghost b = other@.keys;
        let mut i: usize = 0;
        assert(a.skip(0) =~= a);
        assert(b.skip(0) =~= b);
        while i < self.components.len() && i < other.components.len()
            invariant
                i <= a.len(),
                i <= b.len(),
                a == self@.keys,
                b == other@.keys,
                comps_lt(a, b) == comps_lt(a.skip(i as int), b.skip(i as int)),
            decreases self.components.len() - i,
        {
            let x = &self.components[i];
            let y = &other.components[i];
            assert(a.skip(i as int)[0] == a[i as int]);
            assert(b.skip(i as int)[0] == b[i as int]);
            if x.kind != y.kind || !bytes_equal(&x.key, &y.key) {
                let rx = rank(x.kind);
                let ry = rank(y.kind);
                return rx < ry || (rx == ry && bytes_less(&x.key, &y.key));
            }
            assert(a.skip(i as int).drop_first() =~= a.skip(i + 1));
            assert(b.skip(i as int).drop_first() =~= b.skip(i + 1));
            i = i + 1;
        }
        i < other.components.len()
    }
}

} // verus!
