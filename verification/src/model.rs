//! The values a resolution works on: module kinds, condition targets and
//! package manifests.

use vstd::prelude::*;
use crate::text::{chars_of, same_chars, string_of};

verus! {

/// The module system of the module that asks.
#[derive(Debug, Clone, Copy, PartialEq, Eq, Structural)]
pub enum NodeModuleKind {
    Esm,
    Cjs,
}

/// What a resolution is for: running the module, or finding its type declarations.
#[derive(Debug, Clone, Copy, PartialEq, Eq, Structural)]
pub enum NodeResolutionMode {
    Execution,
    Types,
}

impl NodeResolutionMode {
    /// Whether type declarations are looked for.
    pub fn is_types(&self) -> (b: bool)
        ensures
            b == (*self == NodeResolutionMode::Types),
    {
        match self {
            NodeResolutionMode::Types => true,
            NodeResolutionMode::Execution => false,
        }
    }
}

/// A value of an `exports`, `imports` or `bin` entry of a manifest.
#[derive(Debug)]
pub enum Target {
    /// JSON `null`.
    Null,
    /// A JSON string.
    Text(String),
    /// A JSON array.
    List(Vec<Target>),
    /// A JSON object; its keys in the order in which the manifest gives them.
    Table(Vec<(String, Target)>),
    /// Any other JSON value.
    Other,
}

/// The mathematical content of a `Target`.
pub enum TargetView {
    Null,
    Text(Seq<char>),
    List(Seq<TargetView>),
    Table(Seq<(Seq<char>, TargetView)>),
    Other,
}

/// The content of the entries of a JSON object.
pub open spec fn entries_view(v: Seq<(String, Target)>) -> Seq<(Seq<char>, TargetView)>
    decreases v,
{
    Seq::new(
        v.len(),
        |i: int|
            if 0 <= i < v.len() {
                (v[i].0@, v[i].1.view())
            } else {
                (Seq::empty(), TargetView::Null)
            },
    )
}

/// The content of the items of a JSON array.
pub open spec fn items_view(v: Seq<Target>) -> Seq<TargetView>
    decreases v,
{
    Seq::new(
        v.len(),
        |i: int|
            if 0 <= i < v.len() {
                v[i].view()
            } else {
                TargetView::Null
            },
    )
}

impl View for Target {
    type V = TargetView;

    open spec fn view(&self) -> TargetView
        decreases self,
    {
        match self {
            Target::Null => TargetView::Null,
            Target::Text(s) => TargetView::Text(s@),
            Target::List(v) => TargetView::List(items_view(v@)),
            Target::Table(v) => TargetView::Table(entries_view(v@)),
            Target::Other => TargetView::Other,
        }
    }
}

/// `i` is the position of the first entry whose key is `key`.
pub open spec fn is_first_entry(
    entries: Seq<(Seq<char>, TargetView)>,
    key: Seq<char>,
    i: int,
) -> bool {
    &&& 0 <= i < entries.len()
    &&& entries[i].0 == key
    &&& forall|j: int| 0 <= j < i ==> entries[j].0 != key
}

/// The position of the first entry whose key is `key`.
pub open spec fn entry_index(entries: Seq<(Seq<char>, TargetView)>, key: Seq<char>) -> Option<
    int,
> {
    if exists|i: int| is_first_entry(entries, key, i) {
        Some(choose|i: int| is_first_entry(entries, key, i))
    } else {
        None
    }
}

/// The value that a JSON object gives for `key`.
pub open spec fn entry_value(entries: Seq<(Seq<char>, TargetView)>, key: Seq<char>) -> Option<
    TargetView,
> {
    match entry_index(entries, key) {
        Some(i) => Some(entries[i].1),
        None => None,
    }
}

pub proof fn lemma_entry_index(entries: Seq<(Seq<char>, TargetView)>, key: Seq<char>, i: int)
    requires
        is_first_entry(entries, key, i),
    ensures
        entry_index(entries, key) == Some(i),
{
    let k = choose|k: int| is_first_entry(entries, key, k);
    assert(is_first_entry(entries, key, k));
    if k < i {
        assert(entries[k].0 != key);
    } else if i < k {
        assert(entries[i].0 != key);
    }
}

pub proof fn lemma_no_entry_index(entries: Seq<(Seq<char>, TargetView)>, key: Seq<char>)
    requires
        forall|j: int| 0 <= j < entries.len() ==> entries[j].0 != key,
    ensures
        entry_index(entries, key) is None,
{
    assert forall|i: int| !is_first_entry(entries, key, i) by {}
}

/// The position of the first entry whose key is `key`.
pub fn find_entry(entries: &Vec<(String, Target)>, key: &[char]) -> (r: Option<usize>)
    ensures
        match r {
            Some(i) => i < entries.len() && entry_index(entries_view(entries@), key@) == Some(
                i as int,
            ),
            None => entry_index(entries_view(entries@), key@) is None,
        },
{
    let mut i: usize = 0;
    while i < entries.len()
        invariant
            i <= entries.len(),
            forall|j: int| 0 <= j < i ==> entries_view(entries@)[j].0 != key@,
        decreases entries.len() - i,
    {
        let k = chars_of(entries[i].0.as_str());
        if same_chars(k.as_slice(), key) {
            proof {
                lemma_entry_index(entries_view(entries@), key@, i as int);
            }
            return Some(i);
        }
        i += 1;
    }
    proof {
        lemma_no_entry_index(entries_view(entries@), key@);
    }
    None
}

/// A copy of a string.
pub fn copy_string(s: &String) -> (r: String)
    ensures
        r@ == s@,
{
    s.clone()
}

/// A copy of an optional string.
pub fn copy_opt_string(s: &Option<String>) -> (r: Option<String>)
    ensures
        crate::errors::opt_text(r) == crate::errors::opt_text(*s),
{
    match s {
        Some(t) => Some(copy_string(t)),
        None => None,
    }
}

impl Target {
    /// A copy with the same content.
    #[verifier::loop_isolation(false)]
    pub fn duplicate(&self) -> (r: Target)
        ensures
            r@ == self@,
        decreases self,
    {
        match self {
            Target::Null => Target::Null,
            Target::Text(s) => Target::Text(copy_string(s)),
            Target::List(v) => {
                let mut out: Vec<Target> = Vec::new();
                let mut i: usize = 0;
                while i < v.len()
                    invariant
                        i <= v.len(),
                        out@.len() == i,
                        forall|j: int| 0 <= j < i ==> out@[j]@ == v@[j]@,
                    decreases v.len() - i,
                {
                    let item = v[i].duplicate();
                    out.push(item);
                    i += 1;
                }
                assert(items_view(out@) =~= items_view(v@));
                Target::List(out)
            },
            Target::Table(v) => Target::Table(duplicate_entries(v)),
            Target::Other => Target::Other,
        }
    }
}

/// A copy of the entries of a JSON object.
#[verifier::loop_isolation(false)]
pub fn duplicate_entries(v: &Vec<(String, Target)>) -> (out: Vec<(String, Target)>)
    ensures
        entries_view(out@) == entries_view(v@),
    decreases v,
{
    let mut out: Vec<(String, Target)> = Vec::new();
    let mut i: usize = 0;
    while i < v.len()
        invariant
            i <= v.len(),
            out@.len() == i,
            forall|j: int| 0 <= j < i ==> out@[j].0@ == v@[j].0@ && out@[j].1@ == v@[j].1@,
        decreases v.len() - i,
    {
        let key = copy_string(&v[i].0);
        let value = v[i].1.duplicate();
        out.push((key, value));
        i += 1;
    }
    assert(entries_view(out@) =~= entries_view(v@));
    out
}

/// The content of optional entries.
pub open spec fn opt_entries_view(v: Option<Vec<(String, Target)>>) -> Option<
    Seq<(Seq<char>, TargetView)>,
> {
    match v {
        Some(e) => Some(entries_view(e@)),
        None => None,
    }
}

/// The content of an optional target.
pub open spec fn opt_target_view(v: Option<Target>) -> Option<TargetView> {
    match v {
        Some(t) => Some(t@),
        None => None,
    }
}

/// What the resolver reads of a `package.json`.
#[derive(Debug)]
pub struct PackageJson {
    /// Where the manifest lies.
    pub path: String,
    pub name: Option<String>,
    pub version: Option<String>,
    pub main: Option<String>,
    pub module: Option<String>,
    /// The `type` field: `"module"`, `"commonjs"`, or `"none"` where it is absent.
    pub typ: String,
    pub types: Option<String>,
    pub exports: Option<Vec<(String, Target)>>,
    pub imports: Option<Vec<(String, Target)>>,
    pub bin: Option<Target>,
}

/// The mathematical content of a `PackageJson`.
pub struct PackageJsonView {
    pub path: Seq<char>,
    pub name: Option<Seq<char>>,
    pub version: Option<Seq<char>>,
    pub main: Option<Seq<char>>,
    pub module: Option<Seq<char>>,
    pub typ: Seq<char>,
    pub types: Option<Seq<char>>,
    pub exports: Option<Seq<(Seq<char>, TargetView)>>,
    pub imports: Option<Seq<(Seq<char>, TargetView)>>,
    pub bin: Option<TargetView>,
}

impl View for PackageJson {
    type V = PackageJsonView;

    open spec fn view(&self) -> PackageJsonView {
        PackageJsonView {
            path: self.path@,
            name: crate::errors::opt_text(self.name),
            version: crate::errors::opt_text(self.version),
            main: crate::errors::opt_text(self.main),
            module: crate::errors::opt_text(self.module),
            typ: self.typ@,
            types: crate::errors::opt_text(self.types),
            exports: opt_entries_view(self.exports),
            imports: opt_entries_view(self.imports),
            bin: opt_target_view(self.bin),
        }
    }
}

/// A character that is trimmed from the ends of a `main` entry: white
/// space as Unicode defines it, which is what `str::trim` removes.
pub open spec fn is_blank(c: char) -> bool {
    let n = c as u32;
    ||| 0x09 <= n <= 0x0D
    ||| n == 0x20
    ||| n == 0x85
    ||| n == 0xA0
    ||| n == 0x1680
    ||| 0x2000 <= n <= 0x200A
    ||| n == 0x2028
    ||| n == 0x2029
    ||| n == 0x202F
    ||| n == 0x205F
    ||| n == 0x3000
}

/// The number of blank characters at the start of `s`.
pub open spec fn leading_blanks(s: Seq<char>) -> int
    decreases s.len(),
{
    if s.len() > 0 && is_blank(s[0]) {
        1 + leading_blanks(s.drop_first())
    } else {
        0
    }
}

/// The number of blank characters at the end of `s`.
pub open spec fn trailing_blanks(s: Seq<char>) -> int
    decreases s.len(),
{
    if s.len() > 0 && is_blank(s.last()) {
        1 + trailing_blanks(s.drop_last())
    } else {
        0
    }
}

/// `s` without the blank characters at its two ends.
pub open spec fn trimmed(s: Seq<char>) -> Seq<char> {
    let a = leading_blanks(s);
    let rest = s.skip(a);
    rest.take(rest.len() - trailing_blanks(rest))
}

/// The entry point that a manifest names for a referrer of the given kind:
/// `module`, else `main`, for an ES module asking a package of type
/// `"module"`; `main` otherwise; trimmed, and none where that leaves nothing.
pub open spec fn main_entry(pkg: PackageJsonView, kind: NodeModuleKind) -> Option<Seq<char>> {
    let raw = if kind == NodeModuleKind::Esm && pkg.typ == "module"@ {
        if pkg.module is Some {
            pkg.module
        } else {
            pkg.main
        }
    } else {
        pkg.main
    };
    match raw {
        Some(m) => if trimmed(m).len() > 0 {
            Some(trimmed(m))
        } else {
            None
        },
        None => None,
    }
}

fn blank(c: char) -> (b: bool)
    ensures
        b == is_blank(c),
{
    let n: u32 = c as u32;
    (0x09 <= n && n <= 0x0D) || n == 0x20 || n == 0x85 || n == 0xA0 || n == 0x1680 || (0x2000 <= n
        && n <= 0x200A) || n == 0x2028 || n == 0x2029 || n == 0x202F || n == 0x205F || n == 0x3000
}

/// A copy of `s` without the blank characters at its two ends.
pub fn trim(s: &[char]) -> (v: Vec<char>)
    ensures
        v@ == trimmed(s@),
{
    let n: usize = s.len();
    let mut a: usize = 0;
    assert(s@.skip(0) == s@);
    while a < n && blank(s[a])
        invariant
            a <= n,
            n == s.len(),
            leading_blanks(s@) == a + leading_blanks(s@.skip(a as int)),
        decreases n - a,
    {
        assert(s@.skip(a as int).drop_first() == s@.skip(a + 1));
        a += 1;
    }
    assert(leading_blanks(s@) == a) by {
        if a < n {
            assert(s@.skip(a as int)[0] == s@[a as int]);
        }
    }
    let ghost rest = s@.skip(a as int);
    let mut b: usize = n;
    assert(rest.take(rest.len() as int) == rest);
    while b > a && blank(s[b - 1])
        invariant
            a <= b <= n,
            n == s.len(),
            rest == s@.skip(a as int),
            trailing_blanks(rest) == (n - b) + trailing_blanks(rest.take(b - a)),
        decreases b,
    {
        assert(rest.take(b - a).last() == s@[b - 1]);
        assert(rest.take(b - a).drop_last() == rest.take(b - a - 1));
        b -= 1;
    }
    assert(trailing_blanks(rest) == n - b) by {
        if b > a {
            assert(rest.take(b - a).last() == s@[b - 1]);
        }
    }
    let v = crate::text::slice_of(s, a, b);
    assert(v@ == rest.take(rest.len() - (n - b)));
    v
}

impl PackageJson {
    /// A copy with the same content.
    pub fn duplicate(&self) -> (r: PackageJson)
        ensures
            r@ == self@,
    {
        PackageJson {
            path: copy_string(&self.path),
            name: copy_opt_string(&self.name),
            version: copy_opt_string(&self.version),
            main: copy_opt_string(&self.main),
            module: copy_opt_string(&self.module),
            typ: copy_string(&self.typ),
            types: copy_opt_string(&self.types),
            exports: match &self.exports {
                Some(e) => Some(duplicate_entries(e)),
                None => None,
            },
            imports: match &self.imports {
                Some(e) => Some(duplicate_entries(e)),
                None => None,
            },
            bin: match &self.bin {
                Some(t) => Some(t.duplicate()),
                None => None,
            },
        }
    }

    /// The entry point that the manifest names for a referrer of the given kind.
    pub fn main(&self, kind: NodeModuleKind) -> (r: Option<Vec<char>>)
        ensures
            match r {
                Some(v) => main_entry(self@, kind) == Some(v@),
                None => main_entry(self@, kind) is None,
            },
    {
        let is_module = crate::text::same_text(self.typ.as_str(), "module");
        let raw: &Option<String> = if kind == NodeModuleKind::Esm && is_module {
            if self.module.is_some() {
                &self.module
            } else {
                &self.main
            }
        } else {
            &self.main
        };
        match raw {
            Some(m) => {
                let chars = chars_of(m.as_str());
                let t = trim(chars.as_slice());
                if t.len() > 0 {
                    Some(t)
                } else {
                    None
                }
            },
            None => None,
        }
    }
}

/// Where a resolution has arrived: at a file path, or at a URL.
#[derive(Debug, PartialEq, Eq)]
pub enum Located {
    Path(String),
    Url(String),
}

/// The mathematical content of a `Located`.
pub enum LocatedView {
    Path(Seq<char>),
    Url(Seq<char>),
}

impl View for Located {
    type V = LocatedView;

    open spec fn view(&self) -> LocatedView {
        match self {
            Located::Path(p) => LocatedView::Path(p@),
            Located::Url(u) => LocatedView::Url(u@),
        }
    }
}

impl Located {
    /// The path located, from its characters.
    pub fn path(p: &[char]) -> (r: Located)
        ensures
            r@ == LocatedView::Path(p@),
    {
        Located::Path(string_of(p))
    }

    /// The URL located, from its characters.
    pub fn url(u: &[char]) -> (r: Located)
        ensures
            r@ == LocatedView::Url(u@),
    {
        Located::Url(string_of(u))
    }
}

/// The outcome of a resolution.
#[derive(Debug, PartialEq, Eq)]
pub enum NodeResolution {
    /// An ES module at the URL.
    Esm(String),
    /// A CommonJS module at the URL.
    CommonJs(String),
    /// A module built into the runtime, by name.
    BuiltIn(String),
}

/// The mathematical content of a `NodeResolution`.
pub enum NodeResolutionView {
    Esm(Seq<char>),
    CommonJs(Seq<char>),
    BuiltIn(Seq<char>),
}

impl View for NodeResolution {
    type V = NodeResolutionView;

    open spec fn view(&self) -> NodeResolutionView {
        match self {
            NodeResolution::Esm(u) => NodeResolutionView::Esm(u@),
            NodeResolution::CommonJs(u) => NodeResolutionView::CommonJs(u@),
            NodeResolution::BuiltIn(n) => NodeResolutionView::BuiltIn(n@),
        }
    }
}

} // verus!
