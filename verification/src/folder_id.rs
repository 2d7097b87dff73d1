//! The names of the folders of the store: a package's name, version and
//! copy index written as one file-system-safe name, and read back.

use vstd::prelude::*;
use crate::base32::{
    lemma_name_roundtrip, mixed_case_package_name_decode, mixed_case_package_name_encode,
    name_decoded, name_encoded,
};
use crate::decimal::{
    all_digits, decimal_of, format_u8, is_digit, lemma_decimal_roundtrip, lemma_parse_decimal,
    parse_u8, parsed_u8,
};
use crate::semver::{npm_version_of, version_text_of, Version, VersionView};
use crate::text::{
    append_chars, chars_of, find_char, first_index, has_char, head_before, is_first_index,
    is_last_index, last_index, lemma_first_index, lemma_index_iff_contains, lemma_last_index,
    replace_char, replaced_char, rfind_char, same_text, string_of, tail_after, tail_from,
};

verus! {

/// The lower-case form that `str::to_lowercase` gives to a text.
pub uninterp spec fn unicode_lowercase(text: Seq<char>) -> Seq<char>;

/// The lower-case form of a text. Stands for `str::to_lowercase`; claims
/// only that the answer is a function of the text.
#[verifier::external_body]
fn to_lowercase(text: &str) -> (r: String)
    ensures
        r@ == unicode_lowercase(text@),
{
    text.to_lowercase()
}

/// A package name and a version.
#[derive(Debug)]
pub struct PackageNv {
    pub name: String,
    pub version: Version,
}

/// What tells one folder of the store from every other: the package, its
/// version, and which copy of it the folder holds.
#[derive(Debug)]
pub struct NpmPackageCacheFolderId {
    pub nv: PackageNv,
    /// Zero for the package itself; above zero for a copy that serves
    /// another resolution of its peer dependencies.
    pub copy_index: u8,
}

/// The mathematical content of an `NpmPackageCacheFolderId`.
pub struct FolderIdView {
    pub name: Seq<char>,
    pub version: VersionView,
    pub copy_index: u8,
}

impl View for NpmPackageCacheFolderId {
    type V = FolderIdView;

    open spec fn view(&self) -> FolderIdView {
        FolderIdView {
            name: self.nv.name@,
            version: self.nv.version@,
            copy_index: self.copy_index,
        }
    }
}

/// The content of an optional folder identity.
pub open spec fn opt_folder_id_view(o: Option<NpmPackageCacheFolderId>) -> Option<FolderIdView> {
    match o {
        Some(x) => Some(x@),
        None => None,
    }
}

/// The name as the folder name shows it: itself where it has no
/// upper-case character, `_` and its encoded form otherwise.
pub open spec fn shown_name(name: Seq<char>) -> Seq<char> {
    if unicode_lowercase(name) == name {
        name
    } else {
        seq!['_'] + name_encoded(name)
    }
}

/// What the folder name ends in: nothing for copy index zero, `_` and the index otherwise.
pub open spec fn copy_suffix(copy_index: u8) -> Seq<char> {
    if copy_index == 0 {
        Seq::empty()
    } else {
        seq!['_'] + decimal_of(copy_index as nat)
    }
}

/// The folder name of an identity: the shown name, `@`, the version and
/// the copy suffix, every `/` written as `+`.
pub open spec fn folder_name_of(id: FolderIdView) -> Seq<char> {
    replaced_char(
        shown_name(id.name) + seq!['@'] + version_text_of(id.version) + copy_suffix(id.copy_index),
        '/',
        '+',
    )
}

/// The identity that a folder name stands for; none where the name is not
/// that of a folder of the store.
pub open spec fn folder_id_of(folder_name: Seq<char>) -> Option<FolderIdView> {
    let text = replaced_char(folder_name, '+', '/');
    match last_index(text, '@') {
        Some(i) => {
            let raw_name = text.take(i);
            let ending = text.skip(i + 1);
            let name = if raw_name.len() > 0 && raw_name[0] == '_' {
                name_decoded(raw_name.skip(1))
            } else {
                Some(raw_name)
            };
            let raw_version = match first_index(ending, '_') {
                Some(j) => ending.take(j),
                None => ending,
            };
            let copy_index = match first_index(ending, '_') {
                Some(j) => parsed_u8(ending.skip(j + 1)),
                None => Some(0u8),
            };
            if name is Some && copy_index is Some && npm_version_of(raw_version) is Some {
                Some(
                    FolderIdView {
                        name: name->0,
                        version: npm_version_of(raw_version)->0,
                        copy_index: copy_index->0,
                    },
                )
            } else {
                None
            }
        },
        None => None,
    }
}

/// Whether an identity can be told from its folder name: a name without
/// upper-case characters holds no `+` and does not begin with `_`; the
/// printed version holds none of `@`, `_` and `+`, and reads back as the version.
pub open spec fn storable(id: FolderIdView) -> bool {
    let shown_version = version_text_of(id.version);
    &&& unicode_lowercase(id.name) == id.name ==> !id.name.contains('+') && (id.name.len() > 0
        ==> id.name[0] != '_')
    &&& !shown_version.contains('@')
    &&& !shown_version.contains('_')
    &&& !shown_version.contains('+')
    &&& npm_version_of(shown_version) == Some(id.version)
}

proof fn lemma_concat_contains(a: Seq<char>, b: Seq<char>, c: char)
    ensures
        (a + b).contains(c) == (a.contains(c) || b.contains(c)),
{
    if a.contains(c) {
        let i = choose|i: int| 0 <= i < a.len() && a[i] == c;
        assert((a + b)[i] == c);
    }
    if b.contains(c) {
        let i = choose|i: int| 0 <= i < b.len() && b[i] == c;
        assert((a + b)[a.len() + i] == c);
    }
    if (a + b).contains(c) {
        let i = choose|i: int| 0 <= i < (a + b).len() && (a + b)[i] == c;
        if i < a.len() {
            assert(a[i] == c);
        } else {
            assert(b[i - a.len()] == c);
        }
    }
}

proof fn lemma_unreplace(s: Seq<char>)
    requires
        !s.contains('+'),
    ensures
        replaced_char(replaced_char(s, '/', '+'), '+', '/') == s,
{
    assert forall|i: int| 0 <= i < s.len() implies replaced_char(
        replaced_char(s, '/', '+'),
        '+',
        '/',
    )[i] == s[i] by {
        assert(s[i] != '+');
    }
    assert(replaced_char(replaced_char(s, '/', '+'), '+', '/') =~= s);
}

proof fn lemma_split_at_last(a: Seq<char>, c: char, b: Seq<char>)
    requires
        !b.contains(c),
    ensures
        last_index(a + seq![c] + b, c) == Some(a.len() as int),
        (a + seq![c] + b).take(a.len() as int) == a,
        (a + seq![c] + b).skip(a.len() as int + 1) == b,
{
    let s = a + seq![c] + b;
    assert forall|j: int| a.len() < j < s.len() implies s[j] != c by {
        assert(s[j] == b[j - a.len() - 1]);
    }
    assert(is_last_index(s, c, a.len() as int));
    lemma_last_index(s, c, a.len() as int);
    assert(s.take(a.len() as int) =~= a);
    assert(s.skip(a.len() as int + 1) =~= b);
}

proof fn lemma_split_at_first(a: Seq<char>, c: char, b: Seq<char>)
    requires
        !a.contains(c),
    ensures
        first_index(a + seq![c] + b, c) == Some(a.len() as int),
        (a + seq![c] + b).take(a.len() as int) == a,
        (a + seq![c] + b).skip(a.len() as int + 1) == b,
{
    let s = a + seq![c] + b;
    assert forall|j: int| 0 <= j < a.len() implies s[j] != c by {
        assert(s[j] == a[j]);
    }
    assert(is_first_index(s, c, a.len() as int));
    lemma_first_index(s, c, a.len() as int);
    assert(s.take(a.len() as int) =~= a);
    assert(s.skip(a.len() as int + 1) =~= b);
}

proof fn lemma_digits_plain(s: Seq<char>, c: char)
    requires
        all_digits(s),
        !is_digit(c),
    ensures
        !s.contains(c),
{
    if s.contains(c) {
        let i = choose|i: int| 0 <= i < s.len() && s[i] == c;
        assert(is_digit(s[i]));
    }
}

proof fn lemma_encoded_plain(name: Seq<char>, c: char)
    requires
        c == '+' || c == '@' || c == '_' || c == '/',
    ensures
        !name_encoded(name).contains(c),
{
    lemma_name_roundtrip(name);
    let e = name_encoded(name);
    if e.contains(c) {
        let i = choose|i: int| 0 <= i < e.len() && e[i] == c;
        assert('a' <= e[i] <= 'z' || '2' <= e[i] <= '7');
    }
}

/// Reading the folder name of an identity gives the identity back.
pub proof fn lemma_folder_name_roundtrip(id: FolderIdView)
    requires
        storable(id),
    ensures
        folder_id_of(folder_name_of(id)) == Some(id),
{
    let shown = shown_name(id.name);
    let vt = version_text_of(id.version);
    let copy = copy_suffix(id.copy_index);
    let digits = decimal_of(id.copy_index as nat);
    let plain = shown + seq!['@'] + vt + copy;
    let ending = vt + copy;
    lemma_decimal_roundtrip(id.copy_index as nat);
    lemma_digits_plain(digits, '+');
    lemma_digits_plain(digits, '@');
    lemma_digits_plain(digits, '_');
    lemma_encoded_plain(id.name, '+');
    lemma_encoded_plain(id.name, '@');
    // No `+` anywhere, so the folder name turns back into the plain text.
    assert(!seq!['_'].contains('+')) by {
        if seq!['_'].contains('+') {
            let i = choose|i: int| 0 <= i < seq!['_'].len() && seq!['_'][i] == '+';
        }
    }
    assert(!seq!['@'].contains('+')) by {
        if seq!['@'].contains('+') {
            let i = choose|i: int| 0 <= i < seq!['@'].len() && seq!['@'][i] == '+';
        }
    }
    assert(!seq!['_'].contains('@')) by {
        if seq!['_'].contains('@') {
            let i = choose|i: int| 0 <= i < seq!['_'].len() && seq!['_'][i] == '@';
        }
    }
    lemma_concat_contains(seq!['_'], name_encoded(id.name), '+');
    lemma_concat_contains(seq!['_'], digits, '+');
    lemma_concat_contains(seq!['_'], digits, '@');
    assert(!Seq::<char>::empty().contains('+'));
    assert(!Seq::<char>::empty().contains('@'));
    assert(!shown.contains('+'));
    assert(!copy.contains('+'));
    assert(!copy.contains('@'));
    lemma_concat_contains(shown, seq!['@'], '+');
    lemma_concat_contains(shown + seq!['@'], vt, '+');
    lemma_concat_contains(shown + seq!['@'] + vt, copy, '+');
    lemma_unreplace(plain);
    // The last `@` is the one that was put between name and version.
    lemma_concat_contains(vt, copy, '@');
    assert(plain =~= shown + seq!['@'] + ending);
    lemma_split_at_last(shown, '@', ending);
    // The name.
    if unicode_lowercase(id.name) == id.name {
        assert(shown == id.name);
    } else {
        lemma_name_roundtrip(id.name);
        assert(shown[0] == '_');
        assert(shown.skip(1) =~= name_encoded(id.name));
    }
    // The version and the copy index.
    if id.copy_index == 0 {
        assert(ending =~= vt);
        lemma_index_iff_contains(vt, '_');
    } else {
        assert(ending =~= vt + seq!['_'] + digits);
        lemma_split_at_first(vt, '_', digits);
        lemma_parse_decimal(id.copy_index);
    }
}

/// The folder name of an identity.
pub fn get_package_folder_id_folder_name(folder_id: &NpmPackageCacheFolderId) -> (r: String)
    ensures
        r@ == folder_name_of(folder_id@),
{
    let name = folder_id.nv.name.as_str();
    let lower = to_lowercase(name);
    let mut text: Vec<char> = Vec::new();
    if same_text(lower.as_str(), name) {
        let n = chars_of(name);
        append_chars(&mut text, n.as_slice());
    } else {
        text.push('_');
        assert(text@ == seq!['_']);
        let e = mixed_case_package_name_encode(name);
        append_chars(&mut text, e.as_slice());
    }
    assert(text@ == shown_name(folder_id@.name));
    text.push('@');
    assert(text@ == shown_name(folder_id@.name) + seq!['@']);
    let version = folder_id.nv.version.to_text();
    let v = chars_of(version.as_str());
    append_chars(&mut text, v.as_slice());
    if folder_id.copy_index != 0 {
        let ghost before = text@;
        text.push('_');
        let digits = format_u8(folder_id.copy_index);
        append_chars(&mut text, digits.as_slice());
        assert(text@ =~= before + (seq!['_'] + digits@));
    } else {
        assert(text@ + Seq::<char>::empty() =~= text@);
    }
    let safe = replace_char(text.as_slice(), '/', '+');
    string_of(safe.as_slice())
}

/// The identity that a folder name stands for.
pub fn get_package_folder_id_from_folder_name(folder_name: &str) -> (r: Option<
    NpmPackageCacheFolderId,
>)
    ensures
        opt_folder_id_view(r) == folder_id_of(folder_name@),
{
    let given = chars_of(folder_name);
    let text = replace_char(given.as_slice(), '+', '/');
    let at = rfind_char(text.as_slice(), '@');
    let i = match at {
        Some(i) => i,
        None => {
            return None;
        },
    };
    let raw_name = head_before(text.as_slice(), i);
    let ending = tail_after(text.as_slice(), i);
    let name: String = if raw_name.len() > 0 && raw_name[0] == '_' {
        let encoded = tail_from(raw_name.as_slice(), 1);
        match mixed_case_package_name_decode(encoded.as_slice()) {
            Some(n) => n,
            None => {
                return None;
            },
        }
    } else {
        string_of(raw_name.as_slice())
    };
    let under = find_char(ending.as_slice(), '_');
    let raw_version: Vec<char>;
    let copy_index: u8;
    match under {
        Some(j) => {
            let digits = tail_after(ending.as_slice(), j);
            match parse_u8(digits.as_slice()) {
                Some(c) => {
                    copy_index = c;
                },
                None => {
                    return None;
                },
            }
            raw_version = head_before(ending.as_slice(), j);
        },
        None => {
            raw_version = ending;
            copy_index = 0;
        },
    }
    let version_string = string_of(raw_version.as_slice());
    match Version::parse_from_npm(version_string.as_str()) {
        Some(version) => Some(
            NpmPackageCacheFolderId { nv: PackageNv { name, version }, copy_index },
        ),
        None => None,
    }
}

impl NpmPackageCacheFolderId {
    /// The identity of the given package, version and copy.
    pub fn new(name: String, version: Version, copy_index: u8) -> (r: NpmPackageCacheFolderId)
        ensures
            r@.name == name@,
            r@.version == version@,
            r@.copy_index == copy_index,
    {
        NpmPackageCacheFolderId { nv: PackageNv { name, version }, copy_index }
    }

    /// The identity of the same package and version with copy index zero.
    pub fn with_no_count(&self) -> (r: NpmPackageCacheFolderId)
        ensures
            r@.name == self@.name,
            r@.version == self@.version,
            r@.copy_index == 0,
    {
        NpmPackageCacheFolderId {
            nv: PackageNv {
                name: self.nv.name.clone(),
                version: self.nv.version.duplicate(),
            },
            copy_index: 0,
        }
    }

    /// A copy of the identity.
    pub fn duplicate(&self) -> (r: NpmPackageCacheFolderId)
        ensures
            r@ == self@,
    {
        NpmPackageCacheFolderId {
            nv: PackageNv {
                name: self.nv.name.clone(),
                version: self.nv.version.duplicate(),
            },
            copy_index: self.copy_index,
        }
    }

    /// Whether two identities are the same.
    pub fn same_as(&self, other: &NpmPackageCacheFolderId) -> (r: bool)
        ensures
            r == (self@ == other@),
    {
        same_text(self.nv.name.as_str(), other.nv.name.as_str()) && self.nv.version.same_as(
            &other.nv.version,
        ) && self.copy_index == other.copy_index
    }

    /// Whether the identity can be told from its folder name.
    pub fn is_storable(&self) -> (b: bool)
        ensures
            b == storable(self@),
    {
        let name = self.nv.name.as_str();
        let lower = to_lowercase(name);
        let n = chars_of(name);
        let name_ok = if same_text(lower.as_str(), name) {
            !has_char(n.as_slice(), '+') && (n.len() == 0 || n[0] != '_')
        } else {
            true
        };
        let shown = self.nv.version.to_text();
        let s = chars_of(shown.as_str());
        let reads_back = match Version::parse_from_npm(shown.as_str()) {
            Some(v) => v.same_as(&self.nv.version),
            None => false,
        };
        name_ok && !has_char(s.as_slice(), '@') && !has_char(s.as_slice(), '_') && !has_char(
            s.as_slice(),
            '+',
        ) && reads_back
    }
}

/// Writes an identity as a folder name and reads the name back, where the
/// identity can be told from its folder name; the identity comes back as it was.
pub fn stored_and_read_back(folder_id: &NpmPackageCacheFolderId) -> (r: Option<
    NpmPackageCacheFolderId,
>)
    ensures
        storable(folder_id@) ==> opt_folder_id_view(r) == Some(folder_id@),
        !storable(folder_id@) ==> r is None,
{
    if folder_id.is_storable() {
        folder_name_roundtrip(folder_id)
    } else {
        None
    }
}

/// Reading the folder name of a storable identity gives the identity
/// back: the same name, version and copy index.
pub fn folder_name_roundtrip(folder_id: &NpmPackageCacheFolderId) -> (r: Option<
    NpmPackageCacheFolderId,
>)
    requires
        storable(folder_id@),
    ensures
        opt_folder_id_view(r) == Some(folder_id@),
{
    proof {
        lemma_folder_name_roundtrip(folder_id@);
    }
    let name = get_package_folder_id_folder_name(folder_id);
    get_package_folder_id_from_folder_name(name.as_str())
}

} // verus!
