//! Where the store keeps what: paths computed from the project's
//! `node_modules` directory and the folder name of a package.

use vstd::prelude::*;
use crate::folder_id::{folder_name_of, get_package_folder_id_folder_name, NpmPackageCacheFolderId};
use crate::path::{path_join, path_joined, split, split_on, texts};
use crate::text::{chars_of, string_of};

verus! {

/// `path` extended by each of `parts` in turn.
pub open spec fn joined_all(path: Seq<char>, parts: Seq<Seq<char>>) -> Seq<char>
    decreases parts.len(),
{
    if parts.len() == 0 {
        path
    } else {
        joined_all(path_joined(path, parts[0]), parts.drop_first())
    }
}

/// `path` extended by a package name, each `/`-separated part of the name a segment.
pub open spec fn package_name_joined(path: Seq<char>, package_name: Seq<char>) -> Seq<char> {
    joined_all(path, split_on(package_name, '/'))
}

/// The hidden root of the store.
pub open spec fn registry_dir(root: Seq<char>) -> Seq<char> {
    path_joined(root, ".deno"@)
}

/// The folder of the store that belongs to a folder name.
pub open spec fn package_slot(root: Seq<char>, folder_name: Seq<char>) -> Seq<char> {
    path_joined(registry_dir(root), folder_name)
}

/// The `node_modules` directory inside the folder of a package.
pub open spec fn slot_node_modules(root: Seq<char>, folder_name: Seq<char>) -> Seq<char> {
    path_joined(package_slot(root, folder_name), "node_modules"@)
}

/// Where the content of the package `package_name` lies in the folder `folder_name`.
pub open spec fn package_content_path(
    root: Seq<char>,
    folder_name: Seq<char>,
    package_name: Seq<char>,
) -> Seq<char> {
    package_name_joined(slot_node_modules(root, folder_name), package_name)
}

/// The file whose presence says that the content of a folder is complete.
pub open spec fn sentinel_path(root: Seq<char>, folder_name: Seq<char>) -> Seq<char> {
    path_joined(package_slot(root, folder_name), ".initialized"@)
}

/// The directory of the store in which packages are hoisted.
pub open spec fn hoisted_dir(root: Seq<char>) -> Seq<char> {
    path_joined(registry_dir(root), "node_modules"@)
}

/// `path` extended by a package name, on character sequences.
pub fn join_package_name_chars(path: &[char], package_name: &[char]) -> (v: Vec<char>)
    ensures
        v@ == package_name_joined(path@, package_name@),
{
    let parts = split(package_name, '/');
    let mut current = crate::path::copy_chars(path);
    let mut i: usize = 0;
    assert(texts(parts@).skip(0) == texts(parts@));
    while i < parts.len()
        invariant
            i <= parts.len(),
            joined_all(current@, texts(parts@).skip(i as int)) == joined_all(
                path@,
                texts(parts@),
            ),
        decreases parts.len() - i,
    {
        let ghost rest = texts(parts@).skip(i as int);
        assert(rest[0] == parts@[i as int]@);
        assert(rest.drop_first() == texts(parts@).skip(i + 1));
        current = path_join(current.as_slice(), parts[i].as_slice());
        i += 1;
    }
    current
}

/// `path` extended by a package name, each `/`-separated part of the name a segment.
pub fn join_package_name(path: &str, package_name: &str) -> (r: String)
    ensures
        r@ == package_name_joined(path@, package_name@),
{
    let p = chars_of(path);
    let n = chars_of(package_name);
    let v = join_package_name_chars(p.as_slice(), n.as_slice());
    string_of(v.as_slice())
}

fn child(path: &[char], name: &str) -> (v: Vec<char>)
    ensures
        v@ == path_joined(path@, name@),
{
    let n = chars_of(name);
    path_join(path, n.as_slice())
}

/// The folder of the store that belongs to a folder name.
pub fn package_slot_path(root: &str, folder_name: &str) -> (r: String)
    ensures
        r@ == package_slot(root@, folder_name@),
{
    let rt = chars_of(root);
    let registry = child(rt.as_slice(), ".deno");
    let slot = child(registry.as_slice(), folder_name);
    string_of(slot.as_slice())
}

/// Where the content of the package `package_name` lies in the folder `folder_name`.
pub fn package_folder_path(root: &str, folder_name: &str, package_name: &str) -> (r: String)
    ensures
        r@ == package_content_path(root@, folder_name@, package_name@),
{
    let rt = chars_of(root);
    let registry = child(rt.as_slice(), ".deno");
    let slot = child(registry.as_slice(), folder_name);
    let modules = child(slot.as_slice(), "node_modules");
    let n = chars_of(package_name);
    let v = join_package_name_chars(modules.as_slice(), n.as_slice());
    string_of(v.as_slice())
}

/// The file whose presence says that the content of a folder is complete.
pub fn initialized_file_path(root: &str, folder_name: &str) -> (r: String)
    ensures
        r@ == sentinel_path(root@, folder_name@),
{
    let rt = chars_of(root);
    let registry = child(rt.as_slice(), ".deno");
    let slot = child(registry.as_slice(), folder_name);
    let file = child(slot.as_slice(), ".initialized");
    string_of(file.as_slice())
}

/// The directory of the store in which packages are hoisted.
pub fn hoisted_dir_path(root: &str) -> (r: String)
    ensures
        r@ == hoisted_dir(root@),
{
    let rt = chars_of(root);
    let registry = child(rt.as_slice(), ".deno");
    let modules = child(registry.as_slice(), "node_modules");
    string_of(modules.as_slice())
}

/// Where the content of the package with the given identity lies.
pub fn package_folder_of_id(root: &str, id: &NpmPackageCacheFolderId) -> (r: String)
    ensures
        r@ == package_content_path(root@, folder_name_of(id@), id@.name),
{
    let folder_name = get_package_folder_id_folder_name(id);
    package_folder_path(root, folder_name.as_str(), id.nv.name.as_str())
}

} // verus!
