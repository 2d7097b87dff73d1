//! A file system held in memory: lists of the files, the directories and
//! the manifests that exist.

use vstd::prelude::*;
use crate::env::FileSystem;
use crate::errors::opt_text;
use crate::model::{PackageJson, PackageJsonView};
use crate::semantics::strings_view;
use crate::table::{key_index, lemma_key_index, lemma_no_key_index};
use crate::path::{clean, cleaned};
use crate::text::{chars_of, same_text, string_of};

verus! {

/// Whether `text` is one of the strings of `list`.
pub fn holds_text(list: &Vec<String>, text: &str) -> (b: bool)
    ensures
        b == strings_view(list@).contains(text@),
{
    let mut i: usize = 0;
    while i < list.len()
        invariant
            i <= list.len(),
            forall|j: int| 0 <= j < i ==> strings_view(list@)[j] != text@,
        decreases list.len() - i,
    {
        if same_text(list[i].as_str(), text) {
            assert(strings_view(list@)[i as int] == text@);
            return true;
        }
        i += 1;
    }
    false
}

/// The cleaned form of a path.
pub fn tidy_path(path: &str) -> (r: String)
    ensures
        r@ == cleaned(path@),
{
    let p = chars_of(path);
    let c = clean(p.as_slice());
    string_of(c.as_slice())
}

/// The manifests of a list, each with the path at which it lies.
pub open spec fn manifest_pairs(v: Seq<PackageJson>) -> Seq<(Seq<char>, PackageJsonView)> {
    v.map_values(|p: PackageJson| (p@.path, p@))
}

/// A file system held in memory. Paths are looked up in their cleaned
/// form, so that `/a/./b` and `/a/b` name the same place; what is put into
/// the lists is expected in that form.
pub struct MemoryFs {
    /// The paths at which regular files lie.
    pub files: Vec<String>,
    /// The paths at which directories lie.
    pub dirs: Vec<String>,
    /// The manifests, each at its own `path`.
    pub manifests: Vec<PackageJson>,
    /// The paths at which a file lies that cannot be read as a manifest.
    pub broken: Vec<String>,
}

impl MemoryFs {
    /// A file system with nothing in it.
    pub fn new() -> (fs: MemoryFs)
        ensures
            fs.files@.len() == 0,
            fs.dirs@.len() == 0,
            fs.manifests@.len() == 0,
            fs.broken@.len() == 0,
    {
        MemoryFs { files: Vec::new(), dirs: Vec::new(), manifests: Vec::new(), broken: Vec::new() }
    }

    /// Puts a regular file at `path`.
    pub fn add_file(&mut self, path: &str)
        ensures
            strings_view(final(self).files@) == strings_view(old(self).files@).push(path@),
            final(self).dirs == old(self).dirs,
            final(self).manifests == old(self).manifests,
            final(self).broken == old(self).broken,
    {
        let ghost before = strings_view(self.files@);
        self.files.push(path.to_owned());
        assert(strings_view(self.files@) =~= before.push(path@));
    }

    /// Puts a directory at `path`.
    pub fn add_dir(&mut self, path: &str)
        ensures
            strings_view(final(self).dirs@) == strings_view(old(self).dirs@).push(path@),
            final(self).files == old(self).files,
            final(self).manifests == old(self).manifests,
            final(self).broken == old(self).broken,
    {
        let ghost before = strings_view(self.dirs@);
        self.dirs.push(path.to_owned());
        assert(strings_view(self.dirs@) =~= before.push(path@));
    }

    /// Puts a manifest at its own path.
    pub fn add_manifest(&mut self, manifest: PackageJson)
        ensures
            final(self).manifests@ == old(self).manifests@.push(manifest),
            final(self).files == old(self).files,
            final(self).dirs == old(self).dirs,
            final(self).broken == old(self).broken,
    {
        self.manifests.push(manifest);
    }
}

impl FileSystem for MemoryFs {
    open spec fn file_at(&self, path: Seq<char>) -> bool {
        strings_view(self.files@).contains(cleaned(path))
    }

    open spec fn dir_at(&self, path: Seq<char>) -> bool {
        strings_view(self.dirs@).contains(cleaned(path))
    }

    open spec fn exists_at(&self, path: Seq<char>) -> bool {
        self.file_at(path) || self.dir_at(path)
    }

    open spec fn real_path_of(&self, path: Seq<char>) -> Option<Seq<char>> {
        if self.exists_at(path) {
            Some(cleaned(path))
        } else {
            None
        }
    }

    open spec fn manifest_at(&self, path: Seq<char>) -> Result<Option<PackageJsonView>, Seq<char>> {
        if strings_view(self.broken@).contains(cleaned(path)) {
            Err(cleaned(path))
        } else {
            match key_index(manifest_pairs(self.manifests@), cleaned(path)) {
                Some(i) => Ok(Some(manifest_pairs(self.manifests@)[i].1)),
                None => Ok(None),
            }
        }
    }

    fn is_file(&self, path: &str) -> (b: bool) {
        let tidy = tidy_path(path);
        holds_text(&self.files, tidy.as_str())
    }

    fn is_dir(&self, path: &str) -> (b: bool) {
        let tidy = tidy_path(path);
        holds_text(&self.dirs, tidy.as_str())
    }

    fn path_exists(&self, path: &str) -> (b: bool) {
        let tidy = tidy_path(path);
        holds_text(&self.files, tidy.as_str()) || holds_text(&self.dirs, tidy.as_str())
    }

    fn realpath(&self, path: &str) -> (r: Option<String>) {
        if self.path_exists(path) {
            Some(tidy_path(path))
        } else {
            None
        }
    }

    fn load_package_json(&self, given: &str) -> (r: Result<Option<PackageJson>, String>) {
        let tidy = tidy_path(given);
        let path = tidy.as_str();
        if holds_text(&self.broken, path) {
            return Err(tidy);
        }
        let mut i: usize = 0;
        while i < self.manifests.len()
            invariant
                i <= self.manifests.len(),
                path@ == cleaned(given@),
                !strings_view(self.broken@).contains(path@),
                forall|j: int| 0 <= j < i ==> manifest_pairs(self.manifests@)[j].0 != path@,
            decreases self.manifests.len() - i,
        {
            if same_text(self.manifests[i].path.as_str(), path) {
                proof {
                    lemma_key_index(manifest_pairs(self.manifests@), path@, i as int);
                    assert(manifest_pairs(self.manifests@)[i as int].1 == self.manifests@[i as int]@);
                }
                return Ok(Some(self.manifests[i].duplicate()));
            }
            i += 1;
        }
        proof {
            lemma_no_key_index(manifest_pairs(self.manifests@), path@);
        }
        Ok(None)
    }
}

} // verus!
