//! The commands that a package provides: the `bin` entry of its manifest.

use vstd::prelude::*;
use crate::env::{FileSystem, NpmResolver};
use crate::errors::{full_error, ErrorKind, ErrorView, NodeResolveError};
use crate::model::{
    entries_view, entry_value, find_entry, items_view, NodeResolution, PackageJson, PackageJsonView,
    Target, TargetView,
};
use crate::path::{path_join, path_joined};
use crate::semantics::{loaded_manifest, opt_str, strings_view, NodeResolver};
use crate::text::{
    append_chars, chars_of, last_index, rfind_char, same_chars, same_text, string_of, tail_after,
};

verus! {

/// What follows the last `/` of a name; the whole name where it has none.
pub open spec fn last_name_segment(name: Seq<char>) -> Seq<char> {
    match last_index(name, '/') {
        Some(i) => name.skip(i + 1),
        None => name,
    }
}

/// Whether all entries of an object have the value of the first.
pub open spec fn all_same(entries: Seq<(Seq<char>, TargetView)>) -> bool {
    forall|i: int| 0 <= i < entries.len() ==> (#[trigger] entries[i]).1 == entries[0].1
}

/// The command name that a package gives to a `bin` entry that is a single string.
pub open spec fn default_bin_name(pkg: PackageJsonView) -> Option<Seq<char>> {
    match pkg.name {
        Some(n) => Some(last_name_segment(n)),
        None => None,
    }
}

/// The `bin` entry that is meant: for a single string, the string itself
/// unless another command than the package's own is asked for; for an
/// object, the entry of the command asked for, or, where none is asked
/// for, the only entry, the common value of all entries, or the entry
/// named like the package.
pub open spec fn bin_choice(pkg: PackageJsonView, bin_name: Option<Seq<char>>) -> Option<
    TargetView,
> {
    match pkg.bin {
        Some(TargetView::Text(s)) => if bin_name is Some && bin_name != default_bin_name(pkg) {
            None
        } else {
            Some(TargetView::Text(s))
        },
        Some(TargetView::Table(o)) => if bin_name is Some {
            entry_value(o, bin_name->0)
        } else if o.len() == 1 || (o.len() > 1 && all_same(o)) {
            Some(o[0].1)
        } else {
            match pkg.name {
                Some(n) => entry_value(o, n),
                None => None,
            }
        },
        _ => None,
    }
}

/// The path that the command leads to, where the entry meant is a string.
pub open spec fn bin_entry_of(pkg: PackageJsonView, bin_name: Option<Seq<char>>) -> Option<
    Seq<char>,
> {
    match bin_choice(pkg, bin_name) {
        Some(TargetView::Text(s)) => Some(s),
        _ => None,
    }
}

/// The names of the commands that a manifest provides.
pub open spec fn commands_of(pkg: PackageJsonView) -> Result<Seq<Seq<char>>, ErrorView> {
    match pkg.bin {
        Some(TargetView::Text(_)) => match pkg.name {
            Some(n) => Ok(seq![n]),
            None => Err(full_error(ErrorKind::MissingPkgJsonName, pkg.path, Some(pkg.path), None)),
        },
        Some(TargetView::Table(o)) => Ok(o.map_values(|e: (Seq<char>, TargetView)| e.0)),
        _ => Ok(Seq::empty()),
    }
}

/// Whether two targets have the same content.
pub fn same_target(a: &Target, b: &Target) -> (r: bool)
    ensures
        r == (a@ == b@),
    decreases a,
{
    match (a, b) {
        (Target::Null, Target::Null) => true,
        (Target::Other, Target::Other) => true,
        (Target::Text(x), Target::Text(y)) => same_text(x.as_str(), y.as_str()),
        (Target::List(x), Target::List(y)) => {
            if x.len() != y.len() {
                assert(items_view(x@).len() != items_view(y@).len());
                return false;
            }
            let mut i: usize = 0;
            while i < x.len()
                invariant
                    i <= x.len(),
                    x.len() == y.len(),
                    a@ == TargetView::List(items_view(x@)),
                    b@ == TargetView::List(items_view(y@)),
                    *a == Target::List(*x),
                    forall|j: int| 0 <= j < i ==> x@[j]@ == y@[j]@,
                decreases x.len() - i,
            {
                if !same_target(&x[i], &y[i]) {
                    assert(items_view(x@)[i as int] != items_view(y@)[i as int]);
                    return false;
                }
                i += 1;
            }
            assert(items_view(x@) =~= items_view(y@));
            true
        },
        (Target::Table(x), Target::Table(y)) => {
            if x.len() != y.len() {
                assert(entries_view(x@).len() != entries_view(y@).len());
                return false;
            }
            let mut i: usize = 0;
            while i < x.len()
                invariant
                    i <= x.len(),
                    x.len() == y.len(),
                    a@ == TargetView::Table(entries_view(x@)),
                    b@ == TargetView::Table(entries_view(y@)),
                    *a == Target::Table(*x),
                    forall|j: int|
                        0 <= j < i ==> x@[j].0@ == y@[j].0@ && x@[j].1@ == y@[j].1@,
                decreases x.len() - i,
            {
                if !same_text(x[i].0.as_str(), y[i].0.as_str()) || !same_target(
                    &x[i].1,
                    &y[i].1,
                ) {
                    assert(entries_view(x@)[i as int] != entries_view(y@)[i as int]);
                    return false;
                }
                i += 1;
            }
            assert(entries_view(x@) =~= entries_view(y@));
            true
        },
        _ => false,
    }
}

/// Whether all entries of an object have the value of the first.
fn values_all_same(o: &Vec<(String, Target)>) -> (r: bool)
    requires
        o.len() > 0,
    ensures
        r == all_same(entries_view(o@)),
{
    let mut i: usize = 0;
    while i < o.len()
        invariant
            i <= o.len(),
            o.len() > 0,
            forall|j: int| 0 <= j < i ==> (#[trigger] entries_view(o@)[j]).1 == entries_view(
                o@,
            )[0].1,
        decreases o.len() - i,
    {
        assert(entries_view(o@)[i as int].1 == o@[i as int].1@);
        assert(entries_view(o@)[0].1 == o@[0].1@);
        if !same_target(&o[i].1, &o[0].1) {
            return false;
        }
        i += 1;
    }
    true
}

fn push_str(out: &mut Vec<char>, s: &str)
    ensures
        final(out)@ == old(out)@ + s@,
{
    let c = chars_of(s);
    append_chars(out, c.as_slice());
}

/// A message about the manifest at `path`: the path in quotes, then `tail`,
/// which begins with the closing quote.
pub open spec fn plain_message_text(path: Seq<char>, tail: Seq<char>) -> Seq<char> {
    seq!['\''] + path + tail
}

/// What stands before each command in the list of possibilities: `npm:`,
/// the package's name, `@` and its version where it has one, and `/`;
/// nothing for a package without a name.
pub open spec fn possibility_prefix(pkg: PackageJsonView) -> Seq<char> {
    match pkg.name {
        Some(n) => "npm:"@ + n + (match pkg.version {
            Some(v) => seq!['@'] + v,
            None => Seq::empty(),
        }) + seq!['/'],
        None => Seq::empty(),
    }
}

/// The first `n` lines of the list of possibilities: for each command ` * `,
/// the prefix and the command's name, with a line break between lines.
pub open spec fn possibility_lines(
    prefix: Seq<char>,
    entries: Seq<(Seq<char>, TargetView)>,
    n: int,
) -> Seq<char>
    decreases n,
{
    if n <= 0 || n > entries.len() {
        Seq::empty()
    } else {
        possibility_lines(prefix, entries, n - 1) + (if n > 1 {
            seq!['\n']
        } else {
            Seq::empty()
        }) + " * "@ + prefix + entries[n - 1].0
    }
}

/// The command that a failed lookup was about: the one asked for, else the package's name.
pub open spec fn asked_command(pkg: PackageJsonView, bin_name: Option<Seq<char>>) -> Option<
    Seq<char>,
> {
    if bin_name is Some {
        bin_name
    } else {
        pkg.name
    }
}

/// The message for a manifest whose `bin` has no entry for the command:
/// which manifest, which command, and, where `bin` is an object that is
/// not empty, the commands that it does provide.
pub open spec fn missing_entry_text(pkg: PackageJsonView, bin_name: Option<Seq<char>>) -> Seq<
    char,
> {
    seq!['\''] + pkg.path + "' did not have a bin entry"@ + (match asked_command(pkg, bin_name) {
        Some(n) => " for '"@ + n + seq!['\''],
        None => Seq::empty(),
    }) + (match pkg.bin {
        Some(TargetView::Table(o)) => if o.len() > 0 {
            "\n\nPossibilities:\n"@ + possibility_lines(
                possibility_prefix(pkg),
                o,
                o.len() as int,
            )
        } else {
            Seq::empty()
        },
        _ => Seq::empty(),
    })
}

/// The message that says why a manifest gives no path for a command: it
/// has no `bin`, its `bin` is neither a string nor an object, the entry
/// meant is no string, or there is no entry for the command.
pub open spec fn bin_failure_text(pkg: PackageJsonView, bin_name: Option<Seq<char>>) -> Seq<char> {
    match pkg.bin {
        None => plain_message_text(pkg.path, "' did not have a bin property"@),
        Some(TargetView::Text(_)) | Some(TargetView::Table(_)) => match bin_choice(
            pkg,
            bin_name,
        ) {
            Some(_) => plain_message_text(pkg.path, "' had a non-string sub property of bin"@),
            None => missing_entry_text(pkg, bin_name),
        },
        Some(_) => plain_message_text(
            pkg.path,
            "' did not have a bin property with a string or object value"@,
        ),
    }
}

/// The message for a manifest that has no usable `bin` entry for the command.
fn missing_entry_message(pkg: &PackageJson, bin_name: Option<&str>) -> (m: String)
    ensures
        m@ == missing_entry_text(pkg@, opt_str(bin_name)),
{
    let mut prefix: Vec<char> = Vec::new();
    match &pkg.name {
        Some(n) => {
            push_str(&mut prefix, "npm:");
            push_str(&mut prefix, n.as_str());
            match &pkg.version {
                Some(v) => {
                    prefix.push('@');
                    push_str(&mut prefix, v.as_str());
                    assert(prefix@ =~= "npm:"@ + n@ + (seq!['@'] + v@));
                },
                None => {
                    assert(prefix@ =~= "npm:"@ + n@ + Seq::<char>::empty());
                },
            }
            prefix.push('/');
        },
        None => {},
    }
    assert(prefix@ =~= possibility_prefix(pkg@));
    let mut m: Vec<char> = Vec::new();
    m.push('\'');
    push_str(&mut m, pkg.path.as_str());
    push_str(&mut m, "' did not have a bin entry");
    let ghost start = m@;
    assert(start =~= seq!['\''] + pkg@.path + "' did not have a bin entry"@);
    let asked: Option<&str> = match bin_name {
        Some(n) => Some(n),
        None => match &pkg.name {
            Some(n) => Some(n.as_str()),
            None => None,
        },
    };
    assert(opt_str(asked) == asked_command(pkg@, opt_str(bin_name)));
    match asked {
        Some(n) => {
            push_str(&mut m, " for '");
            push_str(&mut m, n);
            m.push('\'');
            assert(m@ =~= start + (" for '"@ + n@ + seq!['\'']));
        },
        None => {
            assert(m@ =~= start + Seq::<char>::empty());
        },
    }
    let ghost named = m@;
    match &pkg.bin {
        Some(Target::Table(o)) => {
            if o.len() > 0 {
                push_str(&mut m, "\n\nPossibilities:\n");
                let ghost head = m@;
                let ghost all = entries_view(o@);
                let mut i: usize = 0;
                assert(head + possibility_lines(prefix@, all, 0) =~= head);
                while i < o.len()
                    invariant
                        i <= o.len(),
                        all == entries_view(o@),
                        m@ == head + possibility_lines(prefix@, all, i as int),
                    decreases o.len() - i,
                {
                    let ghost before = possibility_lines(prefix@, all, i as int);
                    if i > 0 {
                        m.push('\n');
                    }
                    push_str(&mut m, " * ");
                    append_chars(&mut m, prefix.as_slice());
                    push_str(&mut m, o[i].0.as_str());
                    assert(all[i as int].0 == o@[i as int].0@);
                    assert(m@ =~= head + (before + (if i > 0 {
                        seq!['\n']
                    } else {
                        Seq::<char>::empty()
                    }) + " * "@ + prefix@ + all[i as int].0));
                    i += 1;
                }
                assert(m@ =~= named + ("\n\nPossibilities:\n"@ + possibility_lines(
                    prefix@,
                    all,
                    o.len() as int,
                )));
            } else {
                assert(m@ =~= named + Seq::<char>::empty());
            }
        },
        _ => {
            assert(m@ =~= named + Seq::<char>::empty());
        },
    }
    string_of(m.as_slice())
}

/// A message about the manifest of a package: its path in quotes, then `tail`.
fn plain_message(pkg: &PackageJson, tail: &str) -> (m: String)
    ensures
        m@ == plain_message_text(pkg@.path, tail@),
{
    let mut m: Vec<char> = Vec::new();
    m.push('\'');
    assert(m@ =~= seq!['\'']);
    push_str(&mut m, pkg.path.as_str());
    push_str(&mut m, tail);
    string_of(m.as_slice())
}

/// The path that a command of a package leads to, or a message that says
/// why the manifest gives none.
pub fn resolve_bin_entry_value(pkg: &PackageJson, bin_name: Option<&str>) -> (r: Result<
    String,
    String,
>)
    ensures
        match r {
            Ok(s) => bin_entry_of(pkg@, opt_str(bin_name)) == Some(s@),
            Err(m) => bin_entry_of(pkg@, opt_str(bin_name)) is None && m@ == bin_failure_text(
                pkg@,
                opt_str(bin_name),
            ),
        },
{
    let bin = match &pkg.bin {
        Some(bin) => bin,
        None => {
            return Err(plain_message(pkg, "' did not have a bin property"));
        },
    };
    let entry: Option<&Target> = match bin {
        Target::Text(_) => {
            let own: bool = match bin_name {
                Some(asked) => match &pkg.name {
                    Some(n) => {
                        let nc = chars_of(n.as_str());
                        let segment = match rfind_char(nc.as_slice(), '/') {
                            Some(i) => tail_after(nc.as_slice(), i),
                            None => nc,
                        };
                        let ac = chars_of(asked);
                        same_chars(ac.as_slice(), segment.as_slice())
                    },
                    None => false,
                },
                None => true,
            };
            if own {
                Some(bin)
            } else {
                None
            }
        },
        Target::Table(o) => {
            match bin_name {
                Some(asked) => {
                    let ac = chars_of(asked);
                    match find_entry(o, ac.as_slice()) {
                        Some(i) => {
                            assert(entries_view(o@)[i as int].1 == o@[i as int].1@);
                            Some(&o[i].1)
                        },
                        None => None,
                    }
                },
                None => {
                    if o.len() == 1 || (o.len() > 1 && values_all_same(o)) {
                        assert(entries_view(o@)[0].1 == o@[0].1@);
                        Some(&o[0].1)
                    } else {
                        match &pkg.name {
                            Some(n) => {
                                let nc = chars_of(n.as_str());
                                match find_entry(o, nc.as_slice()) {
                                    Some(i) => {
                                        assert(entries_view(o@)[i as int].1 == o@[i as int].1@);
                                        Some(&o[i].1)
                                    },
                                    None => None,
                                }
                            },
                            None => None,
                        }
                    }
                },
            }
        },
        _ => {
            return Err(
                plain_message(pkg, "' did not have a bin property with a string or object value"),
            );
        },
    };
    match entry {
        Some(Target::Text(s)) => Ok(s.clone()),
        Some(_) => Err(plain_message(pkg, "' had a non-string sub property of bin")),
        None => Err(missing_entry_message(pkg, bin_name)),
    }
}

/// The contents of a list of strings or an error.
pub open spec fn names_result_view(r: Result<Vec<String>, NodeResolveError>) -> Result<
    Seq<Seq<char>>,
    ErrorView,
> {
    match r {
        Ok(v) => Ok(strings_view(v@)),
        Err(e) => Err(e@),
    }
}

impl<'a, F: FileSystem, N: NpmResolver> NodeResolver<'a, F, N> {
    /// The names of the commands that the package in `package_folder` provides.
    pub open spec fn binary_commands_of(&self, package_folder: Seq<char>) -> Result<
        Seq<Seq<char>>,
        ErrorView,
    > {
        match loaded_manifest(self.fs, path_joined(package_folder, "package.json"@), None) {
            Err(e) => Err(e),
            Ok(None) => Ok(Seq::empty()),
            Ok(Some(pkg)) => commands_of(pkg),
        }
    }

    /// The names of the commands that the package in `package_folder` provides.
    pub fn resolve_binary_commands(&self, package_folder: &str) -> (r: Result<
        Vec<String>,
        NodeResolveError,
    >)
        ensures
            names_result_view(r) == self.binary_commands_of(package_folder@),
    {
        let folder = chars_of(package_folder);
        let name = chars_of("package.json");
        let manifest_path = path_join(folder.as_slice(), name.as_slice());
        let pkg = match self.load_package_json(manifest_path.as_slice(), None) {
            Err(e) => {
                return Err(e);
            },
            Ok(None) => {
                let none: Vec<String> = Vec::new();
                assert(strings_view(none@) =~= Seq::<Seq<char>>::empty());
                return Ok(none);
            },
            Ok(Some(pkg)) => pkg,
        };
        match &pkg.bin {
            Some(Target::Text(_)) => match &pkg.name {
                Some(n) => {
                    let mut v: Vec<String> = Vec::new();
                    v.push(n.clone());
                    assert(strings_view(v@) =~= seq![n@]);
                    Ok(v)
                },
                None => {
                    let p = chars_of(pkg.path.as_str());
                    Err(
                        NodeResolveError::new(
                            ErrorKind::MissingPkgJsonName,
                            p.as_slice(),
                            Some(p.as_slice()),
                            None,
                        ),
                    )
                },
            },
            Some(Target::Table(o)) => {
                let mut v: Vec<String> = Vec::new();
                let mut i: usize = 0;
                while i < o.len()
                    invariant
                        i <= o.len(),
                        v@.len() == i,
                        forall|j: int| 0 <= j < i ==> v@[j]@ == o@[j].0@,
                    decreases o.len() - i,
                {
                    v.push(o[i].0.clone());
                    i += 1;
                }
                assert(strings_view(v@) =~= entries_view(o@).map_values(
                    |e: (Seq<char>, TargetView)| e.0,
                ));
                Ok(v)
            },
            _ => {
                let none: Vec<String> = Vec::new();
                assert(strings_view(none@) =~= Seq::<Seq<char>>::empty());
                Ok(none)
            },
        }
    }

    /// What a command of the package in `package_folder` resolves to: the
    /// file that the `bin` entry of its manifest names for the command, or
    /// the failure to load the manifest, to find it, or to find the entry,
    /// the last with the message that says why.
    pub open spec fn binary_export_of(&self, package_folder: Seq<char>, sub_path: Option<Seq<char>>)
        -> Result<crate::model::NodeResolutionView, ErrorView> {
        let manifest_path = path_joined(package_folder, "package.json"@);
        match loaded_manifest(self.fs, manifest_path, None) {
            Err(e) => Err(e),
            Ok(None) => Err(
                full_error(ErrorKind::MissingPkgJson, manifest_path, Some(manifest_path), None),
            ),
            Ok(Some(pkg)) => match bin_entry_of(pkg, sub_path) {
                None => Err(
                    full_error(
                        ErrorKind::InvalidBinProperty,
                        bin_failure_text(pkg, sub_path),
                        Some(manifest_path),
                        None,
                    ),
                ),
                Some(entry) => self.located_resolution_of(
                    crate::model::LocatedView::Path(path_joined(package_folder, entry)),
                ),
            },
        }
    }

    /// Resolves a command of the package in `package_folder`: the command
    /// named `sub_path`, or the package's default command.
    pub fn resolve_binary_export(&self, package_folder: &str, sub_path: Option<&str>) -> (r: Result<
        NodeResolution,
        NodeResolveError,
    >)
        ensures
            crate::semantics::node_resolution_view(r) == self.binary_export_of(
                package_folder@,
                opt_str(sub_path),
            ),
    {
        let folder = chars_of(package_folder);
        let name = chars_of("package.json");
        let manifest_path = path_join(folder.as_slice(), name.as_slice());
        let pkg = match self.load_package_json(manifest_path.as_slice(), None) {
            Err(e) => {
                return Err(e);
            },
            Ok(None) => {
                return Err(
                    NodeResolveError::new(
                        ErrorKind::MissingPkgJson,
                        manifest_path.as_slice(),
                        Some(manifest_path.as_slice()),
                        None,
                    ),
                );
            },
            Ok(Some(pkg)) => pkg,
        };
        let entry = match resolve_bin_entry_value(&pkg, sub_path) {
            Ok(e) => e,
            Err(message) => {
                let m = chars_of(message.as_str());
                return Err(
                    NodeResolveError::new(
                        ErrorKind::InvalidBinProperty,
                        m.as_slice(),
                        Some(manifest_path.as_slice()),
                        None,
                    ),
                );
            },
        };
        let e = chars_of(entry.as_str());
        let path = path_join(folder.as_slice(), e.as_slice());
        let located = crate::model::Located::path(path.as_slice());
        self.located_to_node_resolution(&located)
    }
}

} // verus!
