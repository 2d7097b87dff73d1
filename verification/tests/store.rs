use node_resolution::env::NpmResolver;
use node_resolution::errors::ErrorKind;
use node_resolution::folder_id::NpmPackageCacheFolderId;
use node_resolution::layout::{
    hoisted_dir_path, initialized_file_path, join_package_name, package_folder_path,
    package_slot_path,
};
use node_resolution::links::LinkAction;
use node_resolution::local::{resolve_package_root, LocalNpmPackageResolver};
use node_resolution::memory_fs::MemoryFs;
use node_resolution::model::{NodeModuleKind, NodeResolution, NodeResolutionMode, PackageJson};
use node_resolution::semantics::NodeResolver;
use node_resolution::semver::Version;
use node_resolution::setup_cache::{SetupCache, SetupCacheData};
use node_resolution::sync::{
    collect_requests, plan_sync, ContentAction, SyncDependency, SyncPackage, SyncSnapshot,
};

fn version(major: u64, minor: u64, patch: u64) -> Version {
    Version { major, minor, patch, pre: Vec::new(), build: Vec::new() }
}

fn id(name: &str, v: (u64, u64, u64), copy_index: u8) -> NpmPackageCacheFolderId {
    NpmPackageCacheFolderId::new(name.to_string(), version(v.0, v.1, v.2), copy_index)
}

fn chars(s: &str) -> Vec<char> {
    s.chars().collect()
}

fn text(v: Vec<char>) -> String {
    v.into_iter().collect()
}

#[test]
fn store_layout() {
    assert_eq!(join_package_name("/p/node_modules", "chalk"), "/p/node_modules/chalk");
    assert_eq!(
        join_package_name("/p/node_modules", "@types/node"),
        "/p/node_modules/@types/node"
    );
    assert_eq!(package_slot_path("/p/node_modules", "chalk@5.0.1"), "/p/node_modules/.deno/chalk@5.0.1");
    assert_eq!(
        package_folder_path("/p/node_modules", "@types+node@18.8.2", "@types/node"),
        "/p/node_modules/.deno/@types+node@18.8.2/node_modules/@types/node"
    );
    assert_eq!(
        initialized_file_path("/p/node_modules", "chalk@5.0.1"),
        "/p/node_modules/.deno/chalk@5.0.1/.initialized"
    );
    assert_eq!(hoisted_dir_path("/p/node_modules"), "/p/node_modules/.deno/node_modules");
}

#[test]
fn setup_cache_tells_what_changed() {
    let mut cache = SetupCache::load("/p/node_modules/.deno/.setup-cache.bin".to_string(), None);
    // nothing is known of the last run: everything has to be made
    assert!(cache.insert_root_symlink("a", "a@1.0.0"));
    assert!(cache.insert_deno_symlink("b", "b@1.0.0"));
    assert!(cache.with_dep("a@1.0.0").insert("b", "b@1.0.0"));
    assert!(cache.save());
    assert_eq!(cache.current.root_symlinks.get("a"), Some(&"a@1.0.0".to_string()));
    assert_eq!(cache.current.deno_symlinks.get("b"), Some(&"b@1.0.0".to_string()));
    assert_eq!(
        cache.current.dep_symlinks.get("a@1.0.0").unwrap().get("b"),
        Some(&"b@1.0.0".to_string())
    );

    // the next run finds what this one left
    let mut next = SetupCache::load(cache.file_path.clone(), Some(cache.current));
    assert!(!next.insert_root_symlink("a", "a@1.0.0"));
    assert!(!next.insert_deno_symlink("b", "b@1.0.0"));
    assert!(!next.with_dep("a@1.0.0").insert("b", "b@1.0.0"));
    assert!(!next.save());
    // another target, or another name, is a change
    assert!(next.insert_root_symlink("a", "a@2.0.0"));
    assert!(next.insert_root_symlink("c", "c@1.0.0"));
    assert!(next.with_dep("a@1.0.0").insert("b", "b@2.0.0"));
    assert!(next.with_dep("z@1.0.0").insert("b", "b@1.0.0"));
    assert!(next.save());
    // the later entry replaces the earlier one
    assert_eq!(next.current.root_symlinks.get("a"), Some(&"a@2.0.0".to_string()));
    assert_eq!(next.current.root_symlinks.len(), 2);
}

#[test]
fn removing_a_dep_forces_its_links_to_be_made_again() {
    let mut first = SetupCache::load("f".to_string(), None);
    first.with_dep("a@1.0.0").insert("b", "b@1.0.0");
    first.with_dep("c@1.0.0").insert("b", "b@1.0.0");
    let mut next = SetupCache::load("f".to_string(), Some(first.current));
    next.remove_dep("a@1.0.0");
    next.remove_dep("unknown@1.0.0");
    assert!(next.with_dep("a@1.0.0").insert("b", "b@1.0.0"));
    assert!(!next.with_dep("c@1.0.0").insert("b", "b@1.0.0"));
    // without a last run there is nothing to forget
    let mut fresh = SetupCache::load("f".to_string(), None);
    fresh.remove_dep("a@1.0.0");
    assert!(fresh.previous.is_none());
}

#[test]
fn tables_compare_by_content() {
    let mut a = SetupCacheData::new();
    a.root_symlinks.insert("x", "1");
    a.root_symlinks.insert("y", "2");
    let mut b = SetupCacheData::new();
    b.root_symlinks.insert("y", "2");
    b.root_symlinks.insert("x", "0");
    assert!(!a.same_content(&b));
    b.root_symlinks.insert("x", "1");
    assert!(a.same_content(&b));
    b.dep_symlinks.entry("p");
    assert!(!a.same_content(&b));
    a.dep_symlinks.entry("p");
    assert!(a.same_content(&b));
    assert_eq!(a.root_symlinks.pairs(), vec![("x".to_string(), "1".to_string()), ("y".to_string(), "2".to_string())]);
}

fn package(
    id: NpmPackageCacheFolderId,
    deps: Vec<(&str, NpmPackageCacheFolderId, bool)>,
    initialized: bool,
) -> SyncPackage {
    SyncPackage {
        id,
        dependencies: deps
            .into_iter()
            .map(|(name, target, skipped)| SyncDependency { name: name.to_string(), target, skipped })
            .collect(),
        initialized,
        use_cache: true,
    }
}

fn snapshot(initialized: bool) -> SyncSnapshot {
    SyncSnapshot {
        packages: vec![
            package(
                id("app-dep", (1, 0, 0), 0),
                vec![
                    ("util", id("util", (1, 0, 0), 0), false),
                    ("@scope/peer", id("@scope/peer", (3, 1, 0), 0), false),
                    ("win-only", id("win-only", (1, 0, 0), 0), true),
                ],
                initialized,
            ),
            package(id("util", (1, 0, 0), 0), vec![], initialized),
            package(id("util", (2, 0, 0), 0), vec![], initialized),
            package(id("@scope/peer", (3, 1, 0), 0), vec![], initialized),
        ],
        copy_packages: vec![package(
            id("util", (2, 0, 0), 1),
            vec![("@scope/peer", id("@scope/peer", (3, 1, 0), 0), false)],
            initialized,
        )],
        top_level: vec![id("app-dep", (1, 0, 0), 0), id("util", (1, 0, 0), 0)],
        has_workspace_packages: false,
    }
}

fn link(target: &str, link: &str) -> LinkAction {
    LinkAction { target: target.to_string(), link: link.to_string() }
}

#[test]
fn first_synchronization_fetches_copies_and_links() {
    let root = "/p/node_modules";
    let mut cache = SetupCache::load("f".to_string(), None);
    let plan = plan_sync(&snapshot(false), root, &mut cache);
    assert!(!plan.skip);
    assert!(plan.write_cache);
    assert_eq!(plan.content.len(), 5);
    assert_eq!(
        plan.content[0],
        ContentAction::Fetch {
            folder_name: "app-dep@1.0.0".to_string(),
            package_name: "app-dep".to_string(),
            package_path: "/p/node_modules/.deno/app-dep@1.0.0/node_modules/app-dep".to_string(),
            sentinel: "/p/node_modules/.deno/app-dep@1.0.0/.initialized".to_string(),
        }
    );
    assert_eq!(
        plan.content[4],
        ContentAction::Copy {
            source_path: "/p/node_modules/.deno/util@2.0.0/node_modules/util".to_string(),
            package_path: "/p/node_modules/.deno/util@2.0.0_1/node_modules/util".to_string(),
            sentinel: "/p/node_modules/.deno/util@2.0.0_1/.initialized".to_string(),
        }
    );
    assert_eq!(
        plan.links,
        vec![
            // inside the package folders; the dependency that is skipped gets none
            link(
                "/p/node_modules/.deno/util@1.0.0/node_modules/util",
                "/p/node_modules/.deno/app-dep@1.0.0/node_modules/util"
            ),
            link(
                "/p/node_modules/.deno/@scope+peer@3.1.0/node_modules/@scope/peer",
                "/p/node_modules/.deno/app-dep@1.0.0/node_modules/@scope/peer"
            ),
            link(
                "/p/node_modules/.deno/@scope+peer@3.1.0/node_modules/@scope/peer",
                "/p/node_modules/.deno/util@2.0.0_1/node_modules/@scope/peer"
            ),
            // at the top of the project
            link(
                "/p/node_modules/.deno/app-dep@1.0.0/node_modules/app-dep",
                "/p/node_modules/app-dep"
            ),
            link("/p/node_modules/.deno/util@1.0.0/node_modules/util", "/p/node_modules/util"),
            // hoisted: what the top does not show, the newest of each name
            link(
                "/p/node_modules/.deno/@scope+peer@3.1.0/node_modules/@scope/peer",
                "/p/node_modules/.deno/node_modules/@scope/peer"
            ),
        ]
    );
    assert_eq!(cache.current.root_symlinks.get("util"), Some(&"util@1.0.0".to_string()));
    assert_eq!(
        cache.current.deno_symlinks.get("@scope/peer"),
        Some(&"@scope+peer@3.1.0".to_string())
    );
    assert_eq!(cache.current.dep_symlinks.len(), 5);
}

#[test]
fn second_synchronization_has_nothing_to_do() {
    let root = "/p/node_modules";
    let mut cache = SetupCache::load("f".to_string(), None);
    let first = plan_sync(&snapshot(false), root, &mut cache);
    assert!(first.write_cache);
    let mut again = SetupCache::load("f".to_string(), Some(cache.current));
    let second = plan_sync(&snapshot(true), root, &mut again);
    assert!(!second.skip);
    assert!(second.content.is_empty());
    assert!(second.links.is_empty());
    assert!(!second.write_cache);
}

#[test]
fn content_that_is_fetched_again_is_linked_again() {
    let root = "/p/node_modules";
    let mut cache = SetupCache::load("f".to_string(), None);
    plan_sync(&snapshot(true), root, &mut cache);
    let mut again = SetupCache::load("f".to_string(), Some(cache.current));
    let mut changed = snapshot(true);
    changed.packages[0].initialized = false;
    let plan = plan_sync(&changed, root, &mut again);
    assert_eq!(plan.content.len(), 1);
    assert_eq!(
        plan.links,
        vec![
            link(
                "/p/node_modules/.deno/util@1.0.0/node_modules/util",
                "/p/node_modules/.deno/app-dep@1.0.0/node_modules/util"
            ),
            link(
                "/p/node_modules/.deno/@scope+peer@3.1.0/node_modules/@scope/peer",
                "/p/node_modules/.deno/app-dep@1.0.0/node_modules/@scope/peer"
            ),
        ]
    );
    // a cache policy that forbids reuse has the same effect
    let mut third = SetupCache::load("f".to_string(), Some(again.current));
    let mut policy = snapshot(true);
    policy.packages[1].use_cache = false;
    let plan = plan_sync(&policy, root, &mut third);
    assert_eq!(plan.content.len(), 1);
    assert!(plan.links.is_empty());
}

#[test]
fn the_newest_version_is_exposed() {
    let root = "/p/node_modules";
    let snapshot = SyncSnapshot {
        packages: vec![
            package(id("a", (1, 0, 0), 0), vec![], true),
            package(id("a", (3, 0, 0), 0), vec![], true),
            package(id("a", (2, 0, 0), 0), vec![], true),
            package(id("b", (1, 0, 0), 0), vec![], true),
        ],
        copy_packages: vec![],
        top_level: vec![id("b", (1, 0, 0), 0), id("b", (1, 5, 0), 0)],
        has_workspace_packages: false,
    };
    let mut cache = SetupCache::load("f".to_string(), None);
    let plan = plan_sync(&snapshot, root, &mut cache);
    assert_eq!(
        plan.links,
        vec![
            link("/p/node_modules/.deno/b@1.5.0/node_modules/b", "/p/node_modules/b"),
            link(
                "/p/node_modules/.deno/a@3.0.0/node_modules/a",
                "/p/node_modules/.deno/node_modules/a"
            ),
        ]
    );
    assert_eq!(collect_requests(&snapshot, root).len(), 6);
}

#[test]
fn an_empty_snapshot_asks_for_nothing() {
    let empty = SyncSnapshot {
        packages: vec![],
        copy_packages: vec![],
        top_level: vec![],
        has_workspace_packages: false,
    };
    let mut cache = SetupCache::load("f".to_string(), None);
    let plan = plan_sync(&empty, "/p/node_modules", &mut cache);
    assert!(plan.skip);
    assert!(plan.content.is_empty() && plan.links.is_empty() && !plan.write_cache);
    // with workspace packages the directories are wanted all the same
    let workspace = SyncSnapshot { has_workspace_packages: true, ..empty };
    let plan = plan_sync(&workspace, "/p/node_modules", &mut cache);
    assert!(!plan.skip);
    assert!(plan.write_cache);
}

fn installed() -> MemoryFs {
    let mut fs = MemoryFs::new();
    for dir in [
        "/",
        "/p",
        "/p/node_modules",
        "/p/node_modules/a",
        "/p/node_modules/.deno",
        "/p/node_modules/.deno/node_modules",
        "/p/node_modules/.deno/node_modules/hoisted",
        "/p/node_modules/.deno/a@1.0.0",
        "/p/node_modules/.deno/a@1.0.0/node_modules",
        "/p/node_modules/.deno/a@1.0.0/node_modules/a",
        "/p/node_modules/.deno/a@1.0.0/node_modules/a/lib",
        "/p/node_modules/.deno/a@1.0.0/node_modules/b",
        "/p/node_modules/.deno/a@1.0.0/node_modules/@scope",
        "/p/node_modules/.deno/a@1.0.0/node_modules/@scope/c",
        "/p/node_modules/.deno/b@2.0.0_1",
        "/p/node_modules/.deno/b@2.0.0_1/node_modules",
        "/p/node_modules/.deno/b@2.0.0_1/node_modules/b",
        "/other",
        "/other/node_modules",
        "/other/node_modules/z",
        "/other/node_modules/q",
    ] {
        fs.add_dir(dir);
    }
    fs.add_file("/p/main.js");
    fs.add_file("/p/node_modules/.deno/a@1.0.0/node_modules/a/index.js");
    fs.add_file("/p/node_modules/.deno/a@1.0.0/node_modules/a/lib/deep.js");
    fs.add_file("/p/node_modules/.deno/b@2.0.0_1/node_modules/b/index.js");
    fs.add_file("/other/x.js");
    fs
}

#[test]
fn packages_are_found_from_the_referrer_upwards() {
    let fs = installed();
    let resolver = LocalNpmPackageResolver::new(&fs, "/p/node_modules".to_string()).unwrap();
    assert_eq!(resolver.root_dir_url(), "file:///p/node_modules/");
    assert_eq!(resolver.node_modules_path(), "/p/node_modules");
    let inside = "file:///p/node_modules/.deno/a@1.0.0/node_modules/a/lib/deep.js";
    // a sibling in the same folder of the store
    assert_eq!(
        resolver.resolve_package_folder_from_package("b", inside),
        Ok("/p/node_modules/.deno/a@1.0.0/node_modules/b".to_string())
    );
    assert_eq!(
        resolver.resolve_package_folder_from_package("@scope/c", inside),
        Ok("/p/node_modules/.deno/a@1.0.0/node_modules/@scope/c".to_string())
    );
    // hoisted
    assert_eq!(
        resolver.resolve_package_folder_from_package("hoisted", inside),
        Ok("/p/node_modules/.deno/node_modules/hoisted".to_string())
    );
    // a file that does not exist yet is still inside its package
    assert_eq!(
        resolver.resolve_package_folder_from_package(
            "b",
            "file:///p/node_modules/.deno/a@1.0.0/node_modules/a/new/file.js"
        ),
        Ok("/p/node_modules/.deno/a@1.0.0/node_modules/b".to_string())
    );
    let missing = resolver.resolve_package_folder_from_package("nope", inside).unwrap_err();
    assert_eq!(missing.kind, ErrorKind::NotFoundPackage);
    assert_eq!(missing.request, "nope");
    let outside = resolver
        .resolve_package_folder_from_package("a", "file:///other/x.js")
        .unwrap_err();
    assert_eq!(outside.kind, ErrorKind::NotFoundReferrer);
    // another project's packages are not this store's
    let foreign = resolver
        .resolve_package_folder_from_package("q", "file:///other/node_modules/z/x.js")
        .unwrap_err();
    assert_eq!(foreign.kind, ErrorKind::NotFoundReferrer);
    let project = resolver
        .resolve_package_folder_from_package("a", "file:///p/main.js")
        .unwrap_err();
    assert_eq!(project.kind, ErrorKind::NotFoundReferrer);
    assert!(resolver.in_npm_package(inside));
    assert!(!resolver.in_npm_package("file:///p/main.js"));
}

#[test]
fn the_folder_of_a_file_tells_its_package() {
    let fs = installed();
    let resolver = LocalNpmPackageResolver::new(&fs, "/p/node_modules".to_string()).unwrap();
    let a = resolver
        .resolve_package_cache_folder_id_from_specifier(
            "file:///p/node_modules/.deno/a@1.0.0/node_modules/a/lib/deep.js",
        )
        .unwrap()
        .unwrap();
    assert!(a.same_as(&id("a", (1, 0, 0), 0)));
    let b = resolver
        .resolve_package_cache_folder_id_from_specifier(
            "file:///p/node_modules/.deno/b@2.0.0_1/node_modules/b/index.js",
        )
        .unwrap()
        .unwrap();
    assert!(b.same_as(&id("b", (2, 0, 0), 1)));
    assert!(resolver
        .resolve_package_cache_folder_id_from_specifier("file:///other/x.js")
        .unwrap()
        .is_none());
    assert_eq!(
        resolver.maybe_package_folder(&id("@scope/c", (1, 2, 3), 2)),
        "/p/node_modules/.deno/@scope+c@1.2.3_2/node_modules/@scope/c"
    );
    assert!(LocalNpmPackageResolver::new(&fs, "relative/node_modules".to_string()).is_none());
    assert_eq!(
        resolve_package_root(&chars("/p/node_modules/.deno/a@1.0.0/node_modules/a/lib/deep.js"))
            .map(text),
        Some("/p/node_modules/.deno/a@1.0.0/node_modules/a".to_string())
    );
    assert_eq!(resolve_package_root(&chars("/p/main.js")).map(text), None);
}

#[test]
fn resolution_through_the_local_store() {
    let mut fs = installed();
    fs.add_file("/p/node_modules/.deno/a@1.0.0/node_modules/b/main.js");
    let mut b = PackageJson {
        path: "/p/node_modules/.deno/a@1.0.0/node_modules/b/package.json".to_string(),
        name: Some("b".to_string()),
        version: None,
        main: Some("main.js".to_string()),
        module: None,
        typ: "module".to_string(),
        types: None,
        exports: None,
        imports: None,
        bin: None,
    };
    fs.add_manifest(b.duplicate());
    b.path = "/p/node_modules/.deno/a@1.0.0/node_modules/a/package.json".to_string();
    b.name = Some("a".to_string());
    fs.add_manifest(b);
    let npm = LocalNpmPackageResolver::new(&fs, "/p/node_modules".to_string()).unwrap();
    let resolver = NodeResolver::new(&fs, &npm);
    assert_eq!(
        resolver.resolve(
            "b",
            "file:///p/node_modules/.deno/a@1.0.0/node_modules/a/index.js",
            NodeModuleKind::Esm,
            NodeResolutionMode::Execution
        ),
        Ok(Some(NodeResolution::Esm(
            "file:///p/node_modules/.deno/a@1.0.0/node_modules/b/main.js".to_string()
        )))
    );
}

struct Counting {
    asked: std::cell::Cell<u32>,
}

impl NpmResolver for Counting {
    fn resolve_package_folder_from_package(
        &self,
        name: &str,
        _referrer: &str,
    ) -> Result<String, node_resolution::errors::NodeResolveError> {
        panic!("the package locator was asked for {name}")
    }

    fn in_npm_package(&self, specifier: &str) -> bool {
        self.asked.set(self.asked.get() + 1);
        specifier.starts_with("file:///p/node_modules/")
    }
}

#[test]
fn the_locator_is_asked_once_for_each_specifier() {
    let npm = Counting { asked: std::cell::Cell::new(0) };
    let mut cache = node_resolution::npm_cache::InNpmPackageCache::new(&npm);
    assert!(cache.in_npm_package_with_cache("file:///p/node_modules/a/x.js"));
    assert!(!cache.in_npm_package_with_cache("file:///p/main.js"));
    assert!(cache.in_npm_package_with_cache("file:///p/node_modules/a/x.js"));
    assert!(!cache.in_npm_package_with_cache("file:///p/main.js"));
    assert_eq!(npm.asked.get(), 2);
    // what is no URL lies in no package, and the locator is not asked
    assert!(!cache.in_npm_package_with_cache("not a url"));
    assert!(!cache.in_npm_package_with_cache("not a url"));
    assert_eq!(npm.asked.get(), 2);
}

#[test]
fn identities_are_stored_and_read_back() {
    let plain = id("@scope/Pkg", (1, 2, 3), 4);
    assert!(node_resolution::folder_id::stored_and_read_back(&plain).unwrap().same_as(&plain));
    let odd = id("a+b", (1, 0, 0), 0);
    assert!(node_resolution::folder_id::stored_and_read_back(&odd).is_none());
}

#[test]
fn a_store_that_cannot_be_read() {
    // nothing exists, not even the root directory
    let fs = MemoryFs::new();
    let resolver = LocalNpmPackageResolver::new(&fs, "/p/node_modules".to_string()).unwrap();
    let err = resolver
        .resolve_package_folder_from_package("a", "file:///p/node_modules/x/y.js")
        .unwrap_err();
    assert_eq!(err.kind, ErrorKind::PackageFolderIo);
    assert_eq!(
        resolver
            .resolve_package_cache_folder_id_from_specifier("file:///p/node_modules/x/y.js")
            .unwrap_err()
            .kind,
        ErrorKind::PackageFolderIo
    );
}
