//! Locating the application's resources: inside the macOS `.app` bundle,
//! or in the development tree.

use vstd::prelude::*;
use crate::paths::{join, join_of, parent, parent_of};

verus! {

/// Where the bundle keeps its resources, for an executable at `exe`:
/// `Contents/Resources` beside the `Contents/MacOS` directory that holds it.
pub open spec fn bundle_resources_of(exe: Seq<char>) -> Option<Seq<char>> {
    match parent_of(exe) {
        Some(dir) => match parent_of(dir) {
            Some(contents) => Some(join_of(contents, "Resources"@)),
            None => None,
        },
        None => None,
    }
}

/// The bundle's resource directory for an executable, if the path has the
/// two parents that it needs.
pub fn bundle_resources(exe: &str) -> (r: Option<String>)
    ensures
        match r {
            Some(p) => bundle_resources_of(exe@) == Some(p@),
            None => bundle_resources_of(exe@) is None,
        },
{
    proof {
        reveal_strlit("Resources");
    }
    match parent(exe) {
        None => None,
        Some(dir) => match parent(dir.as_str()) {
            None => None,
            Some(contents) => Some(join(contents.as_str(), "Resources")),
        },
    }
}

/// The root from which resources are found: the bundle's resource
/// directory for the executable at `starting_path`, when `path_exists` says it
/// exists, and `dev_root` otherwise (a development build passes the source
/// tree's `resources` directory there, a release build `None`).
pub fn resolve_root<F: Fn(&str) -> bool>(
    starting_path: Option<&str>,
    path_exists: F,
    dev_root: Option<String>,
) -> (r: Option<String>)
    requires
        forall|p: &str| call_requires(path_exists, (p,)),
    ensures
        match starting_path {
            Some(exe) => match bundle_resources_of(exe@) {
                Some(bundle) => (r matches Some(root) && root@ == bundle && exists|p: &str|
                    p@ == bundle && call_ensures(path_exists, (p,), true)) || (r == dev_root
                    && exists|p: &str| p@ == bundle && call_ensures(path_exists, (p,), false)),
                None => r == dev_root,
            },
            None => r == dev_root,
        },
{
    let bundle = match starting_path {
        Some(exe) => bundle_resources(exe),
        None => None,
    };
    let exists = match &bundle {
        Some(root) => path_exists(root.as_str()),
        None => false,
    };
    root_from(bundle, exists, dev_root)
}

/// The resource root, from the bundle's resource directory (if the
/// executable's path has one) and whether it exists: that directory when it
/// does, else `dev_root`.
pub fn root_from(bundle: Option<String>, bundle_exists: bool, dev_root: Option<String>) -> (r: Option<String>)
    ensures
        r == match bundle {
            Some(b) => if bundle_exists {
                Some(b)
            } else {
                dev_root
            },
            None => dev_root,
        },
{
    match bundle {
        Some(root) => if bundle_exists {
            Some(root)
        } else {
            dev_root
        },
        None => dev_root,
    }
}

/// `path_exists` answered `answer` for some path whose text is `path`.
pub open spec fn answered<F: Fn(&str) -> bool>(path_exists: F, path: Seq<char>, answer: bool) -> bool {
    exists|p: &str| p@ == path && call_ensures(path_exists, (p,), answer)
}

/// The subdirectory `name` of the bundle's resource directory, for an
/// executable at `exe`, if the path has one.
pub open spec fn bundle_subdir_of(exe: Option<&str>, name: Seq<char>) -> Option<Seq<char>> {
    match exe {
        Some(e) => match bundle_resources_of(e@) {
            Some(b) => Some(join_of(b, name)),
            None => None,
        },
        None => None,
    }
}

/// The subdirectory `name` of the development resource directory, if
/// there is one.
pub open spec fn dev_subdir_of(dev_root: Option<String>, name: Seq<char>) -> Option<Seq<char>> {
    match dev_root {
        Some(d) => Some(join_of(d@, name)),
        None => None,
    }
}

/// Which resource directory to use, from the two candidates and whether
/// each exists: the bundle's when it exists, else the development one when
/// it exists, else none.
pub fn pick_resource(
    bundle: Option<String>,
    bundle_exists: bool,
    dev: Option<String>,
    dev_exists: bool,
) -> (r: Option<String>)
    ensures
        r == if bundle is Some && bundle_exists {
            bundle
        } else if dev is Some && dev_exists {
            dev
        } else {
            None
        },
{
    if bundle.is_some() && bundle_exists {
        bundle
    } else if dev.is_some() && dev_exists {
        dev
    } else {
        None
    }
}

/// The path to a subdirectory `name` of the macOS bundle's
/// `Contents/Resources`, if it exists, and of the development `resources`
/// folder `dev_root` otherwise (a release build passes `None` there), if
/// that exists. `path_exists` says whether a path exists; each candidate is
/// asked about once, the bundle's first.
pub fn resources<F: Fn(&str) -> bool>(
    name: &str,
    exe: Option<&str>,
    path_exists: F,
    dev_root: Option<String>,
) -> (r: Option<String>)
    requires
        forall|p: &str| call_requires(path_exists, (p,)),
    ensures
        ({
            let bundle = bundle_subdir_of(exe, name@);
            let dev = dev_subdir_of(dev_root, name@);
            match r {
                Some(path) => (bundle == Some(path@) && answered(path_exists, path@, true)) || (dev
                    == Some(path@) && answered(path_exists, path@, true) && (bundle matches Some(b)
                    ==> answered(path_exists, b, false))),
                None => (bundle matches Some(b) ==> answered(path_exists, b, false)) && (dev matches Some(
                    d,
                ) ==> answered(path_exists, d, false)),
            }
        }),
{
    let bundle = match exe {
        Some(e) => match bundle_resources(e) {
            Some(b) => Some(join(b.as_str(), name)),
            None => None,
        },
        None => None,
    };
    let bundle_exists = match &bundle {
        Some(b) => path_exists(b.as_str()),
        None => false,
    };
    let dev = match &dev_root {
        Some(d) => Some(join(d.as_str(), name)),
        None => None,
    };
    let dev_exists = match &dev {
        Some(d) if !bundle_exists => path_exists(d.as_str()),
        _ => false,
    };
    pick_resource(bundle, bundle_exists, dev, dev_exists)
}

/// The directory of themes: the bundled one that [`resources`] found, or
/// `./themes`.
pub fn themes_dir(found: Option<String>) -> (r: String)
    ensures
        r@ == match found {
            Some(dir) => dir@,
            None => "./themes"@,
        },
{
    proof {
        reveal_strlit("./themes");
    }
    match found {
        Some(dir) => dir,
        None => "./themes".to_owned(),
    }
}

} // verus!
