//! `scout`: what kind of project a directory holds, which files to bundle for it, and
//! which of the bundles to show.

use vstd::prelude::*;
use crate::error::MartyError;
use crate::error::is_internal_err;
use crate::text::{trim, trimmed};

verus! {

/// The kinds of project that `scout` tells apart.
#[derive(Debug, Clone, Copy, PartialEq, Eq)]
pub enum ProjectType {
    Godot,
    Rust,
    Flutter,
    Ios,
    Android,
    Python,
    ViteWeb,
    Unknown,
}

/// The name of each project type.
pub open spec fn project_type_name(t: ProjectType) -> &'static str {
    match t {
        ProjectType::Godot => "godot",
        ProjectType::Rust => "rust",
        ProjectType::Flutter => "flutter",
        ProjectType::Ios => "ios",
        ProjectType::Android => "android",
        ProjectType::Python => "python",
        ProjectType::ViteWeb => "vite_web",
        ProjectType::Unknown => "unknown",
    }
}

impl ProjectType {
    /// The name of this project type.
    pub fn as_str(&self) -> (r: &'static str)
        ensures
            r == project_type_name(*self),
    {
        match self {
            ProjectType::Godot => "godot",
            ProjectType::Rust => "rust",
            ProjectType::Flutter => "flutter",
            ProjectType::Ios => "ios",
            ProjectType::Android => "android",
            ProjectType::Python => "python",
            ProjectType::ViteWeb => "vite_web",
            ProjectType::Unknown => "unknown",
        }
    }
}

/// The marker files whose presence tells the project type, in the order they are looked
/// at.
pub open spec fn marker_names() -> Seq<&'static str> {
    seq![
        "project.godot",
        "Cargo.toml",
        "pubspec.yaml",
        "Package.swift",
        "build.gradle",
        "build.gradle.kts",
        "settings.gradle",
        "pyproject.toml",
        "requirements.txt",
        "package.json",
    ]
}

/// The marker files, in the order of `marker_names`. The caller says for each whether it
/// exists in the directory scouted.
pub fn project_markers() -> (r: Vec<&'static str>)
    ensures
        r@ == marker_names(),
{
    let r = vec![
        "project.godot",
        "Cargo.toml",
        "pubspec.yaml",
        "Package.swift",
        "build.gradle",
        "build.gradle.kts",
        "settings.gradle",
        "pyproject.toml",
        "requirements.txt",
        "package.json",
    ];
    assert(r@ =~= marker_names());
    r
}

/// The project type that the present markers tell (`present[i]` for the `i`-th of
/// `marker_names`): the first rule that applies wins.
pub open spec fn detected(present: Seq<bool>) -> ProjectType {
    if present[0] {
        ProjectType::Godot
    } else if present[1] {
        ProjectType::Rust
    } else if present[2] {
        ProjectType::Flutter
    } else if present[3] {
        ProjectType::Ios
    } else if present[4] || present[5] || present[6] {
        ProjectType::Android
    } else if present[7] || present[8] {
        ProjectType::Python
    } else if present[9] {
        ProjectType::ViteWeb
    } else {
        ProjectType::Unknown
    }
}

/// Tells the project type from which marker files exist.
pub fn detect_project_type(present: &Vec<bool>) -> (r: ProjectType)
    requires
        present@.len() == marker_names().len(),
    ensures
        r == detected(present@),
{
    if present[0] {
        ProjectType::Godot
    } else if present[1] {
        ProjectType::Rust
    } else if present[2] {
        ProjectType::Flutter
    } else if present[3] {
        ProjectType::Ios
    } else if present[4] || present[5] || present[6] {
        ProjectType::Android
    } else if present[7] || present[8] {
        ProjectType::Python
    } else if present[9] {
        ProjectType::ViteWeb
    } else {
        ProjectType::Unknown
    }
}

/// The filters for the source bundle of each project type, tried in order.
pub open spec fn filters_for(t: ProjectType) -> Seq<&'static str> {
    match t {
        ProjectType::Godot => seq!["[.gd]", "[.tscn]", "[.tres]", "[project.godot]"],
        ProjectType::Rust => seq!["[.rs]", "[Cargo.toml]"],
        ProjectType::ViteWeb => seq!["[.ts]", "[.tsx]", "[.js]", "[.jsx]", "[package.json]"],
        ProjectType::Python => seq!["[.py]", "[requirements.txt]", "[pyproject.toml]"],
        ProjectType::Android => seq!["[.kt]", "[.java]", "[build.gradle]"],
        ProjectType::Ios => seq!["[.swift]", "[.m]", "[Package.swift]"],
        ProjectType::Flutter => seq!["[.dart]", "[pubspec.yaml]"],
        ProjectType::Unknown => seq![
            "[.rs]",
            "[.py]",
            "[.ts]",
            "[.tsx]",
            "[.js]",
            "[.jsx]",
            "[.go]",
            "[.swift]",
            "[.kt]",
            "[.java]",
            "[.dart]",
            "[Cargo.toml]",
            "[package.json]",
            "[requirements.txt]",
            "[pyproject.toml]",
        ],
    }
}

/// The filters for the source bundle of a project of type `t`.
pub fn bound_filters_for(t: ProjectType) -> (r: Vec<&'static str>)
    ensures
        r@ == filters_for(t),
{
    let r = match t {
        ProjectType::Godot => vec!["[.gd]", "[.tscn]", "[.tres]", "[project.godot]"],
        ProjectType::Rust => vec!["[.rs]", "[Cargo.toml]"],
        ProjectType::ViteWeb => vec!["[.ts]", "[.tsx]", "[.js]", "[.jsx]", "[package.json]"],
        ProjectType::Python => vec!["[.py]", "[requirements.txt]", "[pyproject.toml]"],
        ProjectType::Android => vec!["[.kt]", "[.java]", "[build.gradle]"],
        ProjectType::Ios => vec!["[.swift]", "[.m]", "[Package.swift]"],
        ProjectType::Flutter => vec!["[.dart]", "[pubspec.yaml]"],
        ProjectType::Unknown => vec![
            "[.rs]",
            "[.py]",
            "[.ts]",
            "[.tsx]",
            "[.js]",
            "[.jsx]",
            "[.go]",
            "[.swift]",
            "[.kt]",
            "[.java]",
            "[.dart]",
            "[Cargo.toml]",
            "[package.json]",
            "[requirements.txt]",
            "[pyproject.toml]",
        ],
    };
    assert(r@ =~= filters_for(t));
    r
}

/// Detection by the marker files of a directory whose files are those for which `in_dir` holds:
/// `project.godot` makes a Godot project; else `Cargo.toml` a Rust one; else
/// `pubspec.yaml` a Flutter one; else `Package.swift` an iOS one; else `build.gradle`,
/// `build.gradle.kts` or `settings.gradle` an Android one; else `pyproject.toml` or
/// `requirements.txt` a Python one; else `package.json` a Vite web one; and with none of
/// them the type is unknown.
pub proof fn law_detection_by_marker_files(in_dir: spec_fn(Seq<char>) -> bool, present: Seq<bool>)
    requires
        present == marker_names().map_values(|n: &'static str| in_dir(n@)),
    ensures
        ({
            let godot = in_dir("project.godot"@);
            let rust = !godot && in_dir("Cargo.toml"@);
            let flutter = !godot && !in_dir("Cargo.toml"@) && in_dir("pubspec.yaml"@);
            let above_ios = !godot && !in_dir("Cargo.toml"@) && !in_dir("pubspec.yaml"@);
            let ios = above_ios && in_dir("Package.swift"@);
            let gradle = in_dir("build.gradle"@) || in_dir("build.gradle.kts"@) || in_dir("settings.gradle"@);
            let above_android = above_ios && !in_dir("Package.swift"@);
            let android = above_android && gradle;
            let python_marker = in_dir("pyproject.toml"@) || in_dir("requirements.txt"@);
            let above_python = above_android && !gradle;
            let python = above_python && python_marker;
            let vite = above_python && !python_marker && in_dir("package.json"@);
            let none = above_python && !python_marker && !in_dir("package.json"@);
            &&& godot ==> detected(present) == ProjectType::Godot
            &&& rust ==> detected(present) == ProjectType::Rust
            &&& flutter ==> detected(present) == ProjectType::Flutter
            &&& ios ==> detected(present) == ProjectType::Ios
            &&& android ==> detected(present) == ProjectType::Android
            &&& python ==> detected(present) == ProjectType::Python
            &&& vite ==> detected(present) == ProjectType::ViteWeb
            &&& none ==> detected(present) == ProjectType::Unknown
        }),
{
    let names = marker_names();
    assert(present[0] == in_dir("project.godot"@));
    assert(present[1] == in_dir("Cargo.toml"@));
    assert(present[2] == in_dir("pubspec.yaml"@));
    assert(present[3] == in_dir("Package.swift"@));
    assert(present[4] == in_dir("build.gradle"@));
    assert(present[5] == in_dir("build.gradle.kts"@));
    assert(present[6] == in_dir("settings.gradle"@));
    assert(present[7] == in_dir("pyproject.toml"@));
    assert(present[8] == in_dir("requirements.txt"@));
    assert(present[9] == in_dir("package.json"@));
}

/// The bundle filters of each project type: the sources of its language first, then its
/// manifest files; with the type unknown, the sources of every language known, then the
/// common manifests.
pub proof fn law_filter_table()
    ensures
        filters_for(ProjectType::Godot) == seq!["[.gd]", "[.tscn]", "[.tres]", "[project.godot]"],
        filters_for(ProjectType::Rust) == seq!["[.rs]", "[Cargo.toml]"],
        filters_for(ProjectType::ViteWeb) == seq!["[.ts]", "[.tsx]", "[.js]", "[.jsx]", "[package.json]"],
        filters_for(ProjectType::Python) == seq!["[.py]", "[requirements.txt]", "[pyproject.toml]"],
        filters_for(ProjectType::Android) == seq!["[.kt]", "[.java]", "[build.gradle]"],
        filters_for(ProjectType::Ios) == seq!["[.swift]", "[.m]", "[Package.swift]"],
        filters_for(ProjectType::Flutter) == seq!["[.dart]", "[pubspec.yaml]"],
        filters_for(ProjectType::Unknown) == seq![
            "[.rs]", "[.py]", "[.ts]", "[.tsx]", "[.js]", "[.jsx]", "[.go]", "[.swift]", "[.kt]",
            "[.java]", "[.dart]", "[Cargo.toml]", "[package.json]", "[requirements.txt]",
            "[pyproject.toml]",
        ],
{
}

/// Whether `scout` can look at a path: it must exist and be a directory. `shown` is how
/// the path appears in the message.
pub fn check_scout_target(exists: bool, is_dir: bool, shown: &str) -> (r: Result<(), MartyError>)
    ensures
        exists && is_dir <==> r is Ok,
        !exists ==> is_internal_err(r, "scout target does not exist: "@ + shown@),
        exists && !is_dir ==> is_internal_err(r, "scout target is not a directory: "@ + shown@),
{
    if !exists {
        let mut m = String::from_str("scout target does not exist: ");
        m.append(shown);
        Err(MartyError::Internal(m))
    } else if !is_dir {
        let mut m = String::from_str("scout target is not a directory: ");
        m.append(shown);
        Err(MartyError::Internal(m))
    } else {
        Ok(())
    }
}

/// A bundle is shown only when it holds more than white space.
pub fn usable_snapshot(content: String) -> (r: Option<String>)
    ensures
        trimmed(content@).len() > 0 ==> r == Some(content),
        trimmed(content@).len() == 0 ==> r is None,
{
    let t = trim(content.as_str());
    if t.unicode_len() > 0 {
        Some(content)
    } else {
        None
    }
}

/// The snapshot shown: the first usable bundle, or a note that there was nothing to bundle.
pub fn final_snapshot(found: Option<String>) -> (r: String)
    ensures
        r@ == match found {
            Some(s) => if trimmed(s@).len() > 0 {
                s@
            } else {
                "(no existing source files to bundle)"@
            },
            None => "(no existing source files to bundle)"@,
        },
{
    match found {
        Some(s) => {
            let t = trim(s.as_str());
            if t.unicode_len() > 0 {
                s
            } else {
                String::from_str("(no existing source files to bundle)")
            }
        },
        None => String::from_str("(no existing source files to bundle)"),
    }
}

/// The search for the snapshot: the filters of the project type are tried in order, one
/// bundle each, and the search stops at the first bundle that holds more than white space.
#[derive(Debug)]
pub struct SnapshotSearch {
    pub filters: Vec<&'static str>,
    pub next: usize,
    pub found: Option<String>,
}

impl SnapshotSearch {
    /// The filter whose bundle is wanted next, if the search goes on.
    pub open spec fn pending(&self) -> Option<&'static str> {
        if self.found is None && self.next < self.filters@.len() {
            Some(self.filters@[self.next as int])
        } else {
            None
        }
    }

    /// A search over the filters for a project of type `t`, none tried yet.
    pub fn new(t: ProjectType) -> (r: SnapshotSearch)
        ensures
            r.filters@ == filters_for(t),
            r.next == 0,
            r.found is None,
    {
        SnapshotSearch { filters: bound_filters_for(t), next: 0, found: None }
    }

    /// The filter to run next, or `None` once a usable bundle was found or every filter
    /// was tried.
    pub fn next_filter(&self) -> (r: Option<&'static str>)
        ensures
            r == self.pending(),
    {
        if self.found.is_none() && self.next < self.filters.len() {
            Some(self.filters[self.next])
        } else {
            None
        }
    }

    /// Takes the bundle made with the pending filter (`None` when making it failed): a
    /// bundle that holds more than white space ends the search.
    pub fn record(&mut self, output: Option<String>)
        requires
            old(self).pending() is Some,
        ensures
            final(self).filters@ == old(self).filters@,
            final(self).next == old(self).next + 1,
            final(self).found == match output {
                Some(c) => if trimmed(c@).len() > 0 {
                    Some(c)
                } else {
                    None
                },
                None => None::<String>,
            },
    {
        if self.next < self.filters.len() {
            self.next = self.next + 1;
        }
        self.found = match output {
            Some(c) => usable_snapshot(c),
            None => None,
        };
    }

    /// The snapshot shown: the bundle found, or a note that there was nothing to bundle.
    pub fn finish(self) -> (r: String)
        ensures
            r@ == match self.found {
                Some(s) => if trimmed(s@).len() > 0 {
                    s@
                } else {
                    "(no existing source files to bundle)"@
                },
                None => "(no existing source files to bundle)"@,
            },
    {
        final_snapshot(self.found)
    }
}

} // verus!
