//! Directory context: the project kind detected from marker files at the
//! top level of the working directory.

use vstd::prelude::*;
use crate::text;

verus! {

/// Project kind detected from a marker file.
#[derive(Debug, Clone, Copy, PartialEq, Eq)]
pub enum ProjectType {
    /// A Rust project (Cargo.toml).
    Rust,
    /// A Node.js project (package.json).
    Node,
    /// A Python project (pyproject.toml or requirements.txt).
    Python,
    /// A Go project (go.mod).
    Go,
    /// A CMake project (CMakeLists.txt).
    CMake,
    /// A git repository (.git).
    Git,
    /// No known project kind.
    Unknown,
}

impl ProjectType {
    /// The human-readable name of the project kind.
    pub fn as_str(&self) -> (r: &'static str)
        ensures
            r@ == spec_project_type_name(*self),
    {
        match self {
            ProjectType::Rust => "Rust",
            ProjectType::Node => "Node.js",
            ProjectType::Python => "Python",
            ProjectType::Go => "Go",
            ProjectType::CMake => "CMake",
            ProjectType::Git => "Git",
            ProjectType::Unknown => "Unknown",
        }
    }
}

/// The name shown for each project kind.
pub open spec fn spec_project_type_name(p: ProjectType) -> Seq<char> {
    match p {
        ProjectType::Rust => "Rust"@,
        ProjectType::Node => "Node.js"@,
        ProjectType::Python => "Python"@,
        ProjectType::Go => "Go"@,
        ProjectType::CMake => "CMake"@,
        ProjectType::Git => "Git"@,
        ProjectType::Unknown => "Unknown"@,
    }
}

/// The marker files that identify a project kind, in priority order: the
/// first marker present decides the kind.
pub open spec fn spec_markers() -> Seq<(Seq<char>, ProjectType)> {
    seq![
        ("Cargo.toml"@, ProjectType::Rust),
        ("package.json"@, ProjectType::Node),
        ("go.mod"@, ProjectType::Go),
        ("pyproject.toml"@, ProjectType::Python),
        ("requirements.txt"@, ProjectType::Python),
        ("CMakeLists.txt"@, ProjectType::CMake),
        (".git"@, ProjectType::Git),
    ]
}

/// The markers of `spec_markers` present among `filenames`, in priority
/// order, up to marker `n`.
pub open spec fn spec_present_markers(filenames: Seq<Seq<char>>, n: int) -> Seq<(
    Seq<char>,
    ProjectType,
)>
    decreases n,
{
    if n <= 0 {
        Seq::empty()
    } else {
        let rest = spec_present_markers(filenames, n - 1);
        if filenames.contains(spec_markers()[n - 1].0) {
            rest.push(spec_markers()[n - 1])
        } else {
            rest
        }
    }
}

/// Context of the working directory.
#[derive(Debug, Clone)]
pub struct DirectoryContext {
    /// The project kind of the first marker found, if any.
    pub project_type: Option<ProjectType>,
    /// Every marker file found, in priority order.
    pub marker_files: Vec<String>,
    /// The working directory that was scanned.
    pub cwd: String,
}

impl DirectoryContext {
    /// Well-formed: the markers recorded are exactly those present, and the
    /// project kind belongs to the first of them.
    pub open spec fn matches(&self, filenames: Seq<Seq<char>>) -> bool {
        let present = spec_present_markers(filenames, spec_markers().len() as int);
        &&& self.marker_files.deep_view() == present.map_values(
            |m: (Seq<char>, ProjectType)| m.0,
        )
        &&& self.project_type == (if present.len() == 0 {
            None::<ProjectType>
        } else {
            Some(present[0].1)
        })
    }

    /// The context block of the prompt: project kind, marker files and
    /// working directory, one line each.
    pub fn format_for_prompt(&self) -> (r: String)
        ensures
            r@ == spec_context_block(*self),
    {
        let mut out = String::new();
        out.append("Project type: ");
        match &self.project_type {
            Some(p) => out.append(p.as_str()),
            None => out.append("None"),
        }
        out.append("\nMarker files: ");
        let joined = text::join_words(&self.marker_files);
        out.append(joined.as_str());
        out.append("\nWorking directory: ");
        out.append(self.cwd.as_str());
        out
    }
}

/// The exact text of the context block.
pub open spec fn spec_context_block(c: DirectoryContext) -> Seq<char> {
    "Project type: "@ + (match c.project_type {
        Some(p) => spec_project_type_name(p),
        None => "None"@,
    }) + "\nMarker files: "@ + text::spec_join_words(c.marker_files.deep_view())
        + "\nWorking directory: "@ + c.cwd@
}

/// Detects the project context from the file names at the top level of the
/// working directory: every known marker present is recorded in priority
/// order, and the first one decides the project kind.
pub fn scan_directory_context(filenames: &Vec<String>, cwd: String) -> (r: DirectoryContext)
    ensures
        r.matches(filenames.deep_view()),
        r.cwd == cwd,
{
    let ghost views = filenames.deep_view();
    let mut marker_files: Vec<String> = Vec::new();
    let mut project_type: Option<ProjectType> = None;

    let markers: [(&str, ProjectType); 7] = [
        ("Cargo.toml", ProjectType::Rust),
        ("package.json", ProjectType::Node),
        ("go.mod", ProjectType::Go),
        ("pyproject.toml", ProjectType::Python),
        ("requirements.txt", ProjectType::Python),
        ("CMakeLists.txt", ProjectType::CMake),
        (".git", ProjectType::Git),
    ];
    proof {
        assert(spec_present_markers(views, 0) =~= Seq::<(Seq<char>, ProjectType)>::empty());
    }
    for n in 0..7usize
        invariant
            views == filenames.deep_view(),
            markers@.len() == 7,
            forall|k: int|
                0 <= k < 7 ==> (#[trigger] markers@[k]).0@ == spec_markers()[k].0
                    && markers@[k].1 == spec_markers()[k].1,
            marker_files.deep_view() == spec_present_markers(views, n as int).map_values(
                |m: (Seq<char>, ProjectType)| m.0,
            ),
            project_type == (if spec_present_markers(views, n as int).len() == 0 {
                None::<ProjectType>
            } else {
                Some(spec_present_markers(views, n as int)[0].1)
            }),
    {
        let ghost prev = spec_present_markers(views, n as int);
        let ghost mprev = marker_files.deep_view();
        if text::vec_contains_str(filenames, markers[n].0) {
            proof {
                lemma_to_set_contains(views, markers@[n as int].0@);
            }
            marker_files.push(markers[n].0.to_owned());
            proof {
                assert(marker_files.deep_view() =~= mprev.push(markers@[n as int].0@));
            }
            if project_type.is_none() {
                project_type = Some(markers[n].1);
            }
            proof {
                assert(spec_present_markers(views, n + 1) == prev.push(spec_markers()[n as int]));
                assert(marker_files.deep_view() =~= spec_present_markers(views, n + 1).map_values(
                    |m: (Seq<char>, ProjectType)| m.0,
                ));
                if prev.len() > 0 {
                    assert(spec_present_markers(views, n + 1)[0] == prev[0]);
                }
            }
        } else {
            proof {
                lemma_to_set_contains(views, markers@[n as int].0@);
                assert(spec_present_markers(views, n + 1) == prev);
            }
        }
    }
    proof {
        assert(markers@.len() == 7);
    }
    DirectoryContext { project_type, marker_files, cwd }
}

/// Membership in a sequence's set is membership in the sequence.
proof fn lemma_to_set_contains(s: Seq<Seq<char>>, x: Seq<char>)
    ensures
        s.to_set().contains(x) == s.contains(x),
{
}

} // verus!
