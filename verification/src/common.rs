//! Shared data model: remote mod metadata and the error taxonomy.

use vstd::prelude::*;

verus! {

/// Failure taxonomy of the whole engine. Each variant keeps a human-readable
/// cause for diagnostics.
#[derive(Debug, Clone)]
pub enum McpmDataError {
    /// Malformed JSON, from the registry or from the lockfile.
    JsonError(String),
    /// Missing file, permission denied, or another file-system failure.
    FileSystemError(String),
    /// Transport or HTTP failure.
    NetworkError(String),
}

impl McpmDataError {
    /// The cause message carried by any variant.
    pub fn cause(&self) -> (m: &String)
        ensures
            m@ == self.cause_spec(),
    {
        match self {
            McpmDataError::JsonError(m) => m,
            McpmDataError::FileSystemError(m) => m,
            McpmDataError::NetworkError(m) => m,
        }
    }

    pub open spec fn cause_spec(&self) -> Seq<char> {
        match self {
            McpmDataError::JsonError(m) => m@,
            McpmDataError::FileSystemError(m) => m@,
            McpmDataError::NetworkError(m) => m@,
        }
    }
}

/// Remote mod metadata, fetched fresh on each resolution.
#[derive(Clone)]
pub struct Mod {
    pub slug: String,
    pub title: String,
    pub description: String,
    pub project_type: String,
    /// Identifiers of the published versions, oldest first.
    pub versions: Vec<String>,
}

/// One published version of a mod, as the registry reports it.
#[derive(Clone)]
pub struct ModVersion {
    pub id: String,
    pub game_versions: Vec<String>,
    pub loaders: Vec<String>,
    pub files: Vec<ModFile>,
    pub dependencies: Vec<Dependency>,
    pub date_published: String,
}

/// A dependency record attached to a version; carried through, never resolved.
#[derive(Clone)]
pub struct Dependency {
    pub version_id: Option<String>,
    pub project_id: Option<String>,
    pub dependency_type: String,
}

/// One downloadable artifact of a version.
#[derive(Clone)]
pub struct ModFile {
    pub url: String,
    pub filename: String,
    pub size: u32,
    pub primary: bool,
}

/// Mathematical content of a `ModFile`.
pub struct ModFileView {
    pub url: Seq<char>,
    pub filename: Seq<char>,
    pub size: u32,
    pub primary: bool,
}

impl View for ModFile {
    type V = ModFileView;

    open spec fn view(&self) -> ModFileView {
        ModFileView {
            url: self.url@,
            filename: self.filename@,
            size: self.size,
            primary: self.primary,
        }
    }
}

/// Mathematical content of a `ModVersion`: every string replaced by its
/// character sequence.
pub struct ModVersionView {
    pub id: Seq<char>,
    pub game_versions: Seq<Seq<char>>,
    pub loaders: Seq<Seq<char>>,
    pub files: Seq<ModFileView>,
    pub date_published: Seq<char>,
}

impl View for ModVersion {
    type V = ModVersionView;

    open spec fn view(&self) -> ModVersionView {
        ModVersionView {
            id: self.id@,
            game_versions: self.game_versions.deep_view(),
            loaders: self.loaders.deep_view(),
            files: self.files@.map_values(|f: ModFile| f@),
            date_published: self.date_published@,
        }
    }
}

/// Mathematical content of a `Mod`.
pub struct ModView {
    pub slug: Seq<char>,
    pub title: Seq<char>,
    pub description: Seq<char>,
    pub project_type: Seq<char>,
    pub versions: Seq<Seq<char>>,
}

impl View for Mod {
    type V = ModView;

    open spec fn view(&self) -> ModView {
        ModView {
            slug: self.slug@,
            title: self.title@,
            description: self.description@,
            project_type: self.project_type@,
            versions: self.versions.deep_view(),
        }
    }
}

/// True when some string in `v` has exactly the characters `s`.
pub open spec fn contains_string(v: Seq<Seq<char>>, s: Seq<char>) -> bool {
    exists|i: int| 0 <= i < v.len() && v[i] == s
}

/// Whether `v` holds a string equal to `s`, by characters.
pub fn vec_contains_string(v: &Vec<String>, s: &String) -> (b: bool)
    ensures
        b == contains_string(v.deep_view(), s@),
{
    let mut i: usize = 0;
    while i < v.len()
        invariant
            0 <= i <= v.len(),
            forall|j: int| 0 <= j < i ==> v.deep_view()[j] != s@,
        decreases v.len() - i,
    {
        assert(v.deep_view()[i as int] == v@[i as int]@);
        if v[i].eq(s) {
            return true;
        }
        i = i + 1;
    }
    false
}

} // verus!
