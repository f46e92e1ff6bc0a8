//! Where the file that persists failing cases lies.
//!
//! The file system is not looked at here. Whoever asks describes the source
//! file of the test by the directories above it, nearest first, and says of
//! each whether it holds a project-root marker; the answer names the
//! directory against which the configured file name is to be resolved.

use vstd::prelude::*;
use vstd::string::*;
use crate::config::FailurePersistence;

verus! {

/// A directory above the source file of a test.
#[derive(Clone, Debug, PartialEq, Eq)]
pub struct SourceDir {
    /// The path of the directory.
    pub path: String,
    /// Whether the directory holds a project-root marker.
    pub is_root: bool,
}

/// Where the source file of a test lies.
#[derive(Clone, Debug, PartialEq, Eq)]
pub struct SourceLocation {
    /// The path of the source file.
    pub file: String,
    /// The directories above the file, from its parent upwards.
    pub above: Vec<SourceDir>,
}

/// Where the file that persists failing cases lies.
#[derive(Clone, Debug, PartialEq, Eq)]
pub struct PersistLocation {
    /// The directory against which `fragment` is resolved; `None` where
    /// `fragment` alone is the path.
    pub base: Option<String>,
    /// The configured file name.
    pub fragment: &'static str,
}

/// What was missing for the configured way of finding the file.
#[derive(Clone, Copy, Debug, PartialEq, Eq)]
pub enum ResolveNote {
    /// No source file is known, so the file name is used as it stands.
    NoSourceFile,
    /// No directory above the source file holds a project-root marker, so
    /// the file lies beside the source file.
    NoProjectRoot,
}

/// The answer of `FailurePersistence::resolve`.
#[derive(Clone, Debug, PartialEq, Eq)]
pub struct Resolved {
    /// Where the file lies; `None` where nothing is persisted.
    pub location: Option<PersistLocation>,
    /// What was missing, if anything.
    pub note: Option<ResolveNote>,
}

/// The index of the nearest directory that holds a project-root marker, or
/// the number of directories where none does.
pub open spec fn nearest_root(above: Seq<SourceDir>) -> int
    decreases above.len(),
{
    if above.len() == 0 || above[0].is_root {
        0
    } else {
        1 + nearest_root(above.skip(1))
    }
}

/// `nearest_root` is the first directory that holds a marker.
pub proof fn lemma_nearest_root(above: Seq<SourceDir>, i: int)
    requires
        0 <= i <= above.len(),
        forall|k: int| 0 <= k < i ==> !above[k].is_root,
        i < above.len() ==> above[i].is_root,
    ensures
        nearest_root(above) == i,
    decreases above.len(),
{
    if above.len() > 0 && !above[0].is_root {
        assert forall|k: int| 0 <= k < i - 1 implies !above.skip(1)[k].is_root by {
            assert(above.skip(1)[k] == above[k + 1]);
        }
        lemma_nearest_root(above.skip(1), i - 1);
    }
}

/// The directory beside the source file: its parent, or the file itself
/// where it has none.
pub open spec fn beside(source: SourceLocation) -> Seq<char> {
    if source.above@.len() > 0 {
        source.above@[0].path@
    } else {
        source.file@
    }
}

impl FailurePersistence {
    /// The configured file name, if any.
    pub open spec fn fragment(self) -> Option<&'static str> {
        match self {
            FailurePersistence::Off => None,
            FailurePersistence::WithMain(path) => Some(path),
            FailurePersistence::WithSource(path) => Some(path),
            FailurePersistence::Direct(path) => Some(path),
        }
    }

    /// The directory against which the file name is resolved for a test
    /// whose source lies at `source`; `None` where the file name alone is
    /// the path.
    pub open spec fn base(self, source: Option<&SourceLocation>) -> Option<Seq<char>> {
        match (self, source) {
            (FailurePersistence::WithSource(_), Some(source)) => Some(beside(*source)),
            (FailurePersistence::WithMain(_), Some(source)) => {
                let i = nearest_root(source.above@);
                if 0 <= i < source.above@.len() {
                    Some(source.above@[i].path@)
                } else {
                    Some(beside(*source))
                }
            },
            _ => None,
        }
    }

    /// What is missing for the configured way of finding the file.
    pub open spec fn missing(self, source: Option<&SourceLocation>) -> Option<ResolveNote> {
        match (self, source) {
            (FailurePersistence::WithSource(_), None) => Some(ResolveNote::NoSourceFile),
            (FailurePersistence::WithMain(_), None) => Some(ResolveNote::NoSourceFile),
            (FailurePersistence::WithMain(_), Some(source)) => if nearest_root(source.above@)
                >= source.above@.len() {
                Some(ResolveNote::NoProjectRoot)
            } else {
                None
            },
            _ => None,
        }
    }

    /// Given where the source file of the test lies, determine the location
    /// of the file that persists failing cases, if any.
    ///
    /// `Off` gives no location. `Direct` gives the file name as it stands.
    /// `WithSource` resolves it against the directory beside the source
    /// file. `WithMain` resolves it against the nearest directory above the
    /// source file that holds a project-root marker, and behaves like
    /// `WithSource` where there is none. Without a source file both behave
    /// like `Direct`. Whenever one of them falls back, the note says so.
    pub fn resolve(&self, source: Option<&SourceLocation>) -> (r: Resolved)
        ensures
            r.location is Some == self.fragment() is Some,
            r.location is Some ==> {
                &&& Some(r.location->Some_0.fragment) == self.fragment()
                &&& r.location->Some_0.base is Some == self.base(source) is Some
                &&& r.location->Some_0.base is Some ==> r.location->Some_0.base->Some_0@
                    == self.base(source)->Some_0
            },
            r.note == self.missing(source),
    {
        match *self {
            FailurePersistence::Off => Resolved { location: None, note: None },
            FailurePersistence::WithMain(path) => match source {
                Some(place) => {
                    let mut i: usize = 0;
                    while i < place.above.len() && !place.above[i].is_root
                        invariant
                            i <= place.above.len(),
                            forall|k: int| 0 <= k < i ==> !place.above@[k].is_root,
                        decreases place.above.len() - i,
                    {
                        i += 1;
                    }
                    proof {
                        lemma_nearest_root(place.above@, i as int);
                    }
                    if i < place.above.len() {
                        Resolved {
                            location: Some(
                                PersistLocation {
                                    base: Some(place.above[i].path.clone()),
                                    fragment: path,
                                },
                            ),
                            note: None,
                        }
                    } else {
                        Resolved {
                            location: Some(
                                PersistLocation { base: Some(dir_beside(place)), fragment: path },
                            ),
                            note: Some(ResolveNote::NoProjectRoot),
                        }
                    }
                },
                None => Resolved {
                    location: Some(PersistLocation { base: None, fragment: path }),
                    note: Some(ResolveNote::NoSourceFile),
                },
            },
            FailurePersistence::WithSource(path) => match source {
                Some(place) => Resolved {
                    location: Some(
                        PersistLocation { base: Some(dir_beside(place)), fragment: path },
                    ),
                    note: None,
                },
                None => Resolved {
                    location: Some(PersistLocation { base: None, fragment: path }),
                    note: Some(ResolveNote::NoSourceFile),
                },
            },
            FailurePersistence::Direct(path) => Resolved {
                location: Some(PersistLocation { base: None, fragment: path }),
                note: None,
            },
        }
    }
}

/// The directory beside the source file.
fn dir_beside(source: &SourceLocation) -> (dir: String)
    ensures
        dir@ == beside(*source),
{
    if source.above.len() > 0 {
        source.above[0].path.clone()
    } else {
        source.file.clone()
    }
}

} // verus!
