//! Build cache: is a previously produced artifact still valid for its source?

use vstd::prelude::*;

verus! {

/// What the filesystem says about one path.
#[derive(Clone, Copy, Debug, PartialEq, Eq)]
pub enum FileStat {
    /// Nothing exists at the path.
    Missing,
    /// Something is there, but its modification time could not be read.
    Unreadable,
    /// The modification time, in nanoseconds since the Unix epoch.
    Modified(i128),
}

impl FileStat {
    /// The modification time, where one could be read.
    pub open spec fn modified(self) -> Option<int> {
        match self {
            FileStat::Modified(at) => Some(at as int),
            _ => None,
        }
    }
}

/// An artifact is fresh when both modification times are known and the
/// artifact's is at least the source's.
pub open spec fn fresh(source: FileStat, output: FileStat) -> bool {
    match (source.modified(), output.modified()) {
        (Some(s), Some(o)) => s <= o,
        _ => false,
    }
}

/// Decides whether `output` may be reused for `source`.
///
/// A missing artifact and a timestamp that cannot be read both force a
/// rebuild.
pub fn is_output_up_to_date(source: &FileStat, output: &FileStat) -> (up_to_date: bool)
    ensures
        up_to_date == fresh(*source, *output),
        output is Missing ==> !up_to_date,
        source.modified() is None || output.modified() is None ==> !up_to_date,
        source.modified() is Some && output.modified() is Some ==> (up_to_date
            <==> output.modified().unwrap() >= source.modified().unwrap()),
{
    match output {
        FileStat::Modified(artifact_time) => match source {
            FileStat::Modified(source_time) => *source_time <= *artifact_time,
            _ => false,
        },
        _ => false,
    }
}

} // verus!
