//! Health of the data sources: whether each source's location could be
//! determined and is on disk. Computed on demand, never stored.

use vstd::prelude::*;
use vstd::string::*;
use crate::json::opt_view;
use crate::model::{HealthStatus, Source, SourceHealth};
use crate::text::{decimal_text, i64_of_text, to_owned_text};

verus! {

/// The message where a source's location is on disk (the project-journal
/// source reports its number of projects separately).
pub open spec fn found_message(s: Source) -> Seq<char> {
    match s {
        Source::Journal => "Found projects"@,
        Source::Codex => "Codex home found"@,
        Source::OpenCode => "OpenCode data found"@,
        Source::Crush => "Global Crush database found"@,
    }
}

/// The message where a source's location is not on disk.
pub open spec fn missing_message(s: Source) -> Seq<char> {
    match s {
        Source::Journal => "Projects directory not found"@,
        Source::Codex => "Codex home not found"@,
        Source::OpenCode => "OpenCode data not found"@,
        Source::Crush => "Global Crush database not found"@,
    }
}

/// The message where a source's location cannot be determined.
pub open spec fn undetermined_message(s: Source) -> Seq<char> {
    match s {
        Source::Codex => "Could not determine Codex home"@,
        Source::OpenCode => "Could not determine local data directory"@,
        _ => "Could not determine home directory"@,
    }
}

/// The health of a source from its location, whether that is on disk, and,
/// for the project-journal source, how many projects it holds: healthy
/// exactly where the location is known and on disk.
pub fn source_health(source: Source, location: Option<String>, exists: bool, projects: usize) -> (r: SourceHealth)
    ensures
        r.source == source,
        r.status == (if location is Some && exists { HealthStatus::Healthy } else { HealthStatus::Unknown }),
        opt_view(r.path) == opt_view(location),
        r.message is Some,
        location is Some && exists && source != Source::Journal ==> opt_view(r.message) == Some(found_message(source)),
        location is Some && exists && source == Source::Journal && projects <= i64::MAX ==> (exists|n: Seq<char>|
            i64_of_text(n) == Some(projects as i64) && opt_view(r.message) == Some("Found "@ + n + " projects"@)),
        location is Some && !exists ==> opt_view(r.message) == Some(missing_message(source)),
        location is None ==> opt_view(r.message) == Some(undetermined_message(source)),
{
    let known = location.is_some();
    let ghost mut digits: Seq<char> = Seq::empty();
    let message = if known && exists {
        match source {
            Source::Journal => {
                let n = if (projects as u64) <= (i64::MAX as u64) { projects as i64 } else { i64::MAX };
                let count = decimal_text(n);
                let m = to_owned_text("Found ").concat(count.as_str()).concat(" projects");
                proof {
                    digits = count@;
                }
                m
            },
            Source::Codex => to_owned_text("Codex home found"),
            Source::OpenCode => to_owned_text("OpenCode data found"),
            Source::Crush => to_owned_text("Global Crush database found"),
        }
    } else if known {
        match source {
            Source::Journal => to_owned_text("Projects directory not found"),
            Source::Codex => to_owned_text("Codex home not found"),
            Source::OpenCode => to_owned_text("OpenCode data not found"),
            Source::Crush => to_owned_text("Global Crush database not found"),
        }
    } else {
        match source {
            Source::Codex => to_owned_text("Could not determine Codex home"),
            Source::OpenCode => to_owned_text("Could not determine local data directory"),
            _ => to_owned_text("Could not determine home directory"),
        }
    };
    proof {
        if known && exists && source == Source::Journal && projects <= i64::MAX {
            assert(i64_of_text(digits) == Some(projects as i64) && opt_view(Some(message)) == Some(
                "Found "@ + digits + " projects"@,
            ));
        }
    }
    SourceHealth {
        source,
        status: if known && exists { HealthStatus::Healthy } else { HealthStatus::Unknown },
        path: location,
        message: Some(message),
    }
}

} // verus!
