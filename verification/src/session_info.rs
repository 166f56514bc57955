//! Session-list entries between the daemon's agent and a GUI: the wire
//! carries the last update as RFC 3339 text, the agent side as an instant.

use vstd::prelude::*;

use crate::acp_connect::SessionInfoWire;
use crate::models::opt_view;

verus! {

/// The instant `chrono::DateTime::parse_from_rfc3339` reads from `text`, as
/// whole seconds since the Unix epoch and the nanoseconds past them, or none
/// when `text` is not RFC 3339.
pub uninterp spec fn rfc3339_instant(text: Seq<char>) -> Option<(i64, u32)>;

/// The RFC 3339 text `chrono::DateTime::<Utc>::to_rfc3339` writes for the
/// instant `secs`/`nanos`, or none when chrono has no such instant.
pub uninterp spec fn rfc3339_text(secs: i64, nanos: u32) -> Option<Seq<char>>;

/// `chrono::DateTime::parse_from_rfc3339`, read as an instant
/// (`timestamp`, `timestamp_subsec_nanos`). The contract names the result
/// and claims no more of it.
#[verifier::external_body]
fn parse_rfc3339(text: &str) -> (r: Option<(i64, u32)>)
    ensures
        r == rfc3339_instant(text@),
{
    match chrono::DateTime::parse_from_rfc3339(text) {
        Ok(time) => Some((time.timestamp(), time.timestamp_subsec_nanos())),
        Err(_) => None,
    }
}

/// `chrono::DateTime::<Utc>::from_timestamp`, then `to_rfc3339`. The
/// contract names the result and claims no more of it.
#[verifier::external_body]
fn format_rfc3339(secs: i64, nanos: u32) -> (r: Option<String>)
    ensures
        match r {
            Some(text) => rfc3339_text(secs, nanos) == Some(text@),
            None => rfc3339_text(secs, nanos) is None,
        },
{
    match chrono::DateTime::<chrono::Utc>::from_timestamp(secs, nanos) {
        Some(time) => Some(time.to_rfc3339()),
        None => None,
    }
}

/// A session as the agent lists it.
pub struct AgentSessionInfo {
    pub session_id: String,
    pub title: Option<String>,
    /// The session's working directories, in order; none when it has none.
    pub work_dirs: Option<Vec<String>>,
    /// Seconds since the Unix epoch and nanoseconds past them.
    pub updated_at: Option<(i64, u32)>,
}

pub open spec fn strings_of(v: Seq<String>) -> Seq<Seq<char>> {
    v.map_values(|s: String| s@)
}

fn copy_strings(v: &Vec<String>) -> (c: Vec<String>)
    ensures
        strings_of(c@) == strings_of(v@),
{
    let mut c: Vec<String> = Vec::new();
    let mut i: usize = 0;
    while i < v.len()
        invariant
            i <= v@.len(),
            strings_of(c@) == strings_of(v@.take(i as int)),
        decreases v@.len() - i,
    {
        let ghost before = c@;
        c.push(v[i].clone());
        assert(strings_of(c@) =~= strings_of(before).push(v@[i as int]@));
        assert(strings_of(v@.take(i + 1)) =~= strings_of(v@.take(i as int)).push(v@[i as int]@));
        i += 1;
    }
    assert(v@.take(v@.len() as int) =~= v@);
    c
}

/// The GUI's entry for a listed session: the title as sent, the working
/// directories when there are any, and the update time when it parses as
/// RFC 3339.
pub fn session_info_from_wire(wire: SessionInfoWire) -> (info: AgentSessionInfo)
    ensures
        info.session_id@ == wire.session_id@,
        opt_view(info.title) == opt_view(wire.title),
        wire.work_dirs@.len() == 0 ==> info.work_dirs is None,
        wire.work_dirs@.len() > 0 ==> (info.work_dirs matches Some(dirs) && strings_of(dirs@)
            == strings_of(wire.work_dirs@)),
        info.updated_at == match wire.updated_at {
            Some(text) => rfc3339_instant(text@),
            None => None,
        },
{
    let work_dirs = if wire.work_dirs.len() == 0 {
        None
    } else {
        Some(copy_strings(&wire.work_dirs))
    };
    let updated_at = match &wire.updated_at {
        Some(text) => parse_rfc3339(text.as_str()),
        None => None,
    };
    AgentSessionInfo { session_id: wire.session_id, title: wire.title, work_dirs, updated_at }
}

/// The daemon's wire entry for a session: no working directories becomes
/// an empty list, and the update time is written as RFC 3339.
pub fn session_info_wire(info: AgentSessionInfo) -> (wire: SessionInfoWire)
    ensures
        wire.session_id@ == info.session_id@,
        opt_view(wire.title) == opt_view(info.title),
        match info.work_dirs {
            Some(dirs) => strings_of(wire.work_dirs@) == strings_of(dirs@),
            None => wire.work_dirs@.len() == 0,
        },
        opt_view(wire.updated_at) == match info.updated_at {
            Some((secs, nanos)) => rfc3339_text(secs, nanos),
            None => None,
        },
{
    let work_dirs = match &info.work_dirs {
        Some(dirs) => copy_strings(dirs),
        None => Vec::new(),
    };
    let updated_at = match info.updated_at {
        Some((secs, nanos)) => format_rfc3339(secs, nanos),
        None => None,
    };
    SessionInfoWire { session_id: info.session_id, title: info.title, work_dirs, updated_at }
}

} // verus!
