use vstd::prelude::*;

verus! {

/// Path of the compressed copy kept of the previous session's log, named after
/// the time the new session starts: `logs/<timestamp>.log.gz`.
pub fn archive_log_path(timestamp: &str) -> (path: String)
    ensures
        path@ == "logs/"@ + timestamp@ + ".log.gz"@,
{
    let mut path = String::from_str("logs/");
    path.append(timestamp);
    path.append(".log.gz");
    path
}

} // verus!
