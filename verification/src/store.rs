//! Reports and logs: how they are named, and how long they are kept.

use crate::text;
use vstd::prelude::*;

verus! {

/// The key of a report.
pub open spec fn report_name(ts: int) -> Seq<char> {
    "report:"@ + text::decimal_int(ts)
}

/// The file of a report.
pub open spec fn report_file_name(ts: int) -> Seq<char> {
    "report-"@ + text::decimal_int(ts) + ".txt"@
}

/// Under which key, and in which file, a report is kept.
pub fn write_report(ts: i64) -> (r: (String, String))
    ensures
        r.0@ == report_name(ts as int),
        r.1@ == report_file_name(ts as int),
{
    let number = text::format_int(ts);
    let mut file = text::copy("report-");
    file.append(number.as_str());
    file.append(".txt");
    (text::join_two("report:", number.as_str()), file)
}

/// The time of which a name speaks between a beginning and an end.
pub open spec fn time_in(name: Seq<char>, head: Seq<char>, tail: Seq<char>) -> Option<int> {
    if text::begins(name, head) && text::ends(name.skip(head.len() as int), tail) {
        text::parsed_int(
            name.subrange(head.len() as int, name.len() - tail.len()),
            i64::MIN as int,
            i64::MAX as int,
        )
    } else {
        None
    }
}

fn time_of(name: &str, head: &str, tail: &str) -> (r: Option<i64>)
    ensures
        match r {
            Some(t) => time_in(name@, head@, tail@) == Some(t as int),
            None => time_in(name@, head@, tail@) is None,
        },
{
    if !text::starts_with(name, head) {
        return None;
    }
    let from: usize = text::length(head);
    let len: usize = text::length(name);
    let rest = text::slice(name, from, len);
    assert(rest@ =~= name@.skip(head@.len() as int));
    if !text::ends_with(rest.as_str(), tail) {
        return None;
    }
    let end: usize = text::length(rest.as_str()) - text::length(tail);
    let number = text::slice(rest.as_str(), 0, end);
    assert(number@ =~= name@.subrange(head@.len() as int, name@.len() - tail@.len()));
    text::parse_int(number.as_str(), i64::MIN, i64::MAX)
}

/// The time before which reports are removed.
pub open spec fn cutoff(now: int, retention_days: int) -> int {
    now - retention_days * 86_400
}

/// A report whose time has come: its name speaks of a time before the cutoff.
pub open spec fn stale(name: Seq<char>, now: int, retention_days: int) -> bool {
    retention_days > 0 && (time_in(name, "report:"@, ""@) matches Some(t) && t < cutoff(
        now,
        retention_days,
    ))
}

pub open spec fn stale_file(name: Seq<char>, now: int, retention_days: int) -> bool {
    retention_days > 0 && (time_in(name, "report-"@, ".txt"@) matches Some(t) && t < cutoff(
        now,
        retention_days,
    ))
}

/// Whether a report is removed, given its key. With a retention of nought days all are kept.
pub fn prunes_key(key: &str, now: i64, retention_days: i32) -> (r: bool)
    ensures
        r == stale(key@, now as int, retention_days as int),
{
    if retention_days <= 0 {
        return false;
    }
    let limit: i128 = (now as i128) - (retention_days as i128) * 86_400;
    match time_of(key, "report:", "") {
        Some(t) => (t as i128) < limit,
        None => false,
    }
}

/// Whether a file with a report is removed, given its name.
pub fn prunes_file(name: &str, now: i64, retention_days: i32) -> (r: bool)
    ensures
        r == stale_file(name@, now as int, retention_days as int),
{
    if retention_days <= 0 {
        return false;
    }
    let limit: i128 = (now as i128) - (retention_days as i128) * 86_400;
    match time_of(name, "report-", ".txt") {
        Some(t) => (t as i128) < limit,
        None => false,
    }
}

/// A line of the log.
pub fn append_log(ts: i64, level: &str, msg: &str) -> (r: String)
    ensures
        r@ == "["@ + text::decimal_int(ts as int) + "] ["@ + level@ + "] "@ + msg@ + "\n"@,
{
    let mut line = text::copy("[");
    line.append(text::format_int(ts).as_str());
    line.append("] [");
    line.append(level);
    line.append("] ");
    line.append(msg);
    line.append("\n");
    line
}

// ---------------------------------------------------------------------------
// Laws

/// A report is removed once it is older than its retention, and not before.
pub proof fn reports_last_as_long_as_they_should(ts: int, now: int, retention_days: int)
    requires
        i64::MIN <= ts <= i64::MAX,
        retention_days > 0,
    ensures
        stale(report_name(ts), now, retention_days) <==> now - ts > retention_days * 86_400,
        stale_file(report_file_name(ts), now, retention_days) <==> now - ts > retention_days
            * 86_400,
{
    let n = text::decimal_int(ts);
    text::decimal_int_reads_back(ts, i64::MIN as int, i64::MAX as int);
    reveal_strlit("report:");
    reveal_strlit("report-");
    reveal_strlit(".txt");
    reveal_strlit("");
    let key = report_name(ts);
    assert(key.skip(7) =~= n);
    assert(key.subrange(7, key.len() as int) =~= n);
    assert(key.subrange(0, 7) =~= "report:"@);
    assert(n.subrange(n.len() as int, n.len() as int) =~= ""@);
    assert(time_in(key, "report:"@, ""@) == Some(ts));
    let file = report_file_name(ts);
    assert(file.skip(7) =~= n + ".txt"@);
    assert(file.subrange(0, 7) =~= "report-"@);
    let rest = file.skip(7);
    assert(rest.subrange(rest.len() - 4, rest.len() as int) =~= ".txt"@);
    assert(file.subrange(7, file.len() - 4) =~= n);
    assert(time_in(file, "report-"@, ".txt"@) == Some(ts));
}

/// The latest report is never removed.
pub proof fn the_latest_report_stays(now: int, retention_days: int)
    ensures
        !stale("report:latest"@, now, retention_days),
{
    reveal_strlit("report:latest");
    reveal_strlit("report:");
    reveal_strlit("");
    let rest = "report:latest"@.subrange(7, 13);
    assert(rest[0] == 'l');
    assert(text::parsed_int(rest, i64::MIN as int, i64::MAX as int) is None);
}

} // verus!
