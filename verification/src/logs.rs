//! Log files under the install directory and the lines written to them.
use vstd::prelude::*;
use crate::paths::{join_path, path_join};
use crate::text::{chars_of, concat, decimal, decimal_exec, string_from};

verus! {

/// `<install>/config/applog`, where the launcher's own log goes.
pub fn app_log_dir(install_dir: &str) -> (r: String)
    ensures
        r@ == path_join(path_join(install_dir@, "config"@), "applog"@),
{
    let c = join_path(install_dir, "config");
    join_path(c.as_str(), "applog")
}

/// `<install>/config/npmlog`, where the output of npm and dsh goes.
pub fn npm_log_dir(install_dir: &str) -> (r: String)
    ensures
        r@ == path_join(path_join(install_dir@, "config"@), "npmlog"@),
{
    let c = join_path(install_dir, "config");
    join_path(c.as_str(), "npmlog")
}

/// `[<time>] [<level>] <message>` and a line break.
pub open spec fn spec_app_log_line(time: Seq<char>, level: Seq<char>, message: Seq<char>) -> Seq<char> {
    "["@ + time + "] ["@ + level + "] "@ + message + "\n"@
}

fn join3(a: &Vec<char>, b: &Vec<char>, c: &Vec<char>) -> (r: Vec<char>)
    ensures
        r@ == a@ + b@ + c@,
{
    concat(&concat(a, b), c)
}

pub fn app_log_line(time: &str, level: &str, message: &str) -> (r: String)
    ensures
        r@ == spec_app_log_line(time@, level@, message@),
{
    let a = join3(&chars_of("["), &chars_of(time), &chars_of("] ["));
    let b = join3(&a, &chars_of(level), &chars_of("] "));
    let c = join3(&b, &chars_of(message), &chars_of("\n"));
    string_from(&c)
}

/// `[<time>] [<stream>] [port:<port>] <line>`: a line of the service's
/// output as logged and shown.
pub open spec fn spec_service_log_line(time: Seq<char>, stream: Seq<char>, port: u16, line: Seq<char>) -> Seq<char> {
    "["@ + time + "] ["@ + stream + "] [port:"@ + decimal(port as nat) + "] "@ + line
}

pub fn service_log_line(time: &str, stream: &str, port: u16, line: &str) -> (r: String)
    ensures
        r@ == spec_service_log_line(time@, stream@, port, line@),
{
    let a = join3(&chars_of("["), &chars_of(time), &chars_of("] ["));
    let b = join3(&a, &chars_of(stream), &chars_of("] [port:"));
    let c = join3(&b, &decimal_exec(port as u32), &chars_of("] "));
    string_from(&concat(&c, &chars_of(line)))
}

/// `<prefix>-<date>.log`: the file of one day's log.
pub fn dated_log_name(prefix: &str, date: &str) -> (r: String)
    ensures
        r@ == prefix@ + "-"@ + date@ + ".log"@,
{
    string_from(&join3(&concat(&chars_of(prefix), &chars_of("-")), &chars_of(date), &chars_of(".log")))
}

/// The milliseconds in a day.
pub open spec fn day_millis() -> int {
    86_400_000
}

/// A log file last modified at `modified` (milliseconds since the epoch) is
/// removed when that is before the cutoff `days` days before `now`.
pub open spec fn spec_log_expired(modified: int, now: int, days: int) -> bool {
    modified < now - days * day_millis()
}

/// Whether a log file modified at `modified_ms` is older than `days` days at
/// `now_ms` (both in milliseconds since the epoch). A number of days (of
/// either sign) is at most what a duration counted in milliseconds in an
/// `i64` allows.
pub fn log_expired(modified_ms: i64, now_ms: i64, days: i64) -> (r: bool)
    requires
        -106_751_991_167 <= days <= 106_751_991_167,
    ensures
        r == spec_log_expired(modified_ms as int, now_ms as int, days as int),
{
    let span: i128 = (days as i128) * 86_400_000;
    let cutoff: i128 = (now_ms as i128) - span;
    (modified_ms as i128) < cutoff
}

} // verus!
