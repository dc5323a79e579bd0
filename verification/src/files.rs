//! Names of the files that `powermetrics` writes, and how it is called.

use crate::text::{decimal, decimal_string, digit_char, has_prefix};
use std::time::SystemTime;
use vstd::prelude::*;

verus! {

/// The path of the file that belongs to a timecode.
pub open spec fn path_of(timecode: Seq<char>) -> Seq<char> {
    "/tmp/asitop_powermetrics"@ + timecode
}

/// The path of the file that belongs to `timecode`.
pub fn powermetrics_path(timecode: &str) -> (res: String)
    ensures
        res@ == path_of(timecode@),
{
    let mut path = "/tmp/asitop_powermetrics".to_owned();
    path.append(timecode);
    path
}

/// Whether a file of that name in the temporary directory was left behind by
/// a run of the monitor.
pub fn is_powermetrics_file(name: &str) -> (res: bool)
    ensures
        res == "asitop_powermetrics"@.is_prefix_of(name@),
{
    has_prefix(name, "asitop_powermetrics")
}

/// Reads the clock: `SystemTime::elapsed` of the Unix epoch, in whole seconds,
/// or nothing where the clock stands before it.
///
/// Nothing is promised of the result: it is whatever the clock says.
#[verifier::external_body]
fn unix_seconds() -> (res: Option<u64>) {
    match SystemTime::UNIX_EPOCH.elapsed() {
        Ok(elapsed) => Some(elapsed.as_secs()),
        Err(_) => None,
    }
}

/// Whether the clock may have told these seconds when it was read.
pub closed spec fn clock_told(seconds: Option<u64>) -> bool {
    call_ensures(unix_seconds, (), seconds)
}

/// The seconds that a timecode counts: zero for a moment before the epoch.
pub open spec fn counted_seconds(seconds: Option<u64>) -> nat {
    match seconds {
        Some(n) => n as nat,
        None => 0,
    }
}

/// The timecode of a moment: its seconds since the Unix epoch as a numeral,
/// and zero for a moment before it.
pub fn timecode_at(seconds: Option<u64>) -> (res: String)
    ensures
        res@ == decimal(counted_seconds(seconds)),
{
    decimal_string(seconds.unwrap_or(0))
}

/// The timecode of the present moment, as the clock tells it.
///
/// Which moment that is, is up to the clock.
pub fn new_timecode() -> (res: String)
    ensures
        exists|seconds: Option<u64>| #[trigger]
            clock_told(seconds) && res@ == decimal(counted_seconds(seconds)),
{
    let seconds = unix_seconds();
    assert(clock_told(seconds));
    timecode_at(seconds)
}

/// The texts of a list of strings.
pub open spec fn texts(list: Seq<String>) -> Seq<Seq<char>> {
    list.map_values(|s: String| s@)
}

/// The arguments of `sudo` that start a run of `powermetrics`.
pub open spec fn powermetrics_command(timecode: Seq<char>, interval_ms: nat) -> Seq<Seq<char>> {
    seq![
        "nice"@,
        "-n"@,
        "10"@,
        "powermetrics"@,
        "--samplers"@,
        "cpu_power,gpu_power,thermal"@,
        "-o"@,
        path_of(timecode),
        "-f"@,
        "plist"@,
        "-i"@,
        decimal(interval_ms),
    ]
}

/// The arguments of `sudo` that start a run of `powermetrics` which writes to
/// the file of `timecode` once every `interval_ms` milliseconds.
pub fn powermetrics_args(timecode: &str, interval_ms: u64) -> (res: Vec<String>)
    ensures
        texts(res@) == powermetrics_command(timecode@, interval_ms as nat),
{
    let mut args: Vec<String> = Vec::new();
    args.push("nice".to_owned());
    args.push("-n".to_owned());
    args.push("10".to_owned());
    args.push("powermetrics".to_owned());
    args.push("--samplers".to_owned());
    args.push("cpu_power,gpu_power,thermal".to_owned());
    args.push("-o".to_owned());
    args.push(powermetrics_path(timecode));
    args.push("-f".to_owned());
    args.push("plist".to_owned());
    args.push("-i".to_owned());
    args.push(decimal_string(interval_ms));
    assert(texts(args@) =~= powermetrics_command(timecode@, interval_ms as nat));
    args
}

/// Whether every character is a decimal digit.
pub open spec fn all_digits(s: Seq<char>) -> bool {
    forall|i: int| 0 <= i < s.len() ==> '0' <= #[trigger] s[i] <= '9'
}

proof fn lemma_decimal_digits(n: nat)
    ensures
        decimal(n).len() > 0,
        all_digits(decimal(n)),
    decreases n,
{
    if n >= 10 {
        lemma_decimal_digits(n / 10);
    }
}

proof fn lemma_decimal_injective(a: nat, b: nat)
    requires
        decimal(a) == decimal(b),
    ensures
        a == b,
    decreases a,
{
    lemma_decimal_digits(a / 10);
    lemma_decimal_digits(b / 10);
    assert(decimal(a).last() == digit_char(a % 10));
    assert(decimal(b).last() == digit_char(b % 10));
    assert(a % 10 == b % 10);
    assert(a >= 10 ==> decimal(a).len() == decimal(a / 10).len() + 1);
    assert(b >= 10 ==> decimal(b).len() == decimal(b / 10).len() + 1);
    if a >= 10 && b >= 10 {
        assert(decimal(a).drop_last() =~= decimal(a / 10));
        assert(decimal(b).drop_last() =~= decimal(b / 10));
        lemma_decimal_injective(a / 10, b / 10);
    }
}

/// The file of every timecode lies in the temporary directory under a name
/// that the cleanup recognises.
pub proof fn law_cleanup_recognises_every_file(timecode: Seq<char>)
    ensures
        ({
            let name = "asitop_powermetrics"@ + timecode;
            &&& path_of(timecode) == "/tmp/"@ + name
            &&& "asitop_powermetrics"@.is_prefix_of(name)
        }),
{
    reveal_strlit("/tmp/asitop_powermetrics");
    reveal_strlit("/tmp/");
    reveal_strlit("asitop_powermetrics");
    let name = "asitop_powermetrics"@ + timecode;
    assert("/tmp/asitop_powermetrics"@ =~= "/tmp/"@ + "asitop_powermetrics"@);
    assert(path_of(timecode) =~= "/tmp/"@ + name);
    assert(name.subrange(0, "asitop_powermetrics"@.len() as int) =~= "asitop_powermetrics"@);
}

/// A timecode is made of digits alone, so that its file lies directly in the
/// temporary directory.
pub proof fn law_timecode_is_a_numeral(seconds: nat)
    ensures
        decimal(seconds).len() > 0,
        all_digits(decimal(seconds)),
{
    lemma_decimal_digits(seconds);
}

/// Runs that start in different seconds write to different files.
pub proof fn law_runs_do_not_share_a_file(a: nat, b: nat)
    requires
        a != b,
    ensures
        path_of(decimal(a)) != path_of(decimal(b)),
{
    if path_of(decimal(a)) == path_of(decimal(b)) {
        let n = "/tmp/asitop_powermetrics"@.len() as int;
        assert(path_of(decimal(a)).skip(n) =~= decimal(a));
        assert(path_of(decimal(b)).skip(n) =~= decimal(b));
        lemma_decimal_injective(a, b);
    }
}

/// A file is named after its timecode and lies in the temporary directory.
pub proof fn law_path_ends_in_the_timecode(timecode: &str, path: String)
    requires
        call_ensures(powermetrics_path, (timecode,), path),
    ensures
        path@ == "/tmp/asitop_powermetrics"@ + timecode@,
{
}

/// The files that a cleanup recognises are those whose name is the common one
/// followed by anything.
pub proof fn law_cleanup_goes_by_the_beginning(name: &str, recognised: bool)
    requires
        call_ensures(is_powermetrics_file, (name,), recognised),
    ensures
        recognised ==> "asitop_powermetrics"@ + name@.skip("asitop_powermetrics"@.len() as int)
            == name@,
        !recognised ==> forall|rest: Seq<char>| "asitop_powermetrics"@ + rest != name@,
{
    let common = "asitop_powermetrics"@;
    if recognised {
        assert(common + name@.skip(common.len() as int) =~= name@);
    } else {
        assert forall|rest: Seq<char>| common + rest != name@ by {
            if common + rest == name@ {
                assert(name@.subrange(0, common.len() as int) =~= common);
            }
        }
    }
}

/// The timecode of a moment is the numeral of its seconds, and that of a moment
/// before the epoch is the numeral of zero.
pub proof fn law_timecode_is_the_numeral_of_its_seconds(
    seconds: Option<u64>,
    timecode: String,
    n: u64,
    numeral: String,
)
    requires
        call_ensures(timecode_at, (seconds,), timecode),
        call_ensures(decimal_string, (n,), numeral),
        seconds == Some(n) || seconds is None && n == 0,
    ensures
        timecode@ == numeral@,
{
}

/// The command runs `powermetrics` at a low priority, asks it for the power of
/// the processors and the thermal pressure as property lists, sends them to the
/// file of the timecode, and gives the interval as a numeral.
pub proof fn law_command_names_the_file_and_the_interval(
    timecode: &str,
    interval_ms: u64,
    args: Vec<String>,
    path: String,
    numeral: String,
)
    requires
        call_ensures(powermetrics_args, (timecode, interval_ms), args),
        call_ensures(powermetrics_path, (timecode,), path),
        call_ensures(decimal_string, (interval_ms,), numeral),
    ensures
        args@.len() == 12,
        args@[0]@ == "nice"@ && args@[1]@ == "-n"@ && args@[2]@ == "10"@,
        args@[3]@ == "powermetrics"@,
        args@[4]@ == "--samplers"@ && args@[5]@ == "cpu_power,gpu_power,thermal"@,
        args@[6]@ == "-o"@ && args@[7]@ == path@,
        args@[8]@ == "-f"@ && args@[9]@ == "plist"@,
        args@[10]@ == "-i"@ && args@[11]@ == numeral@,
{
    let command = powermetrics_command(timecode@, interval_ms as nat);
    assert(command.len() == 12);
    assert(texts(args@).len() == args@.len());
    assert forall|i: int| 0 <= i < args@.len() implies #[trigger] args@[i]@ == command[i] by {
        assert(texts(args@)[i] == args@[i]@);
    }
}

} // verus!
