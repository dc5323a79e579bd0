//! Command line options and what follows from them.

use vstd::prelude::*;

verus! {

/// Command line options controlling sampling and layout.
#[derive(Debug, Clone, Copy, PartialEq, Eq, Structural)]
pub struct Cli {
    /// Display interval in seconds. This is also passed to powermetrics.
    pub interval: u64,
    /// UI color (0-8) to match the classic palette.
    pub color: u8,
    /// Interval (in seconds) used for computing rolling averages.
    pub avg: u64,
    /// When true, render per-core information instead of compact gauges.
    pub show_cores: bool,
    /// Restart powermetrics after this many samples (0 = never restart).
    pub max_count: u64,
}

/// The larger of two numbers.
pub open spec fn larger(a: nat, b: nat) -> nat {
    if a >= b {
        a
    } else {
        b
    }
}

impl Cli {
    /// The interval in seconds, at least one.
    pub fn interval_seconds(&self) -> (res: u64)
        ensures
            res == larger(self.interval as nat, 1),
    {
        if self.interval > 1 {
            self.interval
        } else {
            1
        }
    }

    /// The number of samples that a rolling average spans: as many intervals
    /// as fit the averaging time, at least one.
    pub open spec fn window_spec(&self) -> usize {
        let intervals = (self.avg as nat / larger(self.interval as nat, 1)) as usize;
        if intervals > 1 {
            intervals
        } else {
            1
        }
    }

    /// The number of samples that a rolling average spans.
    pub fn avg_window(&self) -> (res: usize)
        ensures
            res == self.window_spec(),
            res >= 1,
    {
        let intervals: usize = (self.avg / self.interval_seconds()) as usize;
        if intervals > 1 {
            intervals
        } else {
            1
        }
    }

    /// The sampling interval in milliseconds.
    pub fn interval_millis(&self) -> (res: u64)
        requires
            self.interval * 1000 <= u64::MAX,
        ensures
            res == self.interval * 1000,
    {
        self.interval * 1000
    }
}

/// The colors of the classic palette.
#[derive(Debug, Clone, Copy, PartialEq, Eq, Structural)]
pub enum Color {
    Reset,
    Red,
    Green,
    Yellow,
    Blue,
    Magenta,
    Cyan,
    White,
    LightMagenta,
}

/// The palette in the order of its numbers.
pub open spec fn palette() -> Seq<Color> {
    seq![
        Color::Reset,
        Color::Red,
        Color::Green,
        Color::Yellow,
        Color::Blue,
        Color::Magenta,
        Color::Cyan,
        Color::White,
        Color::LightMagenta,
    ]
}

/// The palette's color of that number; green for a number outside the palette.
pub fn color_from_arg(arg: u8) -> (res: Color)
    ensures
        res == (if arg < palette().len() {
            palette()[arg as int]
        } else {
            Color::Green
        }),
{
    match arg {
        0 => Color::Reset,
        1 => Color::Red,
        2 => Color::Green,
        3 => Color::Yellow,
        4 => Color::Blue,
        5 => Color::Magenta,
        6 => Color::Cyan,
        7 => Color::White,
        8 => Color::LightMagenta,
        _ => Color::Green,
    }
}

/// A rolling average spans at least one sample, and no more time than was
/// asked for unless one sample alone takes longer.
pub proof fn law_window_covers_no_more_than_asked(cli: Cli)
    requires
        cli.avg as nat / larger(cli.interval as nat, 1) <= usize::MAX,
    ensures
        cli.window_spec() >= 1,
        cli.window_spec() == 1 || cli.window_spec() * larger(cli.interval as nat, 1) <= cli.avg,
{
    let step = larger(cli.interval as nat, 1);
    assert((cli.avg as nat / step) * step <= cli.avg) by (nonlinear_arith)
        requires
            step >= 1,
    ;
}

/// The interval is what was asked for, and at least a second.
pub proof fn law_interval_is_at_least_a_second(cli: &Cli, seconds: u64)
    requires
        call_ensures(Cli::interval_seconds, (cli,), seconds),
    ensures
        cli.interval >= 1 ==> seconds == cli.interval,
        cli.interval == 0 ==> seconds == 1,
{
}

/// A second has a thousand milliseconds.
pub proof fn law_millis_are_thousandths(cli: &Cli, millis: u64)
    requires
        call_ensures(Cli::interval_millis, (cli,), millis),
    ensures
        millis == cli.interval * 1000,
{
}

/// The averaging window is as many intervals as fit the averaging time: no more
/// fit, and one more would not; where not even one fits, it is one.
pub proof fn law_window_is_as_long_as_fits(cli: &Cli, seconds: u64, window: usize)
    requires
        call_ensures(Cli::interval_seconds, (cli,), seconds),
        call_ensures(Cli::avg_window, (cli,), window),
        cli.avg / seconds <= usize::MAX,
    ensures
        cli.avg >= seconds ==> window * seconds <= cli.avg < (window + 1) * seconds,
        cli.avg < seconds ==> window == 1,
{
    let step = seconds as nat;
    let quotient = cli.avg as nat / step;
    let avg = cli.avg as nat;
    assert((avg / step) * step <= avg < (avg / step + 1) * step) by (nonlinear_arith)
        requires
            step >= 1,
    ;
    assert(avg >= step ==> avg / step >= 1) by (nonlinear_arith)
        requires
            step >= 1,
    ;
    assert(avg < step ==> avg / step == 0) by (nonlinear_arith)
        requires
            step >= 1,
    ;
    assert(cli.avg >= seconds ==> window == quotient);
}

/// The palette, number by number; every other number is green.
pub proof fn law_palette_is_numbered(arg: u8, color: Color)
    requires
        call_ensures(color_from_arg, (arg,), color),
    ensures
        arg == 0 <==> color == Color::Reset,
        arg == 1 <==> color == Color::Red,
        arg == 2 || arg > 8 <==> color == Color::Green,
        arg == 3 <==> color == Color::Yellow,
        arg == 4 <==> color == Color::Blue,
        arg == 5 <==> color == Color::Magenta,
        arg == 6 <==> color == Color::Cyan,
        arg == 7 <==> color == Color::White,
        arg == 8 <==> color == Color::LightMagenta,
{
}

} // verus!
