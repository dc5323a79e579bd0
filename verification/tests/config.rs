use asitop::config::{color_from_arg, Cli, Color};

fn cli(interval: u64, avg: u64) -> Cli {
    Cli { interval, color: 2, avg, show_cores: false, max_count: 0 }
}

#[test]
fn colors_of_the_palette() {
    assert_eq!(color_from_arg(0), Color::Reset);
    assert_eq!(color_from_arg(1), Color::Red);
    assert_eq!(color_from_arg(2), Color::Green);
    assert_eq!(color_from_arg(3), Color::Yellow);
    assert_eq!(color_from_arg(4), Color::Blue);
    assert_eq!(color_from_arg(5), Color::Magenta);
    assert_eq!(color_from_arg(6), Color::Cyan);
    assert_eq!(color_from_arg(7), Color::White);
    assert_eq!(color_from_arg(8), Color::LightMagenta);
    assert_eq!(color_from_arg(9), Color::Green);
    assert_eq!(color_from_arg(255), Color::Green);
}

#[test]
fn averaging_window() {
    assert_eq!(cli(2, 30).avg_window(), 15);
    assert_eq!(cli(0, 30).avg_window(), 30);
    assert_eq!(cli(7, 30).avg_window(), 4);
    assert_eq!(cli(60, 30).avg_window(), 1);
    assert_eq!(cli(1, 0).avg_window(), 1);
}

#[test]
fn intervals() {
    assert_eq!(cli(0, 1).interval_seconds(), 1);
    assert_eq!(cli(1, 1).interval_seconds(), 1);
    assert_eq!(cli(5, 1).interval_seconds(), 5);
    assert_eq!(cli(2, 1).interval_millis(), 2000);
    assert_eq!(cli(0, 1).interval_millis(), 0);
}
