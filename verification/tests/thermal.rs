use asitop::text::{decimal_string, first_char, has_prefix, same_text, trim};
use asitop::thermal::{read_warning_level, thermal_throttle, ThermalLevel};

#[test]
fn codes_become_levels() {
    assert_eq!(ThermalLevel::from(0), ThermalLevel::Normal);
    assert_eq!(ThermalLevel::from(5), ThermalLevel::Danger);
    assert_eq!(ThermalLevel::from(100), ThermalLevel::Danger);
    assert_eq!(ThermalLevel::from(10), ThermalLevel::Crisis);
    assert_eq!(ThermalLevel::from(110), ThermalLevel::Crisis);
    assert_eq!(ThermalLevel::from(7), ThermalLevel::Unknown(7));
}

#[test]
fn levels_are_labelled() {
    assert_eq!(ThermalLevel::Normal.label(), "Nominal");
    assert_eq!(ThermalLevel::Danger.label(), "Danger");
    assert_eq!(ThermalLevel::Crisis.label(), "Crisis");
    assert_eq!(ThermalLevel::Unknown(3).label(), "Unknown");
}

#[test]
fn levels_are_written_out() {
    assert_eq!(ThermalLevel::Normal.to_string(), "Nominal");
    assert_eq!(ThermalLevel::Danger.to_string(), "Danger");
    assert_eq!(ThermalLevel::Crisis.to_string(), "Crisis");
    assert_eq!(ThermalLevel::Unknown(42).to_string(), "Unknown(42)");
    assert_eq!(ThermalLevel::Unknown(u32::MAX).to_string(), "Unknown(4294967295)");
}

#[test]
fn all_levels_but_normal_throttle() {
    assert!(!ThermalLevel::Normal.is_throttled());
    assert!(ThermalLevel::Danger.is_throttled());
    assert!(ThermalLevel::Crisis.is_throttled());
    assert!(ThermalLevel::Unknown(1).is_throttled());
    for code in 0..200u32 {
        let level = ThermalLevel::from(code);
        assert_eq!(level.is_throttled(), code != 0);
        assert_eq!(level.label() == "Nominal", code == 0);
    }
}

#[test]
fn failed_query_gives_no_level() {
    assert_eq!(read_warning_level(0, 110), Some(ThermalLevel::Crisis));
    assert_eq!(read_warning_level(1, 110), None);
    assert_eq!(read_warning_level(-536870206, 0), None);
}

#[test]
fn reported_level_overrides_pressure() {
    assert!(!thermal_throttle(Some(ThermalLevel::Normal), "Heavy"));
    assert!(thermal_throttle(Some(ThermalLevel::Danger), "Nominal"));
}

#[test]
fn pressure_decides_without_level() {
    assert!(!thermal_throttle(None, "Nominal"));
    assert!(!thermal_throttle(None, "  Nominal\n"));
    assert!(!thermal_throttle(None, "\u{3000}Nominal\u{85}\u{2009}"));
    assert!(thermal_throttle(None, "nominal"));
    assert!(thermal_throttle(None, "Nominal."));
    assert!(thermal_throttle(None, "Nomi nal"));
    assert!(thermal_throttle(None, ""));
    assert!(thermal_throttle(None, "Moderate"));
    assert!(thermal_throttle(None, "Nominal\u{200b}"));
}

#[test]
fn exactly_the_white_space_is_trimmed() {
    let listed = |c: char| {
        matches!(
            c,
            '\u{9}'..='\u{d}'
                | ' '
                | '\u{85}'
                | '\u{a0}'
                | '\u{1680}'
                | '\u{2000}'..='\u{200a}'
                | '\u{2028}'
                | '\u{2029}'
                | '\u{202f}'
                | '\u{205f}'
                | '\u{3000}'
        )
    };
    for code in 0..=0x10ffffu32 {
        if let Some(c) = char::from_u32(code) {
            assert_eq!(c.is_whitespace(), listed(c));
            let text = String::from(c);
            assert_eq!(trim(&text), text.trim());
        }
    }
    for c in ['\u{9}', '\u{b}', '\u{d}', '\u{a0}', '\u{1680}', '\u{200a}', '\u{2029}', '\u{202f}'] {
        let mut text = String::from(c);
        text.push_str("Nominal");
        text.push(c);
        assert!(!thermal_throttle(None, &text));
    }
}

#[test]
fn label_as_pressure_decides_like_the_level() {
    for level in [
        ThermalLevel::Normal,
        ThermalLevel::Danger,
        ThermalLevel::Crisis,
        ThermalLevel::Unknown(9),
    ] {
        assert_eq!(
            thermal_throttle(None, level.label()),
            thermal_throttle(Some(level), "")
        );
    }
}

#[test]
fn numerals_are_written_in_full() {
    for n in [0, 7, 10, 99, 100, 1_000_000, 1_234_567_890, u64::MAX] {
        assert_eq!(decimal_string(n), format!("{}", n));
    }
}

#[test]
fn prefixes_and_first_characters() {
    assert!(has_prefix("E-Cluster", "E-"));
    assert!(has_prefix("abc", ""));
    assert!(has_prefix("", ""));
    assert!(!has_prefix("ab", "abc"));
    assert!(!has_prefix("xbc", "ab"));
    assert!(has_prefix("\u{e9}t\u{e9}", "\u{e9}t"));
    assert_eq!(first_char("Px"), Some('P'));
    assert_eq!(first_char(""), None);
    assert!(same_text("a", "a"));
    assert!(!same_text("a", "A"));
}

#[test]
fn text_is_trimmed_at_its_ends() {
    for text in ["", " ", " \t\n", "a", " a b ", "\u{3000}\u{e9} \u{e9}\u{85}", "\u{200b}x ", "x\r\n"] {
        assert_eq!(trim(text), text.trim());
    }
}
