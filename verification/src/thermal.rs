//! Thermal warning levels.

use crate::text::{decimal, decimal_string, same_text, trim, trimmed};
use vstd::prelude::*;
use vstd::std_specs::convert::FromSpec;

verus! {

/// How hard the system asks its workload to back off.
#[derive(Debug, Clone, Copy, PartialEq, Eq, Structural)]
pub enum ThermalLevel {
    Normal,
    Danger,
    Crisis,
    /// A code that the system does not document.
    Unknown(u32),
}

/// The level that a raw warning code stands for.
pub open spec fn level_of(code: u32) -> ThermalLevel {
    if code == 0 {
        ThermalLevel::Normal
    } else if code == 5 || code == 100 {
        ThermalLevel::Danger
    } else if code == 10 || code == 110 {
        ThermalLevel::Crisis
    } else {
        ThermalLevel::Unknown(code)
    }
}

/// The short name of a level.
pub open spec fn level_label(level: ThermalLevel) -> Seq<char> {
    match level {
        ThermalLevel::Normal => "Nominal"@,
        ThermalLevel::Danger => "Danger"@,
        ThermalLevel::Crisis => "Crisis"@,
        ThermalLevel::Unknown(_) => "Unknown"@,
    }
}

/// A level written out: its label, and for an undocumented code the code too.
pub open spec fn level_text(level: ThermalLevel) -> Seq<char> {
    match level {
        ThermalLevel::Unknown(raw) => "Unknown("@ + decimal(raw as nat) + ")"@,
        _ => level_label(level),
    }
}

impl ThermalLevel {
    /// Whether the system is being throttled: at every level but `Normal`.
    pub fn is_throttled(self) -> (res: bool)
        ensures
            res == (self != ThermalLevel::Normal),
    {
        !matches!(self, ThermalLevel::Normal)
    }

    /// The short name of the level.
    pub fn label(self) -> (res: &'static str)
        ensures
            res@ == level_label(self),
    {
        match self {
            ThermalLevel::Normal => "Nominal",
            ThermalLevel::Danger => "Danger",
            ThermalLevel::Crisis => "Crisis",
            ThermalLevel::Unknown(_) => "Unknown",
        }
    }

    /// The level written out for display.
    pub fn to_string(&self) -> (res: String)
        ensures
            res@ == level_text(*self),
    {
        match *self {
            ThermalLevel::Unknown(raw) => {
                let mut text = "Unknown(".to_owned();
                text.append(decimal_string(raw as u64).as_str());
                text.append(")");
                text
            },
            other => other.label().to_owned(),
        }
    }
}

impl From<u32> for ThermalLevel {
    fn from(value: u32) -> (res: Self) {
        match value {
            0 => ThermalLevel::Normal,
            5 | 100 => ThermalLevel::Danger,
            10 | 110 => ThermalLevel::Crisis,
            other => ThermalLevel::Unknown(other),
        }
    }
}

impl vstd::std_specs::convert::FromSpecImpl<u32> for ThermalLevel {
    open spec fn obeys_from_spec() -> bool {
        true
    }

    open spec fn from_spec(v: u32) -> Self {
        level_of(v)
    }
}

/// The level that the power manager reported: `status` is what its query
/// returned, zero for success, and `level` is the code that it stored.
pub fn read_warning_level(status: i32, level: u32) -> (res: Option<ThermalLevel>)
    ensures
        res == (if status == 0 { Some(level_of(level)) } else { None }),
{
    if status == 0 {
        Some(ThermalLevel::from(level))
    } else {
        None
    }
}

/// Whether throttling is shown: a reported level decides; without one, the
/// pressure text does, and only `Nominal` means that nothing is throttled.
pub open spec fn throttle_shown(level: Option<ThermalLevel>, pressure: Seq<char>) -> bool {
    match level {
        Some(level) => level != ThermalLevel::Normal,
        None => trimmed(pressure) != "Nominal"@,
    }
}

/// Decides whether the display reports thermal throttling.
pub fn thermal_throttle(level: Option<ThermalLevel>, pressure: &str) -> (res: bool)
    ensures
        res == throttle_shown(level, pressure@),
{
    match level {
        Some(level) => level.is_throttled(),
        None => !same_text(trim(pressure), "Nominal"),
    }
}

/// Only the normal level is labelled `Nominal`, and no label begins or ends
/// with white space.
proof fn lemma_only_normal_is_nominal(level: ThermalLevel)
    ensures
        (level_label(level) == "Nominal"@) == (level == ThermalLevel::Normal),
        trimmed(level_label(level)) == level_label(level),
{
    reveal_strlit("Nominal");
    reveal_strlit("Danger");
    reveal_strlit("Crisis");
    reveal_strlit("Unknown");
    assert("Nominal"@.len() != "Danger"@.len());
    assert("Nominal"@.len() != "Crisis"@.len());
    assert("Nominal"@[0] != "Unknown"@[0]);
}

/// A raw code throttles exactly when it is not zero, and exactly the levels
/// that do not throttle are labelled `Nominal`.
pub proof fn law_nominal_is_unthrottled(code: u32)
    ensures
        (level_of(code) != ThermalLevel::Normal) == (code != 0),
        (level_label(level_of(code)) == "Nominal"@) == (code == 0),
{
    lemma_only_normal_is_nominal(level_of(code));
}

/// The label of a reported level, used as a pressure text, leads to the same
/// decision as the level itself.
pub proof fn law_label_decides_like_level(level: ThermalLevel)
    ensures
        throttle_shown(None, level_label(level)) == throttle_shown(Some(level), level_label(level)),
{
    lemma_only_normal_is_nominal(level);
}

/// The system's codes: zero is normal, 5 and 100 are danger, 10 and 110 are a
/// crisis, and any other is kept as it is; a query that failed tells none.
pub proof fn law_codes_stand_for_levels(status: i32, code: u32, level: Option<ThermalLevel>)
    requires
        call_ensures(read_warning_level, (status, code), level),
    ensures
        status != 0 <==> level is None,
        status == 0 && code == 0 <==> level == Some(ThermalLevel::Normal),
        status == 0 && (code == 5 || code == 100) <==> level == Some(ThermalLevel::Danger),
        status == 0 && (code == 10 || code == 110) <==> level == Some(ThermalLevel::Crisis),
        level matches Some(ThermalLevel::Unknown(raw)) ==> raw == code,
        level matches Some(known) ==> known == ThermalLevel::from_spec(code),
{
}

/// A level throttles unless it is normal, and so does every code but zero.
pub proof fn law_every_code_but_zero_throttles(
    code: u32,
    level: Option<ThermalLevel>,
    throttled: bool,
)
    requires
        call_ensures(read_warning_level, (0, code), level),
        level matches Some(known) && call_ensures(ThermalLevel::is_throttled, (known,), throttled),
    ensures
        throttled == (code != 0),
{
}

/// The names of the levels.
pub proof fn law_levels_are_named(level: ThermalLevel, label: &'static str, text: String)
    requires
        call_ensures(ThermalLevel::label, (level,), label),
        call_ensures(ThermalLevel::to_string, (&level,), text),
    ensures
        level == ThermalLevel::Normal ==> label@ == "Nominal"@ && text@ == label@,
        level == ThermalLevel::Danger ==> label@ == "Danger"@ && text@ == label@,
        level == ThermalLevel::Crisis ==> label@ == "Crisis"@ && text@ == label@,
        level is Unknown ==> label@ == "Unknown"@,
{
}

/// An undocumented code is written out after its name, in round brackets.
pub proof fn law_undocumented_codes_are_written_out(code: u32, numeral: String, text: String)
    requires
        call_ensures(decimal_string, (code as u64,), numeral),
        call_ensures(ThermalLevel::to_string, (&ThermalLevel::Unknown(code),), text),
    ensures
        text@ == "Unknown("@ + numeral@ + ")"@,
{
}

/// A reported level decides alone whether throttling is shown, whatever the
/// pressure text says; without one the text decides, and it means no throttling
/// exactly where it reads `Nominal` once it is trimmed.
pub proof fn law_level_decides_before_the_text(
    level: Option<ThermalLevel>,
    pressure: &str,
    left: &str,
    shown: bool,
)
    requires
        call_ensures(trim, (pressure,), left),
        call_ensures(thermal_throttle, (level, pressure), shown),
    ensures
        match level {
            Some(known) => shown == (known != ThermalLevel::Normal),
            None => shown == (left@ != "Nominal"@),
        },
{
}

} // verus!
