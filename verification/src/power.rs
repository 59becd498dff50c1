//! The power signals: power source, battery level, Low Power Mode and the
//! energy mode.

use vstd::prelude::*;

use crate::pmset::{energy_mode_from_pmset, energy_mode_of};

verus! {

/// Where the power comes from.
#[derive(Debug, Clone, Copy, PartialEq, Eq, Structural)]
pub enum Source {
    Ac,
    Battery,
}

/// The energy mode configured for the current power source.
#[derive(Debug, Clone, Copy, PartialEq, Eq, Structural)]
pub enum EnergyMode {
    Automatic,
    Low,
    High,
}

/// The power signals.
#[derive(Debug, Clone, Copy, PartialEq, Eq)]
pub struct Power {
    pub source: Source,
    pub battery_percent: Option<u8>,
    /// Whether Low Power Mode is active now
    /// (`NSProcessInfo.isLowPowerModeEnabled`).
    pub low_power_mode: bool,
    /// The energy mode configured for the current power source (AC or
    /// battery), as `pmset` reports it.
    pub energy_mode: EnergyMode,
}

/// The capacities read from the description of one power source.
#[derive(Debug, Clone, Copy, PartialEq, Eq)]
pub struct PowerSourceCapacity {
    /// `Current Capacity`, when the description holds it as a 32-bit number.
    pub current: Option<i32>,
    /// `Max Capacity`, when the description holds it as a 32-bit number.
    pub max: Option<i32>,
}

/// One reading of IOKit's power-source information.
#[derive(Debug, Clone, PartialEq, Eq)]
pub struct PowerSources {
    /// The type of the power source that provides power
    /// (`IOPSGetProvidingPowerSourceType`), when it could be read as text.
    pub providing_type: Option<String>,
    /// The power-source list in its order, or `None` when the list could
    /// not be had; an entry is `None` when the source or its description
    /// could not be had.
    pub sources: Option<Vec<Option<PowerSourceCapacity>>>,
}

/// The battery level from a current and a maximum capacity: the integer
/// nearest to `100 * current / max`, computed exactly, halves rounded up,
/// clamped to `0..=100`. (Rounding halves away from zero and then clamping gives the
/// same, since every negative level clamps to 0.)
pub open spec fn percent_of(current: int, max: int) -> u8 {
    let q = (200 * current + max) / (2 * max);
    (if q < 0 {
        0
    } else if q > 100 {
        100
    } else {
        q
    }) as u8
}

/// The battery level that one power-source entry gives, if it gives one:
/// it needs both capacities and a positive maximum.
pub open spec fn entry_percent(entry: Option<PowerSourceCapacity>) -> Option<u8> {
    match entry {
        Some(PowerSourceCapacity { current: Some(c), max: Some(m) }) => if m > 0 {
            Some(percent_of(c as int, m as int))
        } else {
            None
        },
        _ => None,
    }
}

/// The battery level of the first entry in the list that gives one.
pub open spec fn first_percent(entries: Seq<Option<PowerSourceCapacity>>) -> Option<u8>
    decreases entries.len(),
{
    if entries.len() == 0 {
        None
    } else {
        match entry_percent(entries[0]) {
            Some(p) => Some(p),
            None => first_percent(entries.drop_first()),
        }
    }
}

/// The power source that the providing type names: AC power when it is
/// `"AC Power"` or could not be read, the battery otherwise.
pub open spec fn source_of(providing_type: Option<String>) -> Source {
    match providing_type {
        Some(t) => if t@ == "AC Power"@ {
            Source::Ac
        } else {
            Source::Battery
        },
        None => Source::Ac,
    }
}

/// The power source and battery level that a reading gives; without a
/// reading, AC power and no level.
pub open spec fn power_source_of(reading: Option<PowerSources>) -> (Source, Option<u8>) {
    match reading {
        Some(r) => (
            source_of(r.providing_type),
            match r.sources {
                Some(list) => first_percent(list@),
                None => None,
            },
        ),
        None => (Source::Ac, None),
    }
}

/// The energy mode that the output of `pmset -g` reports; without an
/// output, the mode is automatic.
pub open spec fn energy_mode_of_output(output: Option<&str>) -> EnergyMode {
    match output {
        Some(text) => energy_mode_of(text@),
        None => EnergyMode::Automatic,
    }
}

/// The power signals from a reading of the power sources, the Low Power
/// Mode state and the output of `pmset -g`.
pub open spec fn power_of(sources: Option<PowerSources>, low_power_mode: bool, pmset_output: Option<
    &str,
>) -> Power {
    let (source, battery_percent) = power_source_of(sources);
    Power {
        source,
        battery_percent,
        low_power_mode,
        energy_mode: energy_mode_of_output(pmset_output),
    }
}

/// The battery level from a current and a maximum capacity.
pub fn battery_percent(current: i32, max: i32) -> (p: u8)
    requires
        max > 0,
    ensures
        p == percent_of(current as int, max as int),
        p <= 100,
{
    let num: i64 = 200 * (current as i64) + (max as i64);
    let den: i64 = 2 * (max as i64);
    if num < 0 {
        assert(num / den < 0) by (nonlinear_arith)
            requires
                num < 0,
                den > 0,
        ;
        return 0;
    }
    let q = num / den;
    if q > 100 {
        100
    } else {
        q as u8
    }
}

/// The battery level of the first entry of `entries` that gives one.
pub fn first_battery_percent(entries: &Vec<Option<PowerSourceCapacity>>) -> (p: Option<u8>)
    ensures
        p == first_percent(entries@),
        p matches Some(level) ==> level <= 100,
{
    let mut i: usize = 0;
    assert(entries@.skip(0) =~= entries@);
    while i < entries.len()
        invariant
            i <= entries@.len(),
            first_percent(entries@) == first_percent(entries@.skip(i as int)),
        decreases entries@.len() - i,
    {
        assert(entries@.skip(i as int)[0] == entries@[i as int]);
        assert(entries@.skip(i as int).drop_first() =~= entries@.skip(i + 1));
        if let Some(cap) = entries[i] {
            if let (Some(cur), Some(max)) = (cap.current, cap.max) {
                if max > 0 {
                    return Some(battery_percent(cur, max));
                }
            }
        }
        i += 1;
    }
    None
}

/// The power source and the battery level from a reading of the power
/// sources, or `None` where no reading could be had.
pub fn read_power_source(reading: &Option<PowerSources>) -> (r: (Source, Option<u8>))
    ensures
        r == power_source_of(*reading),
        r.1 matches Some(level) ==> level <= 100,
{
    match reading {
        None => (Source::Ac, None),
        Some(sources) => {
            let source = match &sources.providing_type {
                Some(t) => {
                    let ac: String = "AC Power".to_owned();
                    if *t == ac {
                        Source::Ac
                    } else {
                        Source::Battery
                    }
                },
                None => Source::Ac,
            };
            match &sources.sources {
                Some(list) => (source, first_battery_percent(list)),
                None => (source, None),
            }
        },
    }
}

/// The energy mode from the output of `pmset -g`, or `None` where the
/// command could not be run.
pub fn read_energy_mode(output: Option<&str>) -> (m: EnergyMode)
    ensures
        m == energy_mode_of_output(output),
{
    match output {
        Some(text) => energy_mode_from_pmset(text),
        None => EnergyMode::Automatic,
    }
}


/// The battery level is the nearest percent, halves rounded up: for a
/// current capacity between 0 and the maximum, the level `p` is the one
/// percent with `p - 1/2 <= 100 * current / max < p + 1/2`; at or below 0
/// the level is 0, at or above the maximum it is 100.
pub proof fn lemma_percent_nearest(current: int, max: int)
    requires
        max > 0,
    ensures
        0 <= current <= max ==> (2 * percent_of(current, max) - 1) * max <= 200 * current < (2
            * percent_of(current, max) + 1) * max,
        current <= 0 ==> percent_of(current, max) == 0,
        current >= max ==> percent_of(current, max) == 100,
{
    let q = (200 * current + max) / (2 * max);
    assert(2 * max * q <= 200 * current + max < 2 * max * (q + 1)) by (nonlinear_arith)
        requires
            max > 0,
            q == (200 * current + max) / (2 * max),
    ;
    if 0 <= current <= max {
        assert(0 <= q <= 100) by (nonlinear_arith)
            requires
                max > 0,
                0 <= current <= max,
                2 * max * q <= 200 * current + max < 2 * max * (q + 1),
        ;
        assert((2 * q - 1) * max <= 200 * current < (2 * q + 1) * max) by (nonlinear_arith)
            requires
                2 * max * q <= 200 * current + max < 2 * max * (q + 1),
        ;
    }
    if current <= 0 {
        assert(q <= 0) by (nonlinear_arith)
            requires
                max > 0,
                current <= 0,
                2 * max * q <= 200 * current + max,
        ;
    }
    if current >= max {
        assert(q >= 100) by (nonlinear_arith)
            requires
                max > 0,
                current >= max,
                200 * current + max < 2 * max * (q + 1),
        ;
    }
}

/// The first entry of the list that gives a level decides: an entry with
/// both capacities and a positive maximum gives its own level whatever
/// follows it; an entry without both, or with a maximum that is not
/// positive, is passed over; an empty list gives none.
pub proof fn lemma_first_usable_entry(
    current: i32,
    max: i32,
    e: Option<PowerSourceCapacity>,
    rest: Seq<Option<PowerSourceCapacity>>,
)
    ensures
        max > 0 ==> first_percent(
            seq![Some(PowerSourceCapacity { current: Some(current), max: Some(max) })] + rest,
        ) == Some(percent_of(current as int, max as int)),
        e is None || e.unwrap().current is None || e.unwrap().max is None || e.unwrap().max.unwrap()
            <= 0 ==> first_percent(seq![e] + rest) == first_percent(rest),
        first_percent(Seq::<Option<PowerSourceCapacity>>::empty()) is None,
{
    let e1 = Some(PowerSourceCapacity { current: Some(current), max: Some(max) });
    assert((seq![e1] + rest)[0] == e1);
    assert((seq![e1] + rest).drop_first() =~= rest);
    assert((seq![e] + rest)[0] == e);
    assert((seq![e] + rest).drop_first() =~= rest);
}


/// The power source follows the providing type alone: AC power when it is
/// `"AC Power"` or could not be read, the battery for any other type. The
/// battery level follows the power-source list alone, and there is none
/// without a list or without a reading.
pub proof fn lemma_power_source_parts(r: PowerSources, other: PowerSources)
    ensures
        power_source_of(None) == (Source::Ac, None::<u8>),
        r.providing_type is None ==> power_source_of(Some(r)).0 == Source::Ac,
        (r.providing_type matches Some(t) && t@ == "AC Power"@) ==> power_source_of(Some(r)).0
            == Source::Ac,
        (r.providing_type matches Some(t) && t@ != "AC Power"@) ==> power_source_of(Some(r)).0
            == Source::Battery,
        r.providing_type == other.providing_type ==> power_source_of(Some(r)).0 == power_source_of(
            Some(other),
        ).0,
        r.sources == other.sources ==> power_source_of(Some(r)).1 == power_source_of(
            Some(other),
        ).1,
        r.sources is None ==> power_source_of(Some(r)).1 is None,
{
}

/// Each part of the power signals comes from its own reading: Low Power
/// Mode is the state given, whatever the power sources and `pmset` say;
/// the energy mode depends on the `pmset` output alone; the source and
/// battery level depend on the power-source reading alone.
pub proof fn lemma_power_parts(
    sources: Option<PowerSources>,
    other_sources: Option<PowerSources>,
    low_power_mode: bool,
    other_low_power_mode: bool,
    pmset_output: Option<&str>,
    other_output: Option<&str>,
)
    ensures
        power_of(sources, low_power_mode, pmset_output).low_power_mode == low_power_mode,
        power_of(sources, low_power_mode, pmset_output).energy_mode == power_of(
            other_sources,
            other_low_power_mode,
            pmset_output,
        ).energy_mode,
        power_of(sources, low_power_mode, pmset_output).source == power_of(
            sources,
            other_low_power_mode,
            other_output,
        ).source,
        power_of(sources, low_power_mode, pmset_output).battery_percent == power_of(
            sources,
            other_low_power_mode,
            other_output,
        ).battery_percent,
{
}

impl Power {
    /// The power signals from a reading of the power sources, the Low
    /// Power Mode state that the system reports as active, and the output
    /// of `pmset -g`. A reading is `None` where it could not be had, or
    /// where the system offers none.
    pub fn collect(sources: Option<PowerSources>, low_power_mode: bool, pmset_output: Option<&str>) -> (p:
        Power)
        ensures
            p == power_of(sources, low_power_mode, pmset_output),
            p.low_power_mode == low_power_mode,
            p.battery_percent matches Some(level) ==> level <= 100,
    {
        let (source, battery_percent) = read_power_source(&sources);
        let energy_mode = read_energy_mode(pmset_output);
        Power { source, battery_percent, low_power_mode, energy_mode }
    }
}

} // verus!
