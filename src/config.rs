use vstd::prelude::*;
use crate::text::{placeholder_count, placeholders};
use crate::units::{family_of, unit_family, TimeUnit};

verus! {

/// How each component is written and how components are joined.
pub struct Formatting {
    /// Two `{}` placeholders: the count, then the unit label.
    pub format: String,
    /// Text between two successive components.
    pub delimiter_text: String,
}

/// The label of each magnitude; `(s)` in a label marks its plural ending.
pub struct Units {
    pub d: String,
    pub h: String,
    pub m: String,
    pub s: String,
    pub ms: String,
    pub us: String,
}

/// Everything the rendering can be customised with.
pub struct Config {
    /// The unit spelling assumed when none is given.
    pub default_time_value_units: String,
    pub formatting: Formatting,
    pub units: Units,
}

/// The command line: a value, a unit spelling, and whether to load a
/// configuration file.
pub struct Args {
    pub time_value: Option<u64>,
    pub unit: Option<String>,
    pub config: bool,
}

impl Args {
    /// The unit spelling to read the value in: the one given on the command
    /// line, else the configuration's default.
    pub fn unit_or_default<'a>(&'a self, config: &'a Config) -> (r: &'a str)
        ensures
            r@ == match self.unit {
                Some(u) => u@,
                None => config.default_time_value_units@,
            },
    {
        match &self.unit {
            Some(u) => u.as_str(),
            None => config.default_time_value_units.as_str(),
        }
    }
}

impl Default for Config {
    /// Seconds; components written as `{}{}` and joined by `,`; the labels
    /// `d`, `h`, `m`, `s`, `ms`, `µs`.
    fn default() -> (r: Config)
        ensures
            r.default_time_value_units@ == "seconds"@,
            r.formatting.format@ == "{}{}"@,
            r.formatting.delimiter_text@ == ","@,
            r.units.d@ == "d"@,
            r.units.h@ == "h"@,
            r.units.m@ == "m"@,
            r.units.s@ == "s"@,
            r.units.ms@ == "ms"@,
            r.units.us@ == "\u{b5}s"@,
            family_of(r.default_time_value_units@) == Some(TimeUnit::Seconds),
            placeholders(r.formatting.format@) == 2,
    {
        let r = Config {
            default_time_value_units: String::from_str("seconds"),
            formatting: Formatting {
                format: String::from_str("{}{}"),
                delimiter_text: String::from_str(","),
            },
            units: Units {
                d: String::from_str("d"),
                h: String::from_str("h"),
                m: String::from_str("m"),
                s: String::from_str("s"),
                ms: String::from_str("ms"),
                us: String::from_str("\u{b5}s"),
            },
        };
        proof {
            reveal_strlit("seconds");
            reveal_strlit("{}{}");
            let w = r.default_time_value_units@;
            assert(crate::units::lower_seq(w) =~= w);
            assert(w =~= seq!['s', 'e', 'c', 'o', 'n', 'd', 's']);
            let f = r.formatting.format@;
            assert(f.skip(2).skip(2) =~= Seq::<char>::empty());
            assert(placeholders(f.skip(2).skip(2)) == 0);
            assert(placeholders(f.skip(2)) == 1);
        }
        r
    }
}

pub open spec fn bad_default_unit_text(unit: Seq<char>) -> Seq<char> {
    "Invalid default_time_value_units: "@ + unit
        + ". Valid options are: milliseconds, microseconds, or seconds."@
}

pub open spec fn bad_format_text(format: Seq<char>) -> Seq<char> {
    "Invalid formatting.format: "@ + format + ". It must contain exactly two sets of {}."@
}

/// Whether a configuration can be used: its default unit names a family and
/// its format holds exactly two placeholders.
pub open spec fn config_ok(config: &Config) -> bool {
    family_of(config.default_time_value_units@) is Some && placeholders(
        config.formatting.format@,
    ) == 2
}

/// Checks the default unit first, then the format; the message of a failure
/// names the field and its value.
pub fn validate_config(config: &Config) -> (r: Result<(), String>)
    ensures
        r is Ok <==> config_ok(config),
        family_of(config.default_time_value_units@) is None ==> (r matches Err(m) && m@
            == bad_default_unit_text(config.default_time_value_units@)),
        family_of(config.default_time_value_units@) is Some && placeholders(
            config.formatting.format@,
        ) != 2 ==> (r matches Err(m) && m@ == bad_format_text(config.formatting.format@)),
{
    if unit_family(config.default_time_value_units.as_str()).is_none() {
        let mut msg = String::from_str("Invalid default_time_value_units: ");
        msg.append(config.default_time_value_units.as_str());
        msg.append(". Valid options are: milliseconds, microseconds, or seconds.");
        return Err(msg);
    }
    if placeholder_count(config.formatting.format.as_str()) != 2 {
        let mut msg = String::from_str("Invalid formatting.format: ");
        msg.append(config.formatting.format.as_str());
        msg.append(". It must contain exactly two sets of {}.");
        return Err(msg);
    }
    Ok(())
}

} // verus!
