use vstd::prelude::*;
use human_time::ToHumanTimeString;
use crate::config::{Config, Units};
use crate::text::{
    decimal,
    decimal_string,
    fill_template,
    fill_two,
    label_for_count,
    render_label,
};
use crate::units::{convert_time, family_of, invalid_unit_text, lowercase_of, micros_per, TimeUnit};

verus! {

/// Microseconds in each magnitude, largest first: day, hour, minute, second,
/// millisecond, microsecond.
pub open spec fn magnitude_micros(i: nat) -> nat {
    if i == 0 {
        86_400_000_000
    } else if i == 1 {
        3_600_000_000
    } else if i == 2 {
        60_000_000
    } else if i == 3 {
        1_000_000
    } else if i == 4 {
        1_000
    } else {
        1
    }
}

/// The code that names each magnitude: `d`, `h`, `m`, `s`, `ms`, `μs`.
pub open spec fn magnitude_code(i: nat) -> Seq<char> {
    if i == 0 {
        seq!['d']
    } else if i == 1 {
        seq!['h']
    } else if i == 2 {
        seq!['m']
    } else if i == 3 {
        seq!['s']
    } else if i == 4 {
        seq!['m', 's']
    } else {
        seq!['\u{3bc}', 's']
    }
}

/// The counts of magnitudes `i` to 5 in `rem` microseconds: each magnitude
/// takes as many whole units as fit and hands the remainder on.
pub open spec fn counts_from(rem: nat, i: nat) -> Seq<nat>
    decreases 6 - i,
{
    if i >= 6 {
        Seq::empty()
    } else {
        seq![rem / magnitude_micros(i)] + counts_from(rem % magnitude_micros(i), i + 1)
    }
}

/// The six counts, days first, of a span of `total` microseconds.
pub open spec fn decompose(total: nat) -> Seq<nat> {
    counts_from(total, 0)
}

/// The microseconds that counts of magnitudes `i`, `i + 1`, ... stand for.
pub open spec fn recompose_from(counts: Seq<nat>, i: nat) -> nat
    decreases counts.len(),
{
    if counts.len() == 0 {
        0
    } else {
        counts[0] * magnitude_micros(i) + recompose_from(counts.drop_first(), i + 1)
    }
}

pub open spec fn recompose(counts: Seq<nat>) -> nat {
    recompose_from(counts, 0)
}

/// The configured label for a magnitude code; any code but the first five
/// takes the microsecond label.
pub open spec fn label_of_code(code: Seq<char>, units: &Units) -> Seq<char> {
    if code == seq!['d'] {
        units.d@
    } else if code == seq!['h'] {
        units.h@
    } else if code == seq!['m'] {
        units.m@
    } else if code == seq!['s'] {
        units.s@
    } else if code == seq!['m', 's'] {
        units.ms@
    } else {
        units.us@
    }
}

/// One component: the format with the count, then the label for that count.
pub open spec fn component_text(n: nat, code: Seq<char>, config: &Config) -> Seq<char> {
    fill_two(
        config.formatting.format@,
        decimal(n),
        label_for_count(label_of_code(code, &config.units), n),
    )
}

/// The components for the nonzero counts among `counts`, the first of which
/// is magnitude `i`.
pub open spec fn components_from(counts: Seq<nat>, i: nat, config: &Config) -> Seq<Seq<char>>
    decreases counts.len(),
{
    if counts.len() == 0 {
        Seq::empty()
    } else {
        let rest = components_from(counts.drop_first(), i + 1, config);
        if counts[0] > 0 {
            seq![component_text(counts[0], magnitude_code(i), config)] + rest
        } else {
            rest
        }
    }
}

/// The parts, in order, with the delimiter between each two.
pub open spec fn joined(parts: Seq<Seq<char>>, delimiter: Seq<char>) -> Seq<char>
    decreases parts.len(),
{
    if parts.len() == 0 {
        Seq::empty()
    } else if parts.len() == 1 {
        parts[0]
    } else {
        joined(parts.drop_last(), delimiter) + delimiter + parts.last()
    }
}

/// The text for a span of `total` microseconds: its nonzero components
/// joined by the delimiter; for a zero span, the component for 0 microseconds.
pub open spec fn human_text(total: nat, config: &Config) -> Seq<char> {
    let parts = components_from(decompose(total), 0, config);
    if parts.len() == 0 {
        component_text(0, magnitude_code(5), config)
    } else {
        joined(parts, config.formatting.delimiter_text@)
    }
}

proof fn lemma_recompose_counts_from(rem: nat, i: nat)
    requires
        i <= 5,
    ensures
        recompose_from(counts_from(rem, i), i) == rem,
    decreases 5 - i,
{
    let s = magnitude_micros(i);
    let cs = counts_from(rem, i);
    assert(cs.drop_first() =~= counts_from(rem % s, (i + 1) as nat));
    assert(cs[0] == rem / s);
    assert(recompose_from(cs, i) == (rem / s) * s + recompose_from(cs.drop_first(), i + 1));
    if i == 5 {
        assert(counts_from(rem % s, 6) =~= Seq::<nat>::empty());
        assert(recompose_from(Seq::<nat>::empty(), 6) == 0);
        assert(s == 1);
        assert((rem / 1) * 1 == rem) by (nonlinear_arith);
    } else {
        lemma_recompose_counts_from(rem % s, (i + 1) as nat);
        vstd::arithmetic::div_mod::lemma_fundamental_div_mod(rem as int, s as int);
    }
}

/// Decomposition loses nothing: for any count in any family, the components
/// scaled by their magnitudes add up to the span's microseconds.
pub proof fn lemma_decompose_exact(count: u64, family: TimeUnit)
    ensures
        recompose(decompose((count as nat) * micros_per(family))) == (count as nat) * micros_per(
            family,
        ),
{
    lemma_recompose_counts_from((count as nat) * micros_per(family), 0);
}

/// Whether two strings hold the same characters.
fn same_text(a: &str, b: &str) -> (r: bool)
    ensures
        r == (a@ == b@),
{
    let n = a.unicode_len();
    if n != b.unicode_len() {
        return false;
    }
    let mut i: usize = 0;
    while i < n
        invariant
            n == a@.len(),
            n == b@.len(),
            i <= n,
            forall|k: int| 0 <= k < i ==> a@[k] == b@[k],
        decreases n - i,
    {
        if a.get_char(i) != b.get_char(i) {
            return false;
        }
        i = i + 1;
    }
    assert(a@ =~= b@);
    true
}

/// The configured label for a magnitude code.
fn label_for_code<'a>(code: &str, units: &'a Units) -> (r: &'a str)
    ensures
        r@ == label_of_code(code@, units),
{
    proof {
        reveal_strlit("d");
        reveal_strlit("h");
        reveal_strlit("m");
        reveal_strlit("s");
        reveal_strlit("ms");
        assert("d"@ =~= seq!['d']);
        assert("h"@ =~= seq!['h']);
        assert("m"@ =~= seq!['m']);
        assert("s"@ =~= seq!['s']);
        assert("ms"@ =~= seq!['m', 's']);
    }
    if same_text(code, "d") {
        units.d.as_str()
    } else if same_text(code, "h") {
        units.h.as_str()
    } else if same_text(code, "m") {
        units.m.as_str()
    } else if same_text(code, "s") {
        units.s.as_str()
    } else if same_text(code, "ms") {
        units.ms.as_str()
    } else {
        units.us.as_str()
    }
}

/// Writes one component: `n` and the label that `code` selects, put into the
/// configured format.
pub fn render_component(n: u128, code: &str, config: &Config) -> (r: String)
    ensures
        r@ == component_text(n as nat, code@, config),
{
    let label = label_for_code(code, &config.units);
    let count = decimal_string(n);
    let label = render_label(label, n);
    fill_template(config.formatting.format.as_str(), count.as_str(), label.as_str())
}

/// Puts the delimiter between the text so far and the next component.
pub fn join_components(acc: String, item: String, delimiter: &str) -> (r: String)
    ensures
        r@ == acc@ + delimiter@ + item@,
{
    let mut r = acc;
    r.append(delimiter);
    r.append(item.as_str());
    r
}

/// Relies on human_time's `to_human_time_string_with_format` for a
/// `Duration` of `secs` seconds and `nanos` nanoseconds: it splits the span's
/// whole microseconds into days, hours, minutes, seconds, milliseconds and
/// microseconds (codes `d`, `h`, `m`, `s`, `ms`, `μs`), each taking what fits
/// and passing the remainder on; writes each nonzero count with its code
/// through the first closure; and folds the pieces left to right through the
/// second. With no nonzero count it returns the first closure's text for 0
/// and `μs`. `Duration::new` cannot overflow here since `nanos` is below one
/// second.
#[verifier::external_body]
fn human_time_text(secs: u64, nanos: u32, config: &Config) -> (r: String)
    requires
        nanos < 1_000_000_000,
    ensures
        r@ == human_text((secs as nat) * 1_000_000 + (nanos as nat) / 1_000, config),
{
    std::time::Duration::new(secs, nanos).to_human_time_string_with_format(
        |n, code| render_component(n, code, config),
        |acc, item| join_components(acc, item, config.formatting.delimiter_text.as_str()),
    )
}

/// Writes `time_value`, read in the family that `unit` spells, as its nonzero
/// components from days down to microseconds, each in the configured format
/// and joined by the configured delimiter. An unknown spelling is an error.
pub fn format_duration(time_value: u64, unit: &str, config: &Config) -> (r: Result<String, String>)
    ensures
        match family_of(unit@) {
            Some(f) => r matches Ok(s) && s@ == human_text(
                (time_value as nat) * micros_per(f),
                config,
            ),
            None => r matches Err(m) && m@ == invalid_unit_text(lowercase_of(unit@)),
        },
{
    match convert_time(time_value, Some(unit)) {
        Ok(elapsed) => {
            let secs = elapsed.as_secs();
            let nanos = elapsed.subsec_nanos();
            proof {
                let t = elapsed@;
                vstd::arithmetic::div_mod::lemma_fundamental_div_mod(t as int, 1_000_000);
                assert((t % 1_000_000) * 1_000 / 1_000 == t % 1_000_000) by (nonlinear_arith);
            }
            Ok(human_time_text(secs, nanos, config))
        },
        Err(msg) => Err(msg),
    }
}

} // verus!
