use vstd::prelude::*;

verus! {

/// The three families a unit spelling can name.
#[derive(Clone, Copy, Debug, PartialEq, Eq, Structural)]
pub enum TimeUnit {
    Seconds,
    Milliseconds,
    Microseconds,
}

/// ASCII lower-casing of one character; every other character is kept.
pub open spec fn lower_char(c: char) -> char {
    if 'A' <= c && c <= 'Z' {
        ((c as u8) + 32) as char
    } else {
        c
    }
}

pub open spec fn lower_seq(s: Seq<char>) -> Seq<char> {
    Seq::new(s.len(), |i: int| lower_char(s[i]))
}

/// The endings that may follow `milli` or `micro`; the non-empty ones are
/// also the spellings of the seconds family.
pub open spec fn is_sec_ending(w: Seq<char>) -> bool {
    ||| w == Seq::<char>::empty()
    ||| w == seq!['s']
    ||| w == seq!['s', 'e', 'c']
    ||| w == seq!['s', 'e', 'c', 's']
    ||| w == seq!['s', 'e', 'c', 'o', 'n', 'd']
    ||| w == seq!['s', 'e', 'c', 'o', 'n', 'd', 's']
}

pub open spec fn milli_prefix() -> Seq<char> {
    seq!['m', 'i', 'l', 'l', 'i']
}

pub open spec fn micro_prefix() -> Seq<char> {
    seq!['m', 'i', 'c', 'r', 'o']
}

/// `ms`, or `milli` followed by one of the endings.
pub open spec fn is_milli_word(w: Seq<char>) -> bool {
    ||| w == seq!['m', 's']
    ||| (w.len() >= 5 && w.take(5) == milli_prefix() && is_sec_ending(w.skip(5)))
}

/// `micro` followed by one of the endings.
pub open spec fn is_micro_word(w: Seq<char>) -> bool {
    w.len() >= 5 && w.take(5) == micro_prefix() && is_sec_ending(w.skip(5))
}

/// `s`, `sec`, `secs`, `second` or `seconds`.
pub open spec fn is_seconds_word(w: Seq<char>) -> bool {
    w.len() > 0 && is_sec_ending(w)
}

/// The family a spelling names, compared without regard to ASCII case;
/// `None` for every other string.
pub open spec fn family_of(s: Seq<char>) -> Option<TimeUnit> {
    let w = lower_seq(s);
    if is_milli_word(w) {
        Some(TimeUnit::Milliseconds)
    } else if is_micro_word(w) {
        Some(TimeUnit::Microseconds)
    } else if is_seconds_word(w) {
        Some(TimeUnit::Seconds)
    } else {
        None
    }
}

/// Spellings that differ only in ASCII case name the same family.
pub proof fn lemma_family_ignores_case(s: Seq<char>, t: Seq<char>)
    requires
        s.len() == t.len(),
        forall|i: int| 0 <= i < s.len() ==> lower_char(#[trigger] s[i]) == lower_char(t[i]),
    ensures
        family_of(s) == family_of(t),
{
    assert(lower_seq(s) =~= lower_seq(t));
}

fn lower_ascii(c: char) -> (r: char)
    ensures
        r == lower_char(c),
{
    if 'A' <= c && c <= 'Z' {
        ((c as u8) + 32) as char
    } else {
        c
    }
}

/// The characters of `s`, lower-cased as ASCII.
fn lowered_chars(s: &str) -> (r: Vec<char>)
    ensures
        r@ == lower_seq(s@),
{
    let n = s.unicode_len();
    let mut v: Vec<char> = Vec::new();
    let mut i: usize = 0;
    while i < n
        invariant
            n == s@.len(),
            i <= n,
            v@ == lower_seq(s@).take(i as int),
        decreases n - i,
    {
        let c = s.get_char(i);
        v.push(lower_ascii(c));
        i = i + 1;
        assert(v@ =~= lower_seq(s@).take(i as int));
    }
    assert(v@ =~= lower_seq(s@));
    v
}

/// Whether `v` from position `from` on is exactly `w`.
fn rest_is(v: &Vec<char>, from: usize, w: &str) -> (r: bool)
    requires
        from <= v@.len(),
    ensures
        r == (v@.skip(from as int) == w@),
{
    let n = w.unicode_len();
    if v.len() - from != n {
        proof {
            if v@.skip(from as int) == w@ {
                assert(v@.skip(from as int).len() == w@.len());
            }
        }
        return false;
    }
    let len = v.len();
    let mut j: usize = 0;
    while j < n
        invariant
            n == w@.len(),
            from + n == v@.len(),
            len == v@.len(),
            j <= n,
            forall|k: int| 0 <= k < j ==> v@[from + k] == w@[k],
        decreases n - j,
    {
        if v[from + j] != w.get_char(j) {
            proof {
                assert(v@.skip(from as int)[j as int] != w@[j as int]);
            }
            return false;
        }
        j = j + 1;
    }
    assert(v@.skip(from as int) =~= w@);
    true
}

/// Whether `v` from position `from` on is one of the endings of `is_sec_ending`.
fn rest_is_sec_ending(v: &Vec<char>, from: usize) -> (r: bool)
    requires
        from <= v@.len(),
    ensures
        r == is_sec_ending(v@.skip(from as int)),
{
    proof {
        reveal_strlit("");
        reveal_strlit("s");
        reveal_strlit("sec");
        reveal_strlit("secs");
        reveal_strlit("second");
        reveal_strlit("seconds");
        assert(""@ =~= Seq::<char>::empty());
        assert("s"@ =~= seq!['s']);
        assert("sec"@ =~= seq!['s', 'e', 'c']);
        assert("secs"@ =~= seq!['s', 'e', 'c', 's']);
        assert("second"@ =~= seq!['s', 'e', 'c', 'o', 'n', 'd']);
        assert("seconds"@ =~= seq!['s', 'e', 'c', 'o', 'n', 'd', 's']);
    }
    rest_is(v, from, "") || rest_is(v, from, "s") || rest_is(v, from, "sec") || rest_is(
        v,
        from,
        "secs",
    ) || rest_is(v, from, "second") || rest_is(v, from, "seconds")
}

/// Whether `v` begins with the five characters of `w`.
fn starts_with5(v: &Vec<char>, w: &str) -> (r: bool)
    requires
        w@.len() == 5,
    ensures
        r == (v@.len() >= 5 && v@.take(5) == w@),
{
    if v.len() < 5 {
        return false;
    }
    let mut j: usize = 0;
    while j < 5
        invariant
            w@.len() == 5,
            v@.len() >= 5,
            j <= 5,
            forall|k: int| 0 <= k < j ==> v@[k] == w@[k],
        decreases 5 - j,
    {
        if v[j] != w.get_char(j) {
            proof {
                assert(v@.take(5)[j as int] != w@[j as int]);
            }
            return false;
        }
        j = j + 1;
    }
    assert(v@.take(5) =~= w@);
    true
}

/// Classifies a unit spelling into its family, without regard to ASCII case.
/// Only whole spellings count: `ms` and `milli`, `millis`, `millisec`,
/// `millisecs`, `millisecond`, `milliseconds`; the same six forms on `micro`;
/// `s`, `sec`, `secs`, `second`, `seconds`. Every other string gives `None`.
pub fn unit_family(unit: &str) -> (r: Option<TimeUnit>)
    ensures
        r == family_of(unit@),
{
    let v = lowered_chars(unit);
    proof {
        reveal_strlit("ms");
        reveal_strlit("milli");
        reveal_strlit("micro");
        assert("ms"@ =~= seq!['m', 's']);
        assert("milli"@ =~= milli_prefix());
        assert("micro"@ =~= micro_prefix());
    }
    let milli = rest_is(&v, 0, "ms") || (starts_with5(&v, "milli") && rest_is_sec_ending(&v, 5));
    if milli {
        assert(v@.skip(0) =~= v@);
        return Some(TimeUnit::Milliseconds);
    }
    assert(v@.skip(0) =~= v@);
    if starts_with5(&v, "micro") && rest_is_sec_ending(&v, 5) {
        return Some(TimeUnit::Microseconds);
    }
    if v.len() > 0 && rest_is_sec_ending(&v, 0) {
        return Some(TimeUnit::Seconds);
    }
    None
}

/// Microseconds in one unit of each family.
pub open spec fn micros_per(f: TimeUnit) -> nat {
    match f {
        TimeUnit::Seconds => 1_000_000,
        TimeUnit::Milliseconds => 1_000,
        TimeUnit::Microseconds => 1,
    }
}

/// The largest span an `Elapsed` holds: `u64::MAX` seconds.
pub open spec fn max_micros() -> nat {
    (u64::MAX as nat) * 1_000_000
}

/// A span of time at microsecond resolution, at most `u64::MAX` seconds long.
#[derive(Clone, Copy, Debug, PartialEq, Eq, Structural)]
pub struct Elapsed {
    micros: u128,
}

impl View for Elapsed {
    type V = nat;

    /// The span in microseconds.
    closed spec fn view(&self) -> nat {
        self.micros as nat
    }
}

impl Elapsed {
    pub closed spec fn wf(&self) -> bool {
        self@ <= max_micros()
    }

    /// `n` units of family `f`.
    pub fn from_count(n: u64, f: TimeUnit) -> (r: Elapsed)
        ensures
            r.wf(),
            r@ == (n as nat) * micros_per(f),
    {
        let per: u128 = match f {
            TimeUnit::Seconds => 1_000_000,
            TimeUnit::Milliseconds => 1_000,
            TimeUnit::Microseconds => 1,
        };
        assert((n as nat) * micros_per(f) <= max_micros()) by (nonlinear_arith)
            requires
                n <= u64::MAX,
                micros_per(f) <= 1_000_000,
        ;
        Elapsed { micros: (n as u128) * per }
    }

    pub fn from_secs(n: u64) -> (r: Elapsed)
        ensures
            r.wf(),
            r@ == (n as nat) * 1_000_000,
    {
        Elapsed::from_count(n, TimeUnit::Seconds)
    }

    pub fn from_millis(n: u64) -> (r: Elapsed)
        ensures
            r.wf(),
            r@ == (n as nat) * 1_000,
    {
        Elapsed::from_count(n, TimeUnit::Milliseconds)
    }

    pub fn from_micros(n: u64) -> (r: Elapsed)
        ensures
            r.wf(),
            r@ == n as nat,
    {
        Elapsed::from_count(n, TimeUnit::Microseconds)
    }

    pub fn as_micros(&self) -> (r: u128)
        ensures
            r as nat == self@,
    {
        self.micros
    }

    /// Whole seconds.
    pub fn as_secs(&self) -> (r: u64)
        requires
            self.wf(),
        ensures
            r as nat == self@ / 1_000_000,
    {
        assert(self.micros / 1_000_000 <= u64::MAX) by (nonlinear_arith)
            requires
                self.micros <= (u64::MAX as nat) * 1_000_000,
        ;
        (self.micros / 1_000_000) as u64
    }

    /// The part below one second, in nanoseconds: always a multiple of 1000
    /// and below one billion.
    pub fn subsec_nanos(&self) -> (r: u32)
        ensures
            r as nat == (self@ % 1_000_000) * 1_000,
            r < 1_000_000_000,
    {
        ((self.micros % 1_000_000) as u32) * 1_000
    }
}

/// What `str::to_lowercase` gives for a string.
pub uninterp spec fn lowercase_of(s: Seq<char>) -> Seq<char>;

/// Relies on `str::to_lowercase`: the result depends on the characters alone.
#[verifier::external_body]
fn to_lowercase(s: &str) -> (r: String)
    ensures
        r@ == lowercase_of(s@),
{
    s.to_lowercase()
}

/// The spelling `convert_time` reads: the given one, else `sec`.
pub open spec fn spelling_or_sec(unit: Option<&str>) -> Seq<char> {
    match unit {
        Some(u) => u@,
        None => seq!['s', 'e', 'c'],
    }
}

pub open spec fn invalid_unit_text(lowered: Seq<char>) -> Seq<char> {
    "Invalid unit '"@ + lowered
        + "'. Please specify one of: milli, micro, or leave empty for seconds."@
}

/// Reads `time_value` in the family that `unit` spells (seconds when `unit`
/// is `None`). An unknown spelling is an error whose message quotes it,
/// lower-cased.
pub fn convert_time(time_value: u64, unit: Option<&str>) -> (r: Result<Elapsed, String>)
    ensures
        match family_of(spelling_or_sec(unit)) {
            Some(f) => r matches Ok(e) && e.wf() && e@ == (time_value as nat) * micros_per(f),
            None => r matches Err(msg) && msg@ == invalid_unit_text(
                lowercase_of(spelling_or_sec(unit)),
            ),
        },
{
    let spelled: &str = match unit {
        Some(u) => u,
        None => "sec",
    };
    proof {
        reveal_strlit("sec");
        assert("sec"@ =~= seq!['s', 'e', 'c']);
    }
    match unit_family(spelled) {
        Some(f) => Ok(Elapsed::from_count(time_value, f)),
        None => {
            let lowered = to_lowercase(spelled);
            let mut msg = String::from_str("Invalid unit '");
            msg.append(lowered.as_str());
            msg.append("'. Please specify one of: milli, micro, or leave empty for seconds.");
            Err(msg)
        },
    }
}

} // verus!
