use vstd::prelude::*;

verus! {

/// The decimal digit for `d < 10`.
pub open spec fn digit_char(d: nat) -> char {
    ((d + 48) as u8) as char
}

/// The decimal writing of `n`, without leading zeros.
pub open spec fn decimal(n: nat) -> Seq<char>
    decreases n,
{
    if n < 10 {
        seq![digit_char(n)]
    } else {
        decimal(n / 10).push(digit_char(n % 10))
    }
}

/// Whether the plural marker `(s)` starts at position `i` of `s`.
pub open spec fn marker_at(s: Seq<char>, i: int) -> bool {
    0 <= i && i + 3 <= s.len() && s[i] == '(' && s[i + 1] == 's' && s[i + 2] == ')'
}

/// `s` with every plural marker, taken left to right, replaced by `rep`.
pub open spec fn replace_markers(s: Seq<char>, rep: Seq<char>) -> Seq<char>
    decreases s.len(),
{
    if s.len() == 0 {
        s
    } else if marker_at(s, 0) {
        rep + replace_markers(s.skip(3), rep)
    } else {
        seq![s[0]] + replace_markers(s.skip(1), rep)
    }
}

/// The label with its markers removed, for a count of one.
pub open spec fn singular(label: Seq<char>) -> Seq<char> {
    replace_markers(label, Seq::<char>::empty())
}

/// The label with each marker turned into `s`, for any other count.
pub open spec fn plural(label: Seq<char>) -> Seq<char> {
    replace_markers(label, seq!['s'])
}

pub open spec fn label_for_count(label: Seq<char>, count: nat) -> Seq<char> {
    if count == 1 {
        singular(label)
    } else {
        plural(label)
    }
}

/// Whether the placeholder `{}` starts at position `i` of `s`.
pub open spec fn placeholder_at(s: Seq<char>, i: int) -> bool {
    0 <= i && i + 2 <= s.len() && s[i] == '{' && s[i + 1] == '}'
}

/// `s` with its first placeholder replaced by `rep`; `s` itself when it has none.
pub open spec fn fill_first(s: Seq<char>, rep: Seq<char>) -> Seq<char>
    decreases s.len(),
{
    if s.len() == 0 {
        s
    } else if placeholder_at(s, 0) {
        rep + s.skip(2)
    } else {
        seq![s[0]] + fill_first(s.skip(1), rep)
    }
}

/// The template with its first placeholder filled by `first` and its second
/// by `second`, by position: text put in the first slot is never read again.
pub open spec fn fill_two(template: Seq<char>, first: Seq<char>, second: Seq<char>) -> Seq<char>
    decreases template.len(),
{
    if template.len() == 0 {
        template
    } else if placeholder_at(template, 0) {
        first + fill_first(template.skip(2), second)
    } else {
        seq![template[0]] + fill_two(template.skip(1), first, second)
    }
}

/// The number of placeholders in `s`, counted left to right without overlap.
pub open spec fn placeholders(s: Seq<char>) -> nat
    decreases s.len(),
{
    if s.len() == 0 {
        0
    } else if placeholder_at(s, 0) {
        1 + placeholders(s.skip(2))
    } else {
        placeholders(s.skip(1))
    }
}

/// The one-character string for the digit `d`.
fn digit_str(d: u8) -> (r: &'static str)
    requires
        d < 10,
    ensures
        r@ == seq![digit_char(d as nat)],
{
    let digits = "0123456789";
    proof {
        reveal_strlit("0123456789");
    }
    let r = digits.substring_char(d as usize, d as usize + 1);
    assert(r@ =~= seq![digit_char(d as nat)]);
    r
}

/// The decimal writing of `n`.
pub fn decimal_string(n: u128) -> (r: String)
    ensures
        r@ == decimal(n as nat),
    decreases n,
{
    if n < 10 {
        String::from_str(digit_str(n as u8))
    } else {
        let mut s = decimal_string(n / 10);
        s.append(digit_str((n % 10) as u8));
        assert(s@ =~= decimal(n as nat));
        s
    }
}

/// A label for `count` items: each `(s)` in it is dropped when `count` is
/// one and becomes `s` otherwise.
pub fn render_label(label: &str, count: u128) -> (r: String)
    ensures
        count == 1 ==> r@ == singular(label@),
        count != 1 ==> r@ == plural(label@),
{
    let rep: &str = if count == 1 {
        ""
    } else {
        "s"
    };
    proof {
        reveal_strlit("");
        reveal_strlit("s");
        assert(""@ =~= Seq::<char>::empty());
        assert("s"@ =~= seq!['s']);
    }
    let n = label.unicode_len();
    let mut out = String::new();
    let mut i: usize = 0;
    assert(label@.skip(0) =~= label@);
    assert(out@ + replace_markers(label@, rep@) =~= replace_markers(label@, rep@));
    while i < n
        invariant
            n == label@.len(),
            i <= n,
            out@ + replace_markers(label@.skip(i as int), rep@) == replace_markers(label@, rep@),
        decreases n - i,
    {
        let ghost rest = label@.skip(i as int);
        if n - i >= 3 && label.get_char(i) == '(' && label.get_char(i + 1) == 's' && label.get_char(
            i + 2,
        ) == ')' {
            assert(marker_at(rest, 0));
            assert(rest.skip(3) =~= label@.skip(i + 3));
            out.append(rep);
            assert(out@ + replace_markers(label@.skip(i + 3), rep@) =~= replace_markers(
                label@,
                rep@,
            ));
            i = i + 3;
        } else {
            assert(!marker_at(rest, 0));
            assert(rest.skip(1) =~= label@.skip(i + 1));
            let c = label.substring_char(i, i + 1);
            assert(c@ =~= seq![rest[0]]);
            out.append(c);
            assert(out@ + replace_markers(label@.skip(i + 1), rep@) =~= replace_markers(
                label@,
                rep@,
            ));
            i = i + 1;
        }
    }
    assert(label@.skip(n as int) =~= Seq::<char>::empty());
    assert(out@ =~= out@ + replace_markers(label@.skip(n as int), rep@));
    out
}

/// `s` with its first `{}` replaced by `rep`.
fn fill_first_placeholder(s: &str, rep: &str) -> (r: String)
    ensures
        r@ == fill_first(s@, rep@),
{
    let n = s.unicode_len();
    let mut out = String::new();
    let mut i: usize = 0;
    assert(s@.skip(0) =~= s@);
    assert(out@ + fill_first(s@, rep@) =~= fill_first(s@, rep@));
    while i < n
        invariant
            n == s@.len(),
            i <= n,
            out@ + fill_first(s@.skip(i as int), rep@) == fill_first(s@, rep@),
        decreases n - i,
    {
        let ghost rest = s@.skip(i as int);
        if n - i >= 2 && s.get_char(i) == '{' && s.get_char(i + 1) == '}' {
            assert(placeholder_at(rest, 0));
            assert(rest.skip(2) =~= s@.skip(i + 2));
            out.append(rep);
            out.append(s.substring_char(i + 2, n));
            assert(s@.subrange(i + 2, n as int) =~= rest.skip(2));
            assert(out@ =~= fill_first(s@, rep@));
            return out;
        } else {
            assert(!placeholder_at(rest, 0));
            assert(rest.skip(1) =~= s@.skip(i + 1));
            let c = s.substring_char(i, i + 1);
            assert(c@ =~= seq![rest[0]]);
            out.append(c);
            assert(out@ + fill_first(s@.skip(i + 1), rep@) =~= fill_first(s@, rep@));
            i = i + 1;
        }
    }
    assert(s@.skip(n as int) =~= Seq::<char>::empty());
    assert(out@ =~= out@ + fill_first(s@.skip(n as int), rep@));
    out
}

/// The template with its first `{}` filled by `first` and its second by
/// `second`, by position.
pub fn fill_template(template: &str, first: &str, second: &str) -> (r: String)
    ensures
        r@ == fill_two(template@, first@, second@),
{
    let n = template.unicode_len();
    let mut out = String::new();
    let mut i: usize = 0;
    assert(template@.skip(0) =~= template@);
    assert(out@ + fill_two(template@, first@, second@) =~= fill_two(template@, first@, second@));
    while i < n
        invariant
            n == template@.len(),
            i <= n,
            out@ + fill_two(template@.skip(i as int), first@, second@) == fill_two(
                template@,
                first@,
                second@,
            ),
        decreases n - i,
    {
        let ghost rest = template@.skip(i as int);
        if n - i >= 2 && template.get_char(i) == '{' && template.get_char(i + 1) == '}' {
            assert(placeholder_at(rest, 0));
            let tail = template.substring_char(i + 2, n);
            assert(tail@ =~= rest.skip(2));
            let filled = fill_first_placeholder(tail, second);
            out.append(first);
            out.append(filled.as_str());
            assert(out@ =~= fill_two(template@, first@, second@));
            return out;
        } else {
            assert(!placeholder_at(rest, 0));
            assert(rest.skip(1) =~= template@.skip(i + 1));
            let c = template.substring_char(i, i + 1);
            assert(c@ =~= seq![rest[0]]);
            out.append(c);
            assert(out@ + fill_two(template@.skip(i + 1), first@, second@) =~= fill_two(
                template@,
                first@,
                second@,
            ));
            i = i + 1;
        }
    }
    assert(template@.skip(n as int) =~= Seq::<char>::empty());
    assert(out@ =~= out@ + fill_two(template@.skip(n as int), first@, second@));
    out
}

/// How many `{}` the text holds, counted left to right without overlap.
pub fn placeholder_count(s: &str) -> (r: usize)
    ensures
        r as nat == placeholders(s@),
{
    let n = s.unicode_len();
    let mut count: usize = 0;
    let mut i: usize = 0;
    assert(s@.skip(0) =~= s@);
    while i < n
        invariant
            n == s@.len(),
            i <= n,
            count <= i,
            count + placeholders(s@.skip(i as int)) == placeholders(s@),
        decreases n - i,
    {
        let ghost rest = s@.skip(i as int);
        if n - i >= 2 && s.get_char(i) == '{' && s.get_char(i + 1) == '}' {
            assert(placeholder_at(rest, 0));
            assert(rest.skip(2) =~= s@.skip(i + 2));
            count = count + 1;
            i = i + 2;
        } else {
            assert(!placeholder_at(rest, 0));
            assert(rest.skip(1) =~= s@.skip(i + 1));
            i = i + 1;
        }
    }
    assert(s@.skip(n as int) =~= Seq::<char>::empty());
    count
}

} // verus!
