//! Value parsers for durations written like "500ms" or "4h15m".
use vstd::prelude::*;
use core::time::Duration;
use chrono::TimeDelta;
use crate::text::{string_of, concat_str};
use crate::shell::{debug_str, debug_quoted};

verus! {

#[verifier::external_type_specification]
#[verifier::external_body]
pub struct ExTimeDelta(TimeDelta);

/// What `go_parse_duration::parse_duration` returns for a text: the number of nanoseconds,
/// or the `Debug` rendering of its error.
pub uninterp spec fn go_parse_result(s: Seq<char>) -> Result<i64, Seq<char>>;

/// One more than the largest `i64`: the first total that no longer fits.
pub open spec fn nanos_cap() -> int {
    9_223_372_036_854_775_808
}

/// `x`, or `nanos_cap()` if `x` is larger.
pub open spec fn capped(x: int) -> int {
    if x > nanos_cap() {
        nanos_cap()
    } else {
        x
    }
}

/// Whether a character is an ASCII decimal digit.
pub open spec fn is_digit(c: char) -> bool {
    '0' <= c && c <= '9'
}

/// The number of nanoseconds of a unit of `go-parse-duration`, written in ASCII; zero for
/// any other text (which that crate rejects as an unknown unit).
pub open spec fn unit_nanos(u: Seq<char>) -> int {
    if u == seq!['n', 's'] {
        1
    } else if u == seq!['u', 's'] {
        1_000
    } else if u == seq!['m', 's'] {
        1_000_000
    } else if u == seq!['s'] {
        1_000_000_000
    } else if u == seq!['m'] {
        60_000_000_000
    } else if u == seq!['h'] {
        3_600_000_000_000
    } else {
        0
    }
}

/// `(1 << 62) / 10`: the largest value whose digits `go-parse-duration` still extends by one
/// more digit, in an integer part and in a fraction.
pub open spec fn digits_limit() -> int {
    461_168_601_842_738_790
}

/// `1 << 62`: the limit that `go-parse-duration` puts on a number times its unit.
pub open spec fn value_limit() -> int {
    4_611_686_018_427_387_904
}

/// The number of bytes of a character in UTF-8.
pub open spec fn char_bytes(c: char) -> int {
    if (c as int) < 0x80 {
        1
    } else if (c as int) < 0x800 {
        2
    } else if (c as int) < 0x10000 {
        3
    } else {
        4
    }
}

/// The number of bytes of the first `j` characters of `run`, in UTF-8.
pub open spec fn prefix_bytes(run: Seq<char>, j: int) -> int
    decreases j,
{
    if j <= 0 {
        0
    } else {
        prefix_bytes(run, j - 1) + char_bytes(run[j - 1])
    }
}

/// Whether the byte position `k` of `run` falls between two characters.
pub open spec fn on_char_boundary(run: Seq<char>, k: int) -> bool {
    exists|j: int| 0 <= j <= run.len() && prefix_bytes(run, j) == k
}

/// Whether the first bytes of a unit, as many as it has characters, spell `µs` (with the
/// micro sign or the Greek mu).
pub open spec fn reads_as_micros(run: Seq<char>) -> bool {
    run.len() == 3 && (run[0] == '\u{b5}' || run[0] == '\u{3bc}') && run[1] == 's'
}

/// How far a reading of a duration text has come, in the steps of `go-parse-duration`.
#[derive(PartialEq, Eq, Structural, Clone, Copy)]
pub enum ScanMode {
    /// Nothing read yet.
    Start,
    /// A sign read.
    Signed,
    /// In the digits and dot of a number.
    Number,
    /// In the unit after a number.
    Unit,
    /// The parser returns an error by here.
    Refused,
    /// The parser panics or does not return by here.
    Stuck,
}

/// The state of a reading of a duration text, to foresee whether `go-parse-duration`
/// returns on it: the current number's integer part and fraction (capped at `nanos_cap()`),
/// whether it has a dot, a digit, a non-zero fraction digit; where its unit starts and
/// whether the unit is ASCII so far; and an upper bound of the parser's running total.
pub struct DurationScan {
    pub mode: ScanMode,
    pub int_part: int,
    pub frac_part: int,
    pub dotted: bool,
    pub digits: bool,
    pub frac_nonzero: bool,
    pub unit_start: int,
    pub unit_ascii: bool,
    pub total: int,
}

/// The state before the first character.
pub open spec fn scan_start() -> DurationScan {
    DurationScan {
        mode: ScanMode::Start,
        int_part: 0,
        frac_part: 0,
        dotted: false,
        digits: false,
        frac_nonzero: false,
        unit_start: 0,
        unit_ascii: true,
        total: 0,
    }
}

/// A character of a number: a digit extends the integer part (the parser refuses one more
/// digit after `digits_limit()`) or the fraction (where the parser's loop stops advancing
/// after `digits_limit()` and never ends); a second dot is refused (no unit); any other
/// character starts the unit, which needs a digit before it.
pub open spec fn number_char(st: DurationScan, c: char, i: int) -> DurationScan {
    if is_digit(c) {
        let d = c as int - '0' as int;
        if !st.dotted {
            if st.int_part > digits_limit() {
                DurationScan { mode: ScanMode::Refused, ..st }
            } else {
                DurationScan { int_part: capped(st.int_part * 10 + d), digits: true, ..st }
            }
        } else if st.frac_part > digits_limit() {
            DurationScan { mode: ScanMode::Stuck, ..st }
        } else {
            DurationScan {
                frac_part: capped(st.frac_part * 10 + d),
                digits: true,
                frac_nonzero: st.frac_nonzero || d > 0,
                ..st
            }
        }
    } else if c == '.' {
        if st.dotted {
            DurationScan { mode: ScanMode::Refused, ..st }
        } else {
            DurationScan { dotted: true, ..st }
        }
    } else if !st.digits {
        DurationScan { mode: ScanMode::Refused, ..st }
    } else {
        DurationScan { mode: ScanMode::Unit, unit_start: i, unit_ascii: (c as int) < 0x80, ..st }
    }
}

/// The start of a number at character `c`: it must be a digit or a dot.
pub open spec fn begin_number(st: DurationScan, c: char, i: int) -> DurationScan {
    if is_digit(c) || c == '.' {
        number_char(
            DurationScan {
                mode: ScanMode::Number,
                int_part: 0,
                frac_part: 0,
                dotted: false,
                digits: false,
                frac_nonzero: false,
                ..st
            },
            c,
            i,
        )
    } else {
        DurationScan { mode: ScanMode::Refused, ..st }
    }
}

/// The current number with a unit of `w` nanoseconds: refused past `value_limit()`;
/// otherwise it adds between integer part times `w` and that plus `w` (for a fraction) to
/// the running total, which must stay below `nanos_cap()` (else the parser's total may
/// overflow).
pub open spec fn add_number(st: DurationScan, w: int) -> DurationScan {
    if st.int_part > value_limit() / w {
        DurationScan { mode: ScanMode::Refused, ..st }
    } else {
        let hi = st.int_part * w + if st.frac_nonzero {
            w
        } else {
            0
        };
        if st.total + hi < nanos_cap() {
            DurationScan { total: st.total + hi, ..st }
        } else {
            DurationScan { mode: ScanMode::Stuck, ..st }
        }
    }
}

/// The end of a unit, which runs to `end`; `at_end` if that is the end of the text. An ASCII
/// unit must be a known one. The parser reads a unit by character count but slices it by
/// bytes: a unit with a wider character makes it panic where it runs to the end of the text
/// or where its character count falls inside a character; elsewhere it reads fewer
/// characters than the unit has, which is unknown unless it reads `µs`, and then the next
/// number starts inside the unit and is refused.
pub open spec fn close_unit(s: Seq<char>, st: DurationScan, end: int, at_end: bool) -> DurationScan {
    let run = s.subrange(st.unit_start, end);
    if st.unit_ascii {
        let w = unit_nanos(run);
        if w == 0 {
            DurationScan { mode: ScanMode::Refused, ..st }
        } else {
            add_number(st, w)
        }
    } else if at_end || !on_char_boundary(run, run.len() as int) {
        DurationScan { mode: ScanMode::Stuck, ..st }
    } else if reads_as_micros(run) {
        let t = add_number(st, 1000);
        if t.mode == ScanMode::Stuck {
            t
        } else {
            DurationScan { mode: ScanMode::Refused, ..t }
        }
    } else {
        DurationScan { mode: ScanMode::Refused, ..st }
    }
}

/// The reading state after the character at `i`.
pub open spec fn scan_step(s: Seq<char>, st: DurationScan, i: int) -> DurationScan {
    let c = s[i];
    match st.mode {
        ScanMode::Start => if c == '+' || c == '-' {
            DurationScan { mode: ScanMode::Signed, ..st }
        } else {
            begin_number(st, c, i)
        },
        ScanMode::Signed => begin_number(st, c, i),
        ScanMode::Number => number_char(st, c, i),
        ScanMode::Unit => if is_digit(c) || c == '.' {
            let t = close_unit(s, st, i, false);
            if t.mode == ScanMode::Unit {
                begin_number(t, c, i)
            } else {
                t
            }
        } else {
            DurationScan { unit_ascii: st.unit_ascii && (c as int) < 0x80, ..st }
        },
        _ => st,
    }
}

/// The reading state after the first `i` characters.
pub open spec fn duration_scan(s: Seq<char>, i: int) -> DurationScan
    decreases i,
{
    if i <= 0 {
        scan_start()
    } else {
        scan_step(s, duration_scan(s, i - 1), i - 1)
    }
}

/// The reading state at the end of the text: a number without a unit is refused, and a unit
/// is closed.
pub open spec fn duration_final(s: Seq<char>) -> DurationScan {
    let st = duration_scan(s, s.len() as int);
    match st.mode {
        ScanMode::Unit => close_unit(s, st, s.len() as int, true),
        ScanMode::Stuck => st,
        _ => DurationScan { mode: ScanMode::Refused, ..st },
    }
}

/// Whether `go_parse_duration::parse_duration` is handed this text: whether, read in its
/// steps, it returns (a value or an error) without panicking or looping forever. The one
/// approximation: a running total within one unit of `i64::MAX` whose last number has a
/// fraction counts as overflowing, since the parser rounds that fraction in floating point.
pub open spec fn duration_text_admitted(s: Seq<char>) -> bool {
    duration_final(s).mode != ScanMode::Stuck
}

/// The error text for a duration text that is not handed to the parser: the `Debug` form
/// of the crate's `ParseError("invalid duration: ...")`.
pub open spec fn rejected_duration_text(s: Seq<char>) -> Seq<char> {
    "ParseError("@ + debug_quoted("invalid duration: "@ + s) + ")"@
}

fn unit_nanos_at(s: &str, start: usize, end: usize) -> (r: u128)
    requires
        start <= end <= s@.len(),
    ensures
        r == unit_nanos(s@.subrange(start as int, end as int)),
{
    let ghost u = s@.subrange(start as int, end as int);
    assert(seq!['n', 's'].len() == 2 && seq!['u', 's'].len() == 2 && seq!['m', 's'].len() == 2);
    assert(seq!['s'].len() == 1 && seq!['m'].len() == 1 && seq!['h'].len() == 1);
    assert(seq!['s'][0] == 's' && seq!['m'][0] == 'm' && seq!['h'][0] == 'h');
    if end - start == 1 {
        let c = s.get_char(start);
        assert(u =~= seq![c]);
        if c == 's' {
            1_000_000_000
        } else if c == 'm' {
            60_000_000_000
        } else if c == 'h' {
            3_600_000_000_000
        } else {
            assert(u[0] == c);
            assert(seq!['n', 's'].len() == 2 && seq!['u', 's'].len() == 2 && seq!['m', 's'].len() == 2);
            assert(seq!['s'][0] == 's' && seq!['m'][0] == 'm' && seq!['h'][0] == 'h');
            0
        }
    } else if end - start == 2 {
        let a = s.get_char(start);
        let b = s.get_char(start + 1);
        assert(u =~= seq![a, b]);
        if b == 's' && a == 'n' {
            1
        } else if b == 's' && a == 'u' {
            1_000
        } else if b == 's' && a == 'm' {
            1_000_000
        } else {
            assert(u[0] == a && u[1] == b);
            assert(seq!['s'].len() == 1 && seq!['m'].len() == 1 && seq!['h'].len() == 1);
            assert(seq!['n', 's'][0] == 'n' && seq!['n', 's'][1] == 's');
            assert(seq!['u', 's'][0] == 'u' && seq!['u', 's'][1] == 's');
            assert(seq!['m', 's'][0] == 'm' && seq!['m', 's'][1] == 's');
            0
        }
    } else {
        assert(u.len() != 1 && u.len() != 2);
        assert(seq!['n', 's'].len() == 2 && seq!['u', 's'].len() == 2 && seq!['m', 's'].len() == 2);
        assert(seq!['s'].len() == 1 && seq!['m'].len() == 1 && seq!['h'].len() == 1);
        0
    }
}

fn cap_u128(x: u128) -> (r: u128)
    ensures
        r == capped(x as int),
{
    if x > 9_223_372_036_854_775_808 {
        9_223_372_036_854_775_808
    } else {
        x
    }
}

fn char_bytes_of(c: char) -> (r: u128)
    ensures
        r == char_bytes(c),
{
    let n = c as u32;
    if n < 0x80 {
        1
    } else if n < 0x800 {
        2
    } else if n < 0x10000 {
        3
    } else {
        4
    }
}

proof fn lemma_prefix_bytes_grow(run: Seq<char>, j: int)
    requires
        0 <= j,
    ensures
        prefix_bytes(run, j) >= j,
    decreases j,
{
    if j > 0 {
        lemma_prefix_bytes_grow(run, j - 1);
    }
}

proof fn lemma_prefix_bytes_mono(run: Seq<char>, a: int, b: int)
    requires
        0 <= a <= b,
    ensures
        prefix_bytes(run, a) + (b - a) <= prefix_bytes(run, b),
    decreases b - a,
{
    if a < b {
        lemma_prefix_bytes_mono(run, a, b - 1);
    }
}

fn boundary_at_len(s: &str, start: usize, end: usize) -> (r: bool)
    requires
        start <= end <= s@.len(),
    ensures
        r == on_char_boundary(s@.subrange(start as int, end as int), (end - start) as int),
{
    let ghost run = s@.subrange(start as int, end as int);
    let k: u128 = (end - start) as u128;
    let mut bytes: u128 = 0;
    let mut j: usize = 0;
    while j < end - start && bytes < k
        invariant
            start <= end <= s@.len(),
            run == s@.subrange(start as int, end as int),
            k == run.len(),
            j <= run.len(),
            bytes == prefix_bytes(run, j as int),
            forall|q: int| 0 <= q < j ==> prefix_bytes(run, q) < k,
        decreases end - start - j,
    {
        assert(run[j as int] == s@[start + j]);
        proof {
            lemma_prefix_bytes_grow(run, j as int);
        }
        bytes = bytes + char_bytes_of(s.get_char(start + j));
        j = j + 1;
    }
    if bytes == k {
        return true;
    }
    proof {
        assert forall|q: int| 0 <= q <= run.len() implies prefix_bytes(run, q) != k by {
            if q > j {
                lemma_prefix_bytes_mono(run, j as int, q);
            }
            if q == j {
            }
            if j == run.len() && q < j {
            }
        }
    }
    false
}

/// The reading state of `duration_scan`, held in machine integers.
struct ScanState {
    mode: ScanMode,
    int_part: u128,
    frac_part: u128,
    dotted: bool,
    digits: bool,
    frac_nonzero: bool,
    unit_start: usize,
    unit_ascii: bool,
    total: u128,
}

impl View for ScanState {
    type V = DurationScan;

    closed spec fn view(&self) -> DurationScan {
        DurationScan {
            mode: self.mode,
            int_part: self.int_part as int,
            frac_part: self.frac_part as int,
            dotted: self.dotted,
            digits: self.digits,
            frac_nonzero: self.frac_nonzero,
            unit_start: self.unit_start as int,
            unit_ascii: self.unit_ascii,
            total: self.total as int,
        }
    }
}

impl ScanState {
    spec fn bounded(&self, i: int) -> bool {
        &&& self.int_part <= nanos_cap()
        &&& self.frac_part <= nanos_cap()
        &&& self.total < nanos_cap()
        &&& self.unit_start <= i
    }
}

fn number_char_exec(st: ScanState, c: char, i: usize) -> (r: ScanState)
    requires
        st.bounded(i as int),
    ensures
        r@ == number_char(st@, c, i as int),
        r.bounded(i as int),
{
    if '0' <= c && c <= '9' {
        let d = (c as u32 - '0' as u32) as u128;
        if !st.dotted {
            if st.int_part > 461_168_601_842_738_790 {
                ScanState { mode: ScanMode::Refused, ..st }
            } else {
                ScanState { int_part: cap_u128(st.int_part * 10 + d), digits: true, ..st }
            }
        } else if st.frac_part > 461_168_601_842_738_790 {
            ScanState { mode: ScanMode::Stuck, ..st }
        } else {
            ScanState {
                frac_part: cap_u128(st.frac_part * 10 + d),
                digits: true,
                frac_nonzero: st.frac_nonzero || d > 0,
                ..st
            }
        }
    } else if c == '.' {
        if st.dotted {
            ScanState { mode: ScanMode::Refused, ..st }
        } else {
            ScanState { dotted: true, ..st }
        }
    } else if !st.digits {
        ScanState { mode: ScanMode::Refused, ..st }
    } else {
        ScanState { mode: ScanMode::Unit, unit_start: i, unit_ascii: (c as u32) < 0x80, ..st }
    }
}

fn begin_number_exec(st: ScanState, c: char, i: usize) -> (r: ScanState)
    requires
        st.bounded(i as int),
    ensures
        r@ == begin_number(st@, c, i as int),
        r.bounded(i as int),
{
    if ('0' <= c && c <= '9') || c == '.' {
        number_char_exec(
            ScanState {
                mode: ScanMode::Number,
                int_part: 0,
                frac_part: 0,
                dotted: false,
                digits: false,
                frac_nonzero: false,
                ..st
            },
            c,
            i,
        )
    } else {
        ScanState { mode: ScanMode::Refused, ..st }
    }
}

fn add_number_exec(st: ScanState, w: u128, i: usize) -> (r: ScanState)
    requires
        st.bounded(i as int),
        1 <= w <= 3_600_000_000_000,
    ensures
        r@ == add_number(st@, w as int),
        r.bounded(i as int),
{
    if st.int_part > 4_611_686_018_427_387_904 / w {
        ScanState { mode: ScanMode::Refused, ..st }
    } else {
        assert(st.int_part * w <= 4_611_686_018_427_387_904u128) by (nonlinear_arith)
            requires
                st.int_part <= 4_611_686_018_427_387_904u128 / w,
                w >= 1,
        ;
        let hi = st.int_part * w + if st.frac_nonzero {
            w
        } else {
            0
        };
        if st.total + hi < 9_223_372_036_854_775_808 {
            ScanState { total: st.total + hi, ..st }
        } else {
            ScanState { mode: ScanMode::Stuck, ..st }
        }
    }
}

fn close_unit_exec(s: &str, st: ScanState, end: usize, at_end: bool) -> (r: ScanState)
    requires
        st.bounded(end as int),
        end <= s@.len(),
    ensures
        r@ == close_unit(s@, st@, end as int, at_end),
        r.bounded(end as int),
{
    let ghost run = s@.subrange(st.unit_start as int, end as int);
    if st.unit_ascii {
        let w = unit_nanos_at(s, st.unit_start, end);
        if w == 0 {
            ScanState { mode: ScanMode::Refused, ..st }
        } else {
            add_number_exec(st, w, end)
        }
    } else if at_end || !boundary_at_len(s, st.unit_start, end) {
        ScanState { mode: ScanMode::Stuck, ..st }
    } else {
        let micros = end - st.unit_start == 3 && {
            let c0 = s.get_char(st.unit_start);
            (c0 == '\u{b5}' || c0 == '\u{3bc}') && s.get_char(st.unit_start + 1) == 's'
        };
        assert(micros == reads_as_micros(run));
        if micros {
            let t = add_number_exec(st, 1000, end);
            if t.mode == ScanMode::Stuck {
                t
            } else {
                ScanState { mode: ScanMode::Refused, ..t }
            }
        } else {
            ScanState { mode: ScanMode::Refused, ..st }
        }
    }
}

fn scan_step_exec(s: &str, st: ScanState, i: usize) -> (r: ScanState)
    requires
        i < s@.len(),
        st.bounded(i as int),
    ensures
        r@ == scan_step(s@, st@, i as int),
        r.bounded(i as int + 1),
{
    let c = s.get_char(i);
    match st.mode {
        ScanMode::Start => if c == '+' || c == '-' {
            ScanState { mode: ScanMode::Signed, ..st }
        } else {
            begin_number_exec(st, c, i)
        },
        ScanMode::Signed => begin_number_exec(st, c, i),
        ScanMode::Number => number_char_exec(st, c, i),
        ScanMode::Unit => if ('0' <= c && c <= '9') || c == '.' {
            let t = close_unit_exec(s, st, i, false);
            if t.mode == ScanMode::Unit {
                begin_number_exec(t, c, i)
            } else {
                t
            }
        } else {
            ScanState { unit_ascii: st.unit_ascii && (c as u32) < 0x80, ..st }
        },
        _ => st,
    }
}

/// Whether this text is handed to `go_parse_duration::parse_duration` (see
/// `duration_text_admitted`).
pub fn duration_text_ok(s: &str) -> (r: bool)
    ensures
        r == duration_text_admitted(s@),
{
    let n = s.unicode_len();
    let mut st = ScanState {
        mode: ScanMode::Start,
        int_part: 0,
        frac_part: 0,
        dotted: false,
        digits: false,
        frac_nonzero: false,
        unit_start: 0,
        unit_ascii: true,
        total: 0,
    };
    let mut i: usize = 0;
    while i < n
        invariant
            n == s@.len(),
            i <= n,
            st@ == duration_scan(s@, i as int),
            st.bounded(i as int),
        decreases n - i,
    {
        st = scan_step_exec(s, st, i);
        i = i + 1;
    }
    let fin = match st.mode {
        ScanMode::Unit => close_unit_exec(s, st, n, true),
        ScanMode::Stuck => st,
        _ => ScanState { mode: ScanMode::Refused, ..st },
    };
    fin.mode != ScanMode::Stuck
}

fn rejected_duration(s: &str) -> (r: String)
    ensures
        r@ == rejected_duration_text(s@),
{
    let inner = concat_str("invalid duration: ", s);
    let q = debug_str(inner.as_str());
    let mut out = string_of("ParseError(");
    out.append(q.as_str());
    out.append(")");
    out
}

/// `go_parse_duration::parse_duration`: parses a Go-style duration (units ns, us, µs, ms, s,
/// m, h) into nanoseconds. The contract names the result; an error is rendered with `Debug`.
/// It is handed only texts on which it returns (see `duration_text_admitted`).
#[verifier::external_body]
fn go_parse(s: &str) -> (r: Result<i64, String>)
    requires
        duration_text_admitted(s@),
    ensures
        match r {
            Ok(n) => go_parse_result(s@) == Ok::<i64, Seq<char>>(n),
            Err(m) => go_parse_result(s@) == Err::<i64, Seq<char>>(m@),
        },
{
    go_parse_duration::parse_duration(s).map_err(|e| format!("{e:?}"))
}

/// The duration that std `Duration::from_nanos` makes of a number of nanoseconds.
pub uninterp spec fn duration_from_nanos(nanos: u64) -> Duration;

/// std `Duration::from_nanos`. The contract names the result.
#[verifier::external_body]
fn make_duration(nanos: u64) -> (r: Duration)
    ensures
        r == duration_from_nanos(nanos),
{
    Duration::from_nanos(nanos)
}

/// std `u64::try_from(i64)` with its error rendered by `to_string`: the same number if it
/// is not negative. The text of the error is not stated.
#[verifier::external_body]
fn nanos_to_u64(n: i64) -> (r: Result<u64, String>)
    ensures
        r is Ok <==> n >= 0,
        r matches Ok(u) ==> u == n,
{
    u64::try_from(n).map_err(|e| e.to_string())
}

/// The delta that `chrono::TimeDelta::new` makes of seconds and nanoseconds.
pub uninterp spec fn time_delta_of(secs: i64, nanos: u32) -> TimeDelta;

/// The seconds bound of a `chrono::TimeDelta`: `i64::MAX` milliseconds, in whole seconds.
pub open spec fn time_delta_max_secs() -> int {
    9_223_372_036_854_775
}

/// Whether `chrono::TimeDelta::new` accepts these seconds and nanoseconds: the nanoseconds
/// are under one second and the delta lies within ±`i64::MAX` milliseconds.
pub open spec fn time_delta_in_range(secs: i64, nanos: u32) -> bool {
    &&& nanos < 1_000_000_000
    &&& -time_delta_max_secs() - 1 <= secs <= time_delta_max_secs()
    &&& secs == time_delta_max_secs() ==> nanos <= 807_000_000
    &&& secs == -time_delta_max_secs() - 1 ==> nanos >= 193_000_000
}

/// `chrono::TimeDelta::new`: a delta when it is in range (see `time_delta_in_range`), else
/// none.
#[verifier::external_body]
fn make_time_delta(secs: i64, nanos: u32) -> (r: Option<TimeDelta>)
    ensures
        r is Some <==> time_delta_in_range(secs, nanos),
        r matches Some(t) ==> t == time_delta_of(secs, nanos),
{
    TimeDelta::new(secs, nanos)
}

/// Parses a duration from text with units like d, h, m, s, ms, ns, e.g. "500ms" or "4h15m"
/// (the format of the `go-parse-duration` crate). A negative duration is an error.
pub fn parse_duration(s: &str) -> (r: Result<Duration, String>)
    ensures
        !duration_text_admitted(s@) ==> (r matches Err(e) && e@ == rejected_duration_text(s@)),
        duration_text_admitted(s@) ==> match go_parse_result(s@) {
            Ok(n) => if n >= 0 {
                r == Ok::<Duration, String>(duration_from_nanos(n as u64))
            } else {
                r is Err
            },
            Err(m) => r matches Err(e) && e@ == m,
        },
{
    if !duration_text_ok(s) {
        return Err(rejected_duration(s));
    }
    let nanos = match go_parse(s) {
        Ok(n) => n,
        Err(e) => {
            return Err(e);
        },
    };
    let nanos = match nanos_to_u64(nanos) {
        Ok(u) => u,
        Err(e) => {
            return Err(e);
        },
    };
    Ok(make_duration(nanos))
}

/// Parses a `chrono::TimeDelta` from text in the same format as `parse_duration`. Negative
/// deltas are allowed; the nanoseconds are split into whole seconds (rounded down) and the
/// remaining nanoseconds.
pub fn parse_time_delta(s: &str) -> (r: Result<TimeDelta, String>)
    ensures
        !duration_text_admitted(s@) ==> (r matches Err(e) && e@ == rejected_duration_text(s@)),
        duration_text_admitted(s@) ==> match go_parse_result(s@) {
            Ok(n) => {
                let secs = n / 1_000_000_000;
                let sub = n % 1_000_000_000;
                if time_delta_in_range(secs as i64, sub as u32) {
                    r == Ok::<TimeDelta, String>(time_delta_of(secs as i64, sub as u32))
                } else {
                    r matches Err(e) && e@ == "invalid time delta"@
                }
            },
            Err(m) => r matches Err(e) && e@ == m,
        },
{
    if !duration_text_ok(s) {
        return Err(rejected_duration(s));
    }
    let nanos = match go_parse(s) {
        Ok(n) => n,
        Err(e) => {
            return Err(e);
        },
    };
    let billion: i64 = 1_000_000_000;
    let mut secs: i64 = nanos / billion;
    let mut sub: i64 = nanos % billion;
    if sub < 0 {
        secs = secs - 1;
        sub = sub + billion;
    }
    assert(secs == nanos / 1_000_000_000 && sub == nanos % 1_000_000_000) by (nonlinear_arith)
        requires
            secs * 1_000_000_000 + sub == nanos,
            0 <= sub < 1_000_000_000,
    {
    }
    match make_time_delta(secs, sub as u32) {
        Some(t) => Ok(t),
        None => Err(string_of("invalid time delta")),
    }
}

} // verus!
