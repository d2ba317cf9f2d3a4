//! The CLI-driven backend's decision logic: which target token the
//! external control utility is invoked on, how its textual output is
//! parsed into a device state, and what volume argument a set-volume
//! request passes.

use vstd::prelude::*;
use vstd::slice::{slice_subrange, slice_to_vec};
use vstd::string::StringExecFns;

use super::{AudioDeviceInfo, AudioDeviceType, BackendError};

verus! {

/// The largest integer part a parsed volume may have: any larger value
/// could not be held in the permille representation.
pub const MAX_VOLUME_INT_PART: u32 = 4294966;

/// ASCII whitespace, the delimiters recognized in the control utility's
/// line-oriented output.
pub open spec fn spec_is_ascii_whitespace(b: u8) -> bool {
    b == 9 || b == 10 || b == 11 || b == 12 || b == 13 || b == 32
}

/// The given bytes with leading ASCII whitespace removed.
pub open spec fn spec_trim_start(s: Seq<u8>) -> Seq<u8>
    decreases s.len(),
{
    if s.len() > 0 && spec_is_ascii_whitespace(s[0]) {
        spec_trim_start(s.drop_first())
    } else {
        s
    }
}

/// The given bytes with trailing ASCII whitespace removed.
pub open spec fn spec_trim_end(s: Seq<u8>) -> Seq<u8>
    decreases s.len(),
{
    if s.len() > 0 && spec_is_ascii_whitespace(s[s.len() - 1]) {
        spec_trim_end(s.drop_last())
    } else {
        s
    }
}

/// The given bytes with leading and trailing ASCII whitespace removed.
pub open spec fn spec_trim(s: Seq<u8>) -> Seq<u8> {
    spec_trim_end(spec_trim_start(s))
}

/// Whether the bytes begin with the label `Volume:` that marks the volume
/// line of the control utility's output.
pub open spec fn spec_has_volume_label(s: Seq<u8>) -> bool {
    s.len() >= 7 && s[0] == 86 && s[1] == 111 && s[2] == 108 && s[3] == 117 && s[4] == 109 && s[5]
        == 101 && s[6] == 58
}

/// The length of the longest whitespace-free prefix of the bytes.
pub open spec fn spec_token_end(s: Seq<u8>) -> int
    decreases s.len(),
{
    if s.len() == 0 || spec_is_ascii_whitespace(s[0]) {
        0
    } else {
        1 + spec_token_end(s.drop_first())
    }
}

/// The first whitespace-delimited token of the bytes (empty when the
/// bytes hold only whitespace).
pub open spec fn spec_first_token(s: Seq<u8>) -> Seq<u8> {
    let t = spec_trim_start(s);
    t.take(spec_token_end(t))
}

/// An ASCII decimal digit.
pub open spec fn spec_is_digit(b: u8) -> bool {
    48 <= b <= 57
}

/// Whether every byte is an ASCII decimal digit.
pub open spec fn spec_all_digits(s: Seq<u8>) -> bool {
    forall|i: int| 0 <= i < s.len() ==> spec_is_digit(s[i])
}

/// The number the digit bytes spell in decimal (zero for the empty
/// sequence).
pub open spec fn spec_digits_value(s: Seq<u8>) -> int
    decreases s.len(),
{
    if s.len() == 0 {
        0
    } else {
        spec_digits_value(s.drop_last()) * 10 + (s[s.len() - 1] - 48)
    }
}

/// The digit of the bytes at the given position, taking absent positions
/// as zero — the padding that reads a fractional part as if written to
/// four places.
pub open spec fn spec_digit_at(s: Seq<u8>, i: int) -> int {
    if 0 <= i < s.len() {
        s[i] - 48
    } else {
        0
    }
}

/// The permille value of a fractional part's digit bytes: its first four
/// places rounded to the nearest thousandth, half away from zero.
pub open spec fn spec_frac_permille(s: Seq<u8>) -> int {
    (spec_digit_at(s, 0) * 1000 + spec_digit_at(s, 1) * 100 + spec_digit_at(s, 2) * 10
        + spec_digit_at(s, 3) + 5) / 10
}

/// The position of the first dot in the bytes, if any.
pub open spec fn spec_first_dot(s: Seq<u8>) -> Option<int>
    decreases s.len(),
{
    if s.len() == 0 {
        None
    } else if s[0] == 46 {
        Some(0)
    } else {
        match spec_first_dot(s.drop_first()) {
            Some(i) => Some(i + 1),
            None => None,
        }
    }
}

/// The volume, in permille of full scale, that a token spells as a
/// decimal fraction of full scale: digits with at most one dot and at
/// least one digit, rounded to the nearest thousandth, or nothing when
/// the token is malformed or the value cannot be held.
pub open spec fn spec_parse_fraction(tok: Seq<u8>) -> Option<int> {
    match spec_first_dot(tok) {
        None => if tok.len() > 0 && spec_all_digits(tok) && spec_digits_value(tok)
            <= MAX_VOLUME_INT_PART {
            Some(spec_digits_value(tok) * 1000)
        } else {
            None
        },
        Some(k) => {
            let int_part = tok.take(k);
            let frac_part = tok.skip(k + 1);
            if int_part.len() + frac_part.len() > 0 && spec_all_digits(int_part)
                && spec_all_digits(frac_part) && spec_digits_value(int_part)
                <= MAX_VOLUME_INT_PART {
                Some(spec_digits_value(int_part) * 1000 + spec_frac_permille(frac_part))
            } else {
                None
            }
        },
    }
}

fn is_ascii_whitespace(b: u8) -> (r: bool)
    ensures
        r == spec_is_ascii_whitespace(b),
{
    b == 9 || b == 10 || b == 11 || b == 12 || b == 13 || b == 32
}

/// The half-open range of the bytes left when leading and trailing ASCII
/// whitespace is removed.
fn trim_range(s: &[u8]) -> (r: (usize, usize))
    ensures
        r.0 <= r.1 <= s@.len(),
        s@.subrange(r.0 as int, r.1 as int) == spec_trim(s@),
{
    let n = s.len();
    proof {
        assert(s@.skip(0) =~= s@);
    }
    let mut start: usize = 0;
    while start < n && is_ascii_whitespace(s[start])
        invariant
            start <= n,
            n == s@.len(),
            spec_trim_start(s@) == spec_trim_start(s@.skip(start as int)),
        decreases n - start,
    {
        proof {
            assert(s@.skip(start as int).drop_first() =~= s@.skip(start as int + 1));
        }
        start += 1;
    }
    proof {
        if start == n {
            assert(s@.skip(start as int) =~= Seq::<u8>::empty());
        }
        assert(spec_trim_start(s@) == s@.skip(start as int));
        assert(s@.skip(start as int) =~= s@.subrange(start as int, n as int));
    }
    let mut end: usize = n;
    while end > start && is_ascii_whitespace(s[end - 1])
        invariant
            start <= end <= n,
            n == s@.len(),
            spec_trim_end(s@.skip(start as int)) == spec_trim_end(
                s@.subrange(start as int, end as int),
            ),
        decreases end,
    {
        proof {
            assert(s@.subrange(start as int, end as int).drop_last() =~= s@.subrange(
                start as int,
                end as int - 1,
            ));
        }
        end -= 1;
    }
    (start, end)
}

fn has_volume_label(s: &[u8]) -> (r: bool)
    ensures
        r == spec_has_volume_label(s@),
{
    s.len() >= 7 && s[0] == 86 && s[1] == 111 && s[2] == 108 && s[3] == 117 && s[4] == 109 && s[5]
        == 101 && s[6] == 58
}

/// The half-open range of the first whitespace-delimited token of the
/// bytes.
fn first_token_range(s: &[u8]) -> (r: (usize, usize))
    ensures
        r.0 <= r.1 <= s@.len(),
        s@.subrange(r.0 as int, r.1 as int) == spec_first_token(s@),
{
    let n = s.len();
    proof {
        assert(s@.skip(0) =~= s@);
    }
    let mut start: usize = 0;
    while start < n && is_ascii_whitespace(s[start])
        invariant
            start <= n,
            n == s@.len(),
            spec_trim_start(s@) == spec_trim_start(s@.skip(start as int)),
        decreases n - start,
    {
        proof {
            assert(s@.skip(start as int).drop_first() =~= s@.skip(start as int + 1));
        }
        start += 1;
    }
    proof {
        if start == n {
            assert(s@.skip(start as int) =~= Seq::<u8>::empty());
        }
        assert(spec_trim_start(s@) == s@.skip(start as int));
    }
    let mut end: usize = start;
    while end < n && !is_ascii_whitespace(s[end])
        invariant
            start <= end <= n,
            n == s@.len(),
            spec_token_end(s@.skip(start as int)) == (end - start) + spec_token_end(
                s@.skip(end as int),
            ),
        decreases n - end,
    {
        proof {
            assert(s@.skip(end as int).drop_first() =~= s@.skip(end as int + 1));
        }
        end += 1;
    }
    proof {
        if end == n {
            assert(s@.skip(end as int) =~= Seq::<u8>::empty());
        }
        assert(spec_token_end(s@.skip(start as int)) == end - start);
        assert(s@.skip(start as int).take(end - start) =~= s@.subrange(start as int, end as int));
    }
    (start, end)
}

/// The number an all-digit sequence spells is never negative.
proof fn lemma_digits_value_nonneg(s: Seq<u8>)
    requires
        spec_all_digits(s),
    ensures
        spec_digits_value(s) >= 0,
    decreases s.len(),
{
    if s.len() > 0 {
        assert(spec_all_digits(s.drop_last()));
        lemma_digits_value_nonneg(s.drop_last());
    }
}

/// The number a digit sequence spells never shrinks as the sequence
/// grows to the right.
proof fn lemma_digits_value_prefix(s: Seq<u8>, i: int)
    requires
        0 <= i <= s.len(),
        spec_all_digits(s),
    ensures
        0 <= spec_digits_value(s.take(i)) <= spec_digits_value(s),
    decreases s.len() - i,
{
    assert forall|j: int| 0 <= j < i implies spec_is_digit(s.take(i)[j]) by {
        assert(s.take(i)[j] == s[j]);
    }
    lemma_digits_value_nonneg(s.take(i));
    if i == s.len() {
        assert(s.take(i) =~= s);
    } else {
        lemma_digits_value_prefix(s, i + 1);
        assert(s.take(i + 1).drop_last() =~= s.take(i));
        assert(spec_digits_value(s.take(i + 1)) == spec_digits_value(s.take(i)) * 10 + (s[i]
            - 48));
    }
}

/// Reads a digit sequence as a decimal number, rejecting non-digits and
/// any value too large for the permille representation.
fn parse_digits_bounded(s: &[u8]) -> (r: Option<u32>)
    ensures
        match r {
            Some(v) => spec_all_digits(s@) && v == spec_digits_value(s@) && v
                <= MAX_VOLUME_INT_PART,
            None => !(spec_all_digits(s@) && spec_digits_value(s@) <= MAX_VOLUME_INT_PART),
        },
{
    let n = s.len();
    let mut acc: u32 = 0;
    let mut i: usize = 0;
    while i < n
        invariant
            i <= n,
            n == s@.len(),
            forall|j: int| 0 <= j < i ==> spec_is_digit(s@[j]),
            acc == spec_digits_value(s@.take(i as int)),
            acc <= MAX_VOLUME_INT_PART,
        decreases n - i,
    {
        let b = s[i];
        if b < 48 || b > 57 {
            return None;
        }
        proof {
            assert(s@.take(i as int + 1).drop_last() =~= s@.take(i as int));
        }
        let next: u64 = acc as u64 * 10 + ((b - 48) as u64);
        if next > MAX_VOLUME_INT_PART as u64 {
            proof {
                if spec_all_digits(s@) {
                    lemma_digits_value_prefix(s@, i as int + 1);
                }
            }
            return None;
        }
        acc = next as u32;
        i += 1;
    }
    proof {
        assert(s@.take(n as int) =~= s@);
    }
    Some(acc)
}

/// Reads a fractional part's digit sequence as a permille value, its
/// first four places rounded to the nearest thousandth.
fn parse_frac_permille(s: &[u8]) -> (r: Option<u32>)
    ensures
        match r {
            Some(v) => spec_all_digits(s@) && v == spec_frac_permille(s@) && v <= 1000,
            None => !spec_all_digits(s@),
        },
{
    let n = s.len();
    let mut i: usize = 0;
    while i < n
        invariant
            i <= n,
            n == s@.len(),
            forall|j: int| 0 <= j < i ==> spec_is_digit(s@[j]),
        decreases n - i,
    {
        let b = s[i];
        if b < 48 || b > 57 {
            return None;
        }
        i += 1;
    }
    let d0: u32 = if n > 0 { (s[0] - 48) as u32 } else { 0 };
    let d1: u32 = if n > 1 { (s[1] - 48) as u32 } else { 0 };
    let d2: u32 = if n > 2 { (s[2] - 48) as u32 } else { 0 };
    let d3: u32 = if n > 3 { (s[3] - 48) as u32 } else { 0 };
    Some((d0 * 1000 + d1 * 100 + d2 * 10 + d3 + 5) / 10)
}

/// Where the first dot of a sequence stands, counted from a prefix known
/// to hold none.
proof fn lemma_first_dot_skip(s: Seq<u8>, i: int)
    requires
        0 <= i <= s.len(),
        forall|j: int| 0 <= j < i ==> s[j] != 46,
    ensures
        spec_first_dot(s) == match spec_first_dot(s.skip(i)) {
            Some(k) => Some(k + i),
            None => None::<int>,
        },
    decreases i,
{
    if i == 0 {
        assert(s.skip(0) =~= s);
    } else {
        lemma_first_dot_skip(s.drop_first(), i - 1);
        assert(s.drop_first().skip(i - 1) =~= s.skip(i));
    }
}

/// Reads a token as a decimal fraction of full scale, in permille.
fn parse_fraction(tok: &[u8]) -> (r: Option<u32>)
    ensures
        match r {
            Some(v) => spec_parse_fraction(tok@) == Some(v as int),
            None => spec_parse_fraction(tok@) == None::<int>,
        },
{
    let n = tok.len();
    let mut i: usize = 0;
    while i < n && tok[i] != 46
        invariant
            i <= n,
            n == tok@.len(),
            forall|j: int| 0 <= j < i ==> tok@[j] != 46,
        decreases n - i,
    {
        i += 1;
    }
    proof {
        lemma_first_dot_skip(tok@, i as int);
        if i == n {
            assert(tok@.skip(i as int) =~= Seq::<u8>::empty());
        }
    }
    if i == n {
        if n == 0 {
            return None;
        }
        match parse_digits_bounded(tok) {
            Some(v) => Some(v * 1000),
            None => None,
        }
    } else {
        let int_part = slice_subrange(tok, 0, i);
        let frac_part = slice_subrange(tok, i + 1, n);
        proof {
            assert(int_part@ =~= tok@.take(i as int));
            assert(frac_part@ =~= tok@.skip(i as int + 1));
        }
        if int_part.len() == 0 && frac_part.len() == 0 {
            return None;
        }
        let int_value = match parse_digits_bounded(int_part) {
            Some(v) => v,
            None => {
                return None;
            },
        };
        let frac_value = match parse_frac_permille(frac_part) {
            Some(v) => v,
            None => {
                return None;
            },
        };
        Some(int_value * 1000 + frac_value)
    }
}

/// The lines of the output: segments split at each line feed (a final
/// line feed ends a final empty line). There is always at least one line.
pub open spec fn spec_lines(s: Seq<u8>) -> Seq<Seq<u8>>
    decreases s.len(),
{
    if s.len() == 0 {
        seq![Seq::<u8>::empty()]
    } else if s[0] == 10 {
        seq![Seq::<u8>::empty()] + spec_lines(s.drop_first())
    } else {
        let rest = spec_lines(s.drop_first());
        seq![seq![s[0]] + rest[0]] + rest.drop_first()
    }
}

/// Whether a line, once trimmed, carries the volume label.
pub open spec fn spec_is_volume_line(line: Seq<u8>) -> bool {
    spec_has_volume_label(spec_trim(line))
}

/// The volume a volume line states, in permille: the first token after
/// the label read as a decimal fraction of full scale, an absent token
/// standing for zero.
pub open spec fn spec_line_volume(line: Seq<u8>) -> Option<int> {
    let rest = spec_trim(line).skip(7);
    let tok = spec_first_token(rest);
    if tok.len() == 0 {
        Some(0)
    } else {
        spec_parse_fraction(tok)
    }
}

/// The first volume line's value: nothing when no line carries the
/// label, or the value (well formed or not) of the first line that does.
pub open spec fn spec_scan_lines(lines: Seq<Seq<u8>>) -> Option<Option<int>>
    decreases lines.len(),
{
    if lines.len() == 0 {
        None
    } else if spec_is_volume_line(lines[0]) {
        Some(spec_line_volume(lines[0]))
    } else {
        spec_scan_lines(lines.drop_first())
    }
}

/// The volume the control utility's whole output reports, in permille,
/// when its first volume line is well formed.
pub open spec fn spec_parse_volume_output(s: Seq<u8>) -> Option<int> {
    match spec_scan_lines(spec_lines(s)) {
        Some(v) => v,
        None => None,
    }
}

/// Whether the mute marker `[MUTED]` stands at position `i`.
pub open spec fn spec_is_muted_marker(s: Seq<u8>, i: int) -> bool {
    s[i] == 91 && s[i + 1] == 77 && s[i + 2] == 85 && s[i + 3] == 84 && s[i + 4] == 69 && s[i + 5]
        == 68 && s[i + 6] == 93
}

/// Whether the mute marker stands anywhere in the output.
pub open spec fn spec_contains_muted(s: Seq<u8>) -> bool {
    exists|i: int| 0 <= i && i + 7 <= s.len() && spec_is_muted_marker(s, i)
}

/// How `spec_lines` splits an input whose first `i` bytes hold no line
/// feed: at the line feed at `i`, or not at all when there is none.
proof fn lemma_lines_head(s: Seq<u8>, i: int)
    requires
        0 <= i <= s.len(),
        forall|j: int| 0 <= j < i ==> s[j] != 10,
    ensures
        i == s.len() ==> spec_lines(s) == seq![s],
        i < s.len() && s[i] == 10 ==> spec_lines(s) == seq![s.take(i)] + spec_lines(s.skip(i + 1)),
    decreases i,
{
    if i == 0 {
        if s.len() == 0 {
            assert(s =~= Seq::<u8>::empty());
            assert(seq![Seq::<u8>::empty()] =~= seq![s]);
        } else if s[0] == 10 {
            assert(s.take(0) =~= Seq::<u8>::empty());
            assert(s.skip(1) =~= s.drop_first());
            assert(seq![Seq::<u8>::empty()] + spec_lines(s.drop_first()) =~= seq![s.take(0)]
                + spec_lines(s.skip(1)));
        }
    } else {
        let d = s.drop_first();
        assert forall|j: int| 0 <= j < i - 1 implies d[j] != 10 by {
            assert(d[j] == s[j + 1]);
        }
        lemma_lines_head(d, i - 1);
        let rest = spec_lines(d);
        if i == s.len() {
            assert(rest == seq![d]);
            assert(rest[0] == d);
            assert(seq![s[0]] + d =~= s);
            assert(rest.drop_first() =~= Seq::<Seq<u8>>::empty());
            assert(seq![seq![s[0]] + rest[0]] + rest.drop_first() =~= seq![s]);
        } else if s[i] == 10 {
            assert(d[i - 1] == s[i]);
            assert(rest == seq![d.take(i - 1)] + spec_lines(d.skip(i)));
            assert(rest[0] == d.take(i - 1));
            assert(seq![s[0]] + d.take(i - 1) =~= s.take(i));
            assert(rest.drop_first() =~= spec_lines(d.skip(i)));
            assert(d.skip(i) =~= s.skip(i + 1));
            assert(seq![seq![s[0]] + rest[0]] + rest.drop_first() =~= seq![s.take(i)]
                + spec_lines(s.skip(i + 1)));
        }
    }
}

/// Evaluates one line: nothing when the line carries no volume label,
/// otherwise the line's (well-formed or failed) volume value.
fn eval_line(line: &[u8]) -> (r: Option<Option<u32>>)
    ensures
        match r {
            None => !spec_is_volume_line(line@),
            Some(vo) => spec_is_volume_line(line@) && (match vo {
                Some(v) => spec_line_volume(line@) == Some(v as int),
                None => spec_line_volume(line@) == None::<int>,
            }),
        },
{
    let (trim_start, trim_end) = trim_range(line);
    let trimmed = slice_subrange(line, trim_start, trim_end);
    if !has_volume_label(trimmed) {
        return None;
    }
    let rest = slice_subrange(trimmed, 7, trimmed.len());
    proof {
        assert(rest@ =~= spec_trim(line@).skip(7));
    }
    let (token_start, token_end) = first_token_range(rest);
    if token_end == token_start {
        proof {
            assert(spec_first_token(rest@).len() == 0);
        }
        return Some(Some(0));
    }
    let token = slice_subrange(rest, token_start, token_end);
    match parse_fraction(token) {
        Some(v) => Some(Some(v)),
        None => Some(None),
    }
}

/// The volume a set-volume call aims at: the current volume moved by the
/// delta and clamped to the floor of zero and the given ceiling.
pub open spec fn spec_clamp_volume(current: int, delta: int, max_permille: int) -> int {
    let moved = current + delta;
    if moved < 0 {
        0
    } else if moved > max_permille {
        max_permille
    } else {
        moved
    }
}

/// The character a decimal digit is written as.
pub open spec fn spec_digit_char(d: int) -> char {
    if d == 0 {
        '0'
    } else if d == 1 {
        '1'
    } else if d == 2 {
        '2'
    } else if d == 3 {
        '3'
    } else if d == 4 {
        '4'
    } else if d == 5 {
        '5'
    } else if d == 6 {
        '6'
    } else if d == 7 {
        '7'
    } else if d == 8 {
        '8'
    } else {
        '9'
    }
}

/// The decimal spelling of a non-negative number, without leading zeros.
pub open spec fn spec_uint_chars(n: int) -> Seq<char>
    decreases n,
{
    if n < 10 {
        seq![spec_digit_char(n)]
    } else {
        spec_uint_chars(n / 10) + seq![spec_digit_char(n % 10)]
    }
}

/// The fraction-of-full-scale argument a set-volume invocation passes:
/// the permille volume divided by one thousand, written with exactly
/// three decimal places.
pub open spec fn spec_format_fraction(permille: int) -> Seq<char> {
    spec_uint_chars(permille / 1000) + seq!['.'] + seq![
        spec_digit_char((permille % 1000) / 100),
        spec_digit_char((permille % 1000) / 10 % 10),
        spec_digit_char(permille % 10),
    ]
}

/// Clamp invariant of the CLI backend: whatever the current volume, the
/// volume a set-volume call with a non-negative delta aims at never
/// exceeds the ceiling.
pub proof fn lemma_set_volume_ceiling(current: int, delta: int, max_permille: int)
    requires
        delta >= 0,
        0 <= max_permille,
    ensures
        spec_clamp_volume(current, delta, max_permille) <= max_permille,
{
}

/// Floor invariant of the CLI backend: whatever the current volume, the
/// volume a set-volume call with a negative delta aims at is never below
/// zero.
pub proof fn lemma_set_volume_floor(current: int, delta: int, max_permille: int)
    requires
        delta < 0,
        0 <= max_permille,
    ensures
        spec_clamp_volume(current, delta, max_permille) >= 0,
{
}

/// Writes one decimal digit at the end of the string.
fn append_digit(out: &mut String, d: u32)
    requires
        d < 10,
    ensures
        final(out)@ == old(out)@ + seq![spec_digit_char(d as int)],
{
    let lit: &str = match d {
        0 => "0",
        1 => "1",
        2 => "2",
        3 => "3",
        4 => "4",
        5 => "5",
        6 => "6",
        7 => "7",
        8 => "8",
        _ => "9",
    };
    proof {
        reveal_strlit("0");
        reveal_strlit("1");
        reveal_strlit("2");
        reveal_strlit("3");
        reveal_strlit("4");
        reveal_strlit("5");
        reveal_strlit("6");
        reveal_strlit("7");
        reveal_strlit("8");
        reveal_strlit("9");
        assert(lit@ =~= seq![spec_digit_char(d as int)]);
    }
    out.append(lit);
}

/// Writes a number's decimal spelling at the end of the string.
fn append_uint_chars(out: &mut String, n: u32)
    ensures
        final(out)@ == old(out)@ + spec_uint_chars(n as int),
    decreases n,
{
    if n < 10 {
        append_digit(out, n);
    } else {
        append_uint_chars(out, n / 10);
        append_digit(out, n % 10);
        proof {
            assert(old(out)@ + spec_uint_chars(n as int / 10) + seq![
                spec_digit_char(n as int % 10),
            ] =~= old(out)@ + spec_uint_chars(n as int));
        }
    }
}

/// The CLI-driven backend: bound to a device type and, for its lifetime,
/// to an explicit device name or the default-device sentinel (`None`).
#[derive(Clone, Debug, PartialEq, Eq)]
pub struct WirePlumber {
    /// Which kind of device the backend controls.
    pub device_type: AudioDeviceType,
    /// The explicit device name, or `None` for the system default device.
    pub device_name: Option<String>,
}

/// The default-device sentinel token the control utility resolves for the
/// given device type.
pub open spec fn spec_default_target(device_type: AudioDeviceType) -> Seq<char> {
    match device_type {
        AudioDeviceType::Sink => "@DEFAULT_AUDIO_SINK@"@,
        AudioDeviceType::Source => "@DEFAULT_AUDIO_SOURCE@"@,
    }
}

impl WirePlumber {
    /// Builds the backend from the outcome of its construction-time
    /// liveness probe: invoking the control utility's status command.
    /// Construction fails exactly when that command did not exit
    /// successfully.
    pub fn try_new(
        device_type: AudioDeviceType,
        device_name: Option<String>,
        probe_succeeded: bool,
    ) -> (r: Result<WirePlumber, BackendError>)
        ensures
            probe_succeeded ==> r == Ok::<WirePlumber, BackendError>(
                WirePlumber { device_type, device_name },
            ),
            !probe_succeeded ==> r == Err::<WirePlumber, BackendError>(
                BackendError::ConnectionUnavailable,
            ),
    {
        if !probe_succeeded {
            return Err(BackendError::ConnectionUnavailable);
        }
        Ok(WirePlumber { device_type, device_name })
    }

    /// Parses the get-volume invocation's standard output: the first
    /// line carrying the volume label decides, its first token read as a
    /// decimal fraction of full scale and returned in permille. Fails,
    /// with the raw output attached, when no line carries the label or
    /// the deciding token is malformed.
    pub fn parse_volume_output(output: &[u8]) -> (r: Result<u32, BackendError>)
        ensures
            match r {
                Ok(v) => spec_parse_volume_output(output@) == Some(v as int),
                Err(e) => spec_parse_volume_output(output@) == None::<int> && (e matches
                    BackendError::OutputParseFailed { raw } && raw@ == output@),
            },
    {
        let n = output.len();
        let mut pos: usize = 0;
        proof {
            assert(output@.skip(0) =~= output@);
        }
        loop
            invariant
                pos <= n,
                n == output@.len(),
                spec_scan_lines(spec_lines(output@)) == spec_scan_lines(
                    spec_lines(output@.skip(pos as int)),
                ),
            decreases n - pos,
        {
            let mut j = pos;
            while j < n && output[j] != 10
                invariant
                    pos <= j <= n,
                    n == output@.len(),
                    forall|k: int| pos <= k < j ==> output@[k] != 10,
                decreases n - j,
            {
                j += 1;
            }
            let line = slice_subrange(output, pos, j);
            proof {
                let rem = output@.skip(pos as int);
                assert forall|k: int| 0 <= k < j - pos implies rem[k] != 10 by {
                    assert(rem[k] == output@[k + pos]);
                }
                lemma_lines_head(rem, j - pos);
                assert(rem.take(j - pos) =~= line@);
                if j < n {
                    assert(rem[j - pos] == output@[j as int]);
                    assert(rem.skip(j - pos + 1) =~= output@.skip(j as int + 1));
                    assert(spec_lines(rem) == seq![line@] + spec_lines(output@.skip(j as int + 1)));
                    assert(spec_lines(rem)[0] == line@);
                    assert(spec_lines(rem).drop_first() =~= spec_lines(output@.skip(j as int + 1)));
                } else {
                    assert(rem.take(j - pos) =~= rem);
                    assert(spec_lines(rem) == seq![line@]);
                    assert(spec_lines(rem)[0] == line@);
                    assert(spec_lines(rem).drop_first() =~= Seq::<Seq<u8>>::empty());
                }
            }
            match eval_line(line) {
                Some(value) => {
                    match value {
                        Some(v) => {
                            return Ok(v);
                        },
                        None => {
                            return Err(
                                BackendError::OutputParseFailed { raw: slice_to_vec(output) },
                            );
                        },
                    }
                },
                None => {},
            }
            if j == n {
                proof {
                    let rem = output@.skip(pos as int);
                    assert(spec_scan_lines(spec_lines(rem)) == spec_scan_lines(
                        spec_lines(rem).drop_first(),
                    ));
                    assert(spec_scan_lines(Seq::<Seq<u8>>::empty()) == None::<Option<int>>);
                }
                return Err(BackendError::OutputParseFailed { raw: slice_to_vec(output) });
            }
            pos = j + 1;
        }
    }

    /// Whether the get-volume invocation's output signals a muted device:
    /// the mute marker stands anywhere in it, not only on the volume
    /// line.
    pub fn parse_mute_status(output: &[u8]) -> (r: bool)
        ensures
            r == spec_contains_muted(output@),
    {
        let n = output.len();
        if n < 7 {
            return false;
        }
        let mut i: usize = 0;
        while i <= n - 7
            invariant
                7 <= n,
                i <= n - 6,
                n == output@.len(),
                forall|k: int| 0 <= k < i ==> !spec_is_muted_marker(output@, k),
            decreases n - i,
        {
            if output[i] == 91 && output[i + 1] == 77 && output[i + 2] == 85 && output[i + 3] == 84
                && output[i + 4] == 69 && output[i + 5] == 68 && output[i + 6] == 93 {
                proof {
                    assert(spec_is_muted_marker(output@, i as int));
                }
                return true;
            }
            i += 1;
        }
        false
    }

    /// Interprets the get-volume invocation's outcome as a freshly read
    /// device state: a failed exit surfaces the captured standard error;
    /// otherwise the volume is parsed from the output and the mute flag
    /// read from the marker's presence.
    pub fn get_device_info(exit_success: bool, stdout: &[u8], stderr: &[u8]) -> (r: Result<
        AudioDeviceInfo,
        BackendError,
    >)
        ensures
            !exit_success ==> (r matches Err(e) && e matches BackendError::ProcessInvocationFailed {
                stderr: captured,
            } && captured@ == stderr@),
            exit_success ==> match r {
                Ok(info) => spec_parse_volume_output(stdout@) == Some(info.volume_permille as int)
                    && info.mute == spec_contains_muted(stdout@),
                Err(e) => spec_parse_volume_output(stdout@) == None::<int> && (e matches
                    BackendError::OutputParseFailed { raw } && raw@ == stdout@),
            },
    {
        if !exit_success {
            return Err(BackendError::ProcessInvocationFailed { stderr: slice_to_vec(stderr) });
        }
        let volume_permille = match Self::parse_volume_output(stdout) {
            Ok(v) => v,
            Err(e) => {
                return Err(e);
            },
        };
        let mute = Self::parse_mute_status(stdout);
        Ok(AudioDeviceInfo { volume_permille, mute })
    }

    /// Classifies a mutating invocation (set-volume, set-mute) by its
    /// exit condition: a non-zero exit fails the operation, surfacing
    /// the captured standard-error text; afterwards the device state is
    /// re-queried fresh rather than trusted from the computed value.
    pub fn command_result(exit_success: bool, stderr: &[u8]) -> (r: Result<(), BackendError>)
        ensures
            exit_success ==> r == Ok::<(), BackendError>(()),
            !exit_success ==> (r matches Err(e) && e matches BackendError::ProcessInvocationFailed {
                stderr: captured,
            } && captured@ == stderr@),
    {
        if exit_success {
            Ok(())
        } else {
            Err(BackendError::ProcessInvocationFailed { stderr: slice_to_vec(stderr) })
        }
    }

    /// The volume a set-volume call aims at, from the freshly queried
    /// current volume: moved by the delta and clamped between zero and
    /// the ceiling `max_volume` (a whole percentage) converts to. The
    /// state returned to the caller is nevertheless re-queried fresh
    /// after the write, since the utility's own rounding may differ.
    pub fn compute_new_volume(current_permille: u32, delta_permille: i32, max_volume: u8) -> (new:
        u32)
        ensures
            new == spec_clamp_volume(
                current_permille as int,
                delta_permille as int,
                10 * max_volume as int,
            ),
    {
        let max_permille: i64 = 10 * (max_volume as i64);
        let moved: i64 = current_permille as i64 + delta_permille as i64;
        if moved < 0 {
            0
        } else if moved > max_permille {
            max_permille as u32
        } else {
            moved as u32
        }
    }

    /// The literal volume argument a set-volume invocation passes: the
    /// clamped permille volume as a fraction of full scale with exactly
    /// three decimal places.
    pub fn format_volume_fraction(permille: u32) -> (s: String)
        ensures
            s@ == spec_format_fraction(permille as int),
    {
        let mut out = String::new();
        append_uint_chars(&mut out, permille / 1000);
        proof {
            reveal_strlit(".");
            assert("."@ =~= seq!['.']);
        }
        out.append(".");
        append_digit(&mut out, permille % 1000 / 100);
        append_digit(&mut out, permille % 1000 / 10 % 10);
        append_digit(&mut out, permille % 10);
        proof {
            assert(out@ =~= spec_format_fraction(permille as int));
        }
        out
    }

    /// The target the control utility is invoked on: the explicit device
    /// name if one was configured, otherwise the default-device sentinel
    /// token for the backend's device type, resolved anew on every
    /// operation.
    pub fn get_device_target(&self) -> (target: String)
        ensures
            target@ == match self.device_name {
                Some(name) => name@,
                None => spec_default_target(self.device_type),
            },
    {
        match &self.device_name {
            Some(name) => name.clone(),
            None => match self.device_type {
                AudioDeviceType::Sink => String::from_str("@DEFAULT_AUDIO_SINK@"),
                AudioDeviceType::Source => String::from_str("@DEFAULT_AUDIO_SOURCE@"),
            },
        }
    }
}

} // verus!

