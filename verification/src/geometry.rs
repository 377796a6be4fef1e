//! Symbolic geometry values: the grammar of `"50%"`, `"200px"` and `"200"`,
//! and their resolution to pixels against a reference extent.

use vstd::prelude::*;
use crate::text::{chars_of, decimal_digits, digit_char};

verus! {

/// Cap used while reading a percentage: any percentage at or above it already
/// saturates the result for every non-empty extent.
pub const PERCENT_CAP: u64 = 214_748_364_800;

/// Cap used while reading a pixel count: one more than the largest count that
/// is accepted.
pub const PIXEL_CAP: u64 = 2_147_483_648;

pub open spec fn is_digit(c: char) -> bool {
    '0' <= c && c <= '9'
}

pub open spec fn digit_value(c: char) -> nat {
    (c as nat - '0' as nat) as nat
}

/// The number that a string of decimal digits denotes, most significant digit
/// first. The empty string denotes 0.
pub open spec fn digits_value(s: Seq<char>) -> nat
    decreases s.len(),
{
    if s.len() == 0 {
        0
    } else {
        digits_value(s.drop_last()) * 10 + digit_value(s.last())
    }
}

/// `s[at]` is a percent sign that directly follows a digit.
pub open spec fn percent_at(s: Seq<char>, at: int) -> bool {
    0 < at < s.len() && s[at] == '%' && is_digit(s[at - 1])
}

/// The least index `>= from` that satisfies `percent_at`, or `s.len()` when
/// there is none.
pub open spec fn first_percent(s: Seq<char>, from: int) -> int
    decreases s.len() - from,
{
    if from >= s.len() {
        s.len() as int
    } else if percent_at(s, from) {
        from
    } else {
        first_percent(s, from + 1)
    }
}

/// The least index `>= from` that holds a digit, or `s.len()` when there is
/// none.
pub open spec fn first_digit(s: Seq<char>, from: int) -> int
    decreases s.len() - from,
{
    if from >= s.len() {
        s.len() as int
    } else if is_digit(s[from]) {
        from
    } else {
        first_digit(s, from + 1)
    }
}

/// Where the run of digits that ends just before `end` begins.
pub open spec fn run_start(s: Seq<char>, end: int) -> int
    decreases end,
{
    if end <= 0 || end > s.len() || !is_digit(s[end - 1]) {
        end
    } else {
        run_start(s, end - 1)
    }
}

/// Where the run of digits that begins at `start` ends.
pub open spec fn run_end(s: Seq<char>, start: int) -> int
    decreases s.len() - start,
{
    if start < 0 || start >= s.len() || !is_digit(s[start]) {
        start
    } else {
        run_end(s, start + 1)
    }
}

pub open spec fn abs(v: int) -> int {
    if v < 0 {
        -v
    } else {
        v
    }
}

/// `percent` hundredths of the magnitude of `extent`, rounded to the nearest
/// pixel (halves round up) and limited to `i32::MAX`.
pub open spec fn percent_of(extent: int, percent: nat) -> int {
    let exact = (abs(extent) * percent + 50) / 100;
    if exact > i32::MAX {
        i32::MAX as int
    } else {
        exact
    }
}

/// A pixel count that fits an `i32` stands for itself; a larger one cannot be
/// represented and counts as 0.
pub open spec fn pixel_count(count: nat) -> int {
    if count > i32::MAX {
        0
    } else {
        count as int
    }
}

/// What a geometry value resolves to, in pixels, against `extent`.
///
/// The first run of digits directly followed by `%` is a percentage of the
/// extent. Without one, the first run of digits is a pixel count (a `px` after
/// it changes nothing). A value without any digit resolves to 0.
pub open spec fn resolve_value(value: Seq<char>, extent: int) -> int {
    let p = first_percent(value, 0);
    if p < value.len() {
        percent_of(extent, digits_value(value.subrange(run_start(value, p), p)))
    } else {
        let d = first_digit(value, 0);
        if d < value.len() {
            pixel_count(digits_value(value.subrange(d, run_end(value, d))))
        } else {
            0
        }
    }
}

pub open spec fn min_nat(a: nat, b: nat) -> nat {
    if a <= b {
        a
    } else {
        b
    }
}

fn is_digit_char(c: char) -> (b: bool)
    ensures
        b == is_digit(c),
{
    '0' <= c && c <= '9'
}

fn digit_of(c: char) -> (d: u64)
    requires
        is_digit(c),
    ensures
        d == digit_value(c),
        d <= 9,
{
    (c as u32 - '0' as u32) as u64
}

/// Finds the first percent sign that directly follows a digit.
fn find_percent(chars: &Vec<char>) -> (at: usize)
    ensures
        at == first_percent(chars@, 0),
        at <= chars.len(),
{
    let n = chars.len();
    let mut i: usize = 0;
    while i < n
        invariant
            n == chars.len(),
            i <= n,
            first_percent(chars@, 0) == first_percent(chars@, i as int),
        decreases n - i,
    {
        if i > 0 && chars[i] == '%' && is_digit_char(chars[i - 1]) {
            return i;
        }
        i += 1;
    }
    n
}

/// Finds the first digit.
fn find_digit(chars: &Vec<char>) -> (at: usize)
    ensures
        at == first_digit(chars@, 0),
        at <= chars.len(),
{
    let n = chars.len();
    let mut i: usize = 0;
    while i < n
        invariant
            n == chars.len(),
            i <= n,
            first_digit(chars@, 0) == first_digit(chars@, i as int),
        decreases n - i,
    {
        if is_digit_char(chars[i]) {
            return i;
        }
        i += 1;
    }
    n
}

/// Walks back from `end` over the digits that precede it.
fn find_run_start(chars: &Vec<char>, end: usize) -> (start: usize)
    requires
        end <= chars.len(),
    ensures
        start == run_start(chars@, end as int),
        start <= end,
        forall|i: int| start <= i < end ==> is_digit(chars@[i]),
{
    let mut i: usize = end;
    while i > 0 && is_digit_char(chars[i - 1])
        invariant
            i <= end <= chars.len(),
            run_start(chars@, end as int) == run_start(chars@, i as int),
            forall|k: int| i <= k < end ==> is_digit(chars@[k]),
        decreases i,
    {
        i -= 1;
    }
    i
}

/// Walks forward from `start` over the digits that begin there.
fn find_run_end(chars: &Vec<char>, start: usize) -> (end: usize)
    requires
        start <= chars.len(),
    ensures
        end == run_end(chars@, start as int),
        start <= end <= chars.len(),
        forall|i: int| start <= i < end ==> is_digit(chars@[i]),
{
    let n = chars.len();
    let mut i: usize = start;
    while i < n && is_digit_char(chars[i])
        invariant
            n == chars.len(),
            start <= i <= n,
            run_end(chars@, start as int) == run_end(chars@, i as int),
            forall|k: int| start <= k < i ==> is_digit(chars@[k]),
        decreases n - i,
    {
        i += 1;
    }
    i
}

/// Reads the digits `chars[start..end]` as a number, stopping to count at
/// `cap`.
fn read_digits(chars: &Vec<char>, start: usize, end: usize, cap: u64) -> (value: u64)
    requires
        start <= end <= chars.len(),
        forall|i: int| start <= i < end ==> is_digit(chars@[i]),
        cap <= PERCENT_CAP,
    ensures
        value == min_nat(digits_value(chars@.subrange(start as int, end as int)), cap as nat),
{
    let mut acc: u64 = 0;
    let mut i: usize = start;
    while i < end
        invariant
            start <= i <= end <= chars.len(),
            forall|k: int| start <= k < end ==> is_digit(chars@[k]),
            cap <= PERCENT_CAP,
            acc == min_nat(digits_value(chars@.subrange(start as int, i as int)), cap as nat),
        decreases end - i,
    {
        let d = digit_of(chars[i]);
        proof {
            let before = chars@.subrange(start as int, i as int);
            let after = chars@.subrange(start as int, i as int + 1);
            assert(after.drop_last() =~= before);
            assert(after.last() == chars@[i as int]);
        }
        let next = acc * 10 + d;
        acc = if next > cap {
            cap
        } else {
            next
        };
        i += 1;
    }
    acc
}

/// At or above the cap, a percentage of a non-empty extent is past `i32::MAX`;
/// of an empty extent it is 0 either way.
proof fn lemma_percent_cap(extent: int, percent: nat)
    requires
        percent >= PERCENT_CAP,
    ensures
        percent_of(extent, percent) == percent_of(extent, PERCENT_CAP as nat),
{
    let w = abs(extent);
    if w >= 1 {
        assert(w * percent >= percent) by (nonlinear_arith)
            requires
                w >= 1,
                percent >= 0,
        ;
        assert(w * (PERCENT_CAP as nat) >= PERCENT_CAP as nat) by (nonlinear_arith)
            requires
                w >= 1,
        ;
    } else {
        assert(w * percent == 0) by (nonlinear_arith)
            requires
                w == 0,
        ;
        assert(w * (PERCENT_CAP as nat) == 0) by (nonlinear_arith)
            requires
                w == 0,
        ;
    }
}

/// Computes `percent_of` for an extent given by its two edges.
fn percent_pixels(low: i32, high: i32, percent: u64) -> (pixels: i32)
    requires
        percent <= PERCENT_CAP,
    ensures
        pixels == percent_of(high - low, percent as nat),
{
    let span: i64 = high as i64 - low as i64;
    let magnitude: u128 = if span < 0 {
        (-span) as u128
    } else {
        span as u128
    };
    assert(magnitude * percent <= 0x1_0000_0000 * PERCENT_CAP) by (nonlinear_arith)
        requires
            magnitude <= 0x1_0000_0000,
            percent <= PERCENT_CAP,
    ;
    let exact: u128 = (magnitude * (percent as u128) + 50) / 100;
    if exact > i32::MAX as u128 {
        i32::MAX
    } else {
        exact as i32
    }
}

/// Resolves a geometry value against the extent between `low` and `high`.
pub fn resolve_against(value: &str, low: i32, high: i32) -> (pixels: i32)
    ensures
        pixels == resolve_value(value@, high - low),
{
    let chars = chars_of(value);
    let p = find_percent(&chars);
    if p < chars.len() {
        let start = find_run_start(&chars, p);
        let percent = read_digits(&chars, start, p, PERCENT_CAP);
        proof {
            let exact = digits_value(chars@.subrange(start as int, p as int));
            if exact >= PERCENT_CAP {
                lemma_percent_cap(high - low, exact);
            }
        }
        percent_pixels(low, high, percent)
    } else {
        let d = find_digit(&chars);
        if d < chars.len() {
            let end = find_run_end(&chars, d);
            let count = read_digits(&chars, d, end, PIXEL_CAP);
            if count >= PIXEL_CAP {
                0
            } else {
                count as i32
            }
        } else {
            0
        }
    }
}

/// The decimal digits of a number are digits, and denote that number.
pub proof fn lemma_decimal_digits(n: nat)
    ensures
        decimal_digits(n).len() >= 1,
        forall|i: int| 0 <= i < decimal_digits(n).len() ==> is_digit(#[trigger] decimal_digits(n)[i]),
        digits_value(decimal_digits(n)) == n,
    decreases n,
{
    if n < 10 {
        let s = decimal_digits(n);
        assert(s.drop_last() =~= Seq::<char>::empty());
        assert(digits_value(s.drop_last()) == 0);
    } else {
        lemma_decimal_digits(n / 10);
        let s = decimal_digits(n);
        assert(s.drop_last() =~= decimal_digits(n / 10));
        assert(s.last() == digit_char(n % 10));
    }
}

proof fn lemma_first_percent_at(s: Seq<char>, from: int, at: int)
    requires
        0 <= from <= at < s.len(),
        percent_at(s, at),
        forall|i: int| from <= i < at ==> !percent_at(s, i),
    ensures
        first_percent(s, from) == at,
    decreases at - from,
{
    if from < at {
        lemma_first_percent_at(s, from + 1, at);
    }
}

proof fn lemma_run_start_at(s: Seq<char>, start: int, end: int)
    requires
        0 <= start <= end <= s.len(),
        forall|i: int| start <= i < end ==> is_digit(s[i]),
        start == 0 || !is_digit(s[start - 1]),
    ensures
        run_start(s, end) == start,
    decreases end - start,
{
    if start < end {
        lemma_run_start_at(s, start, end - 1);
    }
}

/// A percentage written in decimal and followed by `%` resolves to that many
/// hundredths of the extent. For a percentage up to 100 of a width `W` from 1
/// to `i32::MAX` that is `W * p / 100`, rounded to the nearest pixel.
pub proof fn lemma_percentage_of_width(p: nat, width: int)
    ensures
        resolve_value(decimal_digits(p).push('%'), width) == percent_of(width, p),
        p <= 100 && 0 < width <= i32::MAX ==> resolve_value(decimal_digits(p).push('%'), width) == (
        width * p + 50) / 100,
{
    let digits = decimal_digits(p);
    let value = digits.push('%');
    let n = digits.len() as int;
    lemma_decimal_digits(p);
    assert forall|i: int| 0 <= i < n implies !percent_at(value, i) by {
        assert(value[i] == digits[i]);
    }
    assert(value[n - 1] == digits[n - 1]);
    lemma_first_percent_at(value, 0, n);
    assert forall|i: int| 0 <= i < n implies is_digit(value[i]) by {
        assert(value[i] == digits[i]);
    }
    lemma_run_start_at(value, 0, n);
    assert(value.subrange(0, n) =~= digits);
    if p <= 100 && 0 < width <= i32::MAX {
        assert(width * p <= width * 100) by (nonlinear_arith)
            requires
                p <= 100,
                width > 0,
        ;
    }
}

} // verus!
