//! Parsing of the kernel text files that memory figures are read from:
//! cgroup v2 limits, `/proc/meminfo`, `/proc/self/status` and
//! `/proc/self/cgroup`. Integers are read as the first run of ASCII digits,
//! with saturating arithmetic, so no input can overflow or panic.

use vstd::prelude::*;
use vstd::string::StringSliceAdditionalSpecFns;

verus! {

pub open spec fn is_digit(b: u8) -> bool {
    48 <= b <= 57
}

/// Index of the first digit at or after `i`, or the length if there is none.
pub open spec fn first_digit_from(s: Seq<u8>, i: int) -> int
    decreases s.len() - i,
{
    if i >= s.len() {
        s.len() as int
    } else if is_digit(s[i]) {
        i
    } else {
        first_digit_from(s, i + 1)
    }
}

/// Index of the first non-digit at or after `i`, or the length if there is none.
pub open spec fn digits_end_from(s: Seq<u8>, i: int) -> int
    decreases s.len() - i,
{
    if i >= s.len() {
        s.len() as int
    } else if !is_digit(s[i]) {
        i
    } else {
        digits_end_from(s, i + 1)
    }
}

/// `v * 10 + d`, saturating at `u64::MAX`.
pub open spec fn push_digit(v: u64, b: u8) -> u64 {
    let x = v * 10 + (b - 48);
    if x > u64::MAX {
        u64::MAX
    } else {
        x as u64
    }
}

/// Value of a run of digits, saturating at `u64::MAX`.
pub open spec fn digits_value(s: Seq<u8>) -> u64
    decreases s.len(),
{
    if s.len() == 0 {
        0
    } else {
        push_digit(digits_value(s.drop_last()), s.last())
    }
}

/// The first run of digits in `s`, read as a number.
pub open spec fn leading_number(s: Seq<u8>) -> Option<u64> {
    let i = first_digit_from(s, 0);
    if i >= s.len() {
        None
    } else {
        Some(digits_value(s.subrange(i, digits_end_from(s, i))))
    }
}

pub open spec fn is_m(b: u8) -> bool {
    b == 109 || b == 77
}

/// A cgroup memory value: the first number of `s`, unless an `m` or `M` is
/// met before that number ends, as in the token `max` for "unlimited".
pub open spec fn cgroup_value(s: Seq<u8>) -> Option<u64> {
    let i = first_digit_from(s, 0);
    let e = digits_end_from(s, i);
    let scanned = if e < s.len() {
        e + 1
    } else {
        s.len() as int
    };
    if exists|k: int| 0 <= k < scanned && is_m(#[trigger] s[k]) {
        None
    } else {
        leading_number(s)
    }
}

proof fn lemma_first_digit_at(s: Seq<u8>, i: int, f: int)
    requires
        0 <= i <= f,
        f <= s.len(),
        forall|k: int| i <= k < f ==> !is_digit(#[trigger] s[k]),
        f < s.len() ==> is_digit(s[f]),
    ensures
        first_digit_from(s, i) == f,
    decreases f - i,
{
    if i < f {
        lemma_first_digit_at(s, i + 1, f);
    }
}

proof fn lemma_digits_end_at(s: Seq<u8>, i: int, e: int)
    requires
        0 <= i <= e,
        e <= s.len(),
        forall|k: int| i <= k < e ==> is_digit(#[trigger] s[k]),
        e < s.len() ==> !is_digit(s[e]),
    ensures
        digits_end_from(s, i) == e,
    decreases e - i,
{
    if i < e {
        lemma_digits_end_at(s, i + 1, e);
    }
}

proof fn lemma_first_digit_skip(s: Seq<u8>, i: int, j: int)
    requires
        0 <= i <= j <= s.len(),
        forall|k: int| i <= k < j ==> !is_digit(#[trigger] s[k]),
    ensures
        first_digit_from(s, i) == first_digit_from(s, j),
    decreases j - i,
{
    if i < j {
        lemma_first_digit_skip(s, i + 1, j);
    }
}

proof fn lemma_scan_bounds(s: Seq<u8>, i: int)
    requires
        0 <= i <= s.len(),
    ensures
        i <= first_digit_from(s, i) <= s.len(),
        i <= digits_end_from(s, i) <= s.len(),
    decreases s.len() - i,
{
    if i < s.len() {
        lemma_scan_bounds(s, i + 1);
    }
}

/// The scan shared by both number formats. With `stop_at_m`, an `m` or `M`
/// met before the number ends gives `None`.
fn scan_number(bytes: &[u8], stop_at_m: bool) -> (r: Option<u64>)
    ensures
        r == (if stop_at_m {
            cgroup_value(bytes@)
        } else {
            leading_number(bytes@)
        }),
{
    let ghost s = bytes@;
    let mut value: u64 = 0;
    let mut saw_digit = false;
    let mut start: usize = 0;
    let mut i: usize = 0;
    while i < bytes.len()
        invariant_except_break
            i <= s.len(),
            s == bytes@,
            !saw_digit ==> value == 0 && forall|k: int| 0 <= k < i ==> !is_digit(#[trigger] s[k]),
            saw_digit ==> start < i && first_digit_from(s, 0) == start && (forall|k: int|
                start <= k < i ==> is_digit(#[trigger] s[k])) && value == digits_value(
                s.subrange(start as int, i as int),
            ),
            stop_at_m ==> forall|k: int| 0 <= k < i ==> !is_m(#[trigger] s[k]),
        ensures
            i <= s.len(),
            s == bytes@,
            !saw_digit ==> value == 0 && forall|k: int| 0 <= k < i ==> !is_digit(#[trigger] s[k]),
            saw_digit ==> start < i && first_digit_from(s, 0) == start && (forall|k: int|
                start <= k < i ==> is_digit(#[trigger] s[k])) && value == digits_value(
                s.subrange(start as int, i as int),
            ),
            stop_at_m ==> forall|k: int| 0 <= k < i ==> !is_m(#[trigger] s[k]),
            i < s.len() ==> saw_digit && !is_digit(s[i as int]) && !(stop_at_m && is_m(s[i as int])),
        decreases s.len() - i,
    {
        let b = bytes[i];
        if 48 <= b && b <= 57 {
            if !saw_digit {
                proof {
                    lemma_first_digit_at(s, 0, i as int);
                }
                start = i;
                saw_digit = true;
            }
            let digit = (b - 48) as u64;
            let next: u64 = if value > (u64::MAX - digit) / 10 {
                assert(value * 10 + digit > u64::MAX) by (nonlinear_arith)
                    requires
                        value > (u64::MAX - digit) / 10,
                        digit <= 9,
                ;
                u64::MAX
            } else {
                assert(value * 10 + digit <= u64::MAX) by (nonlinear_arith)
                    requires
                        value <= (u64::MAX - digit) / 10,
                        digit <= 9,
                ;
                value * 10 + digit
            };
            proof {
                let run = s.subrange(start as int, i + 1);
                assert(run.drop_last() =~= s.subrange(start as int, i as int));
                assert(run.last() == b);
                assert(next == push_digit(value, b));
                assert(digits_value(run) == push_digit(digits_value(run.drop_last()), run.last()));
            }
            value = next;
        } else if stop_at_m && (b == 109 || b == 77) {
            proof {
                let f = first_digit_from(s, 0);
                if saw_digit {
                    lemma_digits_end_at(s, start as int, i as int);
                } else {
                    lemma_first_digit_skip(s, 0, i as int);
                    lemma_scan_bounds(s, i as int);
                    lemma_scan_bounds(s, i + 1);
                    assert(first_digit_from(s, i as int) == first_digit_from(s, i + 1));
                    lemma_scan_bounds(s, f);
                }
                assert(is_m(s[i as int]));
            }
            return None;
        } else if saw_digit {
            break;
        }
        i = i + 1;
    }
    if saw_digit {
        proof {
            lemma_digits_end_at(s, start as int, i as int);
            let e = i as int;
            if stop_at_m {
                assert forall|k: int| 0 <= k < (if e < s.len() { e + 1 } else { s.len() as int }) implies !is_m(#[trigger] s[k]) by {
                    if k < i {
                    } else {
                        assert(k == i);
                    }
                }
            }
        }
        Some(value)
    } else {
        proof {
            lemma_first_digit_at(s, 0, s.len() as int);
            lemma_digits_end_at(s, s.len() as int, s.len() as int);
        }
        None
    }
}

/// The first number of a line such as `MemTotal:  16314372 kB`.
pub fn parse_kb_value(line: &[u8]) -> (r: Option<u64>)
    ensures
        r == leading_number(line@),
{
    scan_number(line, false)
}

/// The value of a cgroup memory file; `None` for `max` (no limit) or when
/// there is no number.
pub fn parse_cgroup_value(bytes: &[u8]) -> (r: Option<u64>)
    ensures
        r == cgroup_value(bytes@),
{
    scan_number(bytes, true)
}

/// End of the line that starts at `p`: the next newline at or after `p`, or the length.
pub open spec fn line_end(s: Seq<u8>, p: int) -> int
    decreases s.len() - p,
{
    if p >= s.len() {
        s.len() as int
    } else if s[p] == 10 {
        p
    } else {
        line_end(s, p + 1)
    }
}

/// A line ends at or after its start, and within the text.
pub proof fn lemma_line_end_bounds(s: Seq<u8>, p: int)
    requires
        0 <= p <= s.len(),
    ensures
        p <= line_end(s, p) <= s.len(),
    decreases s.len() - p,
{
    if p < s.len() {
        lemma_line_end_bounds(s, p + 1);
    }
}

pub open spec fn has_prefix(line: Seq<u8>, key: Seq<u8>) -> bool {
    key.len() <= line.len() && line.subrange(0, key.len() as int) == key
}

/// The first line, among those starting at or after the line start `p`,
/// that begins with `key`. Lines are separated by newlines.
pub open spec fn line_with_prefix_from(s: Seq<u8>, key: Seq<u8>, p: int) -> Option<Seq<u8>>
    decreases s.len() + 1 - p,
{
    if p < 0 || p > s.len() {
        None
    } else {
        let e = line_end(s, p);
        proof {
            lemma_line_end_bounds(s, p);
        }
        if has_prefix(s.subrange(p, e), key) {
            Some(s.subrange(p, e))
        } else if e >= s.len() {
            None
        } else {
            line_with_prefix_from(s, key, e + 1)
        }
    }
}

/// The first line of `s` that begins with `key`.
pub open spec fn line_with_prefix(s: Seq<u8>, key: Seq<u8>) -> Option<Seq<u8>> {
    line_with_prefix_from(s, key, 0)
}

fn has_prefix_at(bytes: &[u8], start: usize, end: usize, key: &[u8]) -> (b: bool)
    requires
        start <= end <= bytes@.len(),
    ensures
        b == has_prefix(bytes@.subrange(start as int, end as int), key@),
{
    if key.len() > end - start {
        return false;
    }
    let mut k: usize = 0;
    while k < key.len()
        invariant
            start <= end <= bytes@.len(),
            key@.len() <= end - start,
            k <= key@.len(),
            forall|j: int| 0 <= j < k ==> bytes@[start + j] == key@[j],
        decreases key@.len() - k,
    {
        if bytes[start + k] != key[k] {
            proof {
                let line = bytes@.subrange(start as int, end as int);
                assert(line.subrange(0, key@.len() as int)[k as int] != key@[k as int]);
            }
            return false;
        }
        k = k + 1;
    }
    proof {
        let line = bytes@.subrange(start as int, end as int);
        assert(line.subrange(0, key@.len() as int) =~= key@);
    }
    true
}

/// Bounds of the first line of `bytes` that begins with `key`.
pub fn find_line_bytes(bytes: &[u8], key: &[u8]) -> (r: Option<(usize, usize)>)
    ensures
        match r {
            Some((a, b)) => a <= b <= bytes@.len() && line_with_prefix(bytes@, key@) == Some(
                bytes@.subrange(a as int, b as int),
            ) && has_prefix(bytes@.subrange(a as int, b as int), key@),
            None => line_with_prefix(bytes@, key@) is None,
        },
{
    let ghost s = bytes@;
    let mut p: usize = 0;
    loop
        invariant
            s == bytes@,
            p <= s.len(),
            line_with_prefix_from(s, key@, 0) == line_with_prefix_from(s, key@, p as int),
        decreases s.len() + 1 - p,
    {
        let mut e: usize = p;
        while e < bytes.len() && bytes[e] != 10
            invariant
                s == bytes@,
                p <= e <= s.len(),
                line_end(s, p as int) == line_end(s, e as int),
            decreases s.len() - e,
        {
            e = e + 1;
        }
        assert(line_end(s, e as int) == e);
        if has_prefix_at(bytes, p, e, key) {
            return Some((p, e));
        }
        if e >= bytes.len() {
            return None;
        }
        p = e + 1;
    }
}

/// `v` KiB in bytes, saturating.
pub open spec fn kib_to_bytes(v: u64) -> u64 {
    if v * 1024 > u64::MAX {
        u64::MAX
    } else {
        (v * 1024) as u64
    }
}

fn kib_bytes(v: u64) -> (r: u64)
    ensures
        r == kib_to_bytes(v),
{
    if v > u64::MAX / 1024 {
        assert(v * 1024 > u64::MAX) by (nonlinear_arith)
            requires
                v > u64::MAX / 1024,
        ;
        u64::MAX
    } else {
        assert(v * 1024 <= u64::MAX) by (nonlinear_arith)
            requires
                v <= u64::MAX / 1024,
        ;
        v * 1024
    }
}

/// The value, in bytes, of the first line that begins with `key`, where the
/// line gives it in KiB.
pub open spec fn kib_field(s: Seq<u8>, key: Seq<u8>) -> Option<u64> {
    match line_with_prefix(s, key) {
        Some(line) => match leading_number(line) {
            Some(v) => Some(kib_to_bytes(v)),
            None => None,
        },
        None => None,
    }
}

/// Reads a KiB field, such as `MemTotal:`, from a key/value text file, in bytes.
pub fn read_kib_field(bytes: &[u8], key: &[u8]) -> (r: Option<u64>)
    ensures
        r == kib_field(bytes@, key@),
{
    match find_line_bytes(bytes, key) {
        Some((a, b)) => {
            let line = &bytes[a..b];
            match parse_kb_value(line) {
                Some(v) => Some(kib_bytes(v)),
                None => None,
            }
        },
        None => None,
    }
}

pub open spec fn mem_total_key() -> Seq<u8> {
    "MemTotal:".spec_bytes()
}

pub open spec fn mem_available_key() -> Seq<u8> {
    "MemAvailable:".spec_bytes()
}

pub open spec fn vm_rss_key() -> Seq<u8> {
    "VmRSS:".spec_bytes()
}

/// Total memory in bytes from the contents of `/proc/meminfo`.
pub fn read_meminfo_total(meminfo: &[u8]) -> (r: Option<u64>)
    ensures
        r == kib_field(meminfo@, mem_total_key()),
{
    read_kib_field(meminfo, "MemTotal:".as_bytes())
}

/// Total and available memory in bytes from the contents of `/proc/meminfo`;
/// `None` unless both are present.
pub fn read_meminfo(meminfo: &[u8]) -> (r: Option<(u64, u64)>)
    ensures
        r == match (kib_field(meminfo@, mem_total_key()), kib_field(meminfo@, mem_available_key())) {
            (Some(t), Some(a)) => Some((t, a)),
            _ => None,
        },
{
    let total = read_meminfo_total(meminfo);
    let available = read_kib_field(meminfo, "MemAvailable:".as_bytes());
    match (total, available) {
        (Some(t), Some(a)) => Some((t, a)),
        _ => None,
    }
}

/// Resident set size in bytes from the contents of `/proc/self/status`.
pub fn read_vm_rss(status: &[u8]) -> (r: Option<u64>)
    ensures
        r == kib_field(status@, vm_rss_key()),
{
    read_kib_field(status, "VmRSS:".as_bytes())
}

} // verus!
