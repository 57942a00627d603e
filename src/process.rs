//! Reading the results of the commands that probe and signal the bar process.
use vstd::prelude::*;
use crate::error::AppError;
use crate::error::join_text;
use crate::text::chars_of;
use crate::text::lines;
use crate::text::lines_of;
use crate::text::trim_text;
use crate::text::trimmed;

verus! {

/// Whether `c` is an ASCII decimal digit.
pub open spec fn is_digit(c: char) -> bool {
    '0' <= c && c <= '9'
}

/// The number written by the decimal digits `d`.
pub open spec fn digits_value(d: Seq<char>) -> nat
    decreases d.len(),
{
    if d.len() == 0 {
        0
    } else {
        digits_value(d.drop_last()) * 10 + (d.last() as nat - '0' as nat) as nat
    }
}

/// `s` without one leading `+`.
pub open spec fn unsigned_part(s: Seq<char>) -> Seq<char> {
    if s.len() > 0 && s[0] == '+' {
        s.drop_first()
    } else {
        s
    }
}

/// Every character of `d` is a decimal digit.
pub open spec fn all_digits(d: Seq<char>) -> bool {
    forall|k: int| 0 <= k < d.len() ==> is_digit(#[trigger] d[k])
}

/// The `u32` that `s` writes, as `str::parse::<u32>` reads it: an optional `+`,
/// then one or more decimal digits, with a value that fits.
pub open spec fn parse_u32(s: Seq<char>) -> Option<u32> {
    let d = unsigned_part(s);
    if d.len() > 0 && all_digits(d) && digits_value(d) <= u32::MAX {
        Some(digits_value(d) as u32)
    } else {
        None
    }
}

/// The process ids read from the first `k` lines of `ls`: each line, trimmed,
/// that is a `u32`; the others are passed over.
pub open spec fn pids_in(ls: Seq<Seq<char>>, k: int) -> Seq<u32>
    decreases k,
{
    if k <= 0 || k > ls.len() {
        Seq::empty()
    } else {
        match parse_u32(trimmed(ls[k - 1])) {
            Some(p) => pids_in(ls, k - 1).push(p),
            None => pids_in(ls, k - 1),
        }
    }
}

proof fn lemma_digits_value_grows(d: Seq<char>, m: int, m2: int)
    requires
        0 <= m <= m2 <= d.len(),
        forall|k: int| 0 <= k < m2 ==> is_digit(#[trigger] d[k]),
    ensures
        digits_value(d.subrange(0, m)) <= digits_value(d.subrange(0, m2)),
    decreases m2 - m,
{
    if m < m2 {
        lemma_digits_value_grows(d, m, m2 - 1);
        assert(d.subrange(0, m2).drop_last() =~= d.subrange(0, m2 - 1));
    }
}

/// Reads `s` as a `u32` (see `parse_u32`).
pub fn parse_u32_text(s: &str) -> (r: Option<u32>)
    ensures
        r == parse_u32(s@),
{
    let v = chars_of(s);
    let n = v.len();
    let mut k: usize = 0;
    if n > 0 && v[0] == '+' {
        k = 1;
    }
    let ghost d = unsigned_part(s@);
    assert(d =~= v@.subrange(k as int, n as int));
    if k == n {
        return None;
    }
    let start = k;
    let mut acc: u64 = 0;
    while k < n
        invariant
            v@ == s@,
            n == v.len(),
            start <= k <= n,
            d == v@.subrange(start as int, n as int),
            d == unsigned_part(s@),
            forall|j: int| 0 <= j < k - start ==> is_digit(#[trigger] d[j]),
            acc as nat == digits_value(d.subrange(0, k - start)),
            acc <= u32::MAX,
        decreases n - k,
    {
        let c = v[k];
        if !('0' <= c && c <= '9') {
            assert(!is_digit(d[k - start]));
            assert(!all_digits(d));
            assert(parse_u32(s@) is None);
            return None;
        }
        let digit = (c as u32 - '0' as u32) as u64;
        let ghost m = k - start;
        assert(d.subrange(0, m + 1).drop_last() =~= d.subrange(0, m));
        assert(d.subrange(0, m + 1).last() == c);
        assert(digits_value(d.subrange(0, m + 1)) == digits_value(d.subrange(0, m)) * 10 + digit);
        acc = acc * 10 + digit;
        k = k + 1;
        if acc > u32::MAX as u64 {
            proof {
                if all_digits(d) {
                    lemma_digits_value_grows(d, k - start, d.len() as int);
                    assert(d.subrange(0, d.len() as int) =~= d);
                    assert(digits_value(d) > u32::MAX);
                }
                assert(parse_u32(s@) is None);
            }
            return None;
        }
    }
    assert(d.subrange(0, k - start) =~= d);
    Some(acc as u32)
}

/// The process ids listed in `stdout`, one per line (see `pids_in`).
pub fn parse_pids(stdout: &str) -> (r: Vec<u32>)
    ensures
        r@ == pids_in(lines(stdout@), lines(stdout@).len() as int),
{
    let ls = lines_of(stdout);
    let ghost lv = ls@.map_values(|l: String| l@);
    let mut r: Vec<u32> = Vec::new();
    let mut k: usize = 0;
    while k < ls.len()
        invariant
            lv == lines(stdout@),
            lv == ls@.map_values(|l: String| l@),
            k <= ls.len(),
            r@ == pids_in(lv, k as int),
        decreases ls.len() - k,
    {
        let t = trim_text(ls[k].as_str());
        assert(lv[k as int] == ls@[k as int]@);
        match parse_u32_text(t.as_str()) {
            Some(p) => r.push(p),
            None => {},
        }
        k = k + 1;
    }
    r
}

/// The outcome of signalling the bar process to `action`: success, or a
/// failure without error output, is fine; a failure with error output is an
/// internal error carrying that output, trimmed.
pub fn signal_outcome(action: &str, success: bool, stderr: &str) -> (r: Result<(), AppError>)
    ensures
        r is Ok <==> success || stderr@.len() == 0,
        r is Err ==> r->Err_0 is Internal && r->Err_0->Internal_0@ == "Failed to "@ + action@
            + " Waybar: "@ + trimmed(stderr@),
{
    if success || stderr.unicode_len() == 0 {
        Ok(())
    } else {
        let a = join_text("Failed to ", action);
        let b = join_text(a.as_str(), " Waybar: ");
        let t = trim_text(stderr);
        Err(AppError::Internal(join_text(b.as_str(), t.as_str())))
    }
}

} // verus!
