//! Process identifiers, read from the base name of a process directory.

use vstd::prelude::*;
use crate::base_name::{base_name, get_name_from_str};

verus! {

pub open spec fn is_decimal_digit(c: char) -> bool {
    '0' <= c <= '9'
}

/// The value of a string of decimal digits.
pub open spec fn digits_value(s: Seq<char>) -> int
    decreases s.len(),
{
    if s.len() == 0 {
        0
    } else {
        digits_value(s.drop_last()) * 10 + (s.last() as int - '0' as int)
    }
}

/// A process identifier written in decimal: one digit or more, no sign, and a
/// value that fits in an `i32`.
pub open spec fn parse_pid(s: Seq<char>) -> Option<i32> {
    if s.len() > 0 && (forall|i: int| 0 <= i < s.len() ==> is_decimal_digit(#[trigger] s[i]))
        && digits_value(s) <= i32::MAX {
        Some(digits_value(s) as i32)
    } else {
        None
    }
}

/// The identifier named by the base name of a path.
pub open spec fn pid_of_path(s: Seq<char>) -> Option<i32> {
    match base_name(s) {
        Some(b) => parse_pid(b),
        None => None,
    }
}

/// Parses `s` as a process identifier: decimal digits only, at most `i32::MAX`.
pub fn parse_pid_str(s: &str) -> (r: Option<i32>)
    ensures
        r == parse_pid(s@),
{
    let n = s.unicode_len();
    if n == 0 {
        return None;
    }
    let mut acc: u64 = 0;
    let mut over = false;
    let mut i: usize = 0;
    while i < n
        invariant
            n == s@.len(),
            i <= n,
            forall|j: int| 0 <= j < i ==> is_decimal_digit(#[trigger] s@[j]),
            !over ==> acc == digits_value(s@.take(i as int)) && acc <= i32::MAX,
            over ==> digits_value(s@.take(i as int)) > i32::MAX,
        decreases n - i,
    {
        let c = s.get_char(i);
        if !('0' <= c && c <= '9') {
            return None;
        }
        assert(s@.take(i + 1).drop_last() =~= s@.take(i as int));
        assert(digits_value(s@.take(i as int)) >= 0) by {
            lemma_digits_value_nonneg(s@.take(i as int));
        }
        if !over {
            acc = acc * 10 + (c as u64 - '0' as u64);
            if acc > i32::MAX as u64 {
                over = true;
            }
        }
        i = i + 1;
    }
    assert(s@.take(n as int) =~= s@);
    if over {
        None
    } else {
        Some(acc as i32)
    }
}

proof fn lemma_digits_value_nonneg(s: Seq<char>)
    requires
        forall|i: int| 0 <= i < s.len() ==> is_decimal_digit(#[trigger] s[i]),
    ensures
        digits_value(s) >= 0,
    decreases s.len(),
{
    if s.len() > 0 {
        let r = s.drop_last();
        assert forall|i: int| 0 <= i < r.len() implies is_decimal_digit(#[trigger] r[i]) by {
            assert(r[i] == s[i]);
        }
        lemma_digits_value_nonneg(r);
        assert(is_decimal_digit(s[s.len() - 1]));
    }
}

/// Reads the process identifier from the base name of a path such as
/// `/proc/1234`.
pub fn get_pid_from_proc_path(path: &str) -> (r: Option<i32>)
    ensures
        r == pid_of_path(path@),
{
    match get_name_from_str(path) {
        Some(b) => parse_pid_str(b.as_str()),
        None => None,
    }
}

} // verus!
