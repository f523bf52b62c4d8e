//! Input validation for the command line: ticker symbols are short
//! alphabetic words, ports are decimal numbers that fit the port range.
//! Reading and prompting stay with the caller; the rules live here.

use vstd::prelude::*;
use vstd::string::StrSliceExecFns;

verus! {

/// The arguments a run needs: the symbol to monitor and, for the server,
/// the port to listen on.
#[derive(Debug, Clone)]
pub struct Args {
    pub symbol: String,
    pub port: Option<u16>,
}

/// A non-empty word of ASCII letters.
pub open spec fn spec_is_alpha(s: Seq<char>) -> bool {
    s.len() > 0 && forall|i: int|
        0 <= i < s.len() ==> ('a' <= #[trigger] s[i] <= 'z' || 'A' <= s[i] <= 'Z')
}

/// Digits only (an empty string counts).
pub open spec fn spec_is_numeric(s: Seq<char>) -> bool {
    forall|i: int| 0 <= i < s.len() ==> '0' <= #[trigger] s[i] <= '9'
}

/// The decimal value of the first `n` characters, read left to right.
pub open spec fn spec_chars_value(s: Seq<char>, n: int) -> int
    decreases n,
{
    if n <= 0 {
        0
    } else {
        spec_chars_value(s, n - 1) * 10 + (s[n - 1] as int - 48)
    }
}

fn is_alpha(input: &str) -> (r: bool)
    ensures
        r == spec_is_alpha(input@),
{
    let n = input.unicode_len();
    if n == 0 {
        return false;
    }
    let mut i: usize = 0;
    while i < n
        invariant
            i <= n,
            n == input@.len(),
            forall|j: int|
                0 <= j < i ==> ('a' <= #[trigger] input@[j] <= 'z' || 'A' <= input@[j] <= 'Z'),
        decreases n - i,
    {
        let c = input.get_char(i);
        if !(('a' <= c && c <= 'z') || ('A' <= c && c <= 'Z')) {
            return false;
        }
        i += 1;
    }
    true
}

/// A symbol is valid when it is a word of fewer than five ASCII letters.
pub fn is_valid_symbol(input: &str) -> (r: bool)
    ensures
        r == (spec_is_alpha(input@) && input@.len() < 5),
{
    let max_len: usize = 5;
    if is_alpha(input) && input.unicode_len() < max_len {
        return true;
    }
    false
}

/// Digits only (an empty string counts).
pub fn is_numeric(input: &str) -> (r: bool)
    ensures
        r == spec_is_numeric(input@),
{
    let n = input.unicode_len();
    let mut i: usize = 0;
    while i < n
        invariant
            i <= n,
            n == input@.len(),
            forall|j: int| 0 <= j < i ==> '0' <= #[trigger] input@[j] <= '9',
        decreases n - i,
    {
        let c = input.get_char(i);
        if !('0' <= c && c <= '9') {
            return false;
        }
        i += 1;
    }
    true
}

/// A port is valid when it is all digits and its decimal value is at most
/// 65535 (an empty string reads as zero). Overlong inputs are handled: a
/// value already past the bound stays past it.
pub fn is_valid_port(port: &str) -> (r: bool)
    ensures
        r == (spec_is_numeric(port@) && spec_chars_value(port@, port@.len() as int) <= 65535),
{
    let n = port.unicode_len();
    let mut i: usize = 0;
    let mut acc: u64 = 0;
    let mut too_big = false;
    while i < n
        invariant
            i <= n,
            n == port@.len(),
            forall|j: int| 0 <= j < i ==> '0' <= #[trigger] port@[j] <= '9',
            !too_big ==> acc == spec_chars_value(port@, i as int) && acc <= 65535,
            too_big ==> spec_chars_value(port@, i as int) > 65535,
        decreases n - i,
    {
        let c = port.get_char(i);
        if !('0' <= c && c <= '9') {
            return false;
        }
        let d = (c as u32) as u64 - 48;
        proof {
            assert(spec_chars_value(port@, i as int + 1) == spec_chars_value(port@, i as int) * 10
                + (port@[i as int] as int - 48));
        }
        let ghost old_tb = too_big;
        if !too_big {
            acc = acc * 10 + d;
            if acc > 65535 {
                too_big = true;
            }
        }
        proof {
            if !old_tb {
                assert(acc == spec_chars_value(port@, i as int + 1));
            } else {
                assert(spec_chars_value(port@, i as int + 1) > 65535);
            }
        }
        i += 1;
    }
    !too_big
}

} // verus!
