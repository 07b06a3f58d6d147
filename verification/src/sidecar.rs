//! Sidecar files: the per-node runtime state the driver writes beside
//! the topology.
//!
//! Each launched node leaves three plain-text files in the workspace:
//! `{node}.pid` with the hypervisor process id, `{node}.port` with the
//! control port, and `{node}.uuid` with the instance identifier.  Every
//! value is a single line; readers trim trailing whitespace before
//! parsing.

use vstd::prelude::*;
use vstd::string::*;

use crate::names::{
    dec_rep, dec_value, digit_value, is_digit, lemma_dec_rep_digits, lemma_dec_rep_value,
    lemma_dec_value_prefix, u64_to_string,
};

verus! {

/// A whitespace character trimmed from the end of a sidecar value.
pub open spec fn is_ws(c: char) -> bool {
    c == ' ' || c == '\t' || c == '\r' || c == '\n'
}

/// `s` with trailing whitespace removed.
pub open spec fn spec_trim_end(s: Seq<char>) -> Seq<char>
    decreases s.len(),
{
    if s.len() > 0 && is_ws(s.last()) {
        spec_trim_end(s.drop_last())
    } else {
        s
    }
}

/// A nonempty string of decimal digits.
pub open spec fn is_digits(s: Seq<char>) -> bool {
    s.len() > 0 && forall|i: int| 0 <= i < s.len() ==> is_digit(#[trigger] s[i])
}

/// What a sidecar integer parses to: trim trailing whitespace; the rest
/// must be one or more digits whose value fits an unsigned 64-bit word.
pub open spec fn spec_parse_u64(s: Seq<char>) -> Option<int> {
    let t = spec_trim_end(s);
    if is_digits(t) && dec_value(t) <= u64::MAX {
        Some(dec_value(t))
    } else {
        None
    }
}

/// Trim trailing whitespace.
pub fn trim_end_str(s: &str) -> (r: String)
    ensures
        r@ == spec_trim_end(s@),
{
    let n = s.unicode_len();
    let mut e: usize = n;
    proof {
        assert(s@.take(n as int) =~= s@);
    }
    loop
        invariant_except_break
            0 <= e <= n,
            n == s@.len(),
            spec_trim_end(s@) == spec_trim_end(s@.take(e as int)),
        ensures
            0 <= e <= n,
            n == s@.len(),
            spec_trim_end(s@) == s@.take(e as int),
        decreases e,
    {
        if e == 0 {
            proof {
                assert(s@.take(0).len() == 0);
            }
            break ;
        }
        let c = s.get_char(e - 1);
        if c == ' ' || c == '\t' || c == '\r' || c == '\n' {
            proof {
                assert(s@.take(e as int).last() == s@[e - 1]);
                assert(s@.take(e as int).drop_last() =~= s@.take(e - 1));
            }
            e = e - 1;
        } else {
            proof {
                assert(s@.take(e as int).last() == s@[e - 1]);
                assert(!is_ws(s@.take(e as int).last()));
            }
            break ;
        }
    }
    s.substring_char(0, e).to_owned()
}

/// Parse a sidecar integer: trailing whitespace trimmed, then one or
/// more digits whose value fits an unsigned 64-bit word.
pub fn parse_u64(s: &str) -> (r: Option<u64>)
    ensures
        match r {
            Some(v) => spec_parse_u64(s@) == Some(v as int),
            None => spec_parse_u64(s@) is None,
        },
{
    let t = trim_end_str(s);
    let ts = t.as_str();
    let n = ts.unicode_len();
    if n == 0 {
        return None;
    }
    let ghost digits = ts@;
    let mut v: u64 = 0;
    let mut k: usize = 0;
    proof {
        assert(digits.take(0) =~= Seq::<char>::empty());
    }
    while k < n
        invariant
            0 <= k <= n,
            n == ts@.len(),
            digits == ts@,
            digits == spec_trim_end(s@),
            n > 0,
            forall|m: int| 0 <= m < k ==> is_digit(#[trigger] digits[m]),
            v as int == dec_value(digits.take(k as int)),
        decreases n - k,
    {
        let c = ts.get_char(k);
        if !('0' <= c && c <= '9') {
            return None;
        }
        let dv: u64 = digit_value(c) as u64;
        proof {
            assert(digits.take(k as int + 1).drop_last() =~= digits.take(k as int));
            assert(digits.take(k as int + 1).last() == digits[k as int]);
        }
        if v > u64::MAX / 10 || (v == u64::MAX / 10 && dv > u64::MAX % 10) {
            proof {
                let b = u64::MAX as int;
                let w = v as int;
                if w > b / 10 {
                    assert(w * 10 >= (b / 10 + 1) * 10) by (nonlinear_arith)
                        requires
                            w >= b / 10 + 1,
                    ;
                    assert((b / 10 + 1) * 10 == (b / 10) * 10 + 10) by (nonlinear_arith);
                    assert(w * 10 + dv > b);
                } else {
                    assert(w * 10 + dv > b);
                }
                assert(dec_value(digits.take(k as int + 1)) > b);
                lemma_dec_value_prefix(digits, k as int + 1);
            }
            return None;
        }
        proof {
            let b = u64::MAX as int;
            let w = v as int;
            if w < b / 10 {
                assert(w * 10 <= (b / 10 - 1) * 10) by (nonlinear_arith)
                    requires
                        w <= b / 10 - 1,
                ;
                assert((b / 10 - 1) * 10 == (b / 10) * 10 - 10) by (nonlinear_arith);
                assert(w * 10 + dv <= b);
            } else {
                assert(w * 10 + dv <= b);
            }
        }
        v = v * 10 + dv;
        k = k + 1;
    }
    proof {
        assert(digits.take(n as int) =~= digits);
        assert(is_digits(digits));
    }
    Some(v)
}

/// Parse a sidecar control port: an integer that fits sixteen bits.
pub fn parse_port(s: &str) -> (r: Option<u16>)
    ensures
        match r {
            Some(v) => spec_parse_u64(s@) == Some(v as int),
            None => spec_parse_u64(s@) is None || spec_parse_u64(s@).unwrap() > 65535,
        },
{
    match parse_u64(s) {
        Some(v) => {
            if v <= 65535 {
                Some(v as u16)
            } else {
                None
            }
        },
        None => None,
    }
}

/// Parse a sidecar process id: an integer that fits a signed 32-bit
/// word.
pub fn parse_pid(s: &str) -> (r: Option<i32>)
    ensures
        match r {
            Some(v) => spec_parse_u64(s@) == Some(v as int),
            None => spec_parse_u64(s@) is None || spec_parse_u64(s@).unwrap() > i32::MAX,
        },
{
    match parse_u64(s) {
        Some(v) => {
            if v <= 0x7fff_ffff {
                Some(v as i32)
            } else {
                None
            }
        },
        None => None,
    }
}

/// The name of a node's pid sidecar file.
pub fn pid_file_name(node: &str) -> (r: String)
    ensures
        r@ == node@ + ".pid"@,
{
    let mut s = node.to_owned();
    s.append(".pid");
    s
}

/// The name of a node's control-port sidecar file.
pub fn port_file_name(node: &str) -> (r: String)
    ensures
        r@ == node@ + ".port"@,
{
    let mut s = node.to_owned();
    s.append(".port");
    s
}

/// The name of a node's instance-identifier sidecar file.
pub fn uuid_file_name(node: &str) -> (r: String)
    ensures
        r@ == node@ + ".uuid"@,
{
    let mut s = node.to_owned();
    s.append(".uuid");
    s
}

/// The name of a node's captured-stdout file.
pub fn out_file_name(node: &str) -> (r: String)
    ensures
        r@ == node@ + ".out"@,
{
    let mut s = node.to_owned();
    s.append(".out");
    s
}

/// The name of a node's captured-stderr file.
pub fn err_file_name(node: &str) -> (r: String)
    ensures
        r@ == node@ + ".err"@,
{
    let mut s = node.to_owned();
    s.append(".err");
    s
}

/// The sidecar files a successful launch writes for a node: the pid,
/// the control port and the instance identifier, each as a single
/// plain-text value.
pub fn sidecar_files(node: &str, pid: u64, port: u16, uuid: &str) -> (r: Vec<(String, String)>)
    ensures
        r@.len() == 3,
        r@[0].0@ == node@ + ".pid"@ && r@[0].1@ == dec_rep(pid as nat),
        r@[1].0@ == node@ + ".port"@ && r@[1].1@ == dec_rep(port as nat),
        r@[2].0@ == node@ + ".uuid"@ && r@[2].1@ == uuid@,
{
    let mut r: Vec<(String, String)> = Vec::new();
    r.push((pid_file_name(node), u64_to_string(pid)));
    r.push((port_file_name(node), u64_to_string(port as u64)));
    r.push((uuid_file_name(node), uuid.to_owned()));
    r
}

/// A decimal rendering has no trailing whitespace to trim.
proof fn lemma_trim_dec_rep(n: nat)
    ensures
        spec_trim_end(dec_rep(n)) == dec_rep(n),
{
    lemma_dec_rep_digits(n);
    assert(!is_ws(dec_rep(n).last()));
}

/// A decimal rendering parses back to the rendered value.
pub proof fn lemma_parse_dec_rep(n: u64)
    ensures
        spec_parse_u64(dec_rep(n as nat)) == Some(n as int),
{
    lemma_trim_dec_rep(n as nat);
    lemma_dec_rep_digits(n as nat);
    lemma_dec_rep_value(n as nat);
}

/// The sidecar round trip: the pid and port written at launch parse
/// back to the very values that were written, and both fit their
/// ranges.
pub proof fn lemma_sidecar_round_trip(pid: u64, port: u16)
    ensures
        spec_parse_u64(dec_rep(pid as nat)) == Some(pid as int),
        spec_parse_u64(dec_rep(port as nat)) == Some(port as int),
        port as int <= 65535,
{
    lemma_trim_dec_rep(pid as nat);
    lemma_trim_dec_rep(port as nat);
    lemma_dec_rep_digits(pid as nat);
    lemma_dec_rep_digits(port as nat);
    lemma_dec_rep_value(pid as nat);
    lemma_dec_rep_value(port as nat);
}

} // verus!
