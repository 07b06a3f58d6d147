//! Control-port discovery: scanning the hypervisor's log for the line
//! that announces its listening address.
//!
//! The hypervisor prints a line holding `"local_addr":"[::]:NNNN"` (or
//! the IPv6-loopback variant with `::1`).  The log grows while it is
//! read, and a write may land mid-line, so the scanner accumulates the
//! text seen so far and re-scans: a partial head with no closing quote
//! never matches, and the match completes once the rest of the line
//! arrives.

use vstd::prelude::*;
use vstd::string::*;

use crate::errors::Error;
use crate::names::{dec_value, digit_val, digit_value, is_digit, lemma_dec_value_prefix};
use crate::serial::{contains_at, lit_at};

verus! {

/// The head of the announcement for the unspecified address.
pub open spec fn addr_head_any() -> Seq<char> {
    "\"local_addr\":\"[::]:"@
}

/// The head of the announcement for the loopback address.
pub open spec fn addr_head_loopback() -> Seq<char> {
    "\"local_addr\":\"[::1]:"@
}

/// The announcement head occurs at `i` and its port digits start at `d`.
pub open spec fn port_head_at(s: Seq<char>, i: int, d: int) -> bool {
    ||| (contains_at(s, i, addr_head_any()) && d == i + addr_head_any().len())
    ||| (contains_at(s, i, addr_head_loopback()) && d == i + addr_head_loopback().len())
}

/// The digits of the announced port run from `d` to `e`, immediately
/// followed by the closing quote.
pub open spec fn digit_run(s: Seq<char>, d: int, e: int) -> bool {
    &&& d < e < s.len()
    &&& (forall|m: int| d <= m < e ==> is_digit(#[trigger] s[m]))
    &&& !is_digit(s[e])
    &&& s[e] == '"'
}

/// A complete port announcement starts at `i`.
pub open spec fn port_match_at(s: Seq<char>, i: int) -> bool {
    exists|d: int, e: int| #[trigger] port_head_at(s, i, d) && #[trigger] digit_run(s, d, e)
}

/// Parse the digits `s[d..e]` as a port, reporting the values that do
/// not fit sixteen bits.
fn parse_port_digits(s: &str, d: usize, e: usize) -> (r: Result<u16, Error>)
    requires
        d < e <= s@.len(),
        forall|m: int| d <= m < e ==> is_digit(#[trigger] s@[m]),
    ensures
        match r {
            Ok(v) => v as int == dec_value(s@.subrange(d as int, e as int)) && dec_value(
                s@.subrange(d as int, e as int),
            ) <= 65535,
            Err(_) => dec_value(s@.subrange(d as int, e as int)) > 65535,
        },
{
    let ghost digits = s@.subrange(d as int, e as int);
    let mut v: u32 = 0;
    let mut m: usize = d;
    proof {
        assert(digits.take(0) =~= Seq::<char>::empty());
    }
    while m < e
        invariant
            d <= m <= e <= s@.len(),
            forall|t: int| d <= t < e ==> is_digit(#[trigger] s@[t]),
            digits == s@.subrange(d as int, e as int),
            v as int == dec_value(digits.take(m - d)),
            v <= 65535,
        decreases e - m,
    {
        let c = s.get_char(m);
        let dv = digit_value(c);
        v = v * 10 + dv;
        proof {
            assert(digits.take(m - d + 1).drop_last() =~= digits.take(m - d));
            assert(digits.take(m - d + 1).last() == s@[m as int]);
        }
        if v > 65535 {
            proof {
                lemma_dec_value_prefix(digits, m - d + 1);
            }
            return Err(
                Error::Parse("hypervisor port does not fit sixteen bits".to_owned()),
            );
        }
        m = m + 1;
    }
    proof {
        assert(digits.take(e - d) =~= digits);
    }
    Ok(v as u16)
}

/// Find the leftmost complete port announcement in `s` and parse its
/// digits.
fn scan_for_port(s: &str) -> (r: Option<Result<u16, Error>>)
    ensures
        match r {
            Some(pr) => exists|i: int, d: int, e: int|
                {
                    &&& #[trigger] port_head_at(s@, i, d)
                    &&& #[trigger] digit_run(s@, d, e)
                    &&& (forall|j: int| 0 <= j < i ==> !port_match_at(s@, j))
                    &&& match pr {
                        Ok(v) => v as int == dec_value(s@.subrange(d, e)) && dec_value(
                            s@.subrange(d, e),
                        ) <= 65535,
                        Err(_) => dec_value(s@.subrange(d, e)) > 65535,
                    }
                },
            None => forall|j: int| !port_match_at(s@, j),
        },
{
    proof {
        reveal_strlit("\"local_addr\":\"[::]:");
        reveal_strlit("\"local_addr\":\"[::1]:");
    }
    let n = s.unicode_len();
    let mut i: usize = 0;
    while i < n
        invariant
            0 <= i <= n,
            n == s@.len(),
            forall|j: int| 0 <= j < i ==> !port_match_at(s@, j),
        decreases n - i,
    {
        let head_any = lit_at(s, i, "\"local_addr\":\"[::]:");
        let head_loop = if head_any {
            false
        } else {
            lit_at(s, i, "\"local_addr\":\"[::1]:")
        };
        if head_any || head_loop {
            proof {
                reveal_strlit("\"local_addr\":\"[::]:");
                reveal_strlit("\"local_addr\":\"[::1]:");
                assert(addr_head_any().len() == 19);
                assert(addr_head_loopback().len() == 20);
            }
            let d: usize = if head_any {
                i + 19
            } else {
                i + 20
            };
            proof {
                assert(port_head_at(s@, i as int, d as int));
            }
            // Find the end of the digit run.
            let mut e: usize = d;
            loop
                invariant_except_break
                    d <= e <= n,
                    n == s@.len(),
                    forall|m: int| d <= m < e ==> is_digit(#[trigger] s@[m]),
                ensures
                    d <= e <= n,
                    n == s@.len(),
                    forall|m: int| d <= m < e ==> is_digit(#[trigger] s@[m]),
                    e == n || !is_digit(s@[e as int]),
                decreases n - e,
            {
                if e >= n {
                    break ;
                }
                let c = s.get_char(e);
                if !('0' <= c && c <= '9') {
                    break ;
                }
                e = e + 1;
            }
            if e > d && e < n && s.get_char(e) == '"' {
                proof {
                    assert(digit_run(s@, d as int, e as int));
                }
                return Some(parse_port_digits(s, d, e));
            }
            // No complete run here: this head never matches, because the
            // digit run after `d` is fixed, so keep scanning.
            proof {
                assert forall|dd: int, ee: int|
                    port_head_at(s@, i as int, dd) && digit_run(s@, dd, ee) implies false by {
                    if head_any && contains_at(s@, i as int, addr_head_loopback()) {
                        reveal_strlit("\"local_addr\":\"[::]:");
                        reveal_strlit("\"local_addr\":\"[::1]:");
                        assert(addr_head_any()[17] == ']');
                        assert(addr_head_loopback()[17] == '1');
                        assert(s@.subrange(i as int, i + 19) == addr_head_any());
                        assert(s@.subrange(i as int, i + 19)[17] == s@[i + 17]);
                        assert(s@.subrange(i as int, i + 20) == addr_head_loopback());
                        assert(s@.subrange(i as int, i + 20)[17] == s@[i + 17]);
                        assert(s@[i + 17] == ']' && s@[i + 17] == '1');
                    }
                    assert(dd == d as int);
                    if ee < e {
                        assert(is_digit(s@[ee]));
                    } else {
                        assert(ee < s@.len());
                        assert(e < s@.len() && ee >= e);
                        if e == ee {
                        } else {
                            assert(is_digit(s@[e as int]));
                        }
                    }
                }
                assert(!port_match_at(s@, i as int));
            }
        } else {
            proof {
                assert(!port_match_at(s@, i as int));
            }
        }
        i = i + 1;
    }
    proof {
        assert forall|j: int| port_match_at(s@, j) implies false by {
            if 0 <= j < n {
            } else {
                let (d, e) = choose|d: int, e: int|
                    #[trigger] port_head_at(s@, j, d) && #[trigger] digit_run(s@, j, e)
                        || port_head_at(s@, j, d) && digit_run(s@, d, e);
                assert(addr_head_any().len() == 19);
                assert(addr_head_loopback().len() == 20);
            }
        }
    }
    None
}

/// The port scanner: accumulated log text, scanned after every read.
pub struct PortScanner {
    /// The log text seen so far.
    pub buf: String,
}

impl PortScanner {
    /// A scanner with nothing read yet.
    pub fn new() -> (r: PortScanner)
        ensures
            r.buf@.len() == 0,
    {
        PortScanner { buf: String::new() }
    }

    /// Feed newly read log text and scan everything seen so far.  The
    /// result is the port of the leftmost complete announcement, an
    /// error when its digits exceed a port's range, and nothing while no
    /// complete announcement has arrived.
    pub fn push_chunk(&mut self, chunk: &str) -> (r: Option<Result<u16, Error>>)
        ensures
            final(self).buf@ == old(self).buf@ + chunk@,
            match r {
                Some(pr) => exists|i: int, d: int, e: int|
                    {
                        &&& #[trigger] port_head_at(final(self).buf@, i, d)
                        &&& #[trigger] digit_run(final(self).buf@, d, e)
                        &&& (forall|j: int| 0 <= j < i ==> !port_match_at(final(self).buf@, j))
                        &&& match pr {
                            Ok(v) => v as int == dec_value(final(self).buf@.subrange(d, e))
                                && dec_value(final(self).buf@.subrange(d, e)) <= 65535,
                            Err(_) => dec_value(final(self).buf@.subrange(d, e)) > 65535,
                        }
                    },
                None => forall|j: int| !port_match_at(final(self).buf@, j),
            },
    {
        self.buf.append(chunk);
        scan_for_port(self.buf.as_str())
    }
}

} // verus!
