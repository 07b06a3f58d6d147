//! MAC address parsing: six colon-separated hexadecimal octets.
//!
//! A malformed MAC string in a topology is a configuration error
//! surfaced before any host resource is touched.

use vstd::prelude::*;
use vstd::string::*;

verus! {

/// A hexadecimal digit, either case.
pub open spec fn is_hex(c: char) -> bool {
    ('0' <= c && c <= '9') || ('a' <= c && c <= 'f') || ('A' <= c && c <= 'F')
}

/// The value of a hexadecimal digit.
pub open spec fn hex_val(c: char) -> int {
    if '0' <= c && c <= '9' {
        crate::names::digit_val(c)
    } else if c == 'a' || c == 'A' {
        10
    } else if c == 'b' || c == 'B' {
        11
    } else if c == 'c' || c == 'C' {
        12
    } else if c == 'd' || c == 'D' {
        13
    } else if c == 'e' || c == 'E' {
        14
    } else {
        15
    }
}

/// The position of the first colon in `s`, or its length.
pub open spec fn find_colon(s: Seq<char>) -> int
    decreases s.len(),
{
    if s.len() == 0 {
        0
    } else if s[0] == ':' {
        0
    } else {
        1 + find_colon(s.skip(1))
    }
}

/// The first-colon position lies within the text.
proof fn lemma_find_colon_bounds(s: Seq<char>)
    ensures
        0 <= find_colon(s) <= s.len(),
    decreases s.len(),
{
    if s.len() > 0 && s[0] != ':' {
        lemma_find_colon_bounds(s.skip(1));
    }
}

/// `find_colon` is determined by its characterization.
proof fn lemma_find_colon_char(s: Seq<char>, k: int)
    requires
        0 <= k <= s.len(),
        k < s.len() ==> s[k] == ':',
        forall|m: int| 0 <= m < k ==> s[m] != ':',
    ensures
        find_colon(s) == k,
    decreases s.len(),
{
    if s.len() == 0 {
    } else if s[0] == ':' {
        assert(k == 0);
    } else {
        let t = s.skip(1);
        assert forall|m: int| 0 <= m < k - 1 implies t[m] != ':' by {
            assert(t[m] == s[m + 1]);
        }
        if k - 1 < t.len() {
            assert(t[k - 1] == s[k]);
        }
        lemma_find_colon_char(t, k - 1);
    }
}

/// The colon-separated parts of `s`.  An empty string is one empty part.
pub open spec fn split_colon(s: Seq<char>) -> Seq<Seq<char>>
    decreases s.len(),
    via split_colon_decreases
{
    let k = find_colon(s);
    if k == s.len() {
        seq![s]
    } else {
        seq![s.take(k)] + split_colon(s.skip(k + 1))
    }
}

#[via_fn]
proof fn split_colon_decreases(s: Seq<char>) {
    lemma_find_colon_bounds(s);
}

/// A hexadecimal octet: one or two hexadecimal digits.
pub open spec fn is_hex_group(g: Seq<char>) -> bool {
    &&& 1 <= g.len() <= 2
    &&& forall|i: int| 0 <= i < g.len() ==> is_hex(#[trigger] g[i])
}

/// The value of a hexadecimal octet.
pub open spec fn group_val(g: Seq<char>) -> int {
    if g.len() == 1 {
        hex_val(g[0])
    } else {
        hex_val(g[0]) * 16 + hex_val(g[1])
    }
}

/// A MAC string: exactly six colon-separated hexadecimal octets.
pub open spec fn is_mac(s: Seq<char>) -> bool {
    &&& split_colon(s).len() == 6
    &&& forall|i: int| 0 <= i < 6 ==> is_hex_group(#[trigger] split_colon(s)[i])
}

/// The bytes of a MAC string.
pub open spec fn mac_bytes(s: Seq<char>) -> Seq<u8> {
    split_colon(s).map_values(|g: Seq<char>| group_val(g) as u8)
}

/// The value of a hexadecimal digit.
fn hex_value(c: char) -> (r: u8)
    requires
        is_hex(c),
    ensures
        r == hex_val(c),
        r <= 15,
{
    if '0' <= c && c <= '9' {
        crate::names::digit_value(c) as u8
    } else {
        match c {
            'a' | 'A' => 10,
            'b' | 'B' => 11,
            'c' | 'C' => 12,
            'd' | 'D' => 13,
            'e' | 'E' => 14,
            _ => 15,
        }
    }
}

/// Parse the colon-separated octets of `s`, in order.
fn parse_groups(s: &str) -> (r: Option<Vec<u8>>)
    ensures
        match r {
            Some(v) => {
                &&& forall|i: int|
                    0 <= i < split_colon(s@).len() ==> is_hex_group(#[trigger] split_colon(s@)[i])
                &&& v@ == mac_bytes(s@)
            },
            None => !(forall|i: int|
                0 <= i < split_colon(s@).len() ==> is_hex_group(#[trigger] split_colon(s@)[i])),
        },
    decreases s@.len(),
{
    let n = s.unicode_len();
    // Find the first colon.
    let mut k: usize = 0;
    loop
        invariant_except_break
            0 <= k <= n,
            n == s@.len(),
            forall|m: int| 0 <= m < k ==> s@[m] != ':',
        ensures
            0 <= k <= n,
            n == s@.len(),
            forall|m: int| 0 <= m < k ==> s@[m] != ':',
            k < n ==> s@[k as int] == ':',
        decreases n - k,
    {
        if k >= n {
            break ;
        }
        if s.get_char(k) == ':' {
            break ;
        }
        k = k + 1;
    }
    proof {
        lemma_find_colon_char(s@, k as int);
    }
    // Validate the group before it.
    let ghost g = s@.take(k as int);
    if k == 0 || k > 2 {
        proof {
            if k == n {
                assert(split_colon(s@)[0] == s@);
                assert(s@.take(k as int) =~= s@);
            }
            assert(split_colon(s@)[0] == g);
            assert(!is_hex_group(g));
        }
        return None;
    }
    let c0 = s.get_char(0);
    if !(('0' <= c0 && c0 <= '9') || ('a' <= c0 && c0 <= 'f') || ('A' <= c0 && c0 <= 'F')) {
        proof {
            if k == n {
                assert(s@.take(k as int) =~= s@);
            }
            assert(split_colon(s@)[0] == g);
            assert(g[0] == s@[0]);
            assert(!is_hex_group(g));
        }
        return None;
    }
    let mut val: u8 = hex_value(c0);
    if k == 2 {
        let c1 = s.get_char(1);
        if !(('0' <= c1 && c1 <= '9') || ('a' <= c1 && c1 <= 'f') || ('A' <= c1 && c1 <= 'F')) {
            proof {
                if k == n {
                    assert(s@.take(k as int) =~= s@);
                }
                assert(split_colon(s@)[0] == g);
                assert(g[1] == s@[1]);
                assert(!is_hex_group(g));
            }
            return None;
        }
        val = val * 16 + hex_value(c1);
    }
    proof {
        if k == n {
            assert(s@.take(k as int) =~= s@);
        }
        assert(g[0] == s@[0]);
        assert(is_hex_group(g));
        assert(val == group_val(g));
    }
    if k == n {
        let mut v: Vec<u8> = Vec::new();
        v.push(val);
        proof {
            assert(split_colon(s@) == seq![s@]);
            assert(v@ =~= mac_bytes(s@));
        }
        return Some(v);
    }
    let rest = s.substring_char(k + 1, n);
    proof {
        assert(rest@ =~= s@.skip(k as int + 1));
        assert(split_colon(s@) == seq![g] + split_colon(s@.skip(k as int + 1)));
    }
    match parse_groups(rest) {
        Some(tail) => {
            let mut v: Vec<u8> = Vec::new();
            v.push(val);
            let mut i: usize = 0;
            while i < tail.len()
                invariant
                    0 <= i <= tail@.len(),
                    v@.len() == i + 1,
                    v@[0] == val,
                    forall|t: int| 0 <= t < i ==> v@[t + 1] == tail@[t],
                decreases tail@.len() - i,
            {
                v.push(tail[i]);
                i = i + 1;
            }
            proof {
                assert forall|t: int|
                    0 <= t < split_colon(s@).len() implies is_hex_group(
                    #[trigger] split_colon(s@)[t],
                ) by {
                    if t == 0 {
                    } else {
                        assert(split_colon(s@)[t] == split_colon(rest@)[t - 1]);
                    }
                }
                assert(v@ =~= mac_bytes(s@)) by {
                    assert forall|t: int| 0 <= t < v@.len() implies v@[t] == mac_bytes(s@)[t] by {
                        if t == 0 {
                            assert(mac_bytes(s@)[0] == group_val(g) as u8);
                        } else {
                            assert(split_colon(s@)[t] == split_colon(rest@)[t - 1]);
                            assert(mac_bytes(rest@)[t - 1] == group_val(split_colon(rest@)[t - 1])
                                as u8);
                        }
                    }
                }
            }
            Some(v)
        },
        None => {
            proof {
                let bad = choose|i: int|
                    0 <= i < split_colon(rest@).len() && !is_hex_group(
                        #[trigger] split_colon(rest@)[i],
                    );
                assert(split_colon(s@)[bad + 1] == split_colon(rest@)[bad]);
            }
            None
        },
    }
}

/// Parse a MAC string into its six bytes; anything else is rejected.
pub fn parse_mac(s: &str) -> (r: Option<Vec<u8>>)
    ensures
        match r {
            Some(v) => is_mac(s@) && v@ == mac_bytes(s@) && v@.len() == 6,
            None => !is_mac(s@),
        },
{
    match parse_groups(s) {
        Some(v) => {
            if v.len() == 6 {
                proof {
                    assert(v@.len() == mac_bytes(s@).len());
                    assert(split_colon(s@).len() == 6);
                }
                Some(v)
            } else {
                proof {
                    assert(v@.len() == mac_bytes(s@).len());
                }
                None
            }
        },
        None => None,
    }
}

} // verus!
