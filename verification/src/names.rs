//! Names: deployment/node name validity, decimal rendering, and the
//! host-link naming scheme that ties the abstract topology to concrete
//! host resources.
//!
//! For an endpoint with per-node index `i` on node `n` of deployment `d`,
//! the backing simnet is named `{d}_{n}_{tag}_sim{i}` and the vnic over it
//! `{d}_{n}_{tag}_vnic{i}`, where `tag` designates the endpoint kind.
//! These names are the sole key linking the topology to host state, so
//! their injectivity is proved here.

use vstd::prelude::*;
use vstd::string::*;

verus! {

/// A letter, as the first character of a name must be.
pub open spec fn is_letter(c: char) -> bool {
    ('a' <= c && c <= 'z') || ('A' <= c && c <= 'Z')
}

/// A decimal digit character.
pub open spec fn is_digit(c: char) -> bool {
    '0' <= c && c <= '9'
}

/// A character allowed anywhere in a deployment or node name.
pub open spec fn is_name_char(c: char) -> bool {
    is_letter(c) || is_digit(c) || c == '_'
}

/// A valid deployment or node name: nonempty, starts with a letter, and
/// holds only letters, digits and underscores.
pub open spec fn is_name(s: Seq<char>) -> bool {
    &&& s.len() > 0
    &&& is_letter(s[0])
    &&& forall|i: int| 0 <= i < s.len() ==> is_name_char(#[trigger] s[i])
}

/// Check that `s` is a valid deployment or node name.
pub fn name_ok(s: &str) -> (r: bool)
    ensures
        r == is_name(s@),
{
    let n = s.unicode_len();
    if n == 0 {
        return false;
    }
    let c0 = s.get_char(0);
    if !(('a' <= c0 && c0 <= 'z') || ('A' <= c0 && c0 <= 'Z')) {
        return false;
    }
    let mut i: usize = 1;
    while i < n
        invariant
            1 <= i <= n,
            n == s@.len(),
            is_letter(s@[0]),
            forall|j: int| 0 <= j < i ==> is_name_char(#[trigger] s@[j]),
        decreases n - i,
    {
        let c = s.get_char(i);
        if !(('a' <= c && c <= 'z') || ('A' <= c && c <= 'Z') || ('0' <= c && c <= '9') || c
            == '_') {
            return false;
        }
        i = i + 1;
    }
    true
}

/// The digit character for a value below ten.
pub open spec fn digit_char(d: nat) -> char {
    if d == 0 {
        '0'
    } else if d == 1 {
        '1'
    } else if d == 2 {
        '2'
    } else if d == 3 {
        '3'
    } else if d == 4 {
        '4'
    } else if d == 5 {
        '5'
    } else if d == 6 {
        '6'
    } else if d == 7 {
        '7'
    } else if d == 8 {
        '8'
    } else {
        '9'
    }
}

/// The decimal rendering of `n`, most significant digit first.
pub open spec fn dec_rep(n: nat) -> Seq<char>
    decreases n,
{
    if n < 10 {
        seq![digit_char(n)]
    } else {
        dec_rep(n / 10).push(digit_char(n % 10))
    }
}

/// The decimal rendering is nonempty and holds only digits.
pub proof fn lemma_dec_rep_digits(n: nat)
    ensures
        dec_rep(n).len() >= 1,
        forall|i: int| 0 <= i < dec_rep(n).len() ==> is_digit(#[trigger] dec_rep(n)[i]),
    decreases n,
{
    if n >= 10 {
        lemma_dec_rep_digits(n / 10);
    }
}

/// Distinct numbers have distinct decimal renderings.
pub proof fn lemma_dec_rep_injective(a: nat, b: nat)
    requires
        a != b,
    ensures
        dec_rep(a) != dec_rep(b),
    decreases a + b,
{
    lemma_dec_rep_digits(a);
    lemma_dec_rep_digits(b);
    if a < 10 && b < 10 {
        assert(dec_rep(a)[0] != dec_rep(b)[0]);
    } else if a < 10 && b >= 10 {
        lemma_dec_rep_digits(b / 10);
        assert(dec_rep(b).len() >= 2);
    } else if a >= 10 && b < 10 {
        lemma_dec_rep_digits(a / 10);
        assert(dec_rep(a).len() >= 2);
    } else {
        if a % 10 != b % 10 {
            assert(dec_rep(a).last() != dec_rep(b).last());
        } else {
            lemma_dec_rep_injective(a / 10, b / 10);
            if dec_rep(a) == dec_rep(b) {
                assert(dec_rep(a / 10).push(digit_char((a % 10) as nat)).drop_last() =~= dec_rep(
                    a / 10,
                ));
                assert(dec_rep(b / 10).push(digit_char((b % 10) as nat)).drop_last() =~= dec_rep(
                    b / 10,
                ));
                assert(false);
            }
        }
    }
}

/// Map a single decimal digit to its character, as a string slice.
fn digit_str(d: u64) -> (s: &'static str)
    requires
        d < 10,
    ensures
        s@ == seq![digit_char(d as nat)],
{
    proof {
        reveal_strlit("0");
        reveal_strlit("1");
        reveal_strlit("2");
        reveal_strlit("3");
        reveal_strlit("4");
        reveal_strlit("5");
        reveal_strlit("6");
        reveal_strlit("7");
        reveal_strlit("8");
        reveal_strlit("9");
    }
    let r = match d {
        0 => "0",
        1 => "1",
        2 => "2",
        3 => "3",
        4 => "4",
        5 => "5",
        6 => "6",
        7 => "7",
        8 => "8",
        _ => "9",
    };
    proof {
        assert(r@ =~= seq![digit_char(d as nat)]);
    }
    r
}

/// Render `n` in decimal.
pub fn u64_to_string(n: u64) -> (s: String)
    ensures
        s@ == dec_rep(n as nat),
    decreases n,
{
    if n < 10 {
        let s = digit_str(n).to_owned();
        s
    } else {
        let mut s = u64_to_string(n / 10);
        s.append(digit_str(n % 10));
        proof {
            assert(s@ =~= dec_rep(n as nat));
        }
        s
    }
}

/// The numeric value of a digit character.
pub open spec fn digit_val(c: char) -> int {
    if c == '0' {
        0
    } else if c == '1' {
        1
    } else if c == '2' {
        2
    } else if c == '3' {
        3
    } else if c == '4' {
        4
    } else if c == '5' {
        5
    } else if c == '6' {
        6
    } else if c == '7' {
        7
    } else if c == '8' {
        8
    } else {
        9
    }
}

/// The value of a digit string, most significant digit first.
pub open spec fn dec_value(s: Seq<char>) -> int
    decreases s.len(),
{
    if s.len() == 0 {
        0
    } else {
        dec_value(s.drop_last()) * 10 + digit_val(s.last())
    }
}

/// The value of a digit string is not negative.
pub proof fn lemma_dec_value_nonneg(s: Seq<char>)
    ensures
        dec_value(s) >= 0,
    decreases s.len(),
{
    if s.len() > 0 {
        lemma_dec_value_nonneg(s.drop_last());
    }
}

/// Extending a digit string never shrinks its value: the value of any
/// prefix is a lower bound.
pub proof fn lemma_dec_value_prefix(s: Seq<char>, k: int)
    requires
        0 <= k <= s.len(),
    ensures
        dec_value(s.take(k)) <= dec_value(s),
    decreases s.len() - k,
{
    if k < s.len() {
        lemma_dec_value_nonneg(s.take(k));
        assert(s.take(k + 1).drop_last() =~= s.take(k));
        assert(dec_value(s.take(k + 1)) == dec_value(s.take(k)) * 10 + digit_val(
            s.take(k + 1).last(),
        ));
        assert(digit_val(s.take(k + 1).last()) >= 0);
        assert(dec_value(s.take(k)) * 10 >= dec_value(s.take(k))) by (nonlinear_arith)
            requires dec_value(s.take(k)) >= 0;
        assert(dec_value(s.take(k)) <= dec_value(s.take(k + 1)));
        lemma_dec_value_prefix(s, k + 1);
    } else {
        assert(s.take(k) =~= s);
    }
}

/// Rendering a number in decimal and reading the digits back yields the
/// same number.
pub proof fn lemma_dec_rep_value(n: nat)
    ensures
        dec_value(dec_rep(n)) == n,
    decreases n,
{
    if n < 10 {
        assert(seq![digit_char(n)].drop_last() =~= Seq::<char>::empty());
        assert(dec_value(Seq::<char>::empty()) == 0);
        assert(seq![digit_char(n)].last() == digit_char(n));
        assert(digit_val(digit_char(n)) == n);
    } else {
        lemma_dec_rep_value(n / 10);
        assert(dec_rep(n).drop_last() =~= dec_rep(n / 10));
        assert(digit_val(digit_char(n % 10)) == n % 10);
    }
}

/// The numeric value of a digit character.
pub fn digit_value(c: char) -> (r: u32)
    requires
        is_digit(c),
    ensures
        r == digit_val(c),
        r <= 9,
{
    match c {
        '0' => 0,
        '1' => 1,
        '2' => 2,
        '3' => 3,
        '4' => 4,
        '5' => 5,
        '6' => 6,
        '7' => 7,
        '8' => 8,
        _ => 9,
    }
}

/// The separator between name components.
pub open spec fn sep() -> Seq<char> {
    seq!['_']
}

/// The kind tag of a viona endpoint.
pub open spec fn vn_tag() -> Seq<char> {
    seq!['v', 'n']
}

/// The kind tag of a SoftNPU endpoint.
pub open spec fn sn_tag() -> Seq<char> {
    seq!['s', 'n']
}

/// The infix before the index in a simnet name.
pub open spec fn sim_infix() -> Seq<char> {
    seq!['_', 's', 'i', 'm']
}

/// The infix before the index in a vnic name.
pub open spec fn vnic_infix() -> Seq<char> {
    seq!['_', 'v', 'n', 'i', 'c']
}

/// A host link name: `{depl}_{node}_{tag}{infix}{idx}`.
pub open spec fn spec_link_name(
    depl: Seq<char>,
    node: Seq<char>,
    tag: Seq<char>,
    infix: Seq<char>,
    idx: nat,
) -> Seq<char> {
    depl + sep() + node + sep() + tag + infix + dec_rep(idx)
}

/// The simnet name for an endpoint of the given node, tag and index.
pub open spec fn spec_simnet_name(depl: Seq<char>, node: Seq<char>, tag: Seq<char>, idx: nat) -> Seq<
    char,
> {
    spec_link_name(depl, node, tag, sim_infix(), idx)
}

/// The vnic name for an endpoint of the given node, tag and index.
pub open spec fn spec_vnic_name(depl: Seq<char>, node: Seq<char>, tag: Seq<char>, idx: nat) -> Seq<
    char,
> {
    spec_link_name(depl, node, tag, vnic_infix(), idx)
}

/// Build `{depl}_{node}_{tag}{infix}{idx}`.
fn build_link_name(depl: &str, node: &str, tag: &str, infix: &str, idx: usize) -> (r: String)
    ensures
        r@ == depl@ + sep() + node@ + sep() + tag@ + infix@ + dec_rep(idx as nat),
{
    proof {
        reveal_strlit("_");
    }
    let mut s = depl.to_owned();
    s.append("_");
    s.append(node);
    s.append("_");
    s.append(tag);
    s.append(infix);
    let d = u64_to_string(idx as u64);
    s.append(d.as_str());
    proof {
        assert("_"@ =~= sep());
        assert(s@ =~= depl@ + sep() + node@ + sep() + tag@ + infix@ + dec_rep(idx as nat));
    }
    s
}

/// Build the simnet name for an endpoint.
pub fn simnet_name_of(depl: &str, node: &str, tag: &str, idx: usize) -> (r: String)
    ensures
        r@ == spec_simnet_name(depl@, node@, tag@, idx as nat),
{
    proof {
        reveal_strlit("_sim");
        assert("_sim"@ =~= sim_infix());
    }
    build_link_name(depl, node, tag, "_sim", idx)
}

/// Build the vnic name for an endpoint.
pub fn vnic_name_of(depl: &str, node: &str, tag: &str, idx: usize) -> (r: String)
    ensures
        r@ == spec_vnic_name(depl@, node@, tag@, idx as nat),
{
    proof {
        reveal_strlit("_vnic");
        assert("_vnic"@ =~= vnic_infix());
    }
    build_link_name(depl, node, tag, "_vnic", idx)
}

/// From `x + y == z + w` with `|y| == |w|`, both pairs coincide.
proof fn lemma_concat_cancel(x: Seq<char>, y: Seq<char>, z: Seq<char>, w: Seq<char>)
    requires
        x + y == z + w,
        y.len() == w.len(),
    ensures
        x == z,
        y == w,
{
    assert((x + y).len() == x.len() + y.len());
    assert((z + w).len() == z.len() + w.len());
    assert(x.len() == z.len());
    assert(x =~= z) by {
        assert forall|i: int| 0 <= i < x.len() implies x[i] == z[i] by {
            assert((x + y)[i] == x[i]);
            assert((z + w)[i] == z[i]);
        }
    }
    assert(y =~= w) by {
        assert forall|i: int| 0 <= i < y.len() implies y[i] == w[i] by {
            assert((x + y)[x.len() + i] == y[i]);
            assert((z + w)[z.len() + i] == w[i]);
        }
    }
}

/// Host link names are injective in (node, tag, index): if two names built
/// for the same deployment with infixes that end in distinct non-digit
/// characters (or the same infix) coincide, then node, tag, infix and index
/// all coincide.  This is what lets a name be the sole key for an endpoint's
/// host resources.
pub proof fn lemma_link_name_injective(
    depl: Seq<char>,
    n1: Seq<char>,
    t1: Seq<char>,
    f1: Seq<char>,
    i1: nat,
    n2: Seq<char>,
    t2: Seq<char>,
    f2: Seq<char>,
    i2: nat,
)
    requires
        t1.len() == t2.len(),
        f1.len() > 0,
        f2.len() > 0,
        !is_digit(f1.last()),
        !is_digit(f2.last()),
        f1 == f2 || f1.last() != f2.last(),
        spec_link_name(depl, n1, t1, f1, i1) == spec_link_name(depl, n2, t2, f2, i2),
    ensures
        n1 == n2,
        t1 == t2,
        f1 == f2,
        i1 == i2,
{
    let s1 = spec_link_name(depl, n1, t1, f1, i1);
    let s2 = spec_link_name(depl, n2, t2, f2, i2);
    let a1 = depl + sep() + n1 + sep() + t1 + f1;
    let a2 = depl + sep() + n2 + sep() + t2 + f2;
    let r1 = dec_rep(i1);
    let r2 = dec_rep(i2);
    assert(s1 =~= a1 + r1);
    assert(s2 =~= a2 + r2);
    lemma_dec_rep_digits(i1);
    lemma_dec_rep_digits(i2);
    assert(a1.last() == f1.last());
    assert(a2.last() == f2.last());
    // The trailing digit runs have equal length: the character just before
    // either run is a non-digit infix character.
    if r1.len() < r2.len() {
        let p = s1.len() - r1.len() - 1;
        assert(s1[p] == a1[a1.len() - 1]);
        assert(s2[p] == r2[p - a2.len()]);
        assert(is_digit(s2[p]));
        assert(false);
    }
    if r2.len() < r1.len() {
        let p = s2.len() - r2.len() - 1;
        assert(s2[p] == a2[a2.len() - 1]);
        assert(s1[p] == r1[p - a1.len()]);
        assert(is_digit(s1[p]));
        assert(false);
    }
    lemma_concat_cancel(a1, r1, a2, r2);
    if i1 != i2 {
        lemma_dec_rep_injective(i1, i2);
    }
    // The infixes end alike, so by hypothesis they are the same infix.
    assert(f1.last() == f2.last());
    assert(f1 == f2);
    // Strip the infix, the tag and the separators to recover the node names.
    let b1 = depl + sep() + n1 + sep() + t1;
    let b2 = depl + sep() + n2 + sep() + t2;
    assert(a1 =~= b1 + f1);
    assert(a2 =~= b2 + f2);
    lemma_concat_cancel(b1, f1, b2, f2);
    let c1 = depl + sep() + n1 + sep();
    let c2 = depl + sep() + n2 + sep();
    assert(b1 =~= (c1 + t1));
    assert(b2 =~= (c2 + t2));
    lemma_concat_cancel(c1, t1, c2, t2);
    let d1 = depl + sep() + n1;
    let d2 = depl + sep() + n2;
    assert(c1 =~= (d1 + sep()));
    assert(c2 =~= (d2 + sep()));
    lemma_concat_cancel(d1, sep(), d2, sep());
    let p = depl + sep();
    assert(d1 =~= (p + n1));
    assert(d2 =~= (p + n2));
    assert(n1.len() == n2.len());
    lemma_concat_cancel(p, n1, p, n2);
}

/// Two simnet names for the same deployment coincide only for the same
/// node, tag and index.
pub proof fn lemma_simnet_name_injective(
    depl: Seq<char>,
    n1: Seq<char>,
    t1: Seq<char>,
    i1: nat,
    n2: Seq<char>,
    t2: Seq<char>,
    i2: nat,
)
    requires
        t1.len() == t2.len(),
        spec_simnet_name(depl, n1, t1, i1) == spec_simnet_name(depl, n2, t2, i2),
    ensures
        n1 == n2,
        t1 == t2,
        i1 == i2,
{
    lemma_link_name_injective(depl, n1, t1, sim_infix(), i1, n2, t2, sim_infix(), i2);
}

/// Two vnic names for the same deployment coincide only for the same
/// node, tag and index.
pub proof fn lemma_vnic_name_injective(
    depl: Seq<char>,
    n1: Seq<char>,
    t1: Seq<char>,
    i1: nat,
    n2: Seq<char>,
    t2: Seq<char>,
    i2: nat,
)
    requires
        t1.len() == t2.len(),
        spec_vnic_name(depl, n1, t1, i1) == spec_vnic_name(depl, n2, t2, i2),
    ensures
        n1 == n2,
        t1 == t2,
        i1 == i2,
{
    lemma_link_name_injective(depl, n1, t1, vnic_infix(), i1, n2, t2, vnic_infix(), i2);
}

/// A simnet name never coincides with a vnic name.
pub proof fn lemma_simnet_vnic_distinct(
    depl: Seq<char>,
    n1: Seq<char>,
    t1: Seq<char>,
    i1: nat,
    n2: Seq<char>,
    t2: Seq<char>,
    i2: nat,
)
    requires
        t1.len() == t2.len(),
    ensures
        spec_simnet_name(depl, n1, t1, i1) != spec_vnic_name(depl, n2, t2, i2),
{
    if spec_simnet_name(depl, n1, t1, i1) == spec_vnic_name(depl, n2, t2, i2) {
        lemma_link_name_injective(depl, n1, t1, sim_infix(), i1, n2, t2, vnic_infix(), i2);
    }
}

} // verus!
