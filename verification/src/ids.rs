//! Instance identifiers: canonical UUID strings.
//!
//! A node's stable identifier and the hypervisor instance identifier are
//! carried as canonical hyphenated UUID strings, so that sidecar files can
//! be read back and validated by the library itself.

use vstd::prelude::*;
use vstd::string::*;

verus! {

/// A lowercase hexadecimal digit.
pub open spec fn is_hex_digit(c: char) -> bool {
    ('0' <= c && c <= '9') || ('a' <= c && c <= 'f')
}

/// The canonical hyphenated UUID form: 36 characters, hyphens at
/// positions 8, 13, 18 and 23, lowercase hexadecimal everywhere else.
pub open spec fn is_uuid_canonical(s: Seq<char>) -> bool {
    &&& s.len() == 36
    &&& forall|i: int|
        0 <= i < 36 ==> if i == 8 || i == 13 || i == 18 || i == 23 {
            #[trigger] s[i] == '-'
        } else {
            is_hex_digit(s[i])
        }
}

/// Check that `s` is a canonical hyphenated UUID string.
pub fn uuid_canonical(s: &str) -> (r: bool)
    ensures
        r == is_uuid_canonical(s@),
{
    let n = s.unicode_len();
    if n != 36 {
        return false;
    }
    let mut i: usize = 0;
    while i < 36
        invariant
            0 <= i <= 36,
            s@.len() == 36,
            forall|j: int|
                0 <= j < i ==> if j == 8 || j == 13 || j == 18 || j == 23 {
                    #[trigger] s@[j] == '-'
                } else {
                    is_hex_digit(s@[j])
                },
        decreases 36 - i,
    {
        let c = s.get_char(i);
        if i == 8 || i == 13 || i == 18 || i == 23 {
            if c != '-' {
                return false;
            }
        } else {
            if !(('0' <= c && c <= '9') || ('a' <= c && c <= 'f')) {
                return false;
            }
        }
        i = i + 1;
    }
    true
}

/// Generate a fresh random instance identifier.
///
/// Relies on `uuid::Uuid::new_v4` and on `Uuid`'s display form, which the
/// crate documents as the lowercase hyphenated encoding.
#[verifier::external_body]
pub fn uuid_v4_string() -> (r: String)
    ensures
        is_uuid_canonical(r@),
{
    uuid::Uuid::new_v4().to_string()
}

} // verus!
