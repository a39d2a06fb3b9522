//! Byte-level helpers over `str` and `String`.  All reasoning in this crate
//! about names and paths is over the UTF-8 bytes of a string, so these
//! helpers compare and convert at the byte level.

use vstd::prelude::*;
use vstd::string::StringSliceAdditionalSpecFns;
use crate::error::Error;

verus! {

/// The UTF-8 bytes of a sequence of characters.  Contracts in this crate
/// speak of strings through this byte form.
pub open spec fn str8(s: Seq<char>) -> Seq<u8> {
    vstd::utf8::encode_utf8(s)
}

/// True when the UTF-8 bytes of the two string slices are equal, which is
/// the same as the strings being equal.
pub fn str_bytes_eq(a: &str, b: &str) -> (r: bool)
    ensures
        r == (str8(a@) == str8(b@)),
{
    let av = a.as_bytes_vec();
    let bv = b.as_bytes_vec();
    bytes_eq(&av, &bv)
}

/// True when the two byte vectors hold the same bytes.
pub fn bytes_eq(a: &Vec<u8>, b: &Vec<u8>) -> (r: bool)
    ensures
        r == (a@ == b@),
{
    if a.len() != b.len() {
        proof {
            assert(a@.len() != b@.len());
        }
        return false;
    }
    let mut i: usize = 0;
    while i < a.len()
        invariant
            a@.len() == b@.len(),
            i <= a@.len(),
            forall|j: int| 0 <= j < i ==> a@[j] == b@[j],
        decreases a@.len() - i,
    {
        if a[i] != b[i] {
            return false;
        }
        i += 1;
    }
    proof {
        assert(a@ =~= b@);
    }
    true
}

/// Relies on str::from_utf8: it returns `Ok` exactly when the bytes are
/// valid UTF-8, and then the returned slice holds those same bytes.
#[verifier::external_body]
pub fn utf8_to_string(v: &Vec<u8>) -> (r: Result<String, Error>)
    ensures
        r matches Ok(s) ==> vstd::utf8::valid_utf8(v@) && str8(s@) == v@,
        r matches Err(e) ==> !vstd::utf8::valid_utf8(v@) && e == Error::InvalidUtf8,
{
    match std::str::from_utf8(v.as_slice()) {
        Ok(s) => Ok(s.to_owned()),
        Err(_) => Err(Error::InvalidUtf8),
    }
}

/// True when the UTF-8 bytes of `prefix` start the UTF-8 bytes of `t`.
pub fn str_starts_with(t: &str, prefix: &str) -> (r: bool)
    ensures
        r == str8(prefix@).is_prefix_of(str8(t@)),
{
    let tb = t.as_bytes_vec();
    let pb = prefix.as_bytes_vec();
    if pb.len() > tb.len() {
        return false;
    }
    let mut i: usize = 0;
    while i < pb.len()
        invariant
            pb@ == str8(prefix@),
            tb@ == str8(t@),
            pb@.len() <= tb@.len(),
            i <= pb@.len(),
            forall|j: int| 0 <= j < i ==> pb@[j] == tb@[j],
        decreases pb@.len() - i,
    {
        if pb[i] != tb[i] {
            proof {
                if str8(prefix@).is_prefix_of(str8(t@)) {
                    assert(str8(prefix@) == str8(t@).subrange(0, str8(prefix@).len() as int));
                    assert(str8(prefix@)[i as int] == str8(t@).subrange(
                        0,
                        str8(prefix@).len() as int,
                    )[i as int]);
                    assert(false);
                }
            }
            return false;
        }
        i += 1;
    }
    proof {
        assert(pb@ =~= str8(t@).subrange(0, pb@.len() as int));
    }
    true
}

/// True when the byte vector holds exactly the UTF-8 bytes of `s`.
pub fn bytes_eq_str(a: &Vec<u8>, s: &str) -> (r: bool)
    ensures
        r == (a@ == str8(s@)),
{
    let sv = s.as_bytes_vec();
    bytes_eq(a, &sv)
}

} // verus!
