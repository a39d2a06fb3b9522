//! Small shared helpers: the declared engine version of a file and the
//! byte-order marker its content is stored in.

use vstd::prelude::*;
use crate::error::Error;
use crate::strutil;
use crate::strutil::str8;

verus! {

/// An engine version string taken apart: the numeric components of the
/// dot-separated scheme, and the one-character build-type tag (such as the
/// `f` of `2021.3.1f1`) if the string carries one.
#[derive(Debug, Clone)]
pub struct UnityVersion {
    pub version: Vec<u32>,
    pub build_type: Option<String>,
}

/// True when `b` is the byte of an ASCII decimal digit.
pub open spec fn is_digit_byte(b: u8) -> bool {
    0x30 <= b <= 0x39
}

/// Numeric value of a sequence of ASCII digit bytes, most significant first.
pub open spec fn digit_run_value(b: Seq<u8>) -> int
    decreases b.len(),
{
    if b.len() == 0 {
        0
    } else {
        digit_run_value(b.drop_last()) * 10 + (b.last() - 0x30)
    }
}

/// Length of the digit run of `b` that starts at index `i`.
pub open spec fn digit_run_end(b: Seq<u8>, i: int) -> int
    decreases b.len() - i,
{
    if i < 0 || i >= b.len() {
        i
    } else if is_digit_byte(b[i]) {
        digit_run_end(b, i + 1)
    } else {
        i
    }
}

/// The digit run starting at `i` ends at or after `i`, and never past the
/// end of `b`.
pub proof fn lemma_digit_run_end_bounds(b: Seq<u8>, i: int)
    requires
        0 <= i <= b.len(),
    ensures
        i <= digit_run_end(b, i) <= b.len(),
    decreases b.len() - i,
{
    if i < b.len() && is_digit_byte(b[i]) {
        lemma_digit_run_end_bounds(b, i + 1);
    }
}

/// The maximal digit runs of `b` from index `i` on, in order, where every
/// byte between two neighbouring runs is a single non-digit separator.
/// `None` when the tail does not alternate nonempty digit runs with single
/// separators (so also when it is empty, starts or ends with a separator,
/// or holds two separators in a row).
pub open spec fn spec_version_runs_at(b: Seq<u8>, i: int) -> Option<Seq<Seq<u8>>>
    decreases b.len() - i,
    when 0 <= i
    via spec_version_runs_at_dec
{
    if i >= b.len() {
        None
    } else {
        let k = digit_run_end(b, i);
        if k == i {
            None
        } else if k == b.len() {
            Some(seq![b.subrange(i, k)])
        } else if k == b.len() - 1 {
            None
        } else {
            match spec_version_runs_at(b, k + 1) {
                Option::None => Option::None,
                Option::Some(rest) => Option::Some(seq![b.subrange(i, k)] + rest),
            }
        }
    }
}

#[via_fn]
proof fn spec_version_runs_at_dec(b: Seq<u8>, i: int) {
    if 0 <= i <= b.len() {
        lemma_digit_run_end_bounds(b, i);
    }
}

/// The maximal digit runs of the whole of `b`, or `None` when `b` is not an
/// alternation of nonempty digit runs and single non-digit separators.
pub open spec fn spec_version_runs(b: Seq<u8>) -> Option<Seq<Seq<u8>>> {
    spec_version_runs_at(b, 0)
}

/// Index of the first byte of `b` that is neither a digit nor a dot, or
/// `b.len()` when there is none.  That byte is the build-type tag.
pub open spec fn spec_build_type_at(b: Seq<u8>, i: int) -> int
    decreases b.len() - i,
{
    if i < 0 || i >= b.len() {
        b.len() as int
    } else if is_digit_byte(b[i]) || b[i] == 0x2e {
        spec_build_type_at(b, i + 1)
    } else {
        i
    }
}

impl UnityVersion {
    pub fn new(version: Vec<u32>, build_type: Option<String>) -> (r: UnityVersion)
        ensures
            r.version == version,
            r.build_type == build_type,
    {
        UnityVersion { version, build_type }
    }

    /// True when the build-type tag is exactly `a`.
    pub fn is_alpha(&self) -> (r: bool)
        ensures
            r == (self.build_type matches Some(t) && str8(t@) == str8("a"@)),
    {
        match &self.build_type {
            Option::Some(t) => strutil::str_bytes_eq(t.as_str(), "a"),
            Option::None => false,
        }
    }

    /// True when the build-type tag is exactly `p`.
    pub fn is_patch(&self) -> (r: bool)
        ensures
            r == (self.build_type matches Some(t) && str8(t@) == str8("p"@)),
    {
        match &self.build_type {
            Option::Some(t) => strutil::str_bytes_eq(t.as_str(), "p"),
            Option::None => false,
        }
    }
}

/// Appending a digit multiplies the run value by ten and adds the digit.
pub proof fn lemma_run_value_step(s: Seq<u8>, d: u8)
    ensures
        digit_run_value(s.push(d)) == digit_run_value(s) * 10 + (d - 0x30),
{
    assert(s.push(d).drop_last() =~= s);
    assert(s.push(d).last() == d);
}

/// Numeric value of the digit run `[i, k)`, or `None` when it exceeds
/// `u32::MAX`.
fn parse_run_value(b: &Vec<u8>, i: usize, k: usize) -> (r: Option<u32>)
    requires
        i <= k <= b@.len(),
        forall|m: int| i <= m < k ==> is_digit_byte(#[trigger] b@[m]),
    ensures
        match r {
            Some(v) => v as int == digit_run_value(b@.subrange(i as int, k as int)),
            None => digit_run_value(b@.subrange(i as int, k as int)) > u32::MAX,
        },
{
    let mut val: u64 = 0;
    let mut over: bool = false;
    let mut m: usize = i;
    proof {
        assert(b@.subrange(i as int, i as int) =~= Seq::<u8>::empty());
    }
    while m < k
        invariant
            i <= m <= k <= b@.len(),
            forall|x: int| i <= x < k ==> is_digit_byte(#[trigger] b@[x]),
            !over ==> val as int == digit_run_value(b@.subrange(i as int, m as int)) && val
                <= u32::MAX,
            over ==> digit_run_value(b@.subrange(i as int, m as int)) > u32::MAX,
        decreases k - m,
    {
        let d = b[m];
        proof {
            assert(b@.subrange(i as int, m + 1) =~= b@.subrange(i as int, m as int).push(b@[m as int]));
            lemma_run_value_step(b@.subrange(i as int, m as int), b@[m as int]);
        }
        if !over {
            let val2: u64 = val * 10 + ((d - 0x30) as u64);
            if val2 > 0xffff_ffff {
                over = true;
            } else {
                val = val2;
            }
        }
        m += 1;
    }
    if over {
        None
    } else {
        Some(val as u32)
    }
}

/// Parses the alternation of digit runs and single separators that starts
/// at `i`, failing exactly where the byte form breaks the scheme or a run
/// exceeds `u32::MAX`.
fn parse_runs(b: &Vec<u8>, i: usize) -> (r: Result<Vec<u32>, Error>)
    requires
        i <= b@.len(),
    ensures
        match spec_version_runs_at(b@, i as int) {
            Option::None => r matches Err(e) && e == Error::InvalidValue,
            Option::Some(runs) => {
                &&& (forall|x: int|
                    0 <= x < runs.len() ==> digit_run_value(#[trigger] runs[x]) <= u32::MAX) ==> r
                    is Ok
                &&& (r matches Ok(v) ==> v@.len() == runs.len() && forall|x: int|
                    0 <= x < runs.len() ==> (#[trigger] v@[x]) as int == digit_run_value(runs[x]))
                &&& (r matches Err(e) ==> e == Error::InvalidValue)
            },
        },
    decreases b@.len() - i,
{
    let n = b.len();
    if i >= n {
        return Err(Error::InvalidValue);
    }
    let mut k: usize = i;
    while k < n && b[k] >= 0x30 && b[k] <= 0x39
        invariant
            i <= k <= n,
            n == b@.len(),
            digit_run_end(b@, i as int) == digit_run_end(b@, k as int),
            forall|x: int| i <= x < k ==> is_digit_byte(#[trigger] b@[x]),
        decreases n - k,
    {
        proof {
            assert(digit_run_end(b@, k as int) == digit_run_end(b@, k + 1));
        }
        k += 1;
    }
    proof {
        lemma_digit_run_end_bounds(b@, k as int);
        assert(digit_run_end(b@, i as int) == k as int);
    }
    if k == i {
        return Err(Error::InvalidValue);
    }
    let ghost run0 = b@.subrange(i as int, k as int);
    let val = match parse_run_value(b, i, k) {
        Some(v) => v,
        None => {
            proof {
                if spec_version_runs_at(b@, i as int) is Some {
                    let runs = spec_version_runs_at(b@, i as int).unwrap();
                    assert(runs[0] == run0);
                }
            }
            return Err(Error::InvalidValue);
        },
    };
    if k == n {
        let mut out: Vec<u32> = Vec::new();
        out.push(val);
        proof {
            let runs = spec_version_runs_at(b@, i as int).unwrap();
            assert(runs =~= seq![run0]);
        }
        return Ok(out);
    }
    if k == n - 1 {
        return Err(Error::InvalidValue);
    }
    let rest = match parse_runs(b, k + 1) {
        Ok(v) => v,
        Err(e) => {
            proof {
                if spec_version_runs_at(b@, i as int) is Some {
                    let runs = spec_version_runs_at(b@, i as int).unwrap();
                    let rrest = spec_version_runs_at(b@, k + 1).unwrap();
                    if forall|x: int|
                        0 <= x < runs.len() ==> digit_run_value(#[trigger] runs[x]) <= u32::MAX {
                        assert forall|x: int| 0 <= x < rrest.len() implies digit_run_value(
                            #[trigger] rrest[x],
                        ) <= u32::MAX by {
                            assert(rrest[x] == runs[x + 1]);
                        }
                        assert(false);
                    }
                }
            }
            return Err(e);
        },
    };
    let mut out: Vec<u32> = Vec::new();
    out.push(val);
    let mut rest = rest;
    let ghost restv = rest@;
    out.append(&mut rest);
    proof {
        let runs = spec_version_runs_at(b@, i as int).unwrap();
        let rrest = spec_version_runs_at(b@, k + 1).unwrap();
        assert(runs =~= seq![run0] + rrest);
        assert forall|x: int| 0 <= x < runs.len() implies (#[trigger] out@[x]) as int
            == digit_run_value(runs[x]) by {
            if x > 0 {
                assert(runs[x] == rrest[x - 1]);
                assert(out@[x] == restv[x - 1]);
            }
        }
    }
    Ok(out)
}

impl UnityVersion {
    /// Takes an engine version string apart: the numeric components of
    /// its dot-separated scheme, and the first byte that is neither a
    /// digit nor a dot as the build-type tag.  Fails when the byte form
    /// is not an alternation of nonempty digit runs and single non-digit
    /// separators, when a run exceeds `u32::MAX`, or when the tag byte is
    /// not ASCII.
    pub fn from_str(version: &str) -> (r: Result<UnityVersion, Error>)
        ensures
            ({
                let bv = str8(version@);
                let j = spec_build_type_at(bv, 0);
                match spec_version_runs(bv) {
                    Option::None => r matches Err(e) && e == Error::InvalidValue,
                    Option::Some(runs) => {
                        &&& (r matches Ok(v) ==> v.version@.len() == runs.len() && (forall|x: int|
                            0 <= x < runs.len() ==> (#[trigger] v.version@[x]) as int
                                == digit_run_value(runs[x])) && (j == bv.len() ==> v.build_type
                            is None) && (j < bv.len() ==> (v.build_type matches Some(t) && str8(t@)
                            =~= seq![bv[j]])))
                        &&& ((forall|x: int|
                            0 <= x < runs.len() ==> digit_run_value(#[trigger] runs[x])
                                <= u32::MAX) && (j < bv.len() ==> bv[j] < 0x80)) ==> r is Ok
                        &&& (r matches Err(e) ==> e == Error::InvalidValue)
                    },
                }
            }),
    {
        let b = version.as_bytes_vec();
        let nums = match parse_runs(&b, 0) {
            Ok(v) => v,
            Err(e) => { return Err(e) },
        };
        let n = b.len();
        let mut j: usize = 0;
        while j < n && (b[j] == 0x2e || (b[j] >= 0x30 && b[j] <= 0x39))
            invariant
                j <= n,
                n == b@.len(),
                spec_build_type_at(b@, 0) == spec_build_type_at(b@, j as int),
            decreases n - j,
        {
            proof {
                assert(spec_build_type_at(b@, j as int) == spec_build_type_at(b@, j + 1));
            }
            j += 1;
        }
        if j >= n {
            return Ok(UnityVersion { version: nums, build_type: None });
        }
        let tag = b[j];
        if tag >= 0x80 {
            return Err(Error::InvalidValue);
        }
        let mut one: Vec<u8> = Vec::new();
        one.push(tag);
        proof {
            assert(one@.subrange(0, 0) =~= Seq::<u8>::empty());
            assert(vstd::utf8::partial_valid_utf8(one@, 0));
            vstd::utf8::partial_valid_utf8_extend_ascii_block(one@, 0, 1);
            assert(one@.subrange(0, 1) =~= one@);
            assert(one@ =~= seq![str8(version@)[j as int]]);
        }
        let bt = match crate::strutil::utf8_to_string(&one) {
            Ok(s) => s,
            Err(_) => {
                proof {
                    assert(false);
                }
                return Err(Error::InvalidValue);
            },
        };
        Ok(UnityVersion { version: nums, build_type: Some(bt) })
    }
}

/// Lexicographic order on version component sequences: compared element
/// by element, a strictly longer sequence with an equal prefix is the
/// greater one.
pub open spec fn spec_lex_ge(a: Seq<u32>, b: Seq<u32>) -> bool
    decreases a.len() + b.len(),
{
    if b.len() == 0 {
        true
    } else if a.len() == 0 {
        false
    } else if a[0] > b[0] {
        true
    } else if a[0] < b[0] {
        false
    } else {
        spec_lex_ge(a.drop_first(), b.drop_first())
    }
}

impl UnityVersion {
    /// True when this version's numeric components are at least `other`,
    /// lexicographically — how engine versions are ordered when a reader
    /// dispatches on them.
    pub fn version_at_least(&self, other: &Vec<u32>) -> (r: bool)
        ensures
            r == spec_lex_ge(self.version@, other@),
    {
        let a = &self.version;
        proof {
            assert(a@.skip(0) =~= a@);
            assert(other@.skip(0) =~= other@);
        }
        let mut i: usize = 0;
        while i < a.len() && i < other.len()
            invariant
                a@ == self.version@,
                i <= a@.len(),
                i <= other@.len(),
                spec_lex_ge(a@, other@) == spec_lex_ge(a@.skip(i as int), other@.skip(i as int)),
                forall|j: int| 0 <= j < i ==> a@[j] == other@[j],
            decreases a@.len() - i,
        {
            proof {
                assert(a@.skip(i as int)[0] == a@[i as int]);
                assert(other@.skip(i as int)[0] == other@[i as int]);
            }
            if a[i] > other[i] {
                return true;
            }
            if a[i] < other[i] {
                return false;
            }
            proof {
                assert(a@.skip(i as int).drop_first() =~= a@.skip(i + 1));
                assert(other@.skip(i as int).drop_first() =~= other@.skip(i + 1));
            }
            i += 1;
        }
        proof {
            if i >= other@.len() {
                assert(other@.skip(i as int).len() == 0);
            } else {
                assert(a@.skip(i as int).len() == 0);
                assert(other@.skip(i as int).len() > 0);
            }
        }
        i >= other.len()
    }
}

/// Byte order of a serialized file's content.
#[derive(Debug, Clone, Copy, PartialEq, Eq, Structural)]
pub enum Endian {
    Little,
    Big,
}

impl Endian {
    /// The marker byte's meaning: 0 is little-endian, 1 is big-endian, and
    /// every other value is rejected.
    pub fn from_u8(v: u8) -> (r: Result<Endian, Error>)
        ensures
            v == 0 ==> r == Result::<Endian, Error>::Ok(Endian::Little),
            v == 1 ==> r == Result::<Endian, Error>::Ok(Endian::Big),
            v > 1 ==> r == Result::<Endian, Error>::Err(Error::InvalidValue),
    {
        if v == 0 {
            Ok(Endian::Little)
        } else if v == 1 {
            Ok(Endian::Big)
        } else {
            Err(Error::InvalidValue)
        }
    }

    /// True for the little-endian byte order.
    pub fn is_little(&self) -> (r: bool)
        ensures
            r == (*self == Endian::Little),
    {
        match self {
            Endian::Little => true,
            Endian::Big => false,
        }
    }
}

} // verus!
