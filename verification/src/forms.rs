//! Decoding of a URL-encoded request body into the greeting form: the body
//! is split into `&`-separated segments, each segment into a key and a
//! value at its first `=`, and keys and values are percent-decoded. The
//! form is the value of the first segment whose key is `name`.

use vstd::prelude::*;
use vstd::utf8::decode_utf8;
use vstd::utf8::valid_utf8;

verus! {

/// The decoded body of a greeting submission: the submitted name.
#[derive(Debug)]
pub struct Greet {
    pub name: String,
}

/// Why a body could not be decoded into a greeting form.
#[derive(Debug, Clone, Copy, PartialEq, Eq, Structural)]
pub enum FormError {
    /// No segment of the body has the key `name`.
    MissingName,
    /// The value under `name` is not valid UTF-8 once percent-decoded.
    Malformed,
}

/// The index of the first occurrence of `x` in `b`, or `b.len()` if there
/// is none.
pub open spec fn find_byte(b: Seq<u8>, x: u8) -> int
    decreases b.len(),
{
    if b.len() == 0 {
        0
    } else if b[0] == x {
        0
    } else {
        1 + find_byte(b.drop_first(), x)
    }
}

/// Whether `b` is an ASCII hexadecimal digit.
pub open spec fn is_hex(b: u8) -> bool {
    (0x30 <= b <= 0x39) || (0x41 <= b <= 0x46) || (0x61 <= b <= 0x66)
}

/// The value of an ASCII hexadecimal digit.
pub open spec fn hex_val(b: u8) -> u8 {
    if 0x30 <= b <= 0x39 {
        (b - 0x30) as u8
    } else if 0x41 <= b <= 0x46 {
        (b - 0x41 + 10) as u8
    } else {
        (b - 0x61 + 10) as u8
    }
}

/// Percent-decoding of one key or value: `+` becomes a space, `%` followed
/// by two hexadecimal digits becomes the byte they spell, and anything
/// else (a lone or ill-formed `%` escape included) stands unchanged.
pub open spec fn url_decoded(s: Seq<u8>) -> Seq<u8>
    decreases s.len(),
{
    if s.len() == 0 {
        Seq::empty()
    } else if s[0] == 0x2b {
        seq![0x20u8] + url_decoded(s.drop_first())
    } else if s[0] == 0x25 && s.len() >= 3 && is_hex(s[1]) && is_hex(s[2]) {
        seq![(hex_val(s[1]) * 16 + hex_val(s[2])) as u8] + url_decoded(s.skip(3))
    } else {
        seq![s[0]] + url_decoded(s.drop_first())
    }
}

/// The bytes of the key `name`.
pub open spec fn name_key() -> Seq<u8> {
    seq![0x6eu8, 0x61u8, 0x6du8, 0x65u8]
}

/// The decoded key of one `&`-separated segment: what stands before the
/// first `=`, percent-decoded.
pub open spec fn segment_key(seg: Seq<u8>) -> Seq<u8> {
    url_decoded(seg.take(find_byte(seg, 0x3d)))
}

/// The decoded value of one `&`-separated segment: what stands after the
/// first `=`, percent-decoded; empty when the segment has no `=`.
pub open spec fn segment_value(seg: Seq<u8>) -> Seq<u8> {
    let e = find_byte(seg, 0x3d);
    if e == seg.len() {
        Seq::empty()
    } else {
        url_decoded(seg.subrange(e + 1, seg.len() as int))
    }
}

/// The decoded value under the key `name` in a URL-encoded body: the value
/// of the first segment whose decoded key is `name`, if any.
pub open spec fn form_name(body: Seq<u8>) -> Option<Seq<u8>>
    decreases body.len(),
    via form_name_decreases
{
    let a = find_byte(body, 0x26);
    let seg = body.take(a);
    if segment_key(seg) == name_key() {
        Some(segment_value(seg))
    } else if a == body.len() {
        None
    } else {
        form_name(body.skip(a + 1))
    }
}

#[via_fn]
proof fn form_name_decreases(body: Seq<u8>) {
    lemma_find_byte(body, 0x26);
}

/// `find_byte` points at the first occurrence: it is in bounds, it finds
/// `x` unless there is none, and nothing before it is `x`.
pub proof fn lemma_find_byte(b: Seq<u8>, x: u8)
    ensures
        0 <= find_byte(b, x) <= b.len(),
        find_byte(b, x) < b.len() ==> b[find_byte(b, x)] == x,
        forall|j: int| 0 <= j < find_byte(b, x) ==> b[j] != x,
    decreases b.len(),
{
    if b.len() == 0 {
    } else if b[0] == x {
    } else {
        lemma_find_byte(b.drop_first(), x);
        let f = find_byte(b, x);
        assert forall|j: int| 0 <= j < f implies b[j] != x by {
            if j > 0 {
                assert(b[j] == b.drop_first()[j - 1]);
            }
        }
        if f < b.len() {
            assert(b[f] == b.drop_first()[f - 1]);
        }
    }
}

/// Any index with the first-occurrence property is `find_byte`.
pub proof fn lemma_find_byte_unique(b: Seq<u8>, x: u8, i: int)
    requires
        0 <= i <= b.len(),
        i < b.len() ==> b[i] == x,
        forall|j: int| 0 <= j < i ==> b[j] != x,
    ensures
        find_byte(b, x) == i,
{
    lemma_find_byte(b, x);
    let f = find_byte(b, x);
    if f < i {
        assert(b[f] == x);
    } else if i < f {
        assert(b[i] != x);
    }
}

/// The index of the first occurrence of `x` in `b` at or after `start`
/// and before `end`, or `end` if there is none.
fn find_byte_range(b: &[u8], start: usize, end: usize, x: u8) -> (r: usize)
    requires
        start <= end <= b@.len(),
    ensures
        start <= r <= end,
        r < end ==> b@[r as int] == x,
        forall|j: int| start <= j < r ==> b@[j] != x,
{
    let mut i: usize = start;
    while i < end
        invariant
            start <= i <= end <= b@.len(),
            forall|j: int| start <= j < i ==> b@[j] != x,
        decreases end - i,
    {
        if b[i] == x {
            return i;
        }
        i = i + 1;
    }
    i
}

/// Whether `b` is an ASCII hexadecimal digit.
fn is_hex_byte(b: u8) -> (r: bool)
    ensures
        r == is_hex(b),
{
    (0x30 <= b && b <= 0x39) || (0x41 <= b && b <= 0x46) || (0x61 <= b && b <= 0x66)
}

/// The value of an ASCII hexadecimal digit.
fn hex_val_byte(b: u8) -> (r: u8)
    requires
        is_hex(b),
    ensures
        r == hex_val(b),
        r <= 15,
{
    if 0x30 <= b && b <= 0x39 {
        b - 0x30
    } else if 0x41 <= b && b <= 0x46 {
        b - 0x41 + 10
    } else {
        b - 0x61 + 10
    }
}

/// Percent-decodes the bytes of `b` between `start` and `end`.
fn decode_range(b: &[u8], start: usize, end: usize) -> (r: Vec<u8>)
    requires
        start <= end <= b@.len(),
    ensures
        r@ == url_decoded(b@.subrange(start as int, end as int)),
{
    let mut out: Vec<u8> = Vec::new();
    let mut i: usize = start;
    proof {
        assert(Seq::<u8>::empty() + url_decoded(b@.subrange(start as int, end as int))
            =~= url_decoded(b@.subrange(start as int, end as int)));
    }
    while i < end
        invariant
            start <= i <= end <= b@.len(),
            url_decoded(b@.subrange(start as int, end as int)) == out@ + url_decoded(
                b@.subrange(i as int, end as int),
            ),
        decreases end - i,
    {
        let ghost prev = out@;
        let ghost s = b@.subrange(i as int, end as int);
        let c = b[i];
        if c == 0x2b {
            out.push(0x20);
            proof {
                assert(s.drop_first() =~= b@.subrange(i as int + 1, end as int));
                assert(url_decoded(s) == seq![0x20u8] + url_decoded(s.drop_first()));
                assert(prev + (seq![0x20u8] + url_decoded(s.drop_first())) =~= out@ + url_decoded(
                    s.drop_first(),
                ));
            }
            i = i + 1;
        } else if c == 0x25 && end - i >= 3 && is_hex_byte(b[i + 1]) && is_hex_byte(b[i + 2]) {
            let v: u8 = hex_val_byte(b[i + 1]) * 16 + hex_val_byte(b[i + 2]);
            out.push(v);
            proof {
                assert(s.skip(3) =~= b@.subrange(i as int + 3, end as int));
                assert(s[1] == b@[i as int + 1] && s[2] == b@[i as int + 2]);
                assert(url_decoded(s) == seq![(hex_val(s[1]) * 16 + hex_val(s[2])) as u8]
                    + url_decoded(s.skip(3)));
                assert(prev + (seq![v] + url_decoded(s.skip(3))) =~= out@ + url_decoded(s.skip(3)));
            }
            i = i + 3;
        } else {
            out.push(c);
            proof {
                assert(s.drop_first() =~= b@.subrange(i as int + 1, end as int));
                assert(url_decoded(s) == seq![c] + url_decoded(s.drop_first()));
                assert(prev + (seq![c] + url_decoded(s.drop_first())) =~= out@ + url_decoded(
                    s.drop_first(),
                ));
            }
            i = i + 1;
        }
    }
    proof {
        assert(url_decoded(b@.subrange(end as int, end as int)) == Seq::<u8>::empty());
        assert(out@ + Seq::<u8>::empty() =~= out@);
    }
    out
}

/// Relies on String::from_utf8: it succeeds exactly on valid UTF-8 and
/// returns the string those bytes encode.
#[verifier::external_body]
fn bytes_to_string(v: Vec<u8>) -> (r: Option<String>)
    ensures
        r is Some <==> valid_utf8(v@),
        r is Some ==> r->0@ == decode_utf8(v@),
{
    match String::from_utf8(v) {
        Ok(s) => Some(s),
        Err(_) => None,
    }
}

/// Decodes a URL-encoded body into a greeting form: the value of the
/// first segment keyed `name`, as a string. A body without a `name` key
/// is rejected as missing; a value that is not UTF-8 once decoded is
/// rejected as malformed.
pub fn parse_form(body: &[u8]) -> (r: Result<Greet, FormError>)
    ensures
        match form_name(body@) {
            Some(vb) => {
                if valid_utf8(vb) {
                    r is Ok && r->Ok_0.name@ == decode_utf8(vb)
                } else {
                    r == Err::<Greet, FormError>(FormError::Malformed)
                }
            },
            None => r == Err::<Greet, FormError>(FormError::MissingName),
        },
{
    let n: usize = body.len();
    let mut pos: usize = 0;
    proof {
        assert(body@.skip(0) =~= body@);
    }
    loop
        invariant
            pos <= n,
            n == body@.len(),
            form_name(body@) == form_name(body@.skip(pos as int)),
        decreases n - pos,
    {
        let ghost rem = body@.skip(pos as int);
        let amp = find_byte_range(body, pos, n, 0x26);
        let eq = find_byte_range(body, pos, amp, 0x3d);
        proof {
            assert forall|j: int| 0 <= j < rem.len() implies rem[j] == body@[pos + j] by {}
            lemma_find_byte_unique(rem, 0x26, amp - pos);
            assert(rem.take(amp - pos) =~= body@.subrange(pos as int, amp as int));
            let seg = rem.take(amp - pos);
            assert forall|j: int| 0 <= j < seg.len() implies seg[j] == body@[pos + j] by {}
            lemma_find_byte_unique(seg, 0x3d, eq - pos);
            assert(seg.take(eq - pos) =~= body@.subrange(pos as int, eq as int));
        }
        let key = decode_range(body, pos, eq);
        if key.len() == 4 && key[0] == 0x6e && key[1] == 0x61 && key[2] == 0x6d && key[3] == 0x65 {
            proof {
                assert(key@ =~= name_key());
                assert(segment_key(rem.take(amp - pos)) == name_key());
            }
            let value: Vec<u8> = if eq < amp {
                proof {
                    assert(rem.take(amp - pos).subrange(eq - pos + 1, amp - pos) =~= body@.subrange(
                        eq as int + 1,
                        amp as int,
                    ));
                }
                decode_range(body, eq + 1, amp)
            } else {
                Vec::new()
            };
            proof {
                assert(segment_value(rem.take(amp - pos)) == value@);
                assert(form_name(rem) == Some(value@));
            }
            match bytes_to_string(value) {
                Some(s) => {
                    return Ok(Greet { name: s });
                },
                None => {
                    return Err(FormError::Malformed);
                },
            }
        }
        proof {
            assert(segment_key(rem.take(amp - pos)) != name_key());
        }
        if amp == n {
            proof {
                assert(form_name(rem) is None);
            }
            return Err(FormError::MissingName);
        }
        proof {
            assert(form_name(rem) == form_name(rem.skip(amp - pos + 1)));
            assert(rem.skip(amp - pos + 1) =~= body@.skip(amp as int + 1));
        }
        pos = amp + 1;
    }
}

} // verus!
