//! Pure compute of the request-handling path.
//!
//! Request handling reads the replicated store and decorates a reply with a
//! status header built from it; it also looks a header up by name, where
//! header names compare case-insensitively. The host-facing marshaling
//! around these steps lives outside this crate.

use vstd::prelude::*;

use crate::codec::bytes_eq;
use crate::codec::push_all;
use crate::store::Store;
use crate::store::StoreModel;

verus! {

/// The decimal digits of `n`, most significant first, no leading zeros.
pub open spec fn dec_digits(n: nat) -> Seq<u8>
    decreases n,
{
    if n < 10 {
        seq![(0x30 + n) as u8]
    } else {
        dec_digits(n / 10).push((0x30 + n % 10) as u8)
    }
}

/// The separator between status fields: the bytes ` / `.
pub open spec fn field_sep() -> Seq<u8> {
    seq![0x20u8, 0x2F, 0x20]
}

/// The status header value: the store's four fields, in order, separated by
/// ` / ` — name, numeric parameter, replicated counter, external value.
pub open spec fn status_model(s: StoreModel) -> Seq<u8> {
    s.name + field_sep() + dec_digits(s.count as nat) + field_sep() + dec_digits(s.counter as nat)
        + field_sep() + s.value
}

/// Render `n` in decimal.
pub fn format_u32(n: u32) -> (r: Vec<u8>)
    ensures
        r@ == dec_digits(n as nat),
    decreases n,
{
    if n < 10 {
        let mut v: Vec<u8> = Vec::new();
        v.push(0x30 + (n as u8));
        proof {
            assert(v@ =~= dec_digits(n as nat));
        }
        v
    } else {
        let mut v = format_u32(n / 10);
        v.push(0x30 + ((n % 10) as u8));
        v
    }
}

fn push_sep(out: &mut Vec<u8>)
    ensures
        final(out)@ == old(out)@ + field_sep(),
{
    out.push(0x20);
    out.push(0x2F);
    out.push(0x20);
    proof {
        assert(final(out)@ =~= old(out)@ + field_sep());
    }
}

/// Build the status header value for the current state of the store.
pub fn status_line(s: &Store) -> (r: Vec<u8>)
    ensures
        r@ == status_model(s@),
{
    let mut out: Vec<u8> = Vec::new();
    push_all(&mut out, s.name().as_slice());
    push_sep(&mut out);
    let count = format_u32(s.count());
    push_all(&mut out, count.as_slice());
    push_sep(&mut out);
    let counter = format_u32(s.counter());
    push_all(&mut out, counter.as_slice());
    push_sep(&mut out);
    push_all(&mut out, s.value().as_slice());
    proof {
        assert(out@ =~= status_model(s@));
    }
    out
}

/// ASCII lowercase folding of one byte.
pub open spec fn ascii_lower(b: u8) -> u8 {
    if 0x41 <= b <= 0x5A {
        (b + 0x20) as u8
    } else {
        b
    }
}

/// Case-insensitive equality of header names: equal lengths and equal
/// bytes under ASCII lowercase folding.
pub open spec fn ascii_eq_ignore_case_model(a: Seq<u8>, b: Seq<u8>) -> bool {
    a.len() == b.len() && forall|i: int|
        0 <= i < a.len() ==> ascii_lower(a[i]) == ascii_lower(b[i])
}

/// Compare two header names, ignoring ASCII case.
pub fn ascii_eq_ignore_case(a: &[u8], b: &[u8]) -> (r: bool)
    ensures
        r == ascii_eq_ignore_case_model(a@, b@),
{
    if a.len() != b.len() {
        return false;
    }
    let mut i: usize = 0;
    while i < a.len()
        invariant
            i <= a@.len(),
            a@.len() == b@.len(),
            forall|j: int| 0 <= j < i ==> ascii_lower(a@[j]) == ascii_lower(b@[j]),
        decreases a@.len() - i,
    {
        let x = a[i];
        let y = b[i];
        let xl = if 0x41 <= x && x <= 0x5A {
            x + 0x20
        } else {
            x
        };
        let yl = if 0x41 <= y && y <= 0x5A {
            y + 0x20
        } else {
            y
        };
        if xl != yl {
            proof {
                assert(ascii_lower(a@[i as int]) != ascii_lower(b@[i as int]));
            }
            return false;
        }
        i = i + 1;
    }
    true
}

/// Whether `needle` occurs as a contiguous run of bytes inside `hay`.
pub open spec fn contains_model(hay: Seq<u8>, needle: Seq<u8>) -> bool {
    exists|k: int|
        0 <= k <= hay.len() - needle.len() && #[trigger] hay.subrange(k, k + needle.len())
            == needle
}

/// Substring test over bytes, as the script-facing string test performs it.
pub fn contains_subslice(hay: &[u8], needle: &[u8]) -> (r: bool)
    ensures
        r == contains_model(hay@, needle@),
{
    if needle.len() > hay.len() {
        return false;
    }
    if needle.len() == 0 {
        proof {
            assert(hay@.subrange(0, 0 + needle@.len() as int) =~= needle@);
        }
        return true;
    }
    let mut k: usize = 0;
    while k <= hay.len() - needle.len()
        invariant
            1 <= needle@.len() <= hay@.len(),
            k <= hay@.len() - needle@.len() + 1,
            forall|j: int|
                0 <= j < k ==> #[trigger] hay@.subrange(j, j + needle@.len()) != needle@,
        decreases hay@.len() - needle@.len() + 1 - k,
    {
        let window = vstd::slice::slice_subrange(hay, k, k + needle.len());
        if bytes_eq(window, needle) {
            proof {
                assert(hay@.subrange(k as int, k + needle@.len()) == needle@);
            }
            return true;
        }
        k = k + 1;
    }
    false
}

} // verus!
