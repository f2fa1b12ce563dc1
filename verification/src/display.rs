//! Plain-text rendering of interpreter values.
//!
//! Small integers print as decimals, heap strings as their content, and
//! other heap objects as a short kind marker.  The match-failure
//! diagnostic and the `Lstring` builtin both use this rendering; it is
//! produced as bytes so it can be stored back into the heap.

use vstd::prelude::*;
use crate::heap::{Heap, HeapObject};

verus! {

/// Relies on `String::push`: appends exactly the given character.
pub assume_specification[ String::push ](s: &mut String, ch: char)
    ensures
        final(s)@ == old(s)@.push(ch),
;

/// The byte for the decimal digit `d`.
pub open spec fn spec_digit_byte(d: int) -> u8 {
    (48 + d) as u8
}

/// Decimal digits of `n` as bytes, most significant first.
pub open spec fn spec_dec_digits(n: nat) -> Seq<u8>
    decreases n,
{
    if n < 10 {
        seq![spec_digit_byte(n as int)]
    } else {
        spec_dec_digits(n / 10).push(spec_digit_byte((n % 10) as int))
    }
}

/// Decimal rendering of `v`, with a leading minus sign when negative.
pub open spec fn spec_dec_bytes(v: int) -> Seq<u8> {
    if v < 0 {
        seq![45u8] + spec_dec_digits((-v) as nat)
    } else {
        spec_dec_digits(v as nat)
    }
}

/// A string object's bytes with the terminator removed.
pub open spec fn spec_str_content(bytes: Seq<u8>) -> Seq<u8> {
    if bytes.len() > 0 && bytes.last() == 0 {
        bytes.drop_last()
    } else {
        bytes
    }
}

/// The rendering of the tagged word `w` against the heap `objects`:
/// decimal for small integers, content for strings, a kind marker for
/// the other heap objects, and an invalid marker for dangling words.
pub open spec fn spec_display_bytes(objects: Seq<HeapObject>, w: int) -> Seq<u8> {
    if w % 2 == 1 {
        spec_dec_bytes(w / 2)
    } else if 0 <= w / 2 < objects.len() {
        match objects[w / 2] {
            HeapObject::Str { bytes } => spec_str_content(bytes@),
            HeapObject::Array { elems } => seq![35u8, 97, 114, 114, 97, 121],
            HeapObject::Sexp { tag, elems } => seq![35u8, 115, 101, 120, 112],
            HeapObject::Closure { elems } => seq![35u8, 102, 117, 110],
        }
    } else {
        seq![35u8, 105, 110, 118, 97, 108, 105, 100]
    }
}

/// Append the decimal digits of `m` to `out`, most significant first.
fn push_dec_digits(out: &mut Vec<u8>, m: u64)
    ensures
        final(out)@ == old(out)@ + spec_dec_digits(m as nat),
    decreases m,
{
    if m < 10 {
        out.push((48 + m) as u8);
        proof {
            assert(final(out)@ =~= old(out)@ + spec_dec_digits(m as nat));
        }
    } else {
        push_dec_digits(out, m / 10);
        out.push((48 + (m % 10)) as u8);
    }
}

/// The decimal rendering of `v` as bytes.
pub fn i64_to_bytes(v: i64) -> (r: Vec<u8>)
    ensures
        r@ == spec_dec_bytes(v as int),
{
    let mut out: Vec<u8> = Vec::new();
    if v < 0 {
        out.push(45);
        let m: u64 = if v == i64::MIN {
            0x8000_0000_0000_0000u64
        } else {
            (-v) as u64
        };
        push_dec_digits(&mut out, m);
        proof {
            assert(seq![45u8] + spec_dec_digits(m as nat) =~= out@);
        }
    } else {
        push_dec_digits(&mut out, v as u64);
        proof {
            assert(Seq::<u8>::empty() + spec_dec_digits(v as nat) =~= spec_dec_bytes(v as int));
        }
    }
    out
}

/// Render the tagged word `w` against `heap`, as display bytes.
pub fn display_word_bytes(heap: &Heap, w: i64) -> (r: Vec<u8>)
    ensures
        r@ == spec_display_bytes(heap.objects@, w as int),
{
    if w % 2 != 0 {
        let v = crate::object::unbox_word(w);
        i64_to_bytes(v)
    } else if w >= 0 && ((w / 2) as u64) < (heap.size() as u64) {
        let idx = (w / 2) as usize;
        match heap.kind_of(idx) {
            crate::heap::HeapKind::Str => {
                let bytes = heap.string_bytes(idx);
                let n = bytes.len();
                let content_len = if n > 0 && bytes[n - 1] == 0 {
                    n - 1
                } else {
                    n
                };
                let mut out: Vec<u8> = Vec::new();
                let mut i: usize = 0;
                while i < content_len
                    invariant
                        i <= content_len,
                        content_len <= bytes@.len(),
                        out@ == bytes@.subrange(0, i as int),
                    decreases content_len - i,
                {
                    out.push(bytes[i]);
                    proof {
                        assert(out@ =~= bytes@.subrange(0, i + 1));
                    }
                    i = i + 1;
                }
                proof {
                    assert(out@ =~= spec_str_content(bytes@));
                }
                out
            },
            crate::heap::HeapKind::Array => {
                let mut out: Vec<u8> = Vec::new();
                out.push(35);
                out.push(97);
                out.push(114);
                out.push(114);
                out.push(97);
                out.push(121);
                proof {
                    assert(out@ =~= seq![35u8, 97, 114, 114, 97, 121]);
                }
                out
            },
            crate::heap::HeapKind::Sexp => {
                let mut out: Vec<u8> = Vec::new();
                out.push(35);
                out.push(115);
                out.push(101);
                out.push(120);
                out.push(112);
                proof {
                    assert(out@ =~= seq![35u8, 115, 101, 120, 112]);
                }
                out
            },
            crate::heap::HeapKind::Closure => {
                let mut out: Vec<u8> = Vec::new();
                out.push(35);
                out.push(102);
                out.push(117);
                out.push(110);
                proof {
                    assert(out@ =~= seq![35u8, 102, 117, 110]);
                }
                out
            },
        }
    } else {
        let mut out: Vec<u8> = Vec::new();
        out.push(35);
        out.push(105);
        out.push(110);
        out.push(118);
        out.push(97);
        out.push(108);
        out.push(105);
        out.push(100);
        proof {
            assert(out@ =~= seq![35u8, 105, 110, 118, 97, 108, 105, 100]);
        }
        out
    }
}

/// Turn display bytes into an owned string, one character per byte.
pub fn bytes_to_string(bytes: &Vec<u8>) -> (r: String)
    ensures
        r@ == Seq::new(bytes@.len(), |i: int| bytes@[i] as char),
{
    let mut s = String::new();
    let n = bytes.len();
    let mut i: usize = 0;
    while i < n
        invariant
            i <= n,
            n == bytes@.len(),
            s@ == Seq::new(i as nat, |j: int| bytes@[j] as char),
        decreases n - i,
    {
        s.push(bytes[i] as char);
        proof {
            assert(s@ =~= Seq::new((i + 1) as nat, |j: int| bytes@[j] as char));
        }
        i = i + 1;
    }
    s
}

} // verus!
