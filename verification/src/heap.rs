//! The managed heap consumed by the interpreter.
//!
//! Heap objects are stored in a growable arena and addressed by index; a
//! reference on the operand stack is the index tagged as an even word (see
//! [`crate::object`]).  The collector's view of the operand stack is the
//! pair of published bounds, re-published after every stack mutation.

use vstd::prelude::*;
use crate::object::MAX_HEAP_INDEX;

verus! {

/// The kind of a heap object.
#[derive(Debug, Clone, Copy, PartialEq, Eq, Structural)]
pub enum HeapKind {
    /// NUL-terminated byte string.
    Str,
    /// Array of raw words.
    Array,
    /// Tagged record: constructor tag hash plus raw word slots.
    Sexp,
    /// Array-shaped closure: entry offset, then captured words.
    Closure,
}

/// A single object in the managed heap.
#[derive(Debug, Clone, PartialEq)]
pub enum HeapObject {
    /// String contents, terminator included.
    Str { bytes: Vec<u8> },
    /// Raw word slots.
    Array { elems: Vec<i64> },
    /// Constructor tag hash and raw word slots.
    Sexp { tag: i64, elems: Vec<i64> },
    /// Entry offset in the first slot, captured words after it.
    Closure { elems: Vec<i64> },
}

impl HeapObject {
    /// The kind tag of this object.
    pub open spec fn spec_kind(self) -> HeapKind {
        match self {
            HeapObject::Str { .. } => HeapKind::Str,
            HeapObject::Array { .. } => HeapKind::Array,
            HeapObject::Sexp { .. } => HeapKind::Sexp,
            HeapObject::Closure { .. } => HeapKind::Closure,
        }
    }

    /// The element count reported for this object: string bytes without
    /// the terminator, and slot counts for the aggregate kinds.
    pub open spec fn spec_length(self) -> int {
        match self {
            HeapObject::Str { bytes } => if bytes@.len() > 0 {
                bytes@.len() - 1
            } else {
                0
            },
            HeapObject::Array { elems } => elems@.len() as int,
            HeapObject::Sexp { tag, elems } => elems@.len() as int,
            HeapObject::Closure { elems } => elems@.len() as int,
        }
    }
}

/// Numeric code of a tag character inside the constructor-name hash.
pub open spec fn spec_char_code(b: u8) -> int {
    if 'a' as u8 <= b <= 'z' as u8 {
        b - 'a' as u8 + 1
    } else if 'A' as u8 <= b <= 'Z' as u8 {
        b - 'A' as u8 + 27
    } else if '0' as u8 <= b <= '9' as u8 {
        b - '0' as u8 + 53
    } else if b == '_' as u8 {
        63
    } else {
        0
    }
}

/// Raw (unboxed) constructor-name hash: six bits per character, first
/// character in the most significant position.
pub open spec fn spec_raw_tag_hash(s: Seq<u8>) -> int
    decreases s.len(),
{
    if s.len() == 0 {
        0
    } else {
        spec_raw_tag_hash(s.drop_last()) * 64 + spec_char_code(s.last())
    }
}

/// The boxed tag-hash word for the constructor name `s`.
pub open spec fn spec_tag_hash(s: Seq<u8>) -> int {
    2 * spec_raw_tag_hash(s) + 1
}

/// `64^n`, the number of distinct `n`-character hash values.
pub open spec fn spec_pow64(n: nat) -> int
    decreases n,
{
    if n == 0 {
        1
    } else {
        64 * spec_pow64((n - 1) as nat)
    }
}

/// The raw hash of at most `n` characters stays below `64^n`.
pub proof fn lemma_raw_tag_hash_bound(s: Seq<u8>, n: nat)
    requires
        s.len() <= n,
    ensures
        0 <= spec_raw_tag_hash(s) < spec_pow64(n),
    decreases n,
{
    if s.len() == 0 {
        lemma_pow64_positive(n);
    } else {
        lemma_raw_tag_hash_bound(s.drop_last(), (n - 1) as nat);
        assert(0 <= spec_char_code(s.last()) < 64);
    }
}

/// `64^n` is positive.
pub proof fn lemma_pow64_positive(n: nat)
    ensures
        spec_pow64(n) >= 1,
    decreases n,
{
    if n > 0 {
        lemma_pow64_positive((n - 1) as nat);
    }
}

/// `64^n` is monotone in `n`.
pub proof fn lemma_pow64_mono(m: nat, n: nat)
    requires
        m <= n,
    ensures
        spec_pow64(m) <= spec_pow64(n),
    decreases n,
{
    if m < n {
        lemma_pow64_mono(m, (n - 1) as nat);
        lemma_pow64_positive((n - 1) as nat);
    }
}

/// Numeric code of a tag character.
pub fn char_code(b: u8) -> (r: u8)
    ensures
        r as int == spec_char_code(b),
        r < 64,
{
    if b >= 97 && b <= 122 {
        // 'a'..='z'
        b - 97 + 1
    } else if b >= 65 && b <= 90 {
        // 'A'..='Z'
        b - 65 + 27
    } else if b >= 48 && b <= 57 {
        // '0'..='9'
        b - 48 + 53
    } else if b == 95 {
        // '_'
        63
    } else {
        0
    }
}

/// The boxed tag-hash word for the constructor name `tag` (terminator not
/// included).  The well-known names `cons` and `nil` hash to the baked-in
/// constants, which agree with the general rule.
pub fn tag_hash(tag: &Vec<u8>) -> (r: i64)
    requires
        tag@.len() <= 10,
    ensures
        r as int == spec_tag_hash(tag@),
{
    let n = tag.len();
    let mut h: i64 = 0;
    let mut i: usize = 0;
    while i < n
        invariant
            i <= n,
            n == tag@.len() <= 10,
            h as int == spec_raw_tag_hash(tag@.subrange(0, i as int)),
            0 <= h,
            (h as int) < spec_pow64(i as nat),
        decreases n - i,
    {
        proof {
            lemma_raw_tag_hash_bound(tag@.subrange(0, i as int), i as nat);
            lemma_pow64_mono(i as nat, 10);
            reveal_with_fuel(spec_pow64, 11);
            assert(spec_pow64(10) == 0x1000_0000_0000_0000);
            assert(tag@.subrange(0, i + 1).drop_last() =~= tag@.subrange(0, i as int));
            assert(tag@.subrange(0, i + 1).last() == tag@[i as int]);
        }
        let c = char_code(tag[i]);
        h = h * 64 + (c as i64);
        i = i + 1;
        proof {
            lemma_raw_tag_hash_bound(tag@.subrange(0, i as int), i as nat);
        }
    }
    proof {
        assert(tag@.subrange(0, n as int) =~= tag@);
        lemma_raw_tag_hash_bound(tag@, 10);
        reveal_with_fuel(spec_pow64, 11);
        assert(spec_pow64(10) == 0x1000_0000_0000_0000);
    }
    2 * h + 1
}

/// The baked-in tag-hash constants for the well-known constructor names
/// `cons` and `nil` are exactly what the hash function computes.
pub proof fn lemma_well_known_tag_hashes()
    ensures
        spec_tag_hash(seq![99u8, 111u8, 110u8, 115u8]) == crate::CONS_TAG_HASH as int,
        spec_tag_hash(seq![110u8, 105u8, 108u8]) == crate::NIL_TAG_HASH as int,
{
    let cons = seq![99u8, 111u8, 110u8, 115u8];
    assert(cons.drop_last() =~= seq![99u8, 111u8, 110u8]);
    assert(seq![99u8, 111u8, 110u8].drop_last() =~= seq![99u8, 111u8]);
    assert(seq![99u8, 111u8].drop_last() =~= seq![99u8]);
    assert(seq![99u8].drop_last() =~= Seq::<u8>::empty());
    assert(spec_raw_tag_hash(Seq::<u8>::empty()) == 0);
    assert(spec_raw_tag_hash(seq![99u8]) == 3);
    assert(spec_raw_tag_hash(seq![99u8, 111u8]) == 207);
    assert(spec_raw_tag_hash(seq![99u8, 111u8, 110u8]) == 13262);
    assert(spec_raw_tag_hash(cons) == 848787);

    let nil = seq![110u8, 105u8, 108u8];
    assert(nil.drop_last() =~= seq![110u8, 105u8]);
    assert(seq![110u8, 105u8].drop_last() =~= seq![110u8]);
    assert(seq![110u8].drop_last() =~= Seq::<u8>::empty());
    assert(spec_raw_tag_hash(seq![110u8]) == 14);
    assert(spec_raw_tag_hash(seq![110u8, 105u8]) == 905);
    assert(spec_raw_tag_hash(nil) == 57932);
}

/// The managed heap: an arena of objects plus the published operand-stack
/// bounds that a collector would scan for roots.
#[derive(Debug)]
pub struct Heap {
    /// The allocated objects; a heap reference is an index into this arena.
    pub objects: Vec<HeapObject>,
    /// Published lower bound of the live operand-stack region.
    pub stack_bottom: usize,
    /// Published upper bound of the live operand-stack region.
    pub stack_top: usize,
}

impl Heap {
    /// A fresh heap with no objects and empty published bounds.
    pub fn new() -> (r: Heap)
        ensures
            r.objects@.len() == 0,
            r.stack_bottom == 0,
            r.stack_top == 0,
    {
        Heap { objects: Vec::new(), stack_bottom: 0, stack_top: 0 }
    }

    /// Number of allocated objects.
    pub fn size(&self) -> (r: usize)
        ensures
            r == self.objects@.len(),
    {
        self.objects.len()
    }

    /// Record the operand-stack region the collector must treat as roots.
    pub fn publish_stack_bounds(&mut self, bottom: usize, top: usize)
        ensures
            final(self).stack_bottom == bottom,
            final(self).stack_top == top,
            final(self).objects == old(self).objects,
    {
        self.stack_bottom = bottom;
        self.stack_top = top;
    }

    /// Allocate a string whose content equals `bytes`, terminator included.
    pub fn new_string(&mut self, bytes: Vec<u8>) -> (r: usize)
        requires
            old(self).objects@.len() < MAX_HEAP_INDEX,
        ensures
            r == old(self).objects@.len(),
            final(self).objects@ == old(self).objects@.push(HeapObject::Str { bytes }),
            final(self).stack_bottom == old(self).stack_bottom,
            final(self).stack_top == old(self).stack_top,
    {
        let idx = self.objects.len();
        self.objects.push(HeapObject::Str { bytes });
        idx
    }

    /// Allocate an array whose slots are the raw words `elems`.
    pub fn new_array(&mut self, elems: Vec<i64>) -> (r: usize)
        requires
            old(self).objects@.len() < MAX_HEAP_INDEX,
        ensures
            r == old(self).objects@.len(),
            final(self).objects@ == old(self).objects@.push(HeapObject::Array { elems }),
            final(self).stack_bottom == old(self).stack_bottom,
            final(self).stack_top == old(self).stack_top,
    {
        let idx = self.objects.len();
        self.objects.push(HeapObject::Array { elems });
        idx
    }

    /// Allocate an S-expression with tag hash `tag` and raw slots `elems`.
    pub fn new_sexp(&mut self, tag: i64, elems: Vec<i64>) -> (r: usize)
        requires
            old(self).objects@.len() < MAX_HEAP_INDEX,
        ensures
            r == old(self).objects@.len(),
            final(self).objects@ == old(self).objects@.push(HeapObject::Sexp { tag, elems }),
            final(self).stack_bottom == old(self).stack_bottom,
            final(self).stack_top == old(self).stack_top,
    {
        let idx = self.objects.len();
        self.objects.push(HeapObject::Sexp { tag, elems });
        idx
    }

    /// Allocate a closure whose first slot is the entry offset and whose
    /// remaining slots are the captured words.
    pub fn new_closure(&mut self, elems: Vec<i64>) -> (r: usize)
        requires
            old(self).objects@.len() < MAX_HEAP_INDEX,
        ensures
            r == old(self).objects@.len(),
            final(self).objects@ == old(self).objects@.push(HeapObject::Closure { elems }),
            final(self).stack_bottom == old(self).stack_bottom,
            final(self).stack_top == old(self).stack_top,
    {
        let idx = self.objects.len();
        self.objects.push(HeapObject::Closure { elems });
        idx
    }

    /// The kind of the object at `idx`.
    pub fn kind_of(&self, idx: usize) -> (r: HeapKind)
        requires
            idx < self.objects@.len(),
        ensures
            r == self.objects@[idx as int].spec_kind(),
    {
        match &self.objects[idx] {
            HeapObject::Str { .. } => HeapKind::Str,
            HeapObject::Array { .. } => HeapKind::Array,
            HeapObject::Sexp { .. } => HeapKind::Sexp,
            HeapObject::Closure { .. } => HeapKind::Closure,
        }
    }

    /// The element count of the object at `idx`: string bytes without the
    /// terminator, slot counts otherwise.
    pub fn length_of(&self, idx: usize) -> (r: usize)
        requires
            idx < self.objects@.len(),
        ensures
            r as int == self.objects@[idx as int].spec_length(),
    {
        match &self.objects[idx] {
            HeapObject::Str { bytes } => if bytes.len() > 0 {
                bytes.len() - 1
            } else {
                0
            },
            HeapObject::Array { elems } => elems.len(),
            HeapObject::Sexp { tag: _, elems } => elems.len(),
            HeapObject::Closure { elems } => elems.len(),
        }
    }

    /// The raw word in slot `slot` of the array, S-expression or closure
    /// at `idx`, or the byte of the string at `idx`.
    pub fn get_slot(&self, idx: usize, slot: usize) -> (r: i64)
        requires
            idx < self.objects@.len(),
            slot < self.objects@[idx as int].spec_length(),
        ensures
            r as int == (match self.objects@[idx as int] {
                HeapObject::Str { bytes } => bytes@[slot as int] as int,
                HeapObject::Array { elems } => elems@[slot as int] as int,
                HeapObject::Sexp { tag, elems } => elems@[slot as int] as int,
                HeapObject::Closure { elems } => elems@[slot as int] as int,
            }),
    {
        match &self.objects[idx] {
            HeapObject::Str { bytes } => bytes[slot] as i64,
            HeapObject::Array { elems } => elems[slot],
            HeapObject::Sexp { tag: _, elems } => elems[slot],
            HeapObject::Closure { elems } => elems[slot],
        }
    }

    /// Overwrite slot `slot` of the object at `idx` with the raw word
    /// `value`; for a string the low byte of `value` replaces the byte.
    pub fn set_slot(&mut self, idx: usize, slot: usize, value: i64)
        requires
            idx < old(self).objects@.len(),
            slot < old(self).objects@[idx as int].spec_length(),
        ensures
            final(self).objects@.len() == old(self).objects@.len(),
            ({
                let pre = old(self).objects@[idx as int];
                let post = final(self).objects@[idx as int];
                match (pre, post) {
                    (HeapObject::Str { bytes: ob }, HeapObject::Str { bytes: nb }) => nb@ == ob@
                        .update(slot as int, value as u8),
                    (HeapObject::Array { elems: oe }, HeapObject::Array { elems: ne }) => ne@ == oe@
                        .update(slot as int, value),
                    (
                        HeapObject::Sexp { tag: ot, elems: oe },
                        HeapObject::Sexp { tag: nt, elems: ne },
                    ) => nt == ot && ne@ == oe@.update(slot as int, value),
                    (HeapObject::Closure { elems: oe }, HeapObject::Closure { elems: ne }) => ne@
                        == oe@.update(slot as int, value),
                    _ => false,
                }
            }),
            forall|j: int|
                0 <= j < old(self).objects@.len() && j != idx as int
                    ==> #[trigger] final(self).objects@[j] == old(self).objects@[j],
            final(self).stack_bottom == old(self).stack_bottom,
            final(self).stack_top == old(self).stack_top,
    {
        let obj = &mut self.objects[idx];
        match obj {
            HeapObject::Str { bytes } => {
                bytes.set(slot, #[verifier::truncate] (value as u8));
            },
            HeapObject::Array { elems } => {
                elems.set(slot, value);
            },
            HeapObject::Sexp { tag: _, elems } => {
                elems.set(slot, value);
            },
            HeapObject::Closure { elems } => {
                elems.set(slot, value);
            },
        }
    }

    /// The tag hash of the S-expression at `idx`.
    pub fn sexp_tag(&self, idx: usize) -> (r: i64)
        requires
            idx < self.objects@.len(),
            self.objects@[idx as int] is Sexp,
        ensures
            r == self.objects@[idx as int]->Sexp_tag,
    {
        match &self.objects[idx] {
            HeapObject::Sexp { tag, elems: _ } => *tag,
            _ => unreached(),
        }
    }

    /// The string bytes of the object at `idx`, terminator included.
    pub fn string_bytes(&self, idx: usize) -> (r: Vec<u8>)
        requires
            idx < self.objects@.len(),
            self.objects@[idx as int] is Str,
        ensures
            r@ == self.objects@[idx as int]->Str_bytes@,
    {
        match &self.objects[idx] {
            HeapObject::Str { bytes } => bytes.clone(),
            _ => unreached(),
        }
    }
}

} // verus!
