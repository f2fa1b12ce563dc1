//! Tagged machine-word values held on the operand stack.
//!
//! A word with its low bit set is an unboxed small integer `k`, stored as
//! `2 * k + 1`.  Any even word is a reference into the managed heap, stored
//! as twice the heap index.  The operand stack additionally keeps a coarse
//! tag on each slot: `Boxed` slots hold tagged program words, while
//! `Unboxed` slots hold raw machine integers used for frame bookkeeping.

use vstd::prelude::*;

verus! {

/// Smallest small integer that survives the tagged encoding.
pub const MIN_SMALL_INT: i64 = -0x4000_0000_0000_0000;

/// Largest small integer that survives the tagged encoding.
pub const MAX_SMALL_INT: i64 = 0x3FFF_FFFF_FFFF_FFFF;

/// Largest heap index the interpreter hands out.
pub const MAX_HEAP_INDEX: usize = 0x3FFF_FFFF;

/// True when `v` fits in a tagged small-integer word.
pub open spec fn in_small_int_range(v: int) -> bool {
    -0x4000_0000_0000_0000 <= v <= 0x3FFF_FFFF_FFFF_FFFF
}

/// The tagged word that encodes the small integer `v`.
pub open spec fn spec_box_word(v: int) -> int {
    2 * v + 1
}

/// The small integer encoded by the tagged word `w` (the tag bit is
/// discarded by flooring division, matching an arithmetic right shift).
pub open spec fn spec_unbox_word(w: int) -> int {
    w / 2
}

/// True when the word `w` carries the small-integer tag bit.
pub open spec fn spec_word_is_unboxed(w: int) -> bool {
    w % 2 == 1
}

/// Tag the small integer `v` as a boxed word.
pub fn box_word(v: i64) -> (w: i64)
    requires
        in_small_int_range(v as int),
    ensures
        w as int == spec_box_word(v as int),
        spec_word_is_unboxed(w as int),
{
    v * 2 + 1
}

/// Recover the small integer from the tagged word `w`.
pub fn unbox_word(w: i64) -> (v: i64)
    ensures
        v as int == spec_unbox_word(w as int),
{
    if w % 2 == 0 {
        w / 2
    } else {
        (w - 1) / 2
    }
}

/// True when the word `w` is a tagged small integer rather than a pointer.
pub fn word_is_unboxed(w: i64) -> (r: bool)
    ensures
        r == spec_word_is_unboxed(w as int),
{
    w % 2 != 0
}

/// An element of the operand stack.
#[derive(Debug, Clone, Copy, PartialEq, Eq, Structural)]
pub enum Object {
    /// A tagged program value: a small integer or a heap reference.
    Boxed(i64),
    /// A raw machine integer used for frame metadata.
    Unboxed(i64),
}

/// Ways in which constructing an [`Object`] can be refused.
#[derive(Debug, Clone, Copy, PartialEq, Eq, Structural)]
pub enum ObjectError {
    CreatingUnboxedObjectWithBoxedValue,
    CreatingBoxedObjectWithAlreadyBoxedValue,
}

impl Object {
    /// The raw machine word stored in this slot, tag included.
    pub open spec fn spec_raw(self) -> int {
        match self {
            Object::Boxed(w) => w as int,
            Object::Unboxed(v) => v as int,
        }
    }

    /// The integer this slot denotes: tagged words are untagged first.
    pub open spec fn spec_unwrap(self) -> int {
        match self {
            Object::Boxed(w) => spec_unbox_word(w as int),
            Object::Unboxed(v) => v as int,
        }
    }

    /// True when this slot holds a tagged heap reference: an even,
    /// non-negative word whose index is one the interpreter can hand out.
    pub open spec fn spec_is_heap_ref(self) -> bool {
        match self {
            Object::Boxed(w) => !spec_word_is_unboxed(w as int) && w >= 0 && w / 2
                <= MAX_HEAP_INDEX,
            Object::Unboxed(_) => false,
        }
    }

    /// The heap index encoded in this slot, when it is a heap reference.
    pub open spec fn spec_heap_index(self) -> int {
        self.spec_raw() / 2
    }

    /// Box the small integer `value` into a tagged stack slot.
    pub fn new_boxed(value: i64) -> (r: Object)
        requires
            in_small_int_range(value as int),
        ensures
            r == (Object::Boxed((2 * value + 1) as i64)),
            r.spec_unwrap() == value as int,
            !r.spec_is_heap_ref(),
    {
        Object::Boxed(box_word(value))
    }

    /// Wrap the raw machine integer `value` without tagging it.
    pub fn new_unboxed(value: i64) -> (r: Object)
        ensures
            r == (Object::Unboxed(value)),
    {
        Object::Unboxed(value)
    }

    /// A fresh bookkeeping slot holding zero.
    pub fn new_empty() -> (r: Object)
        ensures
            r == (Object::Unboxed(0i64)),
    {
        Object::Unboxed(0)
    }

    /// Wrap a heap reference: the index is stored as an even word.
    pub fn from_heap_index(idx: usize) -> (r: Object)
        requires
            idx <= MAX_HEAP_INDEX,
        ensures
            r == (Object::Boxed((2 * idx) as i64)),
            r.spec_is_heap_ref(),
            r.spec_heap_index() == idx as int,
    {
        Object::Boxed((idx as i64) * 2)
    }

    /// The integer this slot denotes; tagged words are untagged first.
    pub fn unwrap(&self) -> (v: i64)
        ensures
            v as int == self.spec_unwrap(),
    {
        match self {
            Object::Boxed(w) => unbox_word(*w),
            Object::Unboxed(v) => *v,
        }
    }

    /// The raw machine word stored in this slot, tag included.
    pub fn raw(&self) -> (w: i64)
        ensures
            w as int == self.spec_raw(),
    {
        match self {
            Object::Boxed(w) => *w,
            Object::Unboxed(v) => *v,
        }
    }

    /// The heap index behind this slot, or `None` when the slot does not
    /// hold a heap reference.
    pub fn as_ptr(&self) -> (r: Option<usize>)
        ensures
            self.spec_is_heap_ref() ==> r == Some((self.spec_raw() / 2) as usize),
            !self.spec_is_heap_ref() ==> r is None,
    {
        match self {
            Object::Boxed(w) => {
                if *w % 2 == 0 && *w >= 0 && *w / 2 <= MAX_HEAP_INDEX as i64 {
                    Some((*w / 2) as usize)
                } else {
                    None
                }
            },
            Object::Unboxed(_) => None,
        }
    }

    /// Same lookup as [`Object::as_ptr`], named for call sites that go on
    /// to mutate the heap object behind the reference.
    pub fn as_ptr_mut(&self) -> (r: Option<usize>)
        ensures
            self.spec_is_heap_ref() ==> r == Some((self.spec_raw() / 2) as usize),
            !self.spec_is_heap_ref() ==> r is None,
    {
        self.as_ptr()
    }
}

/// Boxing then unboxing a small integer gives it back unchanged, and the
/// encoded word always carries the small-integer tag.
pub proof fn lemma_box_unbox_roundtrip(v: int)
    requires
        in_small_int_range(v),
    ensures
        spec_unbox_word(spec_box_word(v)) == v,
        spec_word_is_unboxed(spec_box_word(v)),
{
}

/// A heap-reference word never carries the small-integer tag, so no boxed
/// small integer can be mistaken for a pointer.
pub proof fn lemma_heap_ref_not_unboxed(idx: int)
    requires
        0 <= idx,
    ensures
        !spec_word_is_unboxed(2 * idx),
        spec_box_word(idx) != 2 * idx,
{
}

} // verus!
