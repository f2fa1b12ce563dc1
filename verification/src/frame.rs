//! Call-activation records on the operand stack.
//!
//! The interpreter keeps a single stack for operands and call frames; a
//! frame is addressed by the frame pointer `fp`, the index of the slot
//! just before it:
//!
//! ```txt
//! [fp]    (previous slot, not part of the frame)
//! [fp+1]  closure object reference (or none)
//! [fp+2]  argument count   (unboxed)
//! [fp+3]  local count      (unboxed)
//! [fp+4]  saved frame pointer
//! [fp+5]  saved instruction pointer
//! [fp+6 ..]          arguments
//! [fp+6+n_args ..]   locals
//! ```

use vstd::prelude::*;
use crate::object::Object;

verus! {

/// The metadata words of one call frame, read off the operand stack.
#[derive(Debug, PartialEq, Eq, Clone, Copy, Structural)]
pub struct FrameMetadata {
    /// Raw word of the closure slot; zero for a plain procedure.
    pub closure_obj: i64,
    /// Number of local-variable slots.
    pub n_locals: i64,
    /// Number of argument slots.
    pub n_args: i64,
    /// Frame pointer to restore on return.
    pub ret_frame_pointer: usize,
    /// Instruction pointer to restore on return.
    pub ret_ip: usize,
}

/// The stack is long enough to hold the metadata words of a frame at `fp`.
pub open spec fn spec_frame_readable(stack: Seq<Object>, fp: int) -> bool {
    fp + 6 <= stack.len()
}

/// The metadata encoded on `stack` for the frame at `fp`.
pub open spec fn spec_frame_at(stack: Seq<Object>, fp: int) -> FrameMetadata {
    FrameMetadata {
        closure_obj: stack[fp + 1].spec_raw() as i64,
        n_args: stack[fp + 2].spec_unwrap() as i64,
        n_locals: stack[fp + 3].spec_unwrap() as i64,
        ret_frame_pointer: stack[fp + 4].spec_unwrap() as usize,
        ret_ip: stack[fp + 5].spec_unwrap() as usize,
    }
}

impl FrameMetadata {
    /// Read the metadata of the frame at `frame_pointer` off the operand
    /// stack; `None` when the stack is too short to hold one.
    pub fn get_from_stack(stack: &Vec<Object>, frame_pointer: usize) -> (r: Option<FrameMetadata>)
        ensures
            r is Some <==> spec_frame_readable(stack@, frame_pointer as int),
            r matches Some(fm) ==> fm == spec_frame_at(stack@, frame_pointer as int),
    {
        let len = stack.len();
        if frame_pointer >= len || len - frame_pointer < 6 {
            return None;
        }
        let closure_obj = stack[frame_pointer + 1].raw();
        let n_args = stack[frame_pointer + 2].unwrap();
        let n_locals = stack[frame_pointer + 3].unwrap();
        let ret_frame_pointer = #[verifier::truncate] (stack[frame_pointer + 4].unwrap() as usize);
        let ret_ip = #[verifier::truncate] (stack[frame_pointer + 5].unwrap() as usize);
        Some(FrameMetadata { closure_obj, n_locals, n_args, ret_frame_pointer, ret_ip })
    }

    /// The argument slot `index` of the frame at `frame_pointer`, when it
    /// lies inside the stack.
    pub fn get_arg_at<'a>(
        &'a self,
        stack: &'a Vec<Object>,
        frame_pointer: usize,
        index: usize,
    ) -> (r: Option<&'a Object>)
        ensures
            r is Some <==> frame_pointer + 6 + index < stack@.len(),
            r matches Some(o) ==> *o == stack@[frame_pointer + 6 + index],
    {
        let len = stack.len();
        if frame_pointer >= len || len - frame_pointer <= 6 {
            return None;
        }
        let base = frame_pointer + 6;
        if index >= len - base {
            return None;
        }
        Some(&stack[base + index])
    }

    /// The local slot `index` of the frame at `frame_pointer`, when it
    /// lies inside the stack.  Locals follow the `n_args` argument slots.
    pub fn get_local_at<'a>(
        &'a self,
        stack: &'a Vec<Object>,
        frame_pointer: usize,
        index: usize,
    ) -> (r: Option<&'a Object>)
        requires
            0 <= self.n_args,
        ensures
            r is Some <==> frame_pointer + 6 + self.n_args + index < stack@.len(),
            r matches Some(o) ==> *o == stack@[frame_pointer + 6 + self.n_args + index],
    {
        let len = stack.len();
        if frame_pointer >= len || len - frame_pointer <= 6 {
            return None;
        }
        let base = frame_pointer + 6;
        if self.n_args as u64 > (len - base) as u64 {
            return None;
        }
        let base2 = base + (self.n_args as usize);
        if base2 >= len || index >= len - base2 {
            return None;
        }
        Some(&stack[base2 + index])
    }

    /// Overwrite the local slot `index` of the frame at `frame_pointer`.
    ///
    /// Refused when the slot lies outside the stack or `index` exceeds the
    /// frame's local count.
    pub fn set_local_at(
        &mut self,
        stack: &mut Vec<Object>,
        frame_pointer: usize,
        index: usize,
        value: Object,
    ) -> (r: Result<(), &'static str>)
        requires
            0 <= old(self).n_args,
        ensures
            *final(self) == *old(self),
            r is Ok <==> frame_pointer + 6 + old(self).n_args + index < old(stack)@.len() && index
                < old(self).n_locals,
            r is Ok ==> final(stack)@ == old(stack)@.update(
                frame_pointer + 6 + old(self).n_args + index,
                value,
            ),
            r is Err ==> final(stack)@ == old(stack)@,
    {
        let len = stack.len();
        if frame_pointer >= len || len - frame_pointer <= 6 {
            return Err("Index out of bounds");
        }
        let base = frame_pointer + 6;
        if self.n_args as u64 > (len - base) as u64 {
            return Err("Index out of bounds");
        }
        let base2 = base + (self.n_args as usize);
        if base2 >= len || index >= len - base2 {
            return Err("Index out of bounds");
        }
        if self.n_locals < 0 || (index as u64) >= (self.n_locals as u64) {
            return Err("Index out of bounds");
        }
        stack.set(base2 + index, value);
        Ok(())
    }

    /// Overwrite the argument slot `index` of the frame at
    /// `frame_pointer`.
    ///
    /// Refused when the slot lies outside the stack or `index` exceeds the
    /// frame's argument count.
    pub fn set_arg_at(
        &mut self,
        stack: &mut Vec<Object>,
        frame_pointer: usize,
        index: usize,
        value: Object,
    ) -> (r: Result<(), &'static str>)
        ensures
            *final(self) == *old(self),
            r is Ok <==> frame_pointer + 6 + index < old(stack)@.len() && index < old(self).n_args,
            r is Ok ==> final(stack)@ == old(stack)@.update(frame_pointer + 6 + index, value),
            r is Err ==> final(stack)@ == old(stack)@,
    {
        let len = stack.len();
        if frame_pointer >= len || len - frame_pointer <= 6 {
            return Err("Index out of bounds");
        }
        let base = frame_pointer + 6;
        if index >= len - base {
            return Err("Index out of bounds");
        }
        if self.n_args < 0 || (index as u64) >= (self.n_args as u64) {
            return Err("Index out of bounds");
        }
        stack.set(base + index, value);
        Ok(())
    }

    /// Store the closure object into the closure slot of the frame at
    /// `frame_pointer`.
    pub fn save_closure(
        &mut self,
        stack: &mut Vec<Object>,
        frame_pointer: usize,
        closure_obj: Object,
    ) -> (r: Result<(), &'static str>)
        ensures
            *final(self) == *old(self),
            r is Ok <==> frame_pointer + 1 < old(stack)@.len(),
            r is Ok ==> final(stack)@ == old(stack)@.update(frame_pointer + 1, closure_obj),
            r is Err ==> final(stack)@ == old(stack)@,
    {
        let len = stack.len();
        if frame_pointer >= len || len - frame_pointer < 2 {
            return Err("Index out of bounds");
        }
        stack.set(frame_pointer + 1, closure_obj);
        Ok(())
    }

    /// The closure slot of the frame at `frame_pointer`.
    pub fn get_closure<'a>(
        &self,
        stack: &'a Vec<Object>,
        frame_pointer: usize,
    ) -> (r: Result<&'a Object, &'static str>)
        ensures
            r is Ok <==> frame_pointer + 1 < stack@.len(),
            r matches Ok(o) ==> *o == stack@[frame_pointer + 1],
    {
        let len = stack.len();
        if frame_pointer >= len || len - frame_pointer < 2 {
            return Err("Index out of bounds");
        }
        Ok(&stack[frame_pointer + 1])
    }

    /// Metadata for a plain frame with no closure object.
    pub fn new(n_locals: i64, n_args: i64, ret_frame_pointer: usize, ret_ip: usize) -> (r:
        FrameMetadata)
        ensures
            r == (FrameMetadata { closure_obj: 0i64, n_locals, n_args, ret_frame_pointer, ret_ip }),
    {
        FrameMetadata { closure_obj: 0, n_locals, n_args, ret_frame_pointer, ret_ip }
    }
}

} // verus!
