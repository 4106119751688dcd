//! Saved CPU context: the kernel stack pointer of a switched-out task, and
//! the layout of the frame the context switch leaves on that stack.
//!
//! The switched-out stack holds, top-down: the return address, six
//! callee-saved registers, RFLAGS with the interrupt flag forced on, and a
//! 16-byte-aligned FXSAVE image. Writing that frame into real memory is the
//! unverifiable kernel's job; this module computes and validates the layout.

use super::task::TaskError;
use vstd::prelude::*;

verus! {

/// Bytes of the return address plus the six callee-saved registers plus
/// RFLAGS.
pub const CONTEXT_WORDS_BYTES: u64 = 64;

/// Bytes of the FXSAVE image.
pub const FXSAVE_SIZE: u64 = 512;

/// Alignment of the FXSAVE image.
pub const FXSAVE_ALIGN: u64 = 16;

/// Least stack size a task context may be laid out on.
pub const MIN_REQUIRED_STACK: u64 = 1024;

/// A saved CPU context: the stack pointer under which all registers lie.
#[derive(Debug, Clone, Copy, PartialEq, Eq, Structural)]
pub struct Context {
    pub rsp: u64,
}

impl Context {
    /// The stack pointer an initial context for `entry_point` on a stack
    /// topped at `stack_top` comes out at, or the error that combination is
    /// rejected with: a null or too-small stack gives `InvalidStackAddress`,
    /// a null entry point gives `ContextInitFailed`.
    pub open spec fn spec_new(entry_point: u64, stack_top: u64) -> Result<Context, TaskError> {
        if stack_top == 0 {
            Err(TaskError::InvalidStackAddress)
        } else if entry_point == 0 {
            Err(TaskError::ContextInitFailed)
        } else if stack_top < MIN_REQUIRED_STACK {
            Err(TaskError::InvalidStackAddress)
        } else {
            let below_words = (stack_top - CONTEXT_WORDS_BYTES) as u64;
            let below_fxsave = (below_words - FXSAVE_SIZE) as u64;
            Ok(Context { rsp: (below_fxsave - (below_fxsave % FXSAVE_ALIGN)) as u64 })
        }
    }

    /// Lay out an initial context: return address and registers below
    /// `stack_top`, then the FXSAVE image rounded down to its alignment.
    pub fn new(entry_point: u64, stack_top: u64) -> (r: Result<Self, TaskError>)
        ensures
            r == Self::spec_new(entry_point, stack_top),
            r matches Ok(c) ==> c.rsp % FXSAVE_ALIGN == 0 && 0 < c.rsp <= stack_top,
    {
        if stack_top == 0 {
            return Err(TaskError::InvalidStackAddress);
        }
        if entry_point == 0 {
            return Err(TaskError::ContextInitFailed);
        }
        if stack_top < MIN_REQUIRED_STACK {
            return Err(TaskError::InvalidStackAddress);
        }
        let below_words = stack_top - CONTEXT_WORDS_BYTES;
        let below_fxsave = below_words - FXSAVE_SIZE;
        let rsp = (below_fxsave / FXSAVE_ALIGN) * FXSAVE_ALIGN;
        proof {
            vstd::arithmetic::div_mod::lemma_fundamental_div_mod(
                below_fxsave as int,
                FXSAVE_ALIGN as int,
            );
            vstd::arithmetic::div_mod::lemma_mod_bound(below_fxsave as int, FXSAVE_ALIGN as int);
            vstd::arithmetic::div_mod::lemma_mod_multiples_basic(
                below_fxsave as int / FXSAVE_ALIGN as int,
                FXSAVE_ALIGN as int,
            );
        }
        Ok(Self { rsp })
    }

    /// The empty context, used before the first real switch.
    pub fn empty() -> (r: Self)
        ensures
            r.rsp == 0,
    {
        Self { rsp: 0 }
    }
}

} // verus!
