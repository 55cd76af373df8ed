//! Model of the sandboxed process handle.
//!
//! The handle stands for one interactive process bound to a
//! pseudo-terminal inside an isolation boundary. The library tracks what
//! the bridge may rely on: the bytes the process has been given, the
//! current terminal geometry, and whether the sandbox has been removed.
//! The operating-system side of each operation — the terminal write, the
//! resize ioctl, the kill — is carried out by the caller that owns the
//! real descriptor; this model decides and records.

use vstd::prelude::*;
use crate::codec::WindowSize;

verus! {

/// Mathematical model of a [`SandboxHandle`].
pub struct SandboxHandleModel {
    pub cols: u16,
    pub rows: u16,
    pub input: Seq<u8>,
    pub terminated: bool,
}

/// State of one sandboxed process handle.
pub struct SandboxHandle {
    /// Current terminal width.
    pub cols: u16,
    /// Current terminal height.
    pub rows: u16,
    /// Every byte delivered to the process's terminal input, in order.
    pub input: Vec<u8>,
    /// Whether the sandboxed process has been removed.
    pub terminated: bool,
}

impl View for SandboxHandle {
    type V = SandboxHandleModel;

    open spec fn view(&self) -> SandboxHandleModel {
        SandboxHandleModel {
            cols: self.cols,
            rows: self.rows,
            input: self.input@,
            terminated: self.terminated,
        }
    }
}

/// What terminating does: the process is gone, everything else stays.
/// Applying it to an already terminated handle changes nothing.
pub open spec fn terminate_step(h: SandboxHandleModel) -> SandboxHandleModel {
    SandboxHandleModel { terminated: true, ..h }
}

impl SandboxHandle {
    /// A handle fresh from a successful sandbox start, with the initial
    /// terminal geometry.
    pub fn start(cols: u16, rows: u16) -> (h: SandboxHandle)
        ensures
            h@.cols == cols,
            h@.rows == rows,
            h@.input == Seq::<u8>::empty(),
            !h@.terminated,
    {
        SandboxHandle { cols, rows, input: Vec::new(), terminated: false }
    }

    /// Deliver client bytes to the process's terminal input. On a live
    /// handle the bytes are appended to what the process has received;
    /// on a terminated one nothing happens and the write is refused.
    pub fn feed(&mut self, bytes: &[u8]) -> (ok: bool)
        ensures
            ok == !old(self)@.terminated,
            old(self)@.terminated ==> final(self)@ == old(self)@,
            !old(self)@.terminated ==> final(self)@ == (SandboxHandleModel {
                input: old(self)@.input + bytes@,
                ..old(self)@
            }),
    {
        if self.terminated {
            return false;
        }
        let mut i: usize = 0;
        while i < bytes.len()
            invariant
                i <= bytes@.len(),
                self.input@ == old(self)@.input + bytes@.subrange(0, i as int),
                self.cols == old(self)@.cols,
                self.rows == old(self)@.rows,
                self.terminated == old(self)@.terminated,
            decreases bytes@.len() - i,
        {
            self.input.push(bytes[i]);
            i += 1;
            proof {
                assert(self.input@ =~= old(self)@.input + bytes@.subrange(0, i as int));
            }
        }
        proof {
            assert(bytes@.subrange(0, bytes@.len() as int) =~= bytes@);
        }
        true
    }

    /// Apply a terminal geometry change. On a terminated handle nothing
    /// happens and the resize is refused; a refused or failed resize is
    /// reported, never fatal.
    pub fn apply_resize(&mut self, ws: WindowSize) -> (ok: bool)
        ensures
            ok == !old(self)@.terminated,
            old(self)@.terminated ==> final(self)@ == old(self)@,
            !old(self)@.terminated ==> final(self)@ == (SandboxHandleModel {
                cols: ws.cols,
                rows: ws.rows,
                ..old(self)@
            }),
    {
        if self.terminated {
            return false;
        }
        self.cols = ws.cols;
        self.rows = ws.rows;
        true
    }

    /// Remove the sandboxed process: [`terminate_step`], exactly. Safe to
    /// call on a handle that is already terminated.
    pub fn terminate(&mut self)
        ensures
            final(self)@ == terminate_step(old(self)@),
    {
        self.terminated = true;
    }
}

/// Law: teardown is idempotent — terminating a handle twice leaves
/// exactly the state that terminating it once leaves.
pub proof fn lemma_terminate_idempotent(h: SandboxHandleModel)
    ensures
        terminate_step(terminate_step(h)) == terminate_step(h),
{
}

} // verus!
