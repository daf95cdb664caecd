//! Frames: the activations of code objects, and how an exception finds its
//! handler.

use vstd::prelude::*;
use crate::bytecode::ExceptionRegion;
use crate::exceptions::{Exception, ExceptionView};
use crate::pyobject::{refs_below, CodeRef, ObjRef, PyContext, ScopeRef};

verus! {

/// Where a frame stands. A frame begins in the state `Running`. A frame
/// that has ended, by handing its value back or by letting an exception
/// escape to its caller, is no longer on the call stack.
#[derive(Clone, PartialEq, Eq, Debug)]
pub enum FrameState {
    /// The frame executes instructions.
    Running,
    /// The frame waits for the frame it called.
    Suspended,
    /// The frame hands a value back to its caller.
    Returning { value: ObjRef },
    /// An exception is in flight and looks for a handler in the frame.
    Unwinding { exception: Exception },
}

/// The mathematical content of a [`FrameState`].
pub enum StateView {
    Running,
    Suspended,
    Returning { value: ObjRef },
    Unwinding { exception: ExceptionView },
}

impl View for FrameState {
    type V = StateView;

    open spec fn view(&self) -> StateView {
        match *self {
            FrameState::Running => StateView::Running,
            FrameState::Suspended => StateView::Suspended,
            FrameState::Returning { value } => StateView::Returning { value },
            FrameState::Unwinding { exception } => StateView::Unwinding { exception: exception@ },
        }
    }
}

/// One activation of a code object: the code it runs, the scope it runs
/// in, its instruction pointer and its operand stack.
#[derive(Clone, PartialEq, Eq, Debug)]
pub struct Frame {
    pub code: CodeRef,
    pub scope: ScopeRef,
    pub ip: usize,
    pub stack: Vec<ObjRef>,
    pub state: FrameState,
}

/// The mathematical content of a [`Frame`].
pub struct FrameView {
    pub code: CodeRef,
    pub scope: ScopeRef,
    pub ip: int,
    pub stack: Seq<ObjRef>,
    pub state: StateView,
}

impl View for Frame {
    type V = FrameView;

    open spec fn view(&self) -> FrameView {
        FrameView { code: self.code, scope: self.scope, ip: self.ip as int, stack: self.stack@, state: self.state@ }
    }
}

/// A frame is well formed in a context: its code and its scope exist, its
/// instruction pointer lies within the code or at its end, and its operand
/// stack and its state hold objects of the context.
pub open spec fn frame_wf(ctx: &PyContext, frame: Frame) -> bool {
    &&& frame.code.index < ctx.codes@.len()
    &&& frame.scope.index < ctx.scopes@.len()
    &&& frame.ip <= ctx.codes@[frame.code.index as int].instructions@.len()
    &&& refs_below(frame.stack@, ctx.objects@.len() as int)
    &&& match frame.state {
        FrameState::Returning { value } => ctx.valid(value),
        FrameState::Unwinding { exception } => exception.cause matches Some(c) ==> ctx.valid(c),
        FrameState::Suspended => frame.ip < ctx.codes@[frame.code.index as int].instructions@.len(),
        FrameState::Running => true,
    }
}

/// A frame stays well formed when the context gains objects and scopes.
pub proof fn lemma_frame_grows(before: &PyContext, after: &PyContext, frame: Frame)
    requires
        frame_wf(before, frame),
        before.objects@.len() <= after.objects@.len(),
        before.scopes@.len() <= after.scopes@.len(),
        before.codes == after.codes,
    ensures
        frame_wf(after, frame),
{
}

/// The region covers the instruction at `ip`.
pub open spec fn covers(region: ExceptionRegion, ip: int) -> bool {
    region.start <= ip < region.end
}

/// The region at `k` handles an exception raised at `ip`: it is the first
/// region of the table that covers the instruction.
pub open spec fn is_handler(regions: Seq<ExceptionRegion>, ip: int, k: int) -> bool {
    &&& 0 <= k < regions.len()
    &&& covers(regions[k], ip)
    &&& forall|j: int| 0 <= j < k ==> !covers(#[trigger] regions[j], ip)
}

/// No region handles an exception raised at `ip`.
pub open spec fn unhandled(regions: Seq<ExceptionRegion>, ip: int) -> bool {
    forall|j: int| 0 <= j < regions.len() ==> !covers(#[trigger] regions[j], ip)
}

/// At most one region handles an exception raised at an instruction.
pub proof fn lemma_one_handler(regions: Seq<ExceptionRegion>, ip: int, a: int, b: int)
    requires
        is_handler(regions, ip, a),
        is_handler(regions, ip, b),
    ensures
        a == b,
{
}

/// The region that handles an exception raised at `ip`, if there is one:
/// the first of the table that covers the instruction.
pub fn find_handler(regions: &Vec<ExceptionRegion>, ip: usize) -> (found: Option<usize>)
    ensures
        match found {
            Some(k) => is_handler(regions@, ip as int, k as int),
            None => unhandled(regions@, ip as int),
        },
{
    let mut k: usize = 0;
    while k < regions.len()
        invariant
            k <= regions@.len(),
            forall|j: int| 0 <= j < k ==> !covers(#[trigger] regions@[j], ip as int),
        decreases regions@.len() - k,
    {
        if regions[k].start <= ip && ip < regions[k].end {
            return Some(k);
        }
        k = k + 1;
    }
    None
}

/// The operand stack cut to `depth` values; a stack that is not deeper
/// stays as it is.
pub open spec fn cut(stack: Seq<ObjRef>, depth: int) -> Seq<ObjRef> {
    if 0 <= depth < stack.len() {
        stack.take(depth)
    } else {
        stack
    }
}

impl Frame {
    /// A frame that runs `code` from its first instruction in `scope`, with
    /// an empty operand stack.
    pub fn new(code: CodeRef, scope: ScopeRef) -> (frame: Frame)
        ensures
            frame@ == (FrameView { code, scope, ip: 0, stack: Seq::empty(), state: StateView::Running }),
    {
        Frame { code, scope, ip: 0, stack: Vec::new(), state: FrameState::Running }
    }

    /// Catches the exception in flight: cuts the operand stack to the depth
    /// that the region records and resumes at its handler.
    pub fn resume_at(&mut self, region: &ExceptionRegion)
        ensures
            final(self)@ == (FrameView {
                code: old(self).code,
                scope: old(self).scope,
                ip: region.handler as int,
                stack: cut(old(self).stack@, region.depth as int),
                state: StateView::Running,
            }),
    {
        if region.depth < self.stack.len() {
            self.stack.truncate(region.depth);
        }
        self.ip = region.handler;
        self.state = FrameState::Running;
    }
}

} // verus!
