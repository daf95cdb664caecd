//! The interpreter loop: how one instruction of the running frame is
//! executed, how a value returns to the caller, and how an exception
//! unwinds the call stack.
//!
//! The interpreter does one step at a time; whoever drives it decides how
//! long it runs.

use vstd::prelude::*;
use crate::bytecode::Instruction;
use crate::exceptions::{raised, Exception, ExceptionKind, ExceptionView};
use crate::frame::{
    cut,
    find_handler,
    frame_wf,
    is_handler,
    lemma_frame_grows,
    Frame,
    FrameState,
    FrameView,
    StateView,
};
use crate::function::{bind_outcome, enter_function};
use crate::obj::objbool::{boolval, truth};
use crate::obj::objsequence::{get_item_outcome, Fetched};
use crate::obj::objstr::{subscript_outcome, subscript_value};
use crate::pyobject::{CodeRef, KindView, ObjRef, PyContext, PyFuncArgs, PyObjectKind, ScopeRef, NONE_OBJECT};
use crate::scope::{load_name, lookup, names_of, store_name, undefined_name_message};
use crate::vm::{
    eval_method,
    eval_native,
    eval_repr,
    get_attribute,
    get_attribute_outcome,
    method_outcome,
    missing_attribute,
    native_outcome,
    not_callable_message,
    repr_text,
    set_attribute,
    PyResult,
    VirtualMachine,
};

verus! {

/// The message of an instruction that finds too few operands.
pub open spec fn underflow_message() -> Seq<char> {
    "operand stack underflow"@
}

/// The message of raising what is no exception object.
pub open spec fn not_exception_message() -> Seq<char> {
    "exceptions must be exception objects"@
}

/// The failure of an instruction that finds too few operands on the stack:
/// the code object is not what a front end should have made.
pub open spec fn underflow() -> ExceptionView {
    raised(ExceptionKind::CompileError, underflow_message())
}

/// The frame goes on at `ip` with the operand stack `stack`.
pub open spec fn moved(before: FrameView, after: FrameView, stack: Seq<ObjRef>, ip: int) -> bool {
    after == (FrameView { code: before.code, scope: before.scope, ip, stack, state: StateView::Running })
}

/// The frame stays at its instruction with the operand stack `stack`, and
/// the exception is in flight.
pub open spec fn thrown(before: FrameView, after: FrameView, stack: Seq<ObjRef>, exception: ExceptionView) -> bool {
    after == (FrameView {
        code: before.code,
        scope: before.scope,
        ip: before.ip,
        stack,
        state: StateView::Unwinding { exception },
    })
}

/// The instruction has yielded `outcome` with `rest` left of the operand
/// stack: a value is pushed and the frame goes on at the next instruction,
/// an exception is in flight.
pub open spec fn settled(
    before: FrameView,
    after: FrameView,
    rest: Seq<ObjRef>,
    outcome: Result<ObjRef, ExceptionView>,
) -> bool {
    match outcome {
        Ok(value) => moved(before, after, rest.push(value), before.ip + 1),
        Err(e) => thrown(before, after, rest, e),
    }
}

/// The context has gained one object of the content that `outcome` gives,
/// or is as it was if `outcome` is a failure.
pub open spec fn made(before: &PyContext, after: &PyContext, outcome: Result<KindView, ExceptionView>) -> bool {
    match outcome {
        Ok(kind) => {
            &&& after.extends(before)
            &&& after.objects@.len() == before.objects@.len() + 1
            &&& after.kind(before.upcoming(0))@ == kind
        },
        Err(_) => *after == *before,
    }
}

/// The instruction has computed `outcome` with `rest` left of the operand
/// stack: its value is a new object, which is pushed.
pub open spec fn computed(
    ctx: &PyContext,
    before: FrameView,
    after_ctx: &PyContext,
    after: FrameView,
    rest: Seq<ObjRef>,
    outcome: Result<KindView, ExceptionView>,
) -> bool {
    &&& made(ctx, after_ctx, outcome)
    &&& settled(
        before,
        after,
        rest,
        match outcome {
            Ok(_) => Ok(ctx.upcoming(0)),
            Err(e) => Err(e),
        },
    )
}

/// What the subscription of `container` with `index` does.
pub open spec fn subscripted(
    ctx: &PyContext,
    before: FrameView,
    after_ctx: &PyContext,
    after: FrameView,
    rest: Seq<ObjRef>,
    container: ObjRef,
    index: ObjRef,
) -> bool {
    match ctx.kind(container) {
        PyObjectKind::String { value } => computed(
            ctx,
            before,
            after_ctx,
            after,
            rest,
            subscript_outcome(value@, ctx.kind(index)@),
        ),
        _ => match get_item_outcome(ctx.kind(container)@, ctx.kind(index)@) {
            Ok(Fetched::Element(element)) => *after_ctx == *ctx && moved(
                before,
                after,
                rest.push(element),
                before.ip + 1,
            ),
            Ok(Fetched::Made(kind)) => computed(ctx, before, after_ctx, after, rest, Ok(kind)),
            Err(e) => computed(ctx, before, after_ctx, after, rest, Err(e)),
        },
    }
}

/// What the call of `callee` with the positional arguments `args` does. A
/// native function computes its value at once. A function defined in code
/// is entered: the frame is suspended at the call, and `entered` is the
/// frame that runs the code of the function in the scope of the call.
pub open spec fn called(
    ctx: &PyContext,
    before: FrameView,
    after_ctx: &PyContext,
    after: FrameView,
    entered: Option<Frame>,
    rest: Seq<ObjRef>,
    callee: ObjRef,
    args: Seq<ObjRef>,
) -> bool {
    match ctx.kind(callee) {
        PyObjectKind::NativeFunction { function } => entered is None && computed(
            ctx,
            before,
            after_ctx,
            after,
            rest,
            native_outcome(ctx, function, args),
        ),
        PyObjectKind::Function { code, scope } => match bind_outcome(
            ctx.codes@[code.index as int].name@,
            ctx.codes@[code.index as int].params@,
            args,
            Seq::empty(),
        ) {
            Ok(bound) => {
                &&& after_ctx.objects == ctx.objects
                &&& after_ctx.tables == ctx.tables
                &&& after_ctx.codes == ctx.codes
                &&& after_ctx.scopes@.len() == ctx.scopes@.len() + 1
                &&& after_ctx.scopes@.subrange(0, ctx.scopes@.len() as int) == ctx.scopes@
                &&& after_ctx.scopes@.last().parent == Some(scope)
                &&& after_ctx.scopes@.last().names@ == bound
                &&& after == (FrameView {
                    code: before.code,
                    scope: before.scope,
                    ip: before.ip,
                    stack: rest,
                    state: StateView::Suspended,
                })
                &&& entered matches Some(frame)
                &&& frame@ == (FrameView {
                    code,
                    scope: ScopeRef { index: ctx.scopes@.len() as usize },
                    ip: 0,
                    stack: Seq::empty(),
                    state: StateView::Running,
                })
            },
            Err(e) => entered is None && *after_ctx == *ctx && thrown(before, after, rest, e),
        },
        _ => entered is None && *after_ctx == *ctx && thrown(
            before,
            after,
            rest,
            raised(ExceptionKind::TypeError, not_callable_message()),
        ),
    }
}

/// What one instruction does to the context, to the running frame and to
/// what has been printed. `entered` is the frame of a function that the
/// instruction has called, if it has called one defined in code.
pub open spec fn executed(
    ctx: &PyContext,
    before: FrameView,
    printed: Seq<String>,
    instruction: Instruction,
    after_ctx: &PyContext,
    after: FrameView,
    after_printed: Seq<String>,
    entered: Option<Frame>,
) -> bool {
    let stack = before.stack;
    let depth = stack.len() as int;
    match instruction {
        Instruction::LoadConst { value } => {
            &&& *after_ctx == *ctx
            &&& after_printed == printed
            &&& entered is None
            &&& moved(before, after, stack.push(value), before.ip + 1)
        },
        Instruction::LoadName { name } => {
            &&& *after_ctx == *ctx
            &&& after_printed == printed
            &&& entered is None
            &&& settled(
                before,
                after,
                stack,
                match lookup(ctx, before.scope, name@) {
                    Some(value) => Ok(value),
                    None => Err(raised(ExceptionKind::AttributeError, undefined_name_message(name@))),
                },
            )
        },
        Instruction::StoreName { name } => {
            &&& after_printed == printed
            &&& entered is None
            &&& if depth < 1 {
                *after_ctx == *ctx && thrown(before, after, stack, underflow())
            } else {
                &&& after_ctx.objects == ctx.objects
                &&& after_ctx.tables == ctx.tables
                &&& after_ctx.codes == ctx.codes
                &&& after_ctx.scopes@.len() == ctx.scopes@.len()
                &&& names_of(after_ctx, before.scope) == names_of(ctx, before.scope).insert(name@, stack.last())
                &&& forall|i: int|
                    0 <= i < ctx.scopes@.len() && i != before.scope.index ==> #[trigger] after_ctx.scopes@[i]
                        == ctx.scopes@[i]
                &&& after_ctx.scopes@[before.scope.index as int].parent == ctx.scopes@[before.scope.index as int].parent
                &&& moved(before, after, stack.drop_last(), before.ip + 1)
            }
        },
        Instruction::Pop => {
            &&& *after_ctx == *ctx
            &&& after_printed == printed
            &&& entered is None
            &&& if depth < 1 {
                thrown(before, after, stack, underflow())
            } else {
                moved(before, after, stack.drop_last(), before.ip + 1)
            }
        },
        Instruction::BuildTuple { size } => {
            &&& after_printed == printed
            &&& entered is None
            &&& if depth < size {
                *after_ctx == *ctx && thrown(before, after, stack, underflow())
            } else {
                computed(
                    ctx,
                    before,
                    after_ctx,
                    after,
                    stack.take(depth - size),
                    Ok(KindView::Tuple { elements: stack.subrange(depth - size, depth) }),
                )
            }
        },
        Instruction::Subscript => {
            &&& after_printed == printed
            &&& entered is None
            &&& if depth < 2 {
                *after_ctx == *ctx && thrown(before, after, stack, underflow())
            } else {
                subscripted(ctx, before, after_ctx, after, stack.take(depth - 2), stack[depth - 2], stack[depth - 1])
            }
        },
        Instruction::LoadAttr { name } => {
            &&& *after_ctx == *ctx
            &&& after_printed == printed
            &&& entered is None
            &&& if depth < 1 {
                thrown(before, after, stack, underflow())
            } else {
                settled(before, after, stack.drop_last(), get_attribute_outcome(ctx, stack.last(), name@))
            }
        },
        Instruction::StoreAttr { name } => {
            &&& after_printed == printed
            &&& entered is None
            &&& if depth < 2 {
                *after_ctx == *ctx && thrown(before, after, stack, underflow())
            } else if ctx.has_own_attrs(stack[depth - 1]) {
                &&& after_ctx.objects == ctx.objects
                &&& after_ctx.scopes == ctx.scopes
                &&& after_ctx.codes == ctx.codes
                &&& after_ctx.attrs(stack[depth - 1]) == ctx.attrs(stack[depth - 1]).insert(name@, stack[depth - 2])
                &&& forall|i: int|
                    0 <= i < ctx.tables@.len() && i != stack[depth - 1].index ==> #[trigger] after_ctx.tables@[i]
                        == ctx.tables@[i]
                &&& moved(before, after, stack.take(depth - 2), before.ip + 1)
            } else {
                *after_ctx == *ctx && thrown(
                    before,
                    after,
                    stack.take(depth - 2),
                    missing_attribute(ctx, stack[depth - 1], name@),
                )
            }
        },
        Instruction::CompareEq => {
            &&& after_printed == printed
            &&& entered is None
            &&& if depth < 2 {
                *after_ctx == *ctx && thrown(before, after, stack, underflow())
            } else {
                computed(
                    ctx,
                    before,
                    after_ctx,
                    after,
                    stack.take(depth - 2),
                    method_outcome(ctx, stack[depth - 2], "__eq__"@, seq![stack[depth - 1]]),
                )
            }
        },
        Instruction::CallFunction { count } => {
            &&& after_printed == printed
            &&& if depth <= count {
                entered is None && *after_ctx == *ctx && thrown(before, after, stack, underflow())
            } else {
                called(
                    ctx,
                    before,
                    after_ctx,
                    after,
                    entered,
                    stack.take(depth - count - 1),
                    stack[depth - count - 1],
                    stack.subrange(depth - count, depth),
                )
            }
        },
        Instruction::MakeFunction { code } => {
            &&& after_printed == printed
            &&& entered is None
            &&& computed(ctx, before, after_ctx, after, stack, Ok(KindView::Function { code, scope: before.scope }))
        },
        Instruction::Jump { target } => {
            &&& *after_ctx == *ctx
            &&& after_printed == printed
            &&& entered is None
            &&& moved(before, after, stack, target as int)
        },
        Instruction::JumpIfFalse { target } => {
            &&& *after_ctx == *ctx
            &&& after_printed == printed
            &&& entered is None
            &&& if depth < 1 {
                thrown(before, after, stack, underflow())
            } else if truth(ctx.kind(stack.last())@) {
                moved(before, after, stack.drop_last(), before.ip + 1)
            } else {
                moved(before, after, stack.drop_last(), target as int)
            }
        },
        Instruction::Raise => {
            &&& *after_ctx == *ctx
            &&& after_printed == printed
            &&& entered is None
            &&& if depth < 1 {
                thrown(before, after, stack, underflow())
            } else {
                thrown(
                    before,
                    after,
                    stack.drop_last(),
                    match ctx.kind(stack.last()) {
                        PyObjectKind::Exception { exception } => exception@,
                        _ => raised(ExceptionKind::TypeError, not_exception_message()),
                    },
                )
            }
        },
        Instruction::ReturnValue => {
            &&& *after_ctx == *ctx
            &&& after_printed == printed
            &&& entered is None
            &&& if depth < 1 {
                thrown(before, after, stack, underflow())
            } else {
                after == (FrameView {
                    code: before.code,
                    scope: before.scope,
                    ip: before.ip,
                    stack: stack.drop_last(),
                    state: StateView::Returning { value: stack.last() },
                })
            }
        },
        Instruction::PrintExpr => {
            &&& *after_ctx == *ctx
            &&& entered is None
            &&& if depth < 1 {
                after_printed == printed && thrown(before, after, stack, underflow())
            } else if ctx.kind(stack.last()) is NoneValue {
                after_printed == printed && moved(before, after, stack.drop_last(), before.ip + 1)
            } else {
                match repr_text(ctx, stack.last()) {
                    Ok(text) => {
                        &&& after_printed.len() == printed.len() + 1
                        &&& after_printed.drop_last() == printed
                        &&& after_printed.last()@ == text
                        &&& moved(before, after, stack.drop_last(), before.ip + 1)
                    },
                    Err(e) => after_printed == printed && thrown(before, after, stack.drop_last(), e),
                }
            }
        },
    }
}

/// The context after an instruction holds what it held before, and
/// possibly more objects and scopes.
pub open spec fn grown(before: &PyContext, after: &PyContext) -> bool {
    &&& before.objects@.len() <= after.objects@.len()
    &&& before.scopes@.len() <= after.scopes@.len()
    &&& before.codes == after.codes
}

/// A copy of an instruction.
fn copy_instruction(instruction: &Instruction) -> (copy: Instruction)
    ensures
        copy == *instruction,
{
    match instruction {
        Instruction::LoadConst { value } => Instruction::LoadConst { value: *value },
        Instruction::LoadName { name } => Instruction::LoadName { name: name.clone() },
        Instruction::StoreName { name } => Instruction::StoreName { name: name.clone() },
        Instruction::Pop => Instruction::Pop,
        Instruction::BuildTuple { size } => Instruction::BuildTuple { size: *size },
        Instruction::Subscript => Instruction::Subscript,
        Instruction::LoadAttr { name } => Instruction::LoadAttr { name: name.clone() },
        Instruction::StoreAttr { name } => Instruction::StoreAttr { name: name.clone() },
        Instruction::CompareEq => Instruction::CompareEq,
        Instruction::CallFunction { count } => Instruction::CallFunction { count: *count },
        Instruction::MakeFunction { code } => Instruction::MakeFunction { code: *code },
        Instruction::Jump { target } => Instruction::Jump { target: *target },
        Instruction::JumpIfFalse { target } => Instruction::JumpIfFalse { target: *target },
        Instruction::Raise => Instruction::Raise,
        Instruction::ReturnValue => Instruction::ReturnValue,
        Instruction::PrintExpr => Instruction::PrintExpr,
    }
}

/// Puts an exception in flight in the frame.
fn throw(frame: &mut Frame, exception: Exception)
    ensures
        thrown(old(frame)@, final(frame)@, old(frame).stack@, exception@),
        final(frame).stack == old(frame).stack,
        final(frame).code == old(frame).code,
        final(frame).scope == old(frame).scope,
        final(frame).ip == old(frame).ip,
        final(frame).state == (FrameState::Unwinding { exception }),
{
    frame.state = FrameState::Unwinding { exception };
}

/// Pushes a value and goes on at the next instruction, or puts the
/// exception in flight.
fn settle(frame: &mut Frame, outcome: Result<ObjRef, Exception>)
    requires
        old(frame).ip < usize::MAX,
    ensures
        settled(
            old(frame)@,
            final(frame)@,
            old(frame).stack@,
            match outcome {
                Ok(value) => Ok(value),
                Err(e) => Err(e@),
            },
        ),
        final(frame).code == old(frame).code,
        final(frame).scope == old(frame).scope,
        match outcome {
            Ok(value) => {
                &&& final(frame).stack@ == old(frame).stack@.push(value)
                &&& final(frame).ip == old(frame).ip + 1
                &&& final(frame).state is Running
            },
            Err(e) => {
                &&& final(frame).stack == old(frame).stack
                &&& final(frame).ip == old(frame).ip
                &&& final(frame).state == (FrameState::Unwinding { exception: e })
            },
        },
{
    match outcome {
        Ok(value) => {
            frame.stack.push(value);
            frame.ip = frame.ip + 1;
            frame.state = FrameState::Running;
        },
        Err(e) => {
            throw(frame, e);
        },
    }
}

/// The failure of an instruction that finds too few operands.
fn stack_underflow() -> (e: Exception)
    ensures
        e@ == underflow(),
        e.cause is None,
{
    Exception::with_message(ExceptionKind::CompileError, "operand stack underflow")
}

/// Takes the `count` topmost operands off the stack, the deepest first.
fn take_operands(frame: &mut Frame, count: usize) -> (operands: Vec<ObjRef>)
    requires
        count <= old(frame).stack@.len(),
    ensures
        operands@ == old(frame).stack@.subrange(old(frame).stack@.len() - count, old(frame).stack@.len() as int),
        final(frame).stack@ == old(frame).stack@.take(old(frame).stack@.len() - count),
        final(frame).code == old(frame).code,
        final(frame).scope == old(frame).scope,
        final(frame).ip == old(frame).ip,
        final(frame).state == old(frame).state,
{
    let at = frame.stack.len() - count;
    let operands = frame.stack.split_off(at);
    assert(frame.stack@ =~= old(frame).stack@.take(at as int));
    operands
}

/// A running frame is about to execute `instruction`, the instruction at
/// its instruction pointer.
pub open spec fn ready(ctx: &PyContext, frame: Frame, instruction: Instruction) -> bool {
    &&& ctx.wf()
    &&& frame_wf(ctx, frame)
    &&& frame.state is Running
    &&& frame.ip < ctx.codes@[frame.code.index as int].instructions@.len()
    &&& instruction == ctx.codes@[frame.code.index as int].instructions@[frame.ip as int]
}

/// The instruction has been executed: it has done what [`executed`] says,
/// and the context and the frames are well formed.
pub open spec fn done(
    ctx: &PyContext,
    frame: Frame,
    printed: Seq<String>,
    instruction: Instruction,
    after_ctx: &PyContext,
    after: Frame,
    after_printed: Seq<String>,
    entered: Option<Frame>,
) -> bool {
    &&& after_ctx.wf()
    &&& grown(ctx, after_ctx)
    &&& frame_wf(after_ctx, after)
    &&& entered matches Some(callee) ==> frame_wf(after_ctx, callee) && callee.state is Running
    &&& (after.state is Suspended) == (entered is Some)
    &&& executed(ctx, frame@, printed, instruction, after_ctx, after@, after_printed, entered)
}

/// Pushes a constant.
fn exec_load_const(
    ctx: &mut PyContext,
    frame: &mut Frame,
    printed: &mut Vec<String>,
    value: ObjRef,
) -> (entered: Option<Frame>)
    requires
        ready(old(ctx), *old(frame), Instruction::LoadConst { value }),
    ensures
        done(
            old(ctx),
            *old(frame),
            old(printed)@,
            Instruction::LoadConst { value },
            final(ctx),
            *final(frame),
            final(printed)@,
            entered,
        ),
{
    let length = ctx.codes[frame.code.index].instructions.len();
    assert(frame.ip < length);
    assert(ctx.code_ok(frame.code.index as int));
    assert(crate::bytecode::instruction_wf(
        Instruction::LoadConst { value },
        ctx.codes@[frame.code.index as int].instructions@.len() as int,
        ctx.objects@.len() as int,
        frame.code.index as int,
    ));
    settle(frame, Ok(value));
    None
}

/// Pushes what a name is bound to.
fn exec_load_name(
    ctx: &mut PyContext,
    frame: &mut Frame,
    printed: &mut Vec<String>,
    name: String,
) -> (entered: Option<Frame>)
    requires
        ready(old(ctx), *old(frame), Instruction::LoadName { name }),
    ensures
        done(
            old(ctx),
            *old(frame),
            old(printed)@,
            Instruction::LoadName { name },
            final(ctx),
            *final(frame),
            final(printed)@,
            entered,
        ),
{
    let length = ctx.codes[frame.code.index].instructions.len();
    assert(frame.ip < length);
    let loaded = load_name(ctx, frame.scope, name.as_str());
    settle(frame, loaded);
    None
}

/// Binds a name to the topmost operand.
fn exec_store_name(
    ctx: &mut PyContext,
    frame: &mut Frame,
    printed: &mut Vec<String>,
    name: String,
) -> (entered: Option<Frame>)
    requires
        ready(old(ctx), *old(frame), Instruction::StoreName { name }),
    ensures
        done(
            old(ctx),
            *old(frame),
            old(printed)@,
            Instruction::StoreName { name },
            final(ctx),
            *final(frame),
            final(printed)@,
            entered,
        ),
{
    let ghost before = *frame;
    let length = ctx.codes[frame.code.index].instructions.len();
    assert(frame.ip < length);
    let depth = frame.stack.len();
    if depth < 1 {
        throw(frame, stack_underflow());
    } else {
        let operands = take_operands(frame, 1);
        let value = operands[0];
        assert(value == before.stack@.last());
        store_name(ctx, frame.scope, name.as_str(), value);
        frame.ip = frame.ip + 1;
        assert(frame.stack@ =~= before.stack@.drop_last());
    }
    None
}

/// Drops the topmost operand.
fn exec_pop(
    ctx: &mut PyContext,
    frame: &mut Frame,
    printed: &mut Vec<String>,
) -> (entered: Option<Frame>)
    requires
        ready(old(ctx), *old(frame), Instruction::Pop),
    ensures
        done(
            old(ctx),
            *old(frame),
            old(printed)@,
            Instruction::Pop,
            final(ctx),
            *final(frame),
            final(printed)@,
            entered,
        ),
{
    let ghost before = *frame;
    let length = ctx.codes[frame.code.index].instructions.len();
    assert(frame.ip < length);
    let depth = frame.stack.len();
    if depth < 1 {
        throw(frame, stack_underflow());
    } else {
        take_operands(frame, 1);
        frame.ip = frame.ip + 1;
        assert(frame.stack@ =~= before.stack@.drop_last());
    }
    None
}

/// Makes a tuple of the topmost operands.
fn exec_build_tuple(
    ctx: &mut PyContext,
    frame: &mut Frame,
    printed: &mut Vec<String>,
    size: usize,
) -> (entered: Option<Frame>)
    requires
        ready(old(ctx), *old(frame), Instruction::BuildTuple { size }),
    ensures
        done(
            old(ctx),
            *old(frame),
            old(printed)@,
            Instruction::BuildTuple { size },
            final(ctx),
            *final(frame),
            final(printed)@,
            entered,
        ),
{
    let length = ctx.codes[frame.code.index].instructions.len();
    assert(frame.ip < length);
    assert(ctx.code_ok(frame.code.index as int));
    assert(crate::bytecode::instruction_wf(
        Instruction::BuildTuple { size },
        ctx.codes@[frame.code.index as int].instructions@.len() as int,
        ctx.objects@.len() as int,
        frame.code.index as int,
    ));
    let depth = frame.stack.len();
    if depth < size {
        throw(frame, stack_underflow());
    } else {
        let elements = take_operands(frame, size);
        let ghost items = elements@;
        let made = ctx.new_tuple(elements);
        assert(ctx.kind(made)@ == (KindView::Tuple { elements: items }));
        settle(frame, Ok(made));
    }
    None
}

/// Subscripts a container.
fn exec_subscript(
    ctx: &mut PyContext,
    frame: &mut Frame,
    printed: &mut Vec<String>,
) -> (entered: Option<Frame>)
    requires
        ready(old(ctx), *old(frame), Instruction::Subscript),
    ensures
        done(
            old(ctx),
            *old(frame),
            old(printed)@,
            Instruction::Subscript,
            final(ctx),
            *final(frame),
            final(printed)@,
            entered,
        ),
{
    let ghost before = *frame;
    let length = ctx.codes[frame.code.index].instructions.len();
    assert(frame.ip < length);
    let depth = frame.stack.len();
    if depth < 2 {
        throw(frame, stack_underflow());
    } else {
        let operands = take_operands(frame, 2);
        let container = operands[0];
        let index = operands[1];
        assert(container == before.stack@[depth - 2]);
        assert(index == before.stack@[depth - 1]);
        let is_text = match ctx.kind_of(container) {
            PyObjectKind::String { .. } => true,
            _ => false,
        };
        if is_text {
            let computed = match ctx.kind_of(container) {
                PyObjectKind::String { value } => subscript_value(value, ctx.kind_of(index)),
                _ => Err(stack_underflow()),
            };
            match computed {
                Ok(kind) => {
                    let made = ctx.store(kind);
                    settle(frame, Ok(made));
                },
                Err(e) => {
                    settle(frame, Err(e));
                },
            }
        } else {
            let fetched = fetch_item(ctx, container, index);
            settle(frame, fetched);
        }
    }
    None
}

/// Pushes the value of an attribute.
fn exec_load_attr(
    ctx: &mut PyContext,
    frame: &mut Frame,
    printed: &mut Vec<String>,
    name: String,
) -> (entered: Option<Frame>)
    requires
        ready(old(ctx), *old(frame), Instruction::LoadAttr { name }),
    ensures
        done(
            old(ctx),
            *old(frame),
            old(printed)@,
            Instruction::LoadAttr { name },
            final(ctx),
            *final(frame),
            final(printed)@,
            entered,
        ),
{
    let ghost before = *frame;
    let length = ctx.codes[frame.code.index].instructions.len();
    assert(frame.ip < length);
    let depth = frame.stack.len();
    if depth < 1 {
        throw(frame, stack_underflow());
    } else {
        let operands = take_operands(frame, 1);
        let obj = operands[0];
        assert(obj == before.stack@.last());
        assert(frame.stack@ =~= before.stack@.drop_last());
        let got = get_attribute(ctx, obj, name.as_str());
        settle(frame, got);
    }
    None
}

/// Binds an attribute.
fn exec_store_attr(
    ctx: &mut PyContext,
    frame: &mut Frame,
    printed: &mut Vec<String>,
    name: String,
) -> (entered: Option<Frame>)
    requires
        ready(old(ctx), *old(frame), Instruction::StoreAttr { name }),
    ensures
        done(
            old(ctx),
            *old(frame),
            old(printed)@,
            Instruction::StoreAttr { name },
            final(ctx),
            *final(frame),
            final(printed)@,
            entered,
        ),
{
    let ghost before = *frame;
    let length = ctx.codes[frame.code.index].instructions.len();
    assert(frame.ip < length);
    let depth = frame.stack.len();
    if depth < 2 {
        throw(frame, stack_underflow());
    } else {
        let operands = take_operands(frame, 2);
        let value = operands[0];
        let obj = operands[1];
        assert(value == before.stack@[depth - 2]);
        assert(obj == before.stack@[depth - 1]);
        match set_attribute(ctx, obj, name.as_str(), value) {
            Ok(_) => {
                frame.ip = frame.ip + 1;
            },
            Err(e) => {
                throw(frame, e);
            },
        }
    }
    None
}

/// Compares the two topmost operands.
fn exec_compare_eq(
    ctx: &mut PyContext,
    frame: &mut Frame,
    printed: &mut Vec<String>,
) -> (entered: Option<Frame>)
    requires
        ready(old(ctx), *old(frame), Instruction::CompareEq),
    ensures
        done(
            old(ctx),
            *old(frame),
            old(printed)@,
            Instruction::CompareEq,
            final(ctx),
            *final(frame),
            final(printed)@,
            entered,
        ),
{
    let ghost before = *frame;
    let length = ctx.codes[frame.code.index].instructions.len();
    assert(frame.ip < length);
    let depth = frame.stack.len();
    if depth < 2 {
        throw(frame, stack_underflow());
    } else {
        let operands = take_operands(frame, 2);
        let a = operands[0];
        let b = operands[1];
        assert(a == before.stack@[depth - 2]);
        assert(b == before.stack@[depth - 1]);
        let mut rest: Vec<ObjRef> = Vec::new();
        rest.push(b);
        assert(rest@ =~= seq![b]);
        match eval_method(ctx, a, "__eq__", &rest) {
            Ok(kind) => {
                let made = ctx.store(kind);
                settle(frame, Ok(made));
            },
            Err(e) => {
                settle(frame, Err(e));
            },
        }
    }
    None
}

/// Calls a callable with the topmost operands.
fn exec_call_function(
    ctx: &mut PyContext,
    frame: &mut Frame,
    printed: &mut Vec<String>,
    count: usize,
) -> (entered: Option<Frame>)
    requires
        ready(old(ctx), *old(frame), Instruction::CallFunction { count }),
    ensures
        done(
            old(ctx),
            *old(frame),
            old(printed)@,
            Instruction::CallFunction { count },
            final(ctx),
            *final(frame),
            final(printed)@,
            entered,
        ),
{
    let ghost before = *frame;
    let length = ctx.codes[frame.code.index].instructions.len();
    assert(frame.ip < length);
    let depth = frame.stack.len();
    if depth <= count {
        throw(frame, stack_underflow());
        None
    } else {
        let arguments = take_operands(frame, count);
        let ghost given = arguments@;
        let callees = take_operands(frame, 1);
        let callee = callees[0];
        proof {
            assert(callee == before.stack@[depth - count - 1]);
            assert(given =~= before.stack@.subrange(depth - count, depth as int));
            assert(frame.stack@ =~= before.stack@.take(depth - count - 1));
        }
        let args = PyFuncArgs::new(arguments);
        assert(args.kwargs@ =~= Seq::<crate::attrs::Attribute>::empty());
        let kind = match ctx.kind_of(callee) {
            PyObjectKind::NativeFunction { function } => Some(*function),
            _ => None,
        };
        match kind {
            Some(function) => {
                match eval_native(ctx, function, &args) {
                    Ok(kind) => {
                        let made = ctx.store(kind);
                        settle(frame, Ok(made));
                    },
                    Err(e) => {
                        settle(frame, Err(e));
                    },
                }
                None
            },
            None => {
                match enter_function(ctx, callee, &args) {
                    Ok((code, scope)) => {
                        frame.state = FrameState::Suspended;
                        Some(Frame::new(code, scope))
                    },
                    Err(e) => {
                        throw(frame, e);
                        None
                    },
                }
            },
        }
    }
}

/// Makes a function that closes over the scope of the frame.
fn exec_make_function(
    ctx: &mut PyContext,
    frame: &mut Frame,
    printed: &mut Vec<String>,
    code: CodeRef,
) -> (entered: Option<Frame>)
    requires
        ready(old(ctx), *old(frame), Instruction::MakeFunction { code }),
    ensures
        done(
            old(ctx),
            *old(frame),
            old(printed)@,
            Instruction::MakeFunction { code },
            final(ctx),
            *final(frame),
            final(printed)@,
            entered,
        ),
{
    let length = ctx.codes[frame.code.index].instructions.len();
    assert(frame.ip < length);
    assert(ctx.code_ok(frame.code.index as int));
    assert(crate::bytecode::instruction_wf(
        Instruction::MakeFunction { code },
        ctx.codes@[frame.code.index as int].instructions@.len() as int,
        ctx.objects@.len() as int,
        frame.code.index as int,
    ));
    let made = ctx.new_function(code, frame.scope);
    settle(frame, Ok(made));
    None
}

/// Continues at the target.
fn exec_jump(
    ctx: &mut PyContext,
    frame: &mut Frame,
    printed: &mut Vec<String>,
    target: usize,
) -> (entered: Option<Frame>)
    requires
        ready(old(ctx), *old(frame), Instruction::Jump { target }),
    ensures
        done(
            old(ctx),
            *old(frame),
            old(printed)@,
            Instruction::Jump { target },
            final(ctx),
            *final(frame),
            final(printed)@,
            entered,
        ),
{
    let length = ctx.codes[frame.code.index].instructions.len();
    assert(frame.ip < length);
    assert(ctx.code_ok(frame.code.index as int));
    assert(crate::bytecode::instruction_wf(
        Instruction::Jump { target },
        ctx.codes@[frame.code.index as int].instructions@.len() as int,
        ctx.objects@.len() as int,
        frame.code.index as int,
    ));
    frame.ip = target;
    None
}

/// Continues at the target unless the topmost operand counts as true.
fn exec_jump_if_false(
    ctx: &mut PyContext,
    frame: &mut Frame,
    printed: &mut Vec<String>,
    target: usize,
) -> (entered: Option<Frame>)
    requires
        ready(old(ctx), *old(frame), Instruction::JumpIfFalse { target }),
    ensures
        done(
            old(ctx),
            *old(frame),
            old(printed)@,
            Instruction::JumpIfFalse { target },
            final(ctx),
            *final(frame),
            final(printed)@,
            entered,
        ),
{
    let ghost before = *frame;
    let length = ctx.codes[frame.code.index].instructions.len();
    assert(frame.ip < length);
    assert(ctx.code_ok(frame.code.index as int));
    assert(crate::bytecode::instruction_wf(
        Instruction::JumpIfFalse { target },
        ctx.codes@[frame.code.index as int].instructions@.len() as int,
        ctx.objects@.len() as int,
        frame.code.index as int,
    ));
    let depth = frame.stack.len();
    if depth < 1 {
        throw(frame, stack_underflow());
    } else {
        let operands = take_operands(frame, 1);
        let value = operands[0];
        assert(value == before.stack@.last());
        assert(frame.stack@ =~= before.stack@.drop_last());
        if boolval(ctx.kind_of(value)) {
            frame.ip = frame.ip + 1;
        } else {
            frame.ip = target;
        }
    }
    None
}

/// Raises the topmost operand.
fn exec_raise(
    ctx: &mut PyContext,
    frame: &mut Frame,
    printed: &mut Vec<String>,
) -> (entered: Option<Frame>)
    requires
        ready(old(ctx), *old(frame), Instruction::Raise),
    ensures
        done(
            old(ctx),
            *old(frame),
            old(printed)@,
            Instruction::Raise,
            final(ctx),
            *final(frame),
            final(printed)@,
            entered,
        ),
{
    let ghost before = *frame;
    let length = ctx.codes[frame.code.index].instructions.len();
    assert(frame.ip < length);
    let depth = frame.stack.len();
    if depth < 1 {
        throw(frame, stack_underflow());
    } else {
        let operands = take_operands(frame, 1);
        let value = operands[0];
        assert(value == before.stack@.last());
        assert(frame.stack@ =~= before.stack@.drop_last());
        assert(ctx.object_wf(value.index as int));
        let exception = match ctx.kind_of(value) {
            PyObjectKind::Exception { exception } => Exception {
                kind: exception.kind,
                message: exception.message.clone(),
                cause: exception.cause,
            },
            _ => Exception::with_message(ExceptionKind::TypeError, "exceptions must be exception objects"),
        };
        throw(frame, exception);
    }
    None
}

/// Returns the topmost operand.
fn exec_return_value(
    ctx: &mut PyContext,
    frame: &mut Frame,
    printed: &mut Vec<String>,
) -> (entered: Option<Frame>)
    requires
        ready(old(ctx), *old(frame), Instruction::ReturnValue),
    ensures
        done(
            old(ctx),
            *old(frame),
            old(printed)@,
            Instruction::ReturnValue,
            final(ctx),
            *final(frame),
            final(printed)@,
            entered,
        ),
{
    let ghost before = *frame;
    let length = ctx.codes[frame.code.index].instructions.len();
    assert(frame.ip < length);
    let depth = frame.stack.len();
    if depth < 1 {
        throw(frame, stack_underflow());
    } else {
        let operands = take_operands(frame, 1);
        let value = operands[0];
        assert(value == before.stack@.last());
        assert(frame.stack@ =~= before.stack@.drop_last());
        frame.state = FrameState::Returning { value };
    }
    None
}

/// Prints the representation of the topmost operand.
fn exec_print_expr(
    ctx: &mut PyContext,
    frame: &mut Frame,
    printed: &mut Vec<String>,
) -> (entered: Option<Frame>)
    requires
        ready(old(ctx), *old(frame), Instruction::PrintExpr),
    ensures
        done(
            old(ctx),
            *old(frame),
            old(printed)@,
            Instruction::PrintExpr,
            final(ctx),
            *final(frame),
            final(printed)@,
            entered,
        ),
{
    let ghost before = *frame;
    let length = ctx.codes[frame.code.index].instructions.len();
    assert(frame.ip < length);
    let depth = frame.stack.len();
    if depth < 1 {
        throw(frame, stack_underflow());
    } else {
        let operands = take_operands(frame, 1);
        let value = operands[0];
        assert(value == before.stack@.last());
        assert(frame.stack@ =~= before.stack@.drop_last());
        let nothing = match ctx.kind_of(value) {
            PyObjectKind::NoneValue => true,
            _ => false,
        };
        if nothing {
            frame.ip = frame.ip + 1;
        } else {
            match eval_repr(ctx, value) {
                Ok(text) => {
                    printed.push(text);
                    frame.ip = frame.ip + 1;
                    assert(printed@.drop_last() =~= old(printed)@);
                },
                Err(e) => {
                    throw(frame, e);
                },
            }
        }
    }
    None
}

/// Executes one instruction of a running frame.
///
/// `instruction` is the instruction at the instruction pointer of the
/// frame. What it does is stated by [`executed`]; whatever it does, the
/// context and the frame stay well formed.
pub fn execute(ctx: &mut PyContext, frame: &mut Frame, printed: &mut Vec<String>, instruction: Instruction) -> (entered:
    Option<Frame>)
    requires
        ready(old(ctx), *old(frame), instruction),
    ensures
        done(old(ctx), *old(frame), old(printed)@, instruction, final(ctx), *final(frame), final(printed)@, entered),
{
    match instruction {
        Instruction::LoadConst { value } => exec_load_const(ctx, frame, printed, value),
        Instruction::LoadName { name } => exec_load_name(ctx, frame, printed, name),
        Instruction::StoreName { name } => exec_store_name(ctx, frame, printed, name),
        Instruction::Pop => exec_pop(ctx, frame, printed),
        Instruction::BuildTuple { size } => exec_build_tuple(ctx, frame, printed, size),
        Instruction::Subscript => exec_subscript(ctx, frame, printed),
        Instruction::LoadAttr { name } => exec_load_attr(ctx, frame, printed, name),
        Instruction::StoreAttr { name } => exec_store_attr(ctx, frame, printed, name),
        Instruction::CompareEq => exec_compare_eq(ctx, frame, printed),
        Instruction::CallFunction { count } => exec_call_function(ctx, frame, printed, count),
        Instruction::MakeFunction { code } => exec_make_function(ctx, frame, printed, code),
        Instruction::Jump { target } => exec_jump(ctx, frame, printed, target),
        Instruction::JumpIfFalse { target } => exec_jump_if_false(ctx, frame, printed, target),
        Instruction::Raise => exec_raise(ctx, frame, printed),
        Instruction::ReturnValue => exec_return_value(ctx, frame, printed),
        Instruction::PrintExpr => exec_print_expr(ctx, frame, printed),
    }
}

/// Subscripts a tuple or a list.
fn fetch_item(ctx: &mut PyContext, sequence: ObjRef, subscript: ObjRef) -> (result: PyResult)
    requires
        old(ctx).wf(),
        old(ctx).valid(sequence),
        old(ctx).valid(subscript),
    ensures
        final(ctx).wf(),
        match result {
            Ok(r) => match get_item_outcome(old(ctx).kind(sequence)@, old(ctx).kind(subscript)@) {
                Ok(Fetched::Element(element)) => r == element && *final(ctx) == *old(ctx) && old(ctx).valid(r),
                Ok(Fetched::Made(kind)) => {
                    &&& final(ctx).extends(old(ctx))
                    &&& final(ctx).objects@.len() == old(ctx).objects@.len() + 1
                    &&& r.index == old(ctx).objects@.len()
                    &&& final(ctx).kind(r)@ == kind
                },
                Err(_) => false,
            },
            Err(e) => *final(ctx) == *old(ctx) && get_item_outcome(
                old(ctx).kind(sequence)@,
                old(ctx).kind(subscript)@,
            ) == Err::<Fetched, ExceptionView>(e@) && e.cause is None,
        },
{
    crate::obj::objsequence::get_item_in(ctx, sequence, subscript)
}

/// How far a step has brought the interpreter.
#[derive(PartialEq, Eq, Debug)]
pub enum Progress {
    /// There is nothing to run.
    Idle,
    /// There is more to run.
    Continue,
    /// The outermost frame has ended: with the value it returned, or with
    /// the exception that no frame handled.
    Finished(PyResult),
}

/// The interpreter: the virtual machine, the scope of the built-in names,
/// the call stack and what has been printed. The running frame is the last
/// of the call stack; every frame before it waits for the frame after it.
pub struct Interpreter {
    pub vm: VirtualMachine,
    pub builtins: ScopeRef,
    pub frames: Vec<Frame>,
    pub output: Vec<String>,
}

/// The context has caught an exception: if the handler binds a name, the
/// exception is a new object and the name is bound to it in `scope`.
pub open spec fn caught(
    ctx: &PyContext,
    after: &PyContext,
    scope: ScopeRef,
    name: Option<String>,
    exception: ExceptionView,
) -> bool {
    match name {
        None => *after == *ctx,
        Some(n) => {
            &&& after.objects@.len() == ctx.objects@.len() + 1
            &&& after.objects@.drop_last() == ctx.objects@
            &&& after.tables@.drop_last() == ctx.tables@
            &&& after.codes == ctx.codes
            &&& after.kind(ctx.upcoming(0))@ == (KindView::Exception { exception })
            &&& after.scopes@.len() == ctx.scopes@.len()
            &&& names_of(after, scope) == names_of(ctx, scope).insert(n@, ctx.upcoming(0))
            &&& after.scopes@[scope.index as int].parent == ctx.scopes@[scope.index as int].parent
            &&& forall|i: int|
                0 <= i < ctx.scopes@.len() && i != scope.index ==> #[trigger] after.scopes@[i] == ctx.scopes@[i]
        },
    }
}

/// A frame whose state is `Returning` hands its value to its caller: the
/// frame leaves the call stack, and the caller goes on after the call with
/// the value on its operand stack. The value of the outermost frame is the
/// result of the run.
pub open spec fn returned(before: &Interpreter, after: &Interpreter, progress: Progress, value: ObjRef) -> bool {
    let below = before.frames@.drop_last();
    &&& after.vm == before.vm
    &&& after.output == before.output
    &&& if below.len() == 0 {
        after.frames@.len() == 0 && progress == Progress::Finished(Ok(value))
    } else {
        &&& progress is Continue
        &&& after.frames@.len() == below.len()
        &&& after.frames@.drop_last() == below.drop_last()
        &&& after.frames@.last()@ == (FrameView {
            code: below.last().code,
            scope: below.last().scope,
            ip: below.last().ip + 1,
            stack: below.last().stack@.push(value),
            state: StateView::Running,
        })
    }
}

/// A frame whose state is `Unwinding` looks for the handler of the
/// exception in flight among the regions of its code that cover its
/// instruction pointer. If it has one, it cuts its operand stack to the
/// depth that the region records, binds the exception to the name that the
/// region gives, if it gives one, and goes on at the handler. If it has
/// none, it leaves the call stack and the exception is in flight in its
/// caller; the exception that leaves the outermost frame is the result of
/// the run.
pub open spec fn unwound(before: &Interpreter, after: &Interpreter, progress: Progress, exception: ExceptionView) -> bool {
    let top = before.frames@.last();
    let below = before.frames@.drop_last();
    let regions = before.vm.ctx.codes@[top.code.index as int].regions@;
    &&& after.output == before.output
    &&& if exists|k: int| is_handler(regions, top.ip as int, k) {
        let region = regions[choose|k: int| is_handler(regions, top.ip as int, k)];
        &&& progress is Continue
        &&& after.frames@.len() == before.frames@.len()
        &&& after.frames@.drop_last() == below
        &&& after.frames@.last()@ == (FrameView {
            code: top.code,
            scope: top.scope,
            ip: region.handler as int,
            stack: cut(top.stack@, region.depth as int),
            state: StateView::Running,
        })
        &&& caught(&before.vm.ctx, &after.vm.ctx, top.scope, region.name, exception)
    } else {
        &&& after.vm == before.vm
        &&& if below.len() == 0 {
            &&& after.frames@.len() == 0
            &&& progress matches Progress::Finished(Err(e))
            &&& e@ == exception
        } else {
            &&& progress is Continue
            &&& after.frames@.len() == below.len()
            &&& after.frames@.drop_last() == below.drop_last()
            &&& after.frames@.last()@ == (FrameView {
                code: below.last().code,
                scope: below.last().scope,
                ip: below.last().ip as int,
                stack: below.last().stack@,
                state: StateView::Unwinding { exception },
            })
        }
    }
}

/// A frame whose state is `Running` executes the instruction at its
/// instruction pointer; at the end of its code it returns `None`. When the
/// instruction calls a function defined in code, the frame of the call is
/// the new last frame of the call stack.
pub open spec fn ran(before: &Interpreter, after: &Interpreter, progress: Progress) -> bool {
    let top = before.frames@.last();
    let below = before.frames@.drop_last();
    let code = before.vm.ctx.codes@[top.code.index as int];
    let at = before.frames@.len() - 1;
    &&& progress is Continue
    &&& if top.ip >= code.instructions@.len() {
        &&& after.vm == before.vm
        &&& after.output == before.output
        &&& after.frames@.len() == before.frames@.len()
        &&& after.frames@.drop_last() == below
        &&& after.frames@.last()@ == (FrameView {
            code: top.code,
            scope: top.scope,
            ip: top.ip as int,
            stack: top.stack@,
            state: StateView::Returning { value: ObjRef { index: NONE_OBJECT } },
        })
    } else {
        let entered = if after.frames@.len() > before.frames@.len() {
            Some(after.frames@.last())
        } else {
            None
        };
        &&& at < after.frames@.len() <= at + 2
        &&& after.frames@.take(at) == below
        &&& (after.frames@[at].state is Suspended) == (entered is Some)
        &&& entered matches Some(frame) ==> frame.state is Running
        &&& executed(
            &before.vm.ctx,
            top@,
            before.output@,
            code.instructions@[top.ip as int],
            &after.vm.ctx,
            after.frames@[at]@,
            after.output@,
            entered,
        )
    }
}

/// What one step of the interpreter does.
pub open spec fn stepped(before: &Interpreter, after: &Interpreter, progress: Progress) -> bool {
    &&& after.builtins == before.builtins
    &&& if before.frames@.len() == 0 {
        *after == *before && progress is Idle
    } else {
        match before.frames@.last().state {
            FrameState::Running => ran(before, after, progress),
            FrameState::Returning { value } => returned(before, after, progress, value),
            FrameState::Unwinding { exception } => unwound(before, after, progress, exception@),
            FrameState::Suspended => *after == *before && progress is Idle,
        }
    }
}

/// The states of the frames change along the state machine of frames, and
/// in no other way.
///
/// A running frame stays where it is in the call stack; it is suspended
/// exactly when it has called a function defined in code, whose frame is
/// then the running frame after it. A frame that returns leaves the call
/// stack, and its caller runs again. A frame in which an exception is in
/// flight either catches it and runs again, or leaves the call stack, and
/// the exception is then in flight in its caller. The frames before the
/// caller are not touched. The run has finished exactly when no frame is
/// left.
pub proof fn lemma_frame_transitions(before: &Interpreter, after: &Interpreter, progress: Progress)
    requires
        before.wf(),
        before.frames@.len() > 0,
        stepped(before, after, progress),
    ensures
        progress is Finished <==> after.frames@.len() == 0,
        !(progress is Idle),
        forall|i: int| 0 <= i < before.frames@.len() - 2 ==> #[trigger] after.frames@[i] == before.frames@[i],
        match before.frames@.last().state {
            FrameState::Running => {
                &&& before.frames@.len() <= after.frames@.len() <= before.frames@.len() + 1
                &&& after.frames@.take(before.frames@.len() - 1) == before.frames@.drop_last()
                &&& (after.frames@.len() == before.frames@.len() + 1) == (after.frames@[before.frames@.len()
                    - 1].state is Suspended)
                &&& after.frames@.len() == before.frames@.len() + 1 ==> after.frames@.last().state is Running
            },
            FrameState::Returning { value } => {
                &&& after.frames@.len() == before.frames@.len() - 1
                &&& after.frames@.len() > 0 ==> after.frames@.last().state is Running
            },
            FrameState::Unwinding { exception } => {
                ||| after.frames@.len() == before.frames@.len() && after.frames@.last().state is Running
                ||| after.frames@.len() == before.frames@.len() - 1 && (after.frames@.len() > 0
                    ==> after.frames@.last().state is Unwinding)
            },
            FrameState::Suspended => false,
        },
{
    let n = before.frames@.len() as int;
    let below = before.frames@.drop_last();
    assert forall|i: int| 0 <= i < n - 2 implies #[trigger] after.frames@[i] == before.frames@[i] by {
        assert(below[i] == before.frames@[i]);
        match before.frames@.last().state {
            FrameState::Running => {
                assert(after.frames@.take(n - 1)[i] == after.frames@[i]);
            },
            FrameState::Returning { value } => {
                assert(after.frames@.drop_last()[i] == after.frames@[i]);
                assert(below.drop_last()[i] == below[i]);
            },
            FrameState::Unwinding { exception } => {
                assert(after.frames@.drop_last()[i] == after.frames@[i]);
                assert(below.drop_last()[i] == below[i]);
            },
            FrameState::Suspended => {},
        }
    }
}

impl Interpreter {
    /// The virtual machine is well formed, and so is every frame in its
    /// context.
    pub open spec fn frames_wf(&self) -> bool {
        &&& self.vm.wf()
        &&& self.builtins.index < self.vm.ctx.scopes@.len()
        &&& forall|i: int| 0 <= i < self.frames@.len() ==> frame_wf(&self.vm.ctx, #[trigger] self.frames@[i])
    }

    /// The invariant of an interpreter: every frame is well formed, the
    /// last frame of the call stack does not wait, and every frame before
    /// it does.
    pub open spec fn wf(&self) -> bool {
        &&& self.frames_wf()
        &&& forall|i: int| 0 <= i < self.frames@.len() - 1 ==> (#[trigger] self.frames@[i]).state is Suspended
        &&& self.frames@.len() > 0 ==> !(self.frames@.last().state is Suspended)
    }

    /// An interpreter with a new virtual machine, an empty scope of
    /// built-in names, an empty call stack and nothing printed.
    pub fn new() -> (interpreter: Interpreter)
        ensures
            interpreter.wf(),
            crate::vm::standard(&interpreter.vm.ctx),
            interpreter.frames@.len() == 0,
            interpreter.output@.len() == 0,
            interpreter.builtins.index == 0,
            interpreter.vm.ctx.scopes@.len() == 1,
            names_of(&interpreter.vm.ctx, interpreter.builtins) == Map::<Seq<char>, ObjRef>::empty(),
            interpreter.vm.ctx.scopes@[0].parent is None,
    {
        let mut vm = VirtualMachine::new();
        let builtins = vm.ctx.new_scope(None);
        proof {
            assert(crate::vm::standard(&vm.ctx));
        }
        Interpreter { vm, builtins, frames: Vec::new(), output: Vec::new() }
    }

    /// Whether there is nothing to run.
    pub fn is_idle(&self) -> (idle: bool)
        ensures
            idle == (self.frames@.len() == 0),
    {
        self.frames.len() == 0
    }

    /// The scope of the built-in names.
    pub fn get_builtin_scope(&self) -> (scope: ScopeRef)
        ensures
            scope == self.builtins,
    {
        self.builtins
    }

    /// A new scope that binds no name and is enclosed by the scope of the
    /// built-in names.
    pub fn new_scope(&mut self) -> (scope: ScopeRef)
        requires
            old(self).wf(),
        ensures
            final(self).wf(),
            final(self).builtins == old(self).builtins,
            final(self).frames == old(self).frames,
            final(self).output == old(self).output,
            final(self).vm.ctx.objects == old(self).vm.ctx.objects,
            final(self).vm.ctx.tables == old(self).vm.ctx.tables,
            final(self).vm.ctx.codes == old(self).vm.ctx.codes,
            scope.index == old(self).vm.ctx.scopes@.len(),
            final(self).vm.ctx.scopes@.len() == old(self).vm.ctx.scopes@.len() + 1,
            final(self).vm.ctx.scopes@.drop_last() == old(self).vm.ctx.scopes@,
            final(self).vm.ctx.scopes@.last().parent == Some(old(self).builtins),
            names_of(&final(self).vm.ctx, scope) == Map::<Seq<char>, ObjRef>::empty(),
    {
        let ghost before = self.vm.ctx;
        let scope = self.vm.ctx.new_scope(Some(self.builtins));
        proof {
            assert(self.vm.ctx.scopes@.drop_last() =~= before.scopes@);
            assert forall|i: int| 0 <= i < self.frames@.len() implies frame_wf(
                &self.vm.ctx,
                #[trigger] self.frames@[i],
            ) by {
                lemma_frame_grows(&before, &self.vm.ctx, self.frames@[i]);
            }
        }
        scope
    }

    /// Begins to run a code object in a scope: its frame is the one frame
    /// of the call stack, at its first instruction and with an empty
    /// operand stack.
    pub fn run_code_obj(&mut self, code: CodeRef, scope: ScopeRef)
        requires
            old(self).wf(),
            old(self).frames@.len() == 0,
            code.index < old(self).vm.ctx.codes@.len(),
            scope.index < old(self).vm.ctx.scopes@.len(),
        ensures
            final(self).wf(),
            final(self).vm == old(self).vm,
            final(self).builtins == old(self).builtins,
            final(self).output == old(self).output,
            final(self).frames@.len() == 1,
            final(self).frames@[0]@ == (FrameView {
                code,
                scope,
                ip: 0,
                stack: Seq::empty(),
                state: StateView::Running,
            }),
    {
        self.frames.push(Frame::new(code, scope));
    }

    /// What has been printed since it was last taken.
    pub fn take_output(&mut self) -> (printed: Vec<String>)
        requires
            old(self).wf(),
        ensures
            final(self).wf(),
            printed == old(self).output,
            final(self).output@.len() == 0,
            final(self).vm == old(self).vm,
            final(self).builtins == old(self).builtins,
            final(self).frames == old(self).frames,
    {
        let mut printed: Vec<String> = Vec::new();
        std::mem::swap(&mut printed, &mut self.output);
        printed
    }

    /// Hands the value of the frame that has returned to its caller.
    fn finish_return(&mut self, value: ObjRef) -> (progress: Progress)
        requires
            old(self).wf(),
            old(self).frames@.len() > 0,
            old(self).frames@.last().state == (FrameState::Returning { value }),
        ensures
            final(self).wf(),
            final(self).builtins == old(self).builtins,
            returned(old(self), final(self), progress, value),
    {
        self.frames.pop();
        if self.frames.len() == 0 {
            return Progress::Finished(Ok(value));
        }
        let caller = self.frames.pop();
        match caller {
            Some(caller) => {
                let mut caller = caller;
                assert(caller == old(self).frames@[old(self).frames@.len() - 2]);
                assert(frame_wf(&self.vm.ctx, caller));
                let length = self.vm.ctx.codes[caller.code.index].instructions.len();
                assert(caller.ip < length);
                caller.stack.push(value);
                caller.ip = caller.ip + 1;
                caller.state = FrameState::Running;
                self.frames.push(caller);
                proof {
                    assert(self.frames@.drop_last() =~= old(self).frames@.drop_last().drop_last());
                    assert forall|i: int| 0 <= i < self.frames@.len() implies frame_wf(
                        &self.vm.ctx,
                        #[trigger] self.frames@[i],
                    ) by {
                        if i < self.frames@.len() - 1 {
                            assert(self.frames@[i] == old(self).frames@[i]);
                        }
                    }
                    assert forall|i: int| 0 <= i < self.frames@.len() - 1 implies (
                    #[trigger] self.frames@[i]).state is Suspended by {
                        assert(self.frames@[i] == old(self).frames@[i]);
                    }
                }
                Progress::Continue
            },
            None => Progress::Continue,
        }
    }

    /// Lets the exception in flight look for its handler in the last frame.
    fn unwind(&mut self, frame: Frame, exception: Exception) -> (progress: Progress)
        requires
            old(self).frames_wf(),
            frame_wf(&old(self).vm.ctx, frame),
            frame.state is Running,
            exception.cause matches Some(c) ==> old(self).vm.ctx.valid(c),
            forall|i: int| 0 <= i < old(self).frames@.len() ==> (#[trigger] old(self).frames@[i]).state is Suspended,
        ensures
            final(self).wf(),
            final(self).builtins == old(self).builtins,
            final(self).output == old(self).output,
            ({
                let regions = old(self).vm.ctx.codes@[frame.code.index as int].regions@;
                let below = old(self).frames@;
                if exists|k: int| is_handler(regions, frame.ip as int, k) {
                    let region = regions[choose|k: int| is_handler(regions, frame.ip as int, k)];
                    &&& progress is Continue
                    &&& final(self).frames@.len() == below.len() + 1
                    &&& final(self).frames@.drop_last() == below
                    &&& final(self).frames@.last()@ == (FrameView {
                        code: frame.code,
                        scope: frame.scope,
                        ip: region.handler as int,
                        stack: cut(frame.stack@, region.depth as int),
                        state: StateView::Running,
                    })
                    &&& caught(&old(self).vm.ctx, &final(self).vm.ctx, frame.scope, region.name, exception@)
                } else {
                    &&& final(self).vm == old(self).vm
                    &&& if below.len() == 0 {
                        &&& final(self).frames@.len() == 0
                        &&& progress matches Progress::Finished(Err(e))
                        &&& e@ == exception@
                    } else {
                        &&& progress is Continue
                        &&& final(self).frames@.len() == below.len()
                        &&& final(self).frames@.drop_last() == below.drop_last()
                        &&& final(self).frames@.last()@ == (FrameView {
                            code: below.last().code,
                            scope: below.last().scope,
                            ip: below.last().ip as int,
                            stack: below.last().stack@,
                            state: StateView::Unwinding { exception: exception@ },
                        })
                    }
                }
            }),
    {
        let ghost before = self.vm.ctx;
        let ghost regions = self.vm.ctx.codes@[frame.code.index as int].regions@;
        let mut frame = frame;
        let found = find_handler(&self.vm.ctx.codes[frame.code.index].regions, frame.ip);
        match found {
            Some(k) => {
                proof {
                    let chosen = choose|k: int| is_handler(regions, frame.ip as int, k);
                    crate::frame::lemma_one_handler(regions, frame.ip as int, k as int, chosen);
                    assert(self.vm.ctx.code_ok(frame.code.index as int));
                    assert(crate::bytecode::region_wf(
                        regions[k as int],
                        self.vm.ctx.codes@[frame.code.index as int].instructions@.len() as int,
                    ));
                }
                let name = match &self.vm.ctx.codes[frame.code.index].regions[k].name {
                    Some(n) => Some(n.clone()),
                    None => None,
                };
                frame.resume_at(&self.vm.ctx.codes[frame.code.index].regions[k]);
                match name {
                    Some(n) => {
                        let obj = self.vm.ctx.new_exception(exception);
                        store_name(&mut self.vm.ctx, frame.scope, n.as_str(), obj);
                        proof {
                            assert(self.vm.ctx.objects@.drop_last() =~= before.objects@);
                            assert(self.vm.ctx.tables@.drop_last() =~= before.tables@);
                        }
                    },
                    None => {},
                }
                proof {
                    assert forall|i: int| 0 <= i < self.frames@.len() implies frame_wf(
                        &self.vm.ctx,
                        #[trigger] self.frames@[i],
                    ) by {
                        lemma_frame_grows(&before, &self.vm.ctx, self.frames@[i]);
                    }
                }
                self.frames.push(frame);
                assert(self.frames@.drop_last() =~= old(self).frames@);
                Progress::Continue
            },
            None => {
                proof {
                    if exists|k: int| is_handler(regions, frame.ip as int, k) {
                        let k = choose|k: int| is_handler(regions, frame.ip as int, k);
                        assert(crate::frame::covers(regions[k], frame.ip as int));
                    }
                }
                if self.frames.len() == 0 {
                    return Progress::Finished(Err(exception));
                }
                let caller = self.frames.pop();
                match caller {
                    Some(caller) => {
                        let mut caller = caller;
                        assert(caller == old(self).frames@.last());
                        assert(frame_wf(&self.vm.ctx, caller));
                        caller.state = FrameState::Unwinding { exception };
                        self.frames.push(caller);
                        proof {
                            assert(self.frames@.drop_last() =~= old(self).frames@.drop_last());
                            assert forall|i: int| 0 <= i < self.frames@.len() implies frame_wf(
                                &self.vm.ctx,
                                #[trigger] self.frames@[i],
                            ) by {
                                if i < self.frames@.len() - 1 {
                                    assert(self.frames@[i] == old(self).frames@[i]);
                                }
                            }
                            assert forall|i: int| 0 <= i < self.frames@.len() - 1 implies (
                            #[trigger] self.frames@[i]).state is Suspended by {
                                assert(self.frames@[i] == old(self).frames@[i]);
                            }
                        }
                        Progress::Continue
                    },
                    None => Progress::Continue,
                }
            },
        }
    }

    /// Does one step: the running frame executes one instruction, or a
    /// value returns to the caller, or the exception in flight looks for
    /// its handler in one frame.
    ///
    /// What the step does is stated by [`stepped`].
    pub fn step(&mut self) -> (progress: Progress)
        requires
            old(self).wf(),
        ensures
            final(self).wf(),
            stepped(old(self), final(self), progress),
    {
        if self.frames.len() == 0 {
            return Progress::Idle;
        }
        let returning = match &self.frames[self.frames.len() - 1].state {
            FrameState::Returning { value } => Some(*value),
            _ => None,
        };
        match returning {
            Some(value) => {
                return self.finish_return(value);
            },
            None => {},
        }
        let popped = self.frames.pop();
        let mut frame = match popped {
            Some(frame) => frame,
            None => {
                return Progress::Idle;
            },
        };
        assert(frame == old(self).frames@.last());
        assert(self.frames@ =~= old(self).frames@.drop_last());
        assert(frame_wf(&self.vm.ctx, frame));
        assert forall|i: int| 0 <= i < self.frames@.len() implies (#[trigger] self.frames@[i]).state is Suspended by {
            assert(self.frames@[i] == old(self).frames@[i]);
        }
        let mut state = FrameState::Running;
        std::mem::swap(&mut state, &mut frame.state);
        match state {
            FrameState::Unwinding { exception } => self.unwind(frame, exception),
            FrameState::Running => {
                let length = self.vm.ctx.codes[frame.code.index].instructions.len();
                if frame.ip >= length {
                    frame.state = FrameState::Returning { value: self.vm.ctx.none() };
                    self.frames.push(frame);
                    assert(self.frames@.drop_last() =~= old(self).frames@.drop_last());
                    Progress::Continue
                } else {
                    let ghost before = self.vm.ctx;
                    let instruction = copy_instruction(&self.vm.ctx.codes[frame.code.index].instructions[frame.ip]);
                    let entered = execute(&mut self.vm.ctx, &mut frame, &mut self.output, instruction);
                    proof {
                        assert forall|i: int| 0 <= i < self.frames@.len() implies frame_wf(
                            &self.vm.ctx,
                            #[trigger] self.frames@[i],
                        ) by {
                            lemma_frame_grows(&before, &self.vm.ctx, self.frames@[i]);
                        }
                    }
                    let ghost at = self.frames@.len();
                    self.frames.push(frame);
                    match entered {
                        Some(callee) => {
                            self.frames.push(callee);
                        },
                        None => {},
                    }
                    proof {
                        assert(self.frames@.take(at as int) =~= old(self).frames@.drop_last());
                    }
                    Progress::Continue
                }
            },
            _ => {
                frame.state = FrameState::Suspended;
                self.frames.push(frame);
                Progress::Idle
            },
        }
    }
}

} // verus!
