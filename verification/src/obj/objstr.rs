//! Strings: their equality, their representation and their subscription.

use vstd::prelude::*;
use vstd::string::StrSliceExecFns;
use crate::exceptions::{raised, Exception, ExceptionKind, ExceptionView};
use crate::obj::objsequence::{
    get_pos,
    get_slice_range,
    lemma_full_slice,
    lemma_negative_step_unsupported,
    negative_step_message,
    position,
    slice_outcome,
    slice_positions,
};
use crate::obj::objtype::is_instance;
use crate::pyobject::{outcome_view, KindView, NativeFn, ObjRef, PyContext, PyFuncArgs, PyObjectKind, STR_TYPE};
use crate::vm::{
    arity_error,
    check_arity,
    check_instance,
    delivers,
    lemma_instance_kind,
    register_native,
    wrong_type,
    PyResult,
    VirtualMachine,
};

verus! {

/// The string type, as a handle.
pub open spec fn str_type() -> ObjRef {
    ObjRef { index: STR_TYPE }
}

/// A string between single quotes.
pub open spec fn quoted(text: Seq<char>) -> Seq<char> {
    "'"@ + text + "'"@
}

/// A string equals another string of the same characters, and nothing else.
pub open spec fn str_eq_outcome(ctx: &PyContext, args: Seq<ObjRef>) -> Result<KindView, ExceptionView> {
    match arity_error(args.len() as int, 2, 0) {
        Some(e) => Err(e),
        None => if !is_instance(ctx, args[0], str_type()) {
            Err(wrong_type())
        } else {
            Ok(
                KindView::Boolean {
                    value: ctx.kind(args[1]) is String && ctx.kind(args[1])->String_value@ == ctx.kind(
                        args[0],
                    )->String_value@,
                },
            )
        },
    }
}

/// The representation of a string is the string between single quotes.
pub open spec fn str_repr_outcome(ctx: &PyContext, args: Seq<ObjRef>) -> Result<KindView, ExceptionView> {
    match arity_error(args.len() as int, 1, 0) {
        Some(e) => Err(e),
        None => if !is_instance(ctx, args[0], str_type()) {
            Err(wrong_type())
        } else {
            Ok(KindView::String { value: quoted(ctx.kind(args[0])->String_value@) })
        },
    }
}

/// The message of an index that names no character.
pub open spec fn string_index_message() -> Seq<char> {
    "string index out of range"@
}

/// The message of a string subscript that is neither an integer nor a slice.
pub open spec fn string_subscript_message() -> Seq<char> {
    "string indices must be integers or slices"@
}

/// What subscripting the string `value` with an object of content `index`
/// yields: with an integer, the one-character string at the position it
/// names; with a slice, the characters the slice selects; with anything
/// else, a `TypeError`.
pub open spec fn subscript_outcome(value: Seq<char>, index: KindView) -> Result<KindView, ExceptionView> {
    match index {
        KindView::Integer { value: pos } => match position(value.len() as int, pos as int) {
            Some(at) => Ok(KindView::String { value: value.subrange(at, at + 1) }),
            None => Err(raised(ExceptionKind::IndexError, string_index_message())),
        },
        KindView::Slice { start, stop, step } => match slice_outcome(value, start, stop, step) {
            Ok(selected) => Ok(KindView::String { value: selected }),
            Err(e) => Err(e),
        },
        _ => Err(raised(ExceptionKind::TypeError, string_subscript_message())),
    }
}

/// Subscripting a string with a slice that has neither bounds nor step
/// yields the string.
pub proof fn lemma_whole_string(value: Seq<char>)
    ensures
        subscript_outcome(value, KindView::Slice { start: None, stop: None, step: None }) == Ok::<
            KindView,
            ExceptionView,
        >(KindView::String { value }),
{
    lemma_full_slice(value);
}

/// Subscripting a string with a slice whose step is negative fails as
/// unsupported: it never yields a string, reversed or not.
pub proof fn lemma_reversed_string(value: Seq<char>, start: Option<i64>, stop: Option<i64>, step: i64)
    requires
        step < 0,
    ensures
        subscript_outcome(value, KindView::Slice { start, stop, step: Some(step) }) == Err::<KindView, ExceptionView>(
            raised(ExceptionKind::UnsupportedOperation, negative_step_message()),
        ),
{
    lemma_negative_step_unsupported(value, start, stop, step);
}

/// The text of a string object.
pub fn get_value(ctx: &PyContext, obj: ObjRef) -> (value: String)
    requires
        ctx.valid(obj),
        ctx.kind(obj) is String,
    ensures
        value@ == ctx.kind(obj)->String_value@,
{
    match ctx.kind_of(obj) {
        PyObjectKind::String { value } => value.clone(),
        _ => String::new(),
    }
}

/// Computes what `__eq__` of a string yields.
pub fn str_eq_value(ctx: &PyContext, args: &PyFuncArgs) -> (made: Result<PyObjectKind, Exception>)
    requires
        ctx.wf(),
        args.valid_in(ctx),
    ensures
        outcome_view(made) == str_eq_outcome(ctx, args.args@),
        made matches Ok(kind) ==> ctx.kind_wf(kind, ctx.objects@.len() as int),
{
    match check_arity(args.args.len(), 2, 0) {
        Err(e) => {
            return Err(e);
        },
        Ok(_) => {},
    }
    let zelf = args.args[0];
    let other = args.args[1];
    match check_instance(ctx, zelf, ctx.str_type()) {
        Err(e) => {
            return Err(e);
        },
        Ok(_) => {},
    }
    proof {
        lemma_instance_kind(ctx, zelf, STR_TYPE as int);
    }
    let own = get_value(ctx, zelf);
    let equal = match ctx.kind_of(other) {
        PyObjectKind::String { value } => *value == own,
        _ => false,
    };
    Ok(PyObjectKind::Boolean { value: equal })
}

/// Computes what `__repr__` of a string yields.
pub fn str_repr_value(ctx: &PyContext, args: &PyFuncArgs) -> (made: Result<PyObjectKind, Exception>)
    requires
        ctx.wf(),
        args.valid_in(ctx),
    ensures
        outcome_view(made) == str_repr_outcome(ctx, args.args@),
        made matches Ok(kind) ==> ctx.kind_wf(kind, ctx.objects@.len() as int),
{
    match check_arity(args.args.len(), 1, 0) {
        Err(e) => {
            return Err(e);
        },
        Ok(_) => {},
    }
    let zelf = args.args[0];
    match check_instance(ctx, zelf, ctx.str_type()) {
        Err(e) => {
            return Err(e);
        },
        Ok(_) => {},
    }
    proof {
        lemma_instance_kind(ctx, zelf, STR_TYPE as int);
    }
    let mut text = String::from_str("'");
    text.append(get_value(ctx, zelf).as_str());
    text.append("'");
    Ok(PyObjectKind::String { value: text })
}

/// Computes what subscripting `value` with an index of kind `index` yields.
pub fn subscript_value(value: &String, index: &PyObjectKind) -> (made: Result<PyObjectKind, Exception>)
    ensures
        outcome_view(made) == subscript_outcome(value@, index@),
{
    let text = value.as_str();
    let length = text.unicode_len();
    match index {
        PyObjectKind::Integer { value: pos } => match get_pos(length, *pos) {
            Some(at) => Ok(PyObjectKind::String { value: String::from_str(text.substring_char(at, at + 1)) }),
            None => Err(Exception::with_message(ExceptionKind::IndexError, "string index out of range")),
        },
        PyObjectKind::Slice { start, stop, step } => match get_slice_range(length, *start, *stop, *step) {
            Err(e) => Err(e),
            Ok(range) => {
                let positions = slice_positions(&range);
                let mut selected = String::new();
                let mut j: usize = 0;
                while j < positions.len()
                    invariant
                        j <= positions@.len(),
                        text@ == value@,
                        range.stop <= value@.len(),
                        forall|m: int|
                            0 <= m < positions@.len() ==> (#[trigger] positions@[m]) == range.start + m * range.step
                                && positions@[m] < range.stop,
                        selected@.len() == j,
                        forall|m: int| 0 <= m < j ==> (#[trigger] selected@[m]) == value@[range.start + m * range.step],
                    decreases positions@.len() - j,
                {
                    let at = positions[j];
                    selected.append(text.substring_char(at, at + 1));
                    j = j + 1;
                }
                assert(selected@ =~= crate::obj::objsequence::select(
                    value@,
                    range.start as int,
                    range.stop as int,
                    range.step as int,
                ));
                Ok(PyObjectKind::String { value: selected })
            },
        },
        _ => Err(Exception::with_message(ExceptionKind::TypeError, "string indices must be integers or slices")),
    }
}

/// Subscripts the string `value` with the object `b`.
///
/// With an integer, yields the one-character string at the position the
/// integer names, counting from the end when it is negative; with a slice,
/// the string of the characters the slice selects. The result is a new
/// string object. Fails with an `IndexError` when the position or a slice
/// bound lies outside the string or the step is zero, as unsupported when
/// the step is negative, and with a `TypeError` for any other index.
pub fn subscript(vm: &mut VirtualMachine, value: &String, b: ObjRef) -> (result: PyResult)
    requires
        old(vm).wf(),
        old(vm).ctx.valid(b),
    ensures
        final(vm).wf(),
        delivers(&old(vm).ctx, &final(vm).ctx, result, subscript_outcome(value@, old(vm).ctx.kind(b)@)),
{
    let made = subscript_value(value, vm.ctx.kind_of(b));
    vm.realize(made)
}

/// Gives the string type its special methods: `__eq__` and `__repr__`.
pub fn init(ctx: &mut PyContext)
    requires
        old(ctx).wf(),
    ensures
        final(ctx).wf(),
        final(ctx).extends_objects(old(ctx)),
        final(ctx).objects@.len() == old(ctx).objects@.len() + 2,
        final(ctx).kind(old(ctx).upcoming(0)) == (PyObjectKind::NativeFunction {
            function: NativeFn::StrEq,
        }),
        final(ctx).kind(old(ctx).upcoming(1)) == (PyObjectKind::NativeFunction {
            function: NativeFn::StrRepr,
        }),
        final(ctx).attrs(str_type()) == old(ctx).attrs(str_type()).insert(
            "__eq__"@,
            old(ctx).upcoming(0),
        ).insert("__repr__"@, old(ctx).upcoming(1)),
        forall|i: int|
            0 <= i < old(ctx).tables@.len() && i != STR_TYPE ==> #[trigger] final(ctx).tables@[i] == old(
                ctx,
            ).tables@[i],        forall|i: int|
            old(ctx).tables@.len() <= i < final(ctx).tables@.len() ==> (#[trigger] final(ctx).tables@[i])@ == Map::<
                Seq<char>,
                ObjRef,
            >::empty(),
{
    let str_type = ctx.str_type();
    register_native(ctx, str_type, "__eq__", NativeFn::StrEq);
    register_native(ctx, str_type, "__repr__", NativeFn::StrRepr);
}

} // verus!
