//! Integers: their decimal text, their equality and their representation.

use vstd::prelude::*;
use crate::exceptions::{Exception, ExceptionView};
use crate::obj::objtype::is_instance;
use crate::pyobject::{outcome_view, KindView, NativeFn, ObjRef, PyContext, PyFuncArgs, PyObjectKind, INT_TYPE};
use crate::obj::objsequence::compares_equal;
use crate::vm::{
    arity_error,
    check_arity,
    check_instance,
    lemma_instance_kind,
    lemma_own_method,
    register_native,
    repr_text,
    standard,
    wrong_type,
};

verus! {

/// The character of a decimal digit.
pub open spec fn digit_char(d: int) -> char {
    if d == 0 {
        '0'
    } else if d == 1 {
        '1'
    } else if d == 2 {
        '2'
    } else if d == 3 {
        '3'
    } else if d == 4 {
        '4'
    } else if d == 5 {
        '5'
    } else if d == 6 {
        '6'
    } else if d == 7 {
        '7'
    } else if d == 8 {
        '8'
    } else {
        '9'
    }
}

/// The decimal digits of a natural number, most significant first, with no
/// leading zero.
pub open spec fn digits(n: nat) -> Seq<char>
    decreases n,
{
    if n < 10 {
        seq![digit_char(n as int)]
    } else {
        digits(n / 10).push(digit_char((n % 10) as int))
    }
}

/// The decimal text of an integer: a minus sign if it is negative, then the
/// digits of its magnitude.
pub open spec fn decimal(i: int) -> Seq<char> {
    if i < 0 {
        seq!['-'] + digits((-i) as nat)
    } else {
        digits(i as nat)
    }
}

/// The text of one decimal digit.
fn digit_str(d: u8) -> (text: &'static str)
    requires
        d < 10,
    ensures
        text@ == seq![digit_char(d as int)],
{
    proof {
        reveal_strlit("0");
        reveal_strlit("1");
        reveal_strlit("2");
        reveal_strlit("3");
        reveal_strlit("4");
        reveal_strlit("5");
        reveal_strlit("6");
        reveal_strlit("7");
        reveal_strlit("8");
        reveal_strlit("9");
    }
    let text = if d == 0 {
        "0"
    } else if d == 1 {
        "1"
    } else if d == 2 {
        "2"
    } else if d == 3 {
        "3"
    } else if d == 4 {
        "4"
    } else if d == 5 {
        "5"
    } else if d == 6 {
        "6"
    } else if d == 7 {
        "7"
    } else if d == 8 {
        "8"
    } else {
        "9"
    };
    text
}

/// Appends the decimal digits of `n` to `text`.
pub fn push_digits(text: &mut String, n: u64)
    ensures
        final(text)@ == old(text)@ + digits(n as nat),
    decreases n,
{
    if n >= 10 {
        push_digits(text, n / 10);
    }
    text.append(digit_str((n % 10) as u8));
}

/// The decimal text of an integer.
pub fn decimal_text(value: i64) -> (text: String)
    ensures
        text@ == decimal(value as int),
{
    let mut text = String::new();
    if value < 0 {
        proof {
            reveal_strlit("-");
        }
        text.append("-");
        let magnitude: u64 = if value == i64::MIN {
            9223372036854775808u64
        } else {
            (-value) as u64
        };
        push_digits(&mut text, magnitude);
    } else {
        push_digits(&mut text, value as u64);
    }
    text
}

/// The decimal text of a count.
pub fn count_text(n: usize) -> (text: String)
    ensures
        text@ == decimal(n as int),
{
    let mut text = String::new();
    push_digits(&mut text, n as u64);
    text
}

/// The integer type, as a handle.
pub open spec fn int_type() -> ObjRef {
    ObjRef { index: INT_TYPE }
}

/// An integer equals another integer of the same value, and nothing else.
pub open spec fn int_eq_outcome(ctx: &PyContext, args: Seq<ObjRef>) -> Result<KindView, ExceptionView> {
    match arity_error(args.len() as int, 2, 0) {
        Some(e) => Err(e),
        None => if !is_instance(ctx, args[0], int_type()) {
            Err(wrong_type())
        } else {
            Ok(
                KindView::Boolean {
                    value: ctx.kind(args[1]) is Integer && ctx.kind(args[1])->Integer_value == ctx.kind(
                        args[0],
                    )->Integer_value,
                },
            )
        },
    }
}

/// The representation of an integer is its decimal text.
pub open spec fn int_repr_outcome(ctx: &PyContext, args: Seq<ObjRef>) -> Result<KindView, ExceptionView> {
    match arity_error(args.len() as int, 1, 0) {
        Some(e) => Err(e),
        None => if !is_instance(ctx, args[0], int_type()) {
            Err(wrong_type())
        } else {
            Ok(KindView::String { value: decimal(ctx.kind(args[0])->Integer_value as int) })
        },
    }
}

/// While the integer type has the special methods it was created with, the
/// representation of an integer is its decimal text.
pub proof fn lemma_int_repr(ctx: &PyContext, obj: ObjRef)
    requires
        ctx.wf(),
        standard(ctx),
        ctx.valid(obj),
        ctx.kind(obj) is Integer,
    ensures
        repr_text(ctx, obj) == Ok::<Seq<char>, ExceptionView>(decimal(ctx.kind(obj)->Integer_value as int)),
{
    assert(ctx.object_wf(obj.index as int));
    lemma_own_method(ctx, obj, "__repr__"@, NativeFn::IntRepr, Seq::empty());
    lemma_instance_kind(ctx, obj, INT_TYPE as int);
}

/// While the integer type has the special methods it was created with, an
/// integer compares equal to exactly the integers of the same value.
pub proof fn lemma_int_eq(ctx: &PyContext, a: ObjRef, b: ObjRef)
    requires
        ctx.wf(),
        standard(ctx),
        ctx.valid(a),
        ctx.valid(b),
        ctx.kind(a) is Integer,
    ensures
        compares_equal(ctx, a, b) <==> (ctx.kind(b) is Integer && ctx.kind(b)->Integer_value == ctx.kind(
            a,
        )->Integer_value),
{
    assert(ctx.object_wf(a.index as int));
    lemma_own_method(ctx, a, "__eq__"@, NativeFn::IntEq, seq![b]);
    lemma_instance_kind(ctx, a, INT_TYPE as int);
}

/// The value of an integer object.
pub fn get_value(ctx: &PyContext, obj: ObjRef) -> (value: i64)
    requires
        ctx.valid(obj),
        ctx.kind(obj) is Integer,
    ensures
        value == ctx.kind(obj)->Integer_value,
{
    match ctx.kind_of(obj) {
        PyObjectKind::Integer { value } => *value,
        _ => 0,
    }
}

/// Computes what `__eq__` of an integer yields.
pub fn int_eq_value(ctx: &PyContext, args: &PyFuncArgs) -> (made: Result<PyObjectKind, Exception>)
    requires
        ctx.wf(),
        args.valid_in(ctx),
    ensures
        outcome_view(made) == int_eq_outcome(ctx, args.args@),
        made matches Ok(kind) ==> ctx.kind_wf(kind, ctx.objects@.len() as int),
{
    match check_arity(args.args.len(), 2, 0) {
        Err(e) => {
            return Err(e);
        },
        Ok(_) => {},
    }
    let zelf = args.args[0];
    let other = args.args[1];
    match check_instance(ctx, zelf, ctx.int_type()) {
        Err(e) => {
            return Err(e);
        },
        Ok(_) => {},
    }
    proof {
        lemma_instance_kind(ctx, zelf, INT_TYPE as int);
    }
    let own = get_value(ctx, zelf);
    let equal = match ctx.kind_of(other) {
        PyObjectKind::Integer { value } => *value == own,
        _ => false,
    };
    Ok(PyObjectKind::Boolean { value: equal })
}

/// Computes what `__repr__` of an integer yields.
pub fn int_repr_value(ctx: &PyContext, args: &PyFuncArgs) -> (made: Result<PyObjectKind, Exception>)
    requires
        ctx.wf(),
        args.valid_in(ctx),
    ensures
        outcome_view(made) == int_repr_outcome(ctx, args.args@),
        made matches Ok(kind) ==> ctx.kind_wf(kind, ctx.objects@.len() as int),
{
    match check_arity(args.args.len(), 1, 0) {
        Err(e) => {
            return Err(e);
        },
        Ok(_) => {},
    }
    let zelf = args.args[0];
    match check_instance(ctx, zelf, ctx.int_type()) {
        Err(e) => {
            return Err(e);
        },
        Ok(_) => {},
    }
    proof {
        lemma_instance_kind(ctx, zelf, INT_TYPE as int);
    }
    Ok(PyObjectKind::String { value: decimal_text(get_value(ctx, zelf)) })
}

/// Gives the integer type its special methods: `__eq__` and `__repr__`.
pub fn init(ctx: &mut PyContext)
    requires
        old(ctx).wf(),
    ensures
        final(ctx).wf(),
        final(ctx).extends_objects(old(ctx)),
        final(ctx).objects@.len() == old(ctx).objects@.len() + 2,
        final(ctx).kind(old(ctx).upcoming(0)) == (PyObjectKind::NativeFunction {
            function: NativeFn::IntEq,
        }),
        final(ctx).kind(old(ctx).upcoming(1)) == (PyObjectKind::NativeFunction {
            function: NativeFn::IntRepr,
        }),
        final(ctx).attrs(int_type()) == old(ctx).attrs(int_type()).insert(
            "__eq__"@,
            old(ctx).upcoming(0),
        ).insert("__repr__"@, old(ctx).upcoming(1)),
        forall|i: int|
            0 <= i < old(ctx).tables@.len() && i != INT_TYPE ==> #[trigger] final(ctx).tables@[i] == old(
                ctx,
            ).tables@[i],        forall|i: int|
            old(ctx).tables@.len() <= i < final(ctx).tables@.len() ==> (#[trigger] final(ctx).tables@[i])@ == Map::<
                Seq<char>,
                ObjRef,
            >::empty(),
{
    let int_type = ctx.int_type();
    register_native(ctx, int_type, "__eq__", NativeFn::IntEq);
    register_native(ctx, int_type, "__repr__", NativeFn::IntRepr);
}

} // verus!
