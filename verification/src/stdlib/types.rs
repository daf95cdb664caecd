//! Dynamic type creation and names for built in types.

use vstd::prelude::*;
use crate::exceptions::{raised, Exception, ExceptionKind, ExceptionView};
use crate::obj::objstr::{get_value, str_type};
use crate::obj::objtuple::{elements_of, get_elements, tuple_type};
use crate::obj::objtype::{all_types, bad_base_message, is_instance, isinstance, linearize, make_type};
use crate::pyobject::{
    outcome_view,
    root,
    KindView,
    NativeFn,
    ObjRef,
    PyContext,
    PyFuncArgs,
    PyObjectKind,
    FUNCTION_TYPE,
    STR_TYPE,
    TUPLE_TYPE,
};
use crate::vm::{
    arity_error,
    check_arity,
    check_instance,
    delivers,
    lemma_instance_kind,
    register_native,
    wrong_type,
    PyResult,
    VirtualMachine,
};

verus! {

/// The message of building a class on bases that are no tuple.
pub open spec fn bases_not_tuple_message() -> Seq<char> {
    "Bases must be a tuple"@
}

/// The bases that a class is built on: those given, or the root alone when
/// none is given.
pub open spec fn effective_bases(given: Seq<ObjRef>) -> Seq<ObjRef> {
    if given.len() == 0 {
        seq![root()]
    } else {
        given
    }
}

/// What `new_class` yields. Its arguments are the name, a string, and
/// optionally the bases, the keywords and the body; the last two are not
/// looked at. The bases must be a tuple whose elements are types. The new
/// type is built on the effective bases and its resolution order is their
/// linearization.
pub open spec fn types_new_class_outcome(ctx: &PyContext, args: Seq<ObjRef>) -> Result<KindView, ExceptionView> {
    match arity_error(args.len() as int, 1, 3) {
        Some(e) => Err(e),
        None => if !is_instance(ctx, args[0], str_type()) {
            Err(wrong_type())
        } else if args.len() >= 2 && !is_instance(ctx, args[1], tuple_type()) {
            Err(raised(ExceptionKind::TypeError, bases_not_tuple_message()))
        } else {
            let given = if args.len() >= 2 {
                elements_of(ctx, args[1])
            } else {
                Seq::empty()
            };
            let bases = effective_bases(given);
            if all_types(ctx, bases) {
                Ok(
                    KindView::Type {
                        name: ctx.kind(args[0])->String_value@,
                        bases: bases,
                        mro: linearize(ctx, bases),
                    },
                )
            } else {
                Err(raised(ExceptionKind::TypeError, bad_base_message()))
            }
        },
    }
}

/// A class built on no bases but the implicit root has the root, and
/// nothing else, after itself in its resolution order.
pub proof fn lemma_rootless_class(ctx: &PyContext)
    requires
        ctx.wf(),
    ensures
        all_types(ctx, effective_bases(Seq::empty())),
        linearize(ctx, effective_bases(Seq::empty())) == seq![root()],
{
    let bases = effective_bases(Seq::empty());
    assert(ctx.object_wf(0));
    let root_order = ctx.kind(root())->Type_mro@;
    if root_order.len() > 0 {
        assert(root_order[0].index < 0);
    }
    let flat = crate::obj::objtype::base_orders(ctx, bases);
    assert(crate::obj::objtype::base_orders(ctx, bases.drop_last()) =~= Seq::<ObjRef>::empty());
    assert(crate::obj::objtype::first_occurrences(flat.drop_last()) =~= Seq::<ObjRef>::empty());
}

/// Building a class on bases that are not a tuple fails with a `TypeError`,
/// and building one on an empty tuple of bases yields a type whose
/// resolution order holds, after the type itself, the root and nothing
/// else.
pub proof fn lemma_new_class_bases(ctx: &PyContext, name: ObjRef, bases: ObjRef)
    requires
        ctx.wf(),
        ctx.valid(name),
        ctx.valid(bases),
        ctx.kind(name) is String,
    ensures
        !(ctx.kind(bases) is Tuple) ==> types_new_class_outcome(ctx, seq![name, bases]) == Err::<
            KindView,
            ExceptionView,
        >(raised(ExceptionKind::TypeError, bases_not_tuple_message())),
        ctx.kind(bases) is Tuple && elements_of(ctx, bases).len() == 0 ==> types_new_class_outcome(
            ctx,
            seq![name, bases],
        ) == Ok::<KindView, ExceptionView>(
            KindView::Type { name: ctx.kind(name)->String_value@, bases: seq![root()], mro: seq![root()] },
        ),
{
    lemma_instance_kind(ctx, name, STR_TYPE as int);
    lemma_instance_kind(ctx, bases, TUPLE_TYPE as int);
    lemma_rootless_class(ctx);
}

/// Computes what `new_class` yields: the content of the new type.
pub fn types_new_class_value(ctx: &PyContext, args: &PyFuncArgs) -> (made: Result<PyObjectKind, Exception>)
    requires
        ctx.wf(),
        args.valid_in(ctx),
    ensures
        outcome_view(made) == types_new_class_outcome(ctx, args.args@),
        made matches Ok(kind) ==> ctx.kind_wf(kind, ctx.objects@.len() as int),
{
    match check_arity(args.args.len(), 1, 3) {
        Err(e) => {
            return Err(e);
        },
        Ok(_) => {},
    }
    let name = args.args[0];
    match check_instance(ctx, name, ctx.str_type()) {
        Err(e) => {
            return Err(e);
        },
        Ok(_) => {},
    }
    proof {
        lemma_instance_kind(ctx, name, STR_TYPE as int);
    }
    let name = get_value(ctx, name);
    let mut bases: Vec<ObjRef> = if args.args.len() >= 2 {
        let b = args.args[1];
        proof {
            lemma_instance_kind(ctx, b, TUPLE_TYPE as int);
        }
        if isinstance(ctx, b, ctx.tuple_type()) {
            get_elements(ctx, b)
        } else {
            return Err(Exception::with_message(ExceptionKind::TypeError, "Bases must be a tuple"));
        }
    } else {
        Vec::new()
    };
    if bases.len() == 0 {
        bases.push(ctx.object());
        assert(bases@ =~= seq![root()]);
    }
    make_type(ctx, name.as_str(), bases)
}

/// Creates a class: a new type named by the first argument and built on the
/// bases in the second.
///
/// Fails with a `TypeError` when the bases are given and are not a tuple,
/// and when one of them is not a type. With no bases, or an empty tuple of
/// bases, the new type is built on the root alone.
pub fn types_new_class(vm: &mut VirtualMachine, args: PyFuncArgs) -> (result: PyResult)
    requires
        old(vm).wf(),
        args.valid_in(&old(vm).ctx),
    ensures
        final(vm).wf(),
        delivers(&old(vm).ctx, &final(vm).ctx, result, types_new_class_outcome(&old(vm).ctx, args.args@)),
{
    let made = types_new_class_value(&vm.ctx, &args);
    vm.realize(made)
}

/// Creates the module `types`: a new module object whose attributes are
/// `new_class`, a new native function object, and `FunctionType`, the type
/// of functions.
pub fn mk_module(ctx: &mut PyContext) -> (py_mod: ObjRef)
    requires
        old(ctx).wf(),
    ensures
        final(ctx).wf(),
        final(ctx).extends(old(ctx)),
        final(ctx).objects@.len() == old(ctx).objects@.len() + 2,
        py_mod.index == old(ctx).objects@.len(),
        final(ctx).kind(py_mod) is Module,
        final(ctx).kind(py_mod)->Module_name@ == "types"@,
        final(ctx).kind(old(ctx).upcoming(1)) == (PyObjectKind::NativeFunction {
            function: NativeFn::TypesNewClass,
        }),
        final(ctx).attrs(py_mod) == Map::<Seq<char>, ObjRef>::empty().insert(
            "new_class"@,
            old(ctx).upcoming(1),
        ).insert("FunctionType"@, ObjRef { index: FUNCTION_TYPE }),
{
    let ghost before = *ctx;
    let py_mod = ctx.new_module("types");
    register_native(ctx, py_mod, "new_class", NativeFn::TypesNewClass);
    let function_type = ctx.function_type();
    ctx.set_attr(py_mod, "FunctionType", function_type);
    proof {
        assert forall|i: int| 0 <= i < before.objects@.len() implies #[trigger] ctx.tables@[i] == before.tables@[i] by {
        }
        assert forall|i: int| 0 <= i < before.objects@.len() implies #[trigger] ctx.objects@[i]
            == before.objects@[i] by {
        }
    }
    py_mod
}

} // verus!
