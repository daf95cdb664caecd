//! Tuples: their equality, their length and their representation.

use vstd::prelude::*;
use crate::exceptions::{Exception, ExceptionView};
use crate::obj::objsequence::{compares_equal, lemma_seq_equal, seq_equal, seq_equal_outcome};
use crate::obj::objtype::is_instance;
use crate::pyobject::{
    copy_refs,
    outcome_view,
    refs_below,
    KindView,
    NativeFn,
    ObjRef,
    PyContext,
    PyFuncArgs,
    PyObjectKind,
    TUPLE_TYPE,
};
use crate::vm::{
    arity_error,
    check_arity,
    check_instance,
    delivers,
    eval_repr,
    index_bound,
    lemma_index_bound_below,
    lemma_instance_kind,
    lemma_own_method,
    receiver_index,
    register_native,
    repr_text,
    standard,
    wrong_type,
    PyResult,
    VirtualMachine,
};

verus! {

/// The tuple type, as a handle.
pub open spec fn tuple_type() -> ObjRef {
    ObjRef { index: TUPLE_TYPE }
}

/// The elements of the tuple that `obj` names.
pub open spec fn elements_of(ctx: &PyContext, obj: ObjRef) -> Seq<ObjRef> {
    ctx.kind(obj)->Tuple_elements@
}

/// The texts of `parts`, with `separator` between each two.
pub open spec fn join(parts: Seq<Seq<char>>, separator: Seq<char>) -> Seq<char>
    decreases parts.len(),
{
    if parts.len() == 0 {
        Seq::empty()
    } else if parts.len() == 1 {
        parts[0]
    } else {
        join(parts.drop_last(), separator) + separator + parts.last()
    }
}

/// The representation of a tuple whose elements have the representations
/// `parts`: one element is followed by a comma, to tell the tuple from an
/// expression between parentheses; any other number of elements is joined
/// by a comma and a space.
pub open spec fn tuple_format(parts: Seq<Seq<char>>) -> Seq<char> {
    if parts.len() == 1 {
        "("@ + parts[0] + ",)"@
    } else {
        "("@ + join(parts, ", "@) + ")"@
    }
}

/// The representations of `elements`, in order; the first failure, if an
/// element's representation fails.
pub open spec fn repr_parts(ctx: &PyContext, elements: Seq<ObjRef>) -> Result<Seq<Seq<char>>, ExceptionView>
    decreases index_bound(elements), 1nat, elements.len(),
{
    if elements.len() == 0 {
        Ok(Seq::empty())
    } else {
        match repr_parts(ctx, elements.drop_last()) {
            Err(e) => Err(e),
            Ok(init) => match repr_text(ctx, elements.last()) {
                Err(e) => Err(e),
                Ok(text) => Ok(init.push(text)),
            },
        }
    }
}

/// The characters of each string of `strings`.
pub open spec fn texts(strings: Seq<String>) -> Seq<Seq<char>> {
    strings.map_values(|s: String| s@)
}

/// What `__eq__` of a tuple yields: whether the other argument is a tuple
/// that is equal to it as a sequence. A tuple never equals what is not a
/// tuple, and that is no error.
pub open spec fn tuple_eq_outcome(ctx: &PyContext, args: Seq<ObjRef>) -> Result<KindView, ExceptionView>
    decreases receiver_index(args), 2nat, 0nat,
{
    match arity_error(args.len() as int, 2, 0) {
        Some(e) => Err(e),
        None => if !is_instance(ctx, args[0], tuple_type()) {
            Err(wrong_type())
        } else if !is_instance(ctx, args[1], tuple_type()) {
            Ok(KindView::Boolean { value: false })
        } else if index_bound(elements_of(ctx, args[0])) <= args[0].index {
            match seq_equal_outcome(ctx, elements_of(ctx, args[0]), elements_of(ctx, args[1])) {
                Ok(equal) => Ok(KindView::Boolean { value: equal }),
                Err(e) => Err(e),
            }
        } else {
            // Not so in a well-formed context: the elements of a tuple are
            // stored before the tuple.
            Err(wrong_type())
        },
    }
}

/// What `__len__` of a tuple yields: the number of its elements.
pub open spec fn tuple_len_outcome(ctx: &PyContext, args: Seq<ObjRef>) -> Result<KindView, ExceptionView> {
    match arity_error(args.len() as int, 1, 0) {
        Some(e) => Err(e),
        None => if !is_instance(ctx, args[0], tuple_type()) {
            Err(wrong_type())
        } else {
            Ok(KindView::Integer { value: elements_of(ctx, args[0]).len() as i64 })
        },
    }
}

/// What `__repr__` of a tuple yields: the representations of its elements,
/// formatted as a tuple, or the first failure among them.
pub open spec fn tuple_repr_outcome(ctx: &PyContext, args: Seq<ObjRef>) -> Result<KindView, ExceptionView>
    decreases receiver_index(args), 2nat, 0nat,
{
    match arity_error(args.len() as int, 1, 0) {
        Some(e) => Err(e),
        None => if !is_instance(ctx, args[0], tuple_type()) {
            Err(wrong_type())
        } else if index_bound(elements_of(ctx, args[0])) <= args[0].index {
            match repr_parts(ctx, elements_of(ctx, args[0])) {
                Ok(parts) => Ok(KindView::String { value: tuple_format(parts) }),
                Err(e) => Err(e),
            }
        } else {
            // Not so in a well-formed context: the elements of a tuple are
            // stored before the tuple.
            Err(wrong_type())
        },
    }
}

/// A failure among the representations of a prefix is the failure of the
/// whole.
pub proof fn lemma_repr_parts_settled(ctx: &PyContext, elements: Seq<ObjRef>, n: int)
    requires
        0 <= n <= elements.len(),
        repr_parts(ctx, elements.take(n)) is Err,
    ensures
        repr_parts(ctx, elements) == repr_parts(ctx, elements.take(n)),
    decreases elements.len() - n,
{
    if n == elements.len() {
        assert(elements.take(n) =~= elements);
    } else {
        assert(elements.take(n + 1).drop_last() =~= elements.take(n));
        lemma_repr_parts_settled(ctx, elements, n + 1);
    }
}

/// When the representation of every element succeeds, the representations
/// of the elements are those, in order.
pub proof fn lemma_repr_parts(ctx: &PyContext, elements: Seq<ObjRef>)
    requires
        forall|k: int| 0 <= k < elements.len() ==> repr_text(ctx, #[trigger] elements[k]) is Ok,
    ensures
        repr_parts(ctx, elements) == Ok::<Seq<Seq<char>>, ExceptionView>(
            Seq::new(elements.len(), |k: int| repr_text(ctx, elements[k])->Ok_0),
        ),
    decreases elements.len(),
{
    let all = Seq::new(elements.len(), |k: int| repr_text(ctx, elements[k])->Ok_0);
    if elements.len() == 0 {
        assert(all =~= Seq::<Seq<char>>::empty());
    } else {
        let init = elements.drop_last();
        assert forall|k: int| 0 <= k < init.len() implies repr_text(ctx, #[trigger] init[k]) is Ok by {
        }
        lemma_repr_parts(ctx, init);
        let first = Seq::new(init.len(), |k: int| repr_text(ctx, init[k])->Ok_0);
        assert(first.push(repr_text(ctx, elements.last())->Ok_0) =~= all);
    }
}

/// The representation of a tuple whose elements all have a representation:
/// for one element `x`, the text `(x,)`; for any other number of elements,
/// their representations joined by a comma and a space, between
/// parentheses.
pub proof fn lemma_tuple_repr(ctx: &PyContext, tuple: ObjRef)
    requires
        ctx.wf(),
        ctx.valid(tuple),
        ctx.kind(tuple) is Tuple,
        forall|k: int|
            0 <= k < elements_of(ctx, tuple).len() ==> repr_text(ctx, #[trigger] elements_of(ctx, tuple)[k]) is Ok,
    ensures
        tuple_repr_outcome(ctx, seq![tuple]) == Ok::<KindView, ExceptionView>(
            KindView::String {
                value: tuple_format(
                    Seq::new(
                        elements_of(ctx, tuple).len(),
                        |k: int| repr_text(ctx, elements_of(ctx, tuple)[k])->Ok_0,
                    ),
                ),
            },
        ),
        elements_of(ctx, tuple).len() == 1 ==> tuple_repr_outcome(ctx, seq![tuple]) == Ok::<KindView, ExceptionView>(
            KindView::String { value: "("@ + repr_text(ctx, elements_of(ctx, tuple)[0])->Ok_0 + ",)"@ },
        ),
{
    let elements = elements_of(ctx, tuple);
    lemma_instance_kind(ctx, tuple, TUPLE_TYPE as int);
    assert(ctx.object_wf(tuple.index as int));
    lemma_index_bound_below(elements, tuple.index as int);
    lemma_repr_parts(ctx, elements);
}

/// While the tuple type has the special methods it was created with, the
/// representation of a tuple whose elements all have a representation is:
/// for one element `x`, the text `(x,)`; for any other number of elements,
/// their representations joined by a comma and a space, between
/// parentheses.
pub proof fn lemma_repr_of_tuple(ctx: &PyContext, tuple: ObjRef)
    requires
        ctx.wf(),
        standard(ctx),
        ctx.valid(tuple),
        ctx.kind(tuple) is Tuple,
        forall|k: int|
            0 <= k < elements_of(ctx, tuple).len() ==> repr_text(ctx, #[trigger] elements_of(ctx, tuple)[k]) is Ok,
    ensures
        repr_text(ctx, tuple) == Ok::<Seq<char>, ExceptionView>(
            tuple_format(
                Seq::new(elements_of(ctx, tuple).len(), |k: int| repr_text(ctx, elements_of(ctx, tuple)[k])->Ok_0),
            ),
        ),
{
    assert(ctx.object_wf(tuple.index as int));
    lemma_own_method(ctx, tuple, "__repr__"@, NativeFn::TupleRepr, Seq::empty());
    lemma_tuple_repr(ctx, tuple);
}

/// While the tuple type has the special methods it was created with, two
/// tuples compare equal exactly when they have the same length and all
/// corresponding elements compare equal.
pub proof fn lemma_tuples_equal(ctx: &PyContext, a: ObjRef, b: ObjRef)
    requires
        ctx.wf(),
        standard(ctx),
        ctx.valid(a),
        ctx.valid(b),
        ctx.kind(a) is Tuple,
        ctx.kind(b) is Tuple,
    ensures
        compares_equal(ctx, a, b) <==> (elements_of(ctx, a).len() == elements_of(ctx, b).len() && forall|k: int|
            0 <= k < elements_of(ctx, a).len() ==> compares_equal(
                ctx,
                #[trigger] elements_of(ctx, a)[k],
                elements_of(ctx, b)[k],
            )),
{
    assert(ctx.object_wf(a.index as int));
    lemma_own_method(ctx, a, "__eq__"@, NativeFn::TupleEq, seq![b]);
    lemma_instance_kind(ctx, a, TUPLE_TYPE as int);
    lemma_instance_kind(ctx, b, TUPLE_TYPE as int);
    lemma_index_bound_below(elements_of(ctx, a), a.index as int);
    lemma_seq_equal(ctx, elements_of(ctx, a), elements_of(ctx, b));
}

/// The elements of a tuple.
pub fn get_elements(ctx: &PyContext, obj: ObjRef) -> (elements: Vec<ObjRef>)
    requires
        ctx.wf(),
        ctx.valid(obj),
        ctx.kind(obj) is Tuple,
    ensures
        elements@ == elements_of(ctx, obj),
        refs_below(elements@, obj.index as int),
        elements@.len() <= i64::MAX,
{
    assert(ctx.object_wf(obj.index as int));
    match ctx.kind_of(obj) {
        PyObjectKind::Tuple { elements } => copy_refs(elements),
        _ => Vec::new(),
    }
}

/// The texts of `parts` with `separator` between each two.
pub fn join_texts(parts: &Vec<String>, separator: &str) -> (joined: String)
    ensures
        joined@ == join(texts(parts@), separator@),
{
    let mut joined = String::new();
    let mut i: usize = 0;
    while i < parts.len()
        invariant
            i <= parts@.len(),
            joined@ == join(texts(parts@).take(i as int), separator@),
        decreases parts@.len() - i,
    {
        proof {
            let now = texts(parts@).take(i + 1);
            assert(now.drop_last() =~= texts(parts@).take(i as int));
        }
        if i > 0 {
            joined.append(separator);
        }
        joined.append(parts[i].as_str());
        i = i + 1;
    }
    assert(texts(parts@).take(parts@.len() as int) =~= texts(parts@));
    joined
}

/// Computes what `__eq__` of a tuple yields.
pub fn tuple_eq_value(ctx: &PyContext, args: &PyFuncArgs) -> (made: Result<PyObjectKind, Exception>)
    requires
        ctx.wf(),
        args.valid_in(ctx),
    ensures
        outcome_view(made) == tuple_eq_outcome(ctx, args.args@),
        made matches Ok(kind) ==> ctx.kind_wf(kind, ctx.objects@.len() as int),
        made matches Err(e) ==> e.cause is None,
    decreases receiver_index(args.args@), 2nat, 0nat,
{
    match check_arity(args.args.len(), 2, 0) {
        Err(e) => {
            return Err(e);
        },
        Ok(_) => {},
    }
    let zelf = args.args[0];
    let other = args.args[1];
    match check_instance(ctx, zelf, ctx.tuple_type()) {
        Err(e) => {
            return Err(e);
        },
        Ok(_) => {},
    }
    proof {
        lemma_instance_kind(ctx, zelf, TUPLE_TYPE as int);
        lemma_instance_kind(ctx, other, TUPLE_TYPE as int);
    }
    let result = if crate::obj::objtype::isinstance(ctx, other, ctx.tuple_type()) {
        let zelf = get_elements(ctx, zelf);
        let other = get_elements(ctx, other);
        proof {
            lemma_index_bound_below(zelf@, args.args@[0].index as int);
        }
        match seq_equal(ctx, &zelf, &other) {
            Err(e) => {
                return Err(e);
            },
            Ok(equal) => equal,
        }
    } else {
        false
    };
    Ok(PyObjectKind::Boolean { value: result })
}

/// Computes what `__len__` of a tuple yields.
pub fn tuple_len_value(ctx: &PyContext, args: &PyFuncArgs) -> (made: Result<PyObjectKind, Exception>)
    requires
        ctx.wf(),
        args.valid_in(ctx),
    ensures
        outcome_view(made) == tuple_len_outcome(ctx, args.args@),
        made matches Ok(kind) ==> ctx.kind_wf(kind, ctx.objects@.len() as int),
        made matches Err(e) ==> e.cause is None,
{
    match check_arity(args.args.len(), 1, 0) {
        Err(e) => {
            return Err(e);
        },
        Ok(_) => {},
    }
    let zelf = args.args[0];
    match check_instance(ctx, zelf, ctx.tuple_type()) {
        Err(e) => {
            return Err(e);
        },
        Ok(_) => {},
    }
    proof {
        lemma_instance_kind(ctx, zelf, TUPLE_TYPE as int);
    }
    let elements = get_elements(ctx, zelf);
    Ok(PyObjectKind::Integer { value: elements.len() as i64 })
}

/// Computes what `__repr__` of a tuple yields.
pub fn tuple_repr_value(ctx: &PyContext, args: &PyFuncArgs) -> (made: Result<PyObjectKind, Exception>)
    requires
        ctx.wf(),
        args.valid_in(ctx),
    ensures
        outcome_view(made) == tuple_repr_outcome(ctx, args.args@),
        made matches Ok(kind) ==> ctx.kind_wf(kind, ctx.objects@.len() as int),
        made matches Err(e) ==> e.cause is None,
    decreases receiver_index(args.args@), 2nat, 0nat,
{
    match check_arity(args.args.len(), 1, 0) {
        Err(e) => {
            return Err(e);
        },
        Ok(_) => {},
    }
    let zelf = args.args[0];
    match check_instance(ctx, zelf, ctx.tuple_type()) {
        Err(e) => {
            return Err(e);
        },
        Ok(_) => {},
    }
    proof {
        lemma_instance_kind(ctx, zelf, TUPLE_TYPE as int);
    }
    let elements = get_elements(ctx, zelf);
    proof {
        lemma_index_bound_below(elements@, zelf.index as int);
    }
    let mut str_parts: Vec<String> = Vec::new();
    let mut i: usize = 0;
    assert(texts(str_parts@) =~= Seq::<Seq<char>>::empty());
    while i < elements.len()
        invariant
            ctx.wf(),
            args.args@.len() == 1,
            zelf == args.args@[0],
            ctx.valid(zelf),
            is_instance(ctx, zelf, tuple_type()),
            elements@ == elements_of(ctx, zelf),
            index_bound(elements@) <= zelf.index,
            refs_below(elements@, zelf.index as int),
            i <= elements@.len(),
            repr_parts(ctx, elements@.take(i as int)) == Ok::<Seq<Seq<char>>, ExceptionView>(texts(str_parts@)),
        decreases elements@.len() - i,
    {
        let elem = elements[i];
        proof {
            assert(elements@.take(i + 1).drop_last() =~= elements@.take(i as int));
        }
        match eval_repr(ctx, elem) {
            Ok(s) => {
                let ghost before = texts(str_parts@);
                str_parts.push(s);
                assert(texts(str_parts@) =~= before.push(s@));
            },
            Err(err) => {
                proof {
                    lemma_repr_parts_settled(ctx, elements@, i + 1);
                }
                return Err(err);
            },
        }
        i = i + 1;
    }
    assert(elements@.take(elements@.len() as int) =~= elements@);
    let mut s = String::from_str("(");
    if str_parts.len() == 1 {
        s.append(str_parts[0].as_str());
        s.append(",)");
    } else {
        s.append(join_texts(&str_parts, ", ").as_str());
        s.append(")");
    }
    Ok(PyObjectKind::String { value: s })
}

/// `__eq__` of tuples: a new boolean object that tells whether the second
/// argument is a tuple equal to the first.
pub fn tuple_eq(vm: &mut VirtualMachine, args: PyFuncArgs) -> (result: PyResult)
    requires
        old(vm).wf(),
        args.valid_in(&old(vm).ctx),
    ensures
        final(vm).wf(),
        delivers(&old(vm).ctx, &final(vm).ctx, result, tuple_eq_outcome(&old(vm).ctx, args.args@)),
{
    let made = tuple_eq_value(&vm.ctx, &args);
    vm.realize(made)
}

/// `__len__` of tuples: a new integer object that holds the number of
/// elements of the first argument.
pub fn tuple_len(vm: &mut VirtualMachine, args: PyFuncArgs) -> (result: PyResult)
    requires
        old(vm).wf(),
        args.valid_in(&old(vm).ctx),
    ensures
        final(vm).wf(),
        delivers(&old(vm).ctx, &final(vm).ctx, result, tuple_len_outcome(&old(vm).ctx, args.args@)),
{
    let made = tuple_len_value(&vm.ctx, &args);
    vm.realize(made)
}

/// `__repr__` of tuples: a new string object that holds the representation
/// of the first argument.
pub fn tuple_repr(vm: &mut VirtualMachine, args: PyFuncArgs) -> (result: PyResult)
    requires
        old(vm).wf(),
        args.valid_in(&old(vm).ctx),
    ensures
        final(vm).wf(),
        delivers(&old(vm).ctx, &final(vm).ctx, result, tuple_repr_outcome(&old(vm).ctx, args.args@)),
{
    let made = tuple_repr_value(&vm.ctx, &args);
    vm.realize(made)
}

/// Gives the tuple type its special methods: `__eq__`, `__len__` and
/// `__repr__`, each a new native function object. No other attribute table
/// changes.
pub fn init(context: &mut PyContext)
    requires
        old(context).wf(),
    ensures
        final(context).wf(),
        final(context).extends_objects(old(context)),
        final(context).objects@.len() == old(context).objects@.len() + 3,
        final(context).kind(old(context).upcoming(0)) == (PyObjectKind::NativeFunction {
            function: NativeFn::TupleEq,
        }),
        final(context).kind(old(context).upcoming(1)) == (
        PyObjectKind::NativeFunction { function: NativeFn::TupleLen }),
        final(context).kind(old(context).upcoming(2)) == (
        PyObjectKind::NativeFunction { function: NativeFn::TupleRepr }),
        final(context).attrs(tuple_type()) == old(context).attrs(tuple_type()).insert(
            "__eq__"@,
            old(context).upcoming(0),
        ).insert("__len__"@, old(context).upcoming(1)).insert(
            "__repr__"@,
            old(context).upcoming(2),
        ),
        forall|i: int|
            0 <= i < old(context).tables@.len() && i != TUPLE_TYPE ==> #[trigger] final(context).tables@[i] == old(
                context,
            ).tables@[i],        forall|i: int|
            old(context).tables@.len() <= i < final(context).tables@.len() ==> (
            #[trigger] final(context).tables@[i])@ == Map::<Seq<char>, ObjRef>::empty(),
{
    let tuple_type = context.tuple_type();
    register_native(context, tuple_type, "__eq__", NativeFn::TupleEq);
    register_native(context, tuple_type, "__len__", NativeFn::TupleLen);
    register_native(context, tuple_type, "__repr__", NativeFn::TupleRepr);
}

} // verus!
