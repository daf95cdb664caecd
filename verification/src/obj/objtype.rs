//! Types: membership in a method resolution order, the linearization of
//! bases, and the construction of new types.

use vstd::prelude::*;
use crate::exceptions::{raised, Exception, ExceptionKind};
use crate::pyobject::{root, ObjRef, PyContext, PyObjectKind, KindView, OBJECT_TYPE};
use crate::attrs::AttrTable;

verus! {

/// `typ` appears in the method resolution order of the type of `obj`.
pub open spec fn is_instance(ctx: &PyContext, obj: ObjRef, typ: ObjRef) -> bool {
    ctx.mro_of(ctx.type_ref(obj)).contains(typ)
}

/// The method resolution orders of `bases`, one after the other.
pub open spec fn base_orders(ctx: &PyContext, bases: Seq<ObjRef>) -> Seq<ObjRef>
    decreases bases.len(),
{
    if bases.len() == 0 {
        Seq::empty()
    } else {
        base_orders(ctx, bases.drop_last()) + ctx.mro_of(bases.last())
    }
}

/// The types of `flat` other than the root, each at its first occurrence.
pub open spec fn first_occurrences(flat: Seq<ObjRef>) -> Seq<ObjRef>
    decreases flat.len(),
{
    if flat.len() == 0 {
        Seq::empty()
    } else {
        let init = first_occurrences(flat.drop_last());
        if flat.last() == root() || init.contains(flat.last()) {
            init
        } else {
            init.push(flat.last())
        }
    }
}

/// The linearization of `bases`: the members of their resolution orders from
/// left to right, each listed once, and the root last.
pub open spec fn linearize(ctx: &PyContext, bases: Seq<ObjRef>) -> Seq<ObjRef> {
    first_occurrences(base_orders(ctx, bases)).push(root())
}

/// Every handle of `bases` names a type.
pub open spec fn all_types(ctx: &PyContext, bases: Seq<ObjRef>) -> bool {
    forall|j: int| 0 <= j < bases.len() ==> ctx.is_type(#[trigger] bases[j])
}

/// The message of the failure to build a type on a base that is no type.
pub open spec fn bad_base_message() -> Seq<char> {
    "Bases must be types"@
}

/// The first occurrences of a sequence hold no type twice, do not hold the
/// root, and hold every other member of the sequence and nothing else.
pub proof fn lemma_first_occurrences(flat: Seq<ObjRef>)
    ensures
        first_occurrences(flat).no_duplicates(),
        !first_occurrences(flat).contains(root()),
        forall|x: ObjRef| #[trigger] first_occurrences(flat).contains(x) <==> (flat.contains(x) && x != root()),
    decreases flat.len(),
{
    if flat.len() == 0 {
        assert forall|x: ObjRef| #[trigger] first_occurrences(flat).contains(x) <==> (flat.contains(x) && x != root()) by {
        }
    } else {
        let init_flat = flat.drop_last();
        let last = flat.last();
        lemma_first_occurrences(init_flat);
        let init = first_occurrences(init_flat);
        let out = first_occurrences(flat);
        assert forall|x: ObjRef| #[trigger] out.contains(x) <==> (flat.contains(x) && x != root()) by {
            if out.contains(x) {
                let k = choose|k: int| 0 <= k < out.len() && out[k] == x;
                if k < init.len() {
                    assert(init.contains(x));
                }
            }
            if flat.contains(x) && x != root() {
                let m = choose|m: int| 0 <= m < flat.len() && flat[m] == x;
                if m < init_flat.len() {
                    assert(init_flat[m] == x);
                    assert(init.contains(x));
                    let k = choose|k: int| 0 <= k < init.len() && init[k] == x;
                    assert(out[k] == x);
                } else if !init.contains(last) {
                    assert(out[out.len() - 1] == x);
                }
            }
        }
        if !(last == root() || init.contains(last)) {
            assert forall|i: int, j: int| 0 <= i < out.len() && 0 <= j < out.len() && i != j implies out[i] != out[j] by {
            }
        }
    }
}

/// Each member of a base's resolution order is a member of the joined
/// orders.
pub proof fn lemma_base_orders_hold(ctx: &PyContext, bases: Seq<ObjRef>, j: int, x: ObjRef)
    requires
        0 <= j < bases.len(),
        ctx.mro_of(bases[j]).contains(x),
    ensures
        base_orders(ctx, bases).contains(x),
    decreases bases.len(),
{
    let flat = base_orders(ctx, bases);
    let init = base_orders(ctx, bases.drop_last());
    let tail = ctx.mro_of(bases.last());
    if j == bases.len() - 1 {
        let k = choose|k: int| 0 <= k < tail.len() && tail[k] == x;
        assert(flat[init.len() + k] == x);
    } else {
        lemma_base_orders_hold(ctx, bases.drop_last(), j, x);
        let k = choose|k: int| 0 <= k < init.len() && init[k] == x;
        assert(flat[k] == x);
    }
}

/// Each member of the joined orders of bases that are types is a type
/// stored below `limit`, given that the bases are.
pub proof fn lemma_base_orders_types(ctx: &PyContext, bases: Seq<ObjRef>, limit: int)
    requires
        ctx.wf(),
        limit <= ctx.objects@.len(),
        ctx.types_below(bases, limit),
    ensures
        ctx.types_below(base_orders(ctx, bases), limit),
    decreases bases.len(),
{
    if bases.len() > 0 {
        let b = bases.last();
        assert(ctx.types_below(bases.drop_last(), limit)) by {
            assert forall|j: int| 0 <= j < bases.drop_last().len() implies (#[trigger] bases.drop_last()[j]).index
                < limit && ctx.objects@[bases.drop_last()[j].index as int].kind is Type by {
            }
        }
        lemma_base_orders_types(ctx, bases.drop_last(), limit);
        assert(ctx.object_wf(b.index as int));
        let flat = base_orders(ctx, bases);
        assert forall|j: int| 0 <= j < flat.len() implies (#[trigger] flat[j]).index < limit
            && ctx.objects@[flat[j].index as int].kind is Type by {
        }
    }
}

/// The linearization of bases that are types stored below `limit` makes a
/// well-formed resolution order for a type stored at `limit`.
pub proof fn lemma_linearize_wf(ctx: &PyContext, name: String, bases: Vec<ObjRef>, mro: Vec<ObjRef>, limit: int)
    requires
        ctx.wf(),
        limit == ctx.objects@.len(),
        ctx.types_below(bases@, limit),
        mro@ == linearize(ctx, bases@),
    ensures
        ctx.kind_wf(PyObjectKind::Type { name, bases, mro }, limit),
{
    let flat = base_orders(ctx, bases@);
    let firsts = first_occurrences(flat);
    lemma_first_occurrences(flat);
    lemma_base_orders_types(ctx, bases@, limit);
    assert forall|j: int| 0 <= j < mro@.len() implies (#[trigger] mro@[j]).index < limit
        && ctx.objects@[mro@[j].index as int].kind is Type by {
        if j < firsts.len() {
            assert(firsts.contains(mro@[j]));
        }
    }
    assert forall|i: int, j: int| 0 <= i < mro@.len() && 0 <= j < mro@.len() && i != j implies mro@[i] != mro@[j] by {
    }
    assert forall|j: int| 0 <= j < bases@.len() implies PyContext::covers(
        ObjRef { index: limit as usize },
        mro@,
        ctx.mro_of(#[trigger] bases@[j]),
    ) by {
        let part = ctx.mro_of(bases@[j]);
        assert forall|k: int| 0 <= k < part.len() implies (#[trigger] part[k]) == (ObjRef { index: limit as usize })
            || mro@.contains(part[k]) by {
            let x = part[k];
            lemma_base_orders_hold(ctx, bases@, j, x);
            if x == root() {
                assert(mro@[mro@.len() - 1] == x);
            } else {
                assert(firsts.contains(x));
                let m = choose|m: int| 0 <= m < firsts.len() && firsts[m] == x;
                assert(mro@[m] == x);
            }
        }
    }
}

/// Whether `typ` appears in the method resolution order of the type of
/// `obj`.
pub fn isinstance(ctx: &PyContext, obj: ObjRef, typ: ObjRef) -> (b: bool)
    requires
        ctx.wf(),
        ctx.valid(obj),
    ensures
        b == is_instance(ctx, obj, typ),
{
    let cls = ctx.type_of(obj);
    let ghost order = ctx.mro_of(cls);
    if cls == typ {
        assert(order[0] == typ);
        return true;
    }
    match ctx.kind_of(cls) {
        PyObjectKind::Type { mro, .. } => {
            let mut i: usize = 0;
            while i < mro.len()
                invariant
                    i <= mro@.len(),
                    order == seq![cls] + mro@,
                    order == ctx.mro_of(ctx.type_ref(obj)),
                    cls != typ,
                    forall|j: int| 0 <= j < i ==> mro@[j] != typ,
                decreases mro@.len() - i,
            {
                if mro[i] == typ {
                    assert(order[i as int + 1] == typ);
                    return true;
                }
                i = i + 1;
            }
            assert forall|k: int| 0 <= k < order.len() implies order[k] != typ by {
            }
            false
        },
        _ => false,
    }
}

/// Whether every handle of `bases` names a type.
pub fn check_bases(ctx: &PyContext, bases: &Vec<ObjRef>) -> (ok: bool)
    requires
        ctx.wf(),
    ensures
        ok == all_types(ctx, bases@),
{
    let mut i: usize = 0;
    while i < bases.len()
        invariant
            i <= bases@.len(),
            forall|j: int| 0 <= j < i ==> ctx.is_type(#[trigger] bases@[j]),
        decreases bases@.len() - i,
    {
        let b = bases[i];
        if !ctx.contains(b) {
            return false;
        }
        match ctx.kind_of(b) {
            PyObjectKind::Type { .. } => {},
            _ => {
                return false;
            },
        }
        i = i + 1;
    }
    true
}

/// Appends `typ` to `order` unless it is the root or already listed.
fn note_type(order: &mut Vec<ObjRef>, typ: ObjRef, Ghost(flat): Ghost<Seq<ObjRef>>)
    requires
        old(order)@ == first_occurrences(flat),
    ensures
        final(order)@ == first_occurrences(flat.push(typ)),
{
    assert(flat.push(typ).drop_last() =~= flat);
    if typ.index == OBJECT_TYPE {
        return ;
    }
    let mut i: usize = 0;
    while i < order.len()
        invariant
            i <= order@.len(),
            order@ == first_occurrences(flat),
            forall|j: int| 0 <= j < i ==> order@[j] != typ,
        decreases order@.len() - i,
    {
        if order[i] == typ {
            assert(flat.push(typ).drop_last() =~= flat);
            return ;
        }
        i = i + 1;
    }
    order.push(typ);
}

/// The linearization of `bases`.
pub fn linearise_mro(ctx: &PyContext, bases: &Vec<ObjRef>) -> (order: Vec<ObjRef>)
    requires
        ctx.wf(),
        all_types(ctx, bases@),
    ensures
        order@ == linearize(ctx, bases@),
{
    let mut order: Vec<ObjRef> = Vec::new();
    let mut i: usize = 0;
    while i < bases.len()
        invariant
            ctx.wf(),
            all_types(ctx, bases@),
            i <= bases@.len(),
            order@ == first_occurrences(base_orders(ctx, bases@.take(i as int))),
        decreases bases@.len() - i,
    {
        let base = bases[i];
        let ghost before = base_orders(ctx, bases@.take(i as int));
        note_type(&mut order, base, Ghost(before));
        assert(before.push(base) =~= before + ctx.mro_of(base).take(1));
        match ctx.kind_of(base) {
            PyObjectKind::Type { mro, .. } => {
                let mut j: usize = 0;
                while j < mro.len()
                    invariant
                        j <= mro@.len(),
                        mro@ == ctx.kind(base)->Type_mro@,
                        order@ == first_occurrences(before + ctx.mro_of(base).take(j + 1)),
                    decreases mro@.len() - j,
                {
                    let ghost flat = before + ctx.mro_of(base).take(j + 1);
                    note_type(&mut order, mro[j], Ghost(flat));
                    assert(flat.push(mro@[j as int]) =~= before + ctx.mro_of(base).take(j + 2));
                    j = j + 1;
                }
                assert(ctx.mro_of(base).take(mro@.len() as int + 1) =~= ctx.mro_of(base));
            },
            _ => {},
        }
        proof {
            assert(bases@.take(i + 1).drop_last() =~= bases@.take(i as int));
        }
        i = i + 1;
    }
    assert(bases@.take(bases@.len() as int) =~= bases@);
    order.push(ObjRef { index: OBJECT_TYPE });
    order
}

/// What a new type named `name` with the given bases is: the bases must all
/// be types, and the resolution order is their linearization.
pub fn make_type(ctx: &PyContext, name: &str, bases: Vec<ObjRef>) -> (made: Result<PyObjectKind, Exception>)
    requires
        ctx.wf(),
    ensures
        match made {
            Ok(kind) => {
                &&& all_types(ctx, bases@)
                &&& kind@ == (KindView::Type { name: name@, bases: bases@, mro: linearize(ctx, bases@) })
                &&& ctx.kind_wf(kind, ctx.objects@.len() as int)
            },
            Err(e) => !all_types(ctx, bases@) && e@ == raised(ExceptionKind::TypeError, bad_base_message()),
        },
{
    if !check_bases(ctx, &bases) {
        return Err(Exception::with_message(ExceptionKind::TypeError, "Bases must be types"));
    }
    let mro = linearise_mro(ctx, &bases);
    let name = String::from_str(name);
    proof {
        lemma_linearize_wf(ctx, name, bases, mro, ctx.objects@.len() as int);
    }
    Ok(PyObjectKind::Type { name, bases, mro })
}

/// Creates the type named `name` with the given bases and attribute table.
///
/// Fails with a `TypeError` exactly when some base is not a type; the
/// context is then unchanged.
pub fn new(ctx: &mut PyContext, name: &str, bases: Vec<ObjRef>, dict: AttrTable) -> (made: Result<ObjRef, Exception>)
    requires
        old(ctx).wf(),
        dict.wf(),
        dict.values_below(old(ctx).objects@.len() as int),
    ensures
        final(ctx).wf(),
        match made {
            Ok(r) => {
                &&& all_types(old(ctx), bases@)
                &&& r.index == old(ctx).objects@.len()
                &&& final(ctx).extends(old(ctx))
                &&& final(ctx).objects@.len() == old(ctx).objects@.len() + 1
                &&& final(ctx).kind(r)@ == (KindView::Type {
                    name: name@,
                    bases: bases@,
                    mro: linearize(old(ctx), bases@),
                })
                &&& final(ctx).attrs(r) == dict@
            },
            Err(e) => {
                &&& !all_types(old(ctx), bases@)
                &&& e@ == raised(ExceptionKind::TypeError, bad_base_message())
                &&& *final(ctx) == *old(ctx)
            },
        },
{
    let ghost before = *ctx;
    match make_type(ctx, name, bases) {
        Ok(kind) => {
            let r = ctx.store(kind);
            proof {
                assert forall|i: int| 0 <= i < dict.entries@.len() implies (#[trigger] dict.entries@[i]).value.index
                    < ctx.objects@.len() by {}
            }
            ctx.adopt_attrs(r, dict);
            proof {
                assert forall|i: int| 0 <= i < before.objects@.len() implies #[trigger] ctx.tables@[i]
                    == before.tables@[i] by {
                }
            }
            Ok(r)
        },
        Err(e) => Err(e),
    }
}

} // verus!
