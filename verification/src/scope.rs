//! The scope chain: where a name is looked up and where it is bound.

use vstd::prelude::*;
use crate::exceptions::{raised, Exception, ExceptionKind};
use crate::pyobject::{ObjRef, PyContext, ScopeRef};

verus! {

/// `scope` names a scope of the context.
pub open spec fn valid_scope(ctx: &PyContext, scope: ScopeRef) -> bool {
    scope.index < ctx.scopes@.len()
}

/// The names that the scope itself binds.
pub open spec fn names_of(ctx: &PyContext, scope: ScopeRef) -> Map<Seq<char>, ObjRef> {
    ctx.scopes@[scope.index as int].names@
}

/// The scope chain of `scope`: the scope itself, then the scope that
/// encloses it, and so on outward.
pub open spec fn chain(ctx: &PyContext, scope: ScopeRef) -> Seq<ScopeRef>
    decreases scope.index,
{
    match ctx.scopes@[scope.index as int].parent {
        Some(p) => if p.index < scope.index {
            seq![scope] + chain(ctx, p)
        } else {
            seq![scope]
        },
        None => seq![scope],
    }
}

/// What `name` is bound to as seen from `scope`: the binding in the scope
/// itself if it has one, else what the name is bound to as seen from the
/// scope that encloses it. Nothing but the chain is searched.
pub open spec fn lookup(ctx: &PyContext, scope: ScopeRef, name: Seq<char>) -> Option<ObjRef>
    decreases scope.index,
{
    if names_of(ctx, scope).contains_key(name) {
        Some(names_of(ctx, scope)[name])
    } else {
        match ctx.scopes@[scope.index as int].parent {
            Some(p) => if p.index < scope.index {
                lookup(ctx, p, name)
            } else {
                None
            },
            None => None,
        }
    }
}

/// The message of the lookup of a name that is bound nowhere.
pub open spec fn undefined_name_message(name: Seq<char>) -> Seq<char> {
    "name '"@ + name + "' is not defined"@
}

/// The first of the chain that binds the name decides: if the scope at
/// position `k` of the chain binds `name` and no scope before it does, the
/// name is bound, as seen from `scope`, to what that scope binds it to.
pub proof fn lemma_innermost_binding(ctx: &PyContext, scope: ScopeRef, name: Seq<char>, k: int)
    requires
        0 <= k < chain(ctx, scope).len(),
        names_of(ctx, chain(ctx, scope)[k]).contains_key(name),
        forall|j: int| 0 <= j < k ==> !names_of(ctx, #[trigger] chain(ctx, scope)[j]).contains_key(name),
    ensures
        lookup(ctx, scope, name) == Some(names_of(ctx, chain(ctx, scope)[k])[name]),
    decreases scope.index,
{
    let all = chain(ctx, scope);
    assert(all[0] == scope);
    if k > 0 {
        let p = ctx.scopes@[scope.index as int].parent->Some_0;
        assert forall|j: int| 0 <= j < k - 1 implies !names_of(ctx, #[trigger] chain(ctx, p)[j]).contains_key(
            name,
        ) by {
            assert(chain(ctx, p)[j] == all[j + 1]);
        }
        lemma_innermost_binding(ctx, p, name, k - 1);
    }
}

/// A name that no scope of the chain binds is bound to nothing: there is no
/// other place that is searched.
pub proof fn lemma_unbound(ctx: &PyContext, scope: ScopeRef, name: Seq<char>)
    requires
        forall|j: int|
            0 <= j < chain(ctx, scope).len() ==> !names_of(ctx, #[trigger] chain(ctx, scope)[j]).contains_key(name),
    ensures
        lookup(ctx, scope, name) is None,
    decreases scope.index,
{
    let all = chain(ctx, scope);
    assert(all[0] == scope);
    match ctx.scopes@[scope.index as int].parent {
        Some(p) => {
            if p.index < scope.index {
                assert forall|j: int| 0 <= j < chain(ctx, p).len() implies !names_of(
                    ctx,
                    #[trigger] chain(ctx, p)[j],
                ).contains_key(name) by {
                    assert(chain(ctx, p)[j] == all[j + 1]);
                }
                lemma_unbound(ctx, p, name);
            }
        },
        None => {},
    }
}

/// What `name` is bound to as seen from `scope`, if anything.
pub fn find_name(ctx: &PyContext, scope: ScopeRef, name: &str) -> (found: Option<ObjRef>)
    requires
        ctx.wf(),
        valid_scope(ctx, scope),
    ensures
        found == lookup(ctx, scope, name@),
        found matches Some(value) ==> ctx.valid(value),
{
    let mut current = scope;
    loop
        invariant
            ctx.wf(),
            valid_scope(ctx, current),
            lookup(ctx, scope, name@) == lookup(ctx, current, name@),
        decreases current.index,
    {
        assert(ctx.scope_wf(current.index as int));
        match ctx.scopes[current.index].names.get(name) {
            Some(value) => {
                proof {
                    ctx.scopes@[current.index as int].names.lemma_values_below(ctx.objects@.len() as int, name@);
                }
                return Some(value);
            },
            None => {},
        }
        match ctx.scopes[current.index].parent {
            Some(p) => {
                current = p;
            },
            None => {
                return None;
            },
        }
    }
}

/// The value that `name` is bound to as seen from `scope`.
///
/// Fails with an `AttributeError` that names the name exactly when no scope
/// of the chain binds it.
pub fn load_name(ctx: &PyContext, scope: ScopeRef, name: &str) -> (loaded: Result<ObjRef, Exception>)
    requires
        ctx.wf(),
        valid_scope(ctx, scope),
    ensures
        match loaded {
            Ok(value) => lookup(ctx, scope, name@) == Some(value) && ctx.valid(value),
            Err(e) => lookup(ctx, scope, name@) is None && e@ == raised(
                ExceptionKind::AttributeError,
                undefined_name_message(name@),
            ),
        },
{
    match find_name(ctx, scope, name) {
        Some(value) => Ok(value),
        None => {
            let mut message = String::from_str("name '");
            message.append(name);
            message.append("' is not defined");
            Err(Exception::new(ExceptionKind::AttributeError, message))
        },
    }
}

/// Binds `name` to `value` in `scope` itself.
///
/// The name is then bound to `value` as seen from `scope`. The scopes that
/// enclose it do not change, and neither does any object.
pub fn store_name(ctx: &mut PyContext, scope: ScopeRef, name: &str, value: ObjRef)
    requires
        old(ctx).wf(),
        valid_scope(old(ctx), scope),
        old(ctx).valid(value),
    ensures
        final(ctx).wf(),
        final(ctx).objects == old(ctx).objects,
        final(ctx).tables == old(ctx).tables,
        final(ctx).codes == old(ctx).codes,
        final(ctx).scopes@.len() == old(ctx).scopes@.len(),
        names_of(final(ctx), scope) == names_of(old(ctx), scope).insert(name@, value),
        forall|i: int|
            0 <= i < old(ctx).scopes@.len() ==> (#[trigger] final(ctx).scopes@[i]).parent == old(
                ctx,
            ).scopes@[i].parent,
        forall|i: int|
            0 <= i < old(ctx).scopes@.len() && i != scope.index ==> #[trigger] final(ctx).scopes@[i] == old(
                ctx,
            ).scopes@[i],
        lookup(final(ctx), scope, name@) == Some(value),
{
    ctx.bind_name(scope, name, value);
}

} // verus!
