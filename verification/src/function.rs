//! The calling convention of functions defined in code: how the arguments
//! of a call are bound to the parameters of the function.

use vstd::prelude::*;
use crate::attrs::{AttrTable, Attribute};
use crate::exceptions::{raised, Exception, ExceptionKind, ExceptionView};
use crate::obj::objint::{count_text, decimal};
use crate::pyobject::{refs_below, CodeRef, ObjRef, PyContext, PyFuncArgs, PyObjectKind, ScopeRef};
use crate::vm::not_callable_message;

verus! {

/// Some parameter has the given name.
pub open spec fn has_param(params: Seq<String>, name: Seq<char>) -> bool {
    exists|i: int| 0 <= i < params.len() && (#[trigger] params[i])@ == name
}

/// The bindings of the first `n` parameters to the first `n` positional
/// arguments.
pub open spec fn bound_positionally(params: Seq<String>, positional: Seq<ObjRef>, n: int) -> Map<Seq<char>, ObjRef>
    decreases n,
{
    if n <= 0 {
        Map::empty()
    } else {
        bound_positionally(params, positional, n - 1).insert(params[n - 1]@, positional[n - 1])
    }
}

/// The message of a call with more positional arguments than parameters.
pub open spec fn too_many_message(callable: Seq<char>, takes: int, given: int) -> Seq<char> {
    callable + "() takes "@ + decimal(takes) + " positional arguments but "@ + decimal(given) + " were given"@
}

/// The message of a call with a keyword that names no parameter.
pub open spec fn unexpected_keyword_message(callable: Seq<char>, name: Seq<char>) -> Seq<char> {
    callable + "() got an unexpected keyword argument '"@ + name + "'"@
}

/// The message of a call that gives a parameter two values.
pub open spec fn multiple_values_message(callable: Seq<char>, name: Seq<char>) -> Seq<char> {
    callable + "() got multiple values for argument '"@ + name + "'"@
}

/// The message of a call that leaves a parameter without a value.
pub open spec fn missing_argument_message(callable: Seq<char>, name: Seq<char>) -> Seq<char> {
    callable + "() missing required argument: '"@ + name + "'"@
}

/// The bindings after the first `n` keyword arguments are bound, each to
/// the parameter it names: a keyword that names no parameter fails, and so
/// does one that names a parameter which is bound already.
pub open spec fn bound_by_keyword(
    callable: Seq<char>,
    params: Seq<String>,
    start: Map<Seq<char>, ObjRef>,
    keywords: Seq<Attribute>,
    n: int,
) -> Result<Map<Seq<char>, ObjRef>, ExceptionView>
    decreases n,
{
    if n <= 0 {
        Ok(start)
    } else {
        match bound_by_keyword(callable, params, start, keywords, n - 1) {
            Err(e) => Err(e),
            Ok(bound) => {
                let keyword = keywords[n - 1];
                if !has_param(params, keyword.name@) {
                    Err(raised(ExceptionKind::TypeError, unexpected_keyword_message(callable, keyword.name@)))
                } else if bound.contains_key(keyword.name@) {
                    Err(raised(ExceptionKind::TypeError, multiple_values_message(callable, keyword.name@)))
                } else {
                    Ok(bound.insert(keyword.name@, keyword.value))
                }
            },
        }
    }
}

/// The parameter at `i` is the first that `bound` leaves without a value.
pub open spec fn first_missing(params: Seq<String>, bound: Map<Seq<char>, ObjRef>, i: int) -> bool {
    &&& 0 <= i < params.len()
    &&& !bound.contains_key(params[i]@)
    &&& forall|j: int| 0 <= j < i ==> bound.contains_key((#[trigger] params[j])@)
}

/// The bindings that a call makes, or why it cannot be made.
///
/// The positional arguments are bound to the parameters in order, and there
/// may not be more of them than parameters. Each keyword argument is then
/// bound to the parameter it names. Every parameter must have a value in
/// the end: all of them are required.
pub open spec fn bind_outcome(
    callable: Seq<char>,
    params: Seq<String>,
    positional: Seq<ObjRef>,
    keywords: Seq<Attribute>,
) -> Result<Map<Seq<char>, ObjRef>, ExceptionView> {
    if positional.len() > params.len() {
        Err(
            raised(
                ExceptionKind::TypeError,
                too_many_message(callable, params.len() as int, positional.len() as int),
            ),
        )
    } else {
        match bound_by_keyword(
            callable,
            params,
            bound_positionally(params, positional, positional.len() as int),
            keywords,
            keywords.len() as int,
        ) {
            Err(e) => Err(e),
            Ok(bound) => if exists|i: int| first_missing(params, bound, i) {
                Err(
                    raised(
                        ExceptionKind::TypeError,
                        missing_argument_message(
                            callable,
                            params[choose|i: int| first_missing(params, bound, i)]@,
                        ),
                    ),
                )
            } else {
                Ok(bound)
            },
        }
    }
}

/// The positional bindings bind exactly the first `n` parameters, each to
/// the argument at its position, when no two parameters share a name.
pub proof fn lemma_bound_positionally(params: Seq<String>, positional: Seq<ObjRef>, n: int)
    requires
        crate::bytecode::distinct_names(params),
        0 <= n <= params.len(),
        n <= positional.len(),
    ensures
        forall|i: int|
            0 <= i < n ==> bound_positionally(params, positional, n).contains_key((#[trigger] params[i])@)
                && bound_positionally(params, positional, n)[params[i]@] == positional[i],
        forall|name: Seq<char>| #[trigger]
            bound_positionally(params, positional, n).contains_key(name) ==> exists|i: int|
                0 <= i < n && (#[trigger] params[i])@ == name,
    decreases n,
{
    if n > 0 {
        lemma_bound_positionally(params, positional, n - 1);
        let before = bound_positionally(params, positional, n - 1);
        let now = bound_positionally(params, positional, n);
        assert forall|i: int| 0 <= i < n implies now.contains_key((#[trigger] params[i])@) && now[params[i]@]
            == positional[i] by {
            if i < n - 1 {
                assert(params[i]@ != params[n - 1]@);
            }
        }
        assert forall|name: Seq<char>| #[trigger] now.contains_key(name) implies exists|i: int|
            0 <= i < n && (#[trigger] params[i])@ == name by {
            if name == params[n - 1]@ {
                assert(params[n - 1]@ == name);
            } else {
                assert(before.contains_key(name));
                let i = choose|i: int| 0 <= i < n - 1 && (#[trigger] params[i])@ == name;
                assert(params[i]@ == name);
            }
        }
    }
}

/// A call that can be made gives every parameter a value and binds nothing
/// but parameters.
pub proof fn lemma_bind_complete(
    callable: Seq<char>,
    params: Seq<String>,
    positional: Seq<ObjRef>,
    keywords: Seq<Attribute>,
)
    requires
        crate::bytecode::distinct_names(params),
        bind_outcome(callable, params, positional, keywords) is Ok,
    ensures
        forall|i: int|
            0 <= i < params.len() ==> bind_outcome(callable, params, positional, keywords)->Ok_0.contains_key(
                (#[trigger] params[i])@,
            ),
        forall|i: int|
            0 <= i < positional.len() ==> bind_outcome(callable, params, positional, keywords)->Ok_0[(
            #[trigger] params[i])@] == positional[i],
        forall|name: Seq<char>| #[trigger]
            bind_outcome(callable, params, positional, keywords)->Ok_0.contains_key(name) ==> has_param(params, name),
{
    let start = bound_positionally(params, positional, positional.len() as int);
    let bound = bind_outcome(callable, params, positional, keywords)->Ok_0;
    lemma_bound_positionally(params, positional, positional.len() as int);
    lemma_keywords_keep(callable, params, start, keywords, keywords.len() as int);
    assert forall|i: int| 0 <= i < params.len() implies bound.contains_key((#[trigger] params[i])@) by {
        if !bound.contains_key(params[i]@) {
            lemma_some_first_missing(params, bound, i);
        }
    }
    assert forall|name: Seq<char>| #[trigger] bound.contains_key(name) implies has_param(params, name) by {
    }
}

/// Binding keywords keeps what was bound before and binds nothing but
/// parameters.
pub proof fn lemma_keywords_keep(
    callable: Seq<char>,
    params: Seq<String>,
    start: Map<Seq<char>, ObjRef>,
    keywords: Seq<Attribute>,
    n: int,
)
    requires
        bound_by_keyword(callable, params, start, keywords, n) is Ok,
    ensures
        forall|name: Seq<char>| #[trigger]
            start.contains_key(name) ==> bound_by_keyword(callable, params, start, keywords, n)->Ok_0.contains_key(
                name,
            ) && bound_by_keyword(callable, params, start, keywords, n)->Ok_0[name] == start[name],
        forall|name: Seq<char>| #[trigger]
            bound_by_keyword(callable, params, start, keywords, n)->Ok_0.contains_key(name) ==> start.contains_key(
                name,
            ) || has_param(params, name),
    decreases n,
{
    if n > 0 {
        lemma_keywords_keep(callable, params, start, keywords, n - 1);
    }
}

/// If some parameter is left without a value, one of them is the first.
pub proof fn lemma_some_first_missing(params: Seq<String>, bound: Map<Seq<char>, ObjRef>, i: int)
    requires
        0 <= i < params.len(),
        !bound.contains_key(params[i]@),
    ensures
        exists|k: int| first_missing(params, bound, k),
    decreases i,
{
    if forall|j: int| 0 <= j < i ==> bound.contains_key((#[trigger] params[j])@) {
        assert(first_missing(params, bound, i));
    } else {
        let j = choose|j: int| 0 <= j < i && !bound.contains_key((#[trigger] params[j])@);
        lemma_some_first_missing(params, bound, j);
    }
}

/// Whether some parameter has the given name.
fn is_param(params: &Vec<String>, name: &String) -> (found: bool)
    ensures
        found == has_param(params@, name@),
{
    let mut i: usize = 0;
    while i < params.len()
        invariant
            i <= params@.len(),
            forall|j: int| 0 <= j < i ==> (#[trigger] params@[j])@ != name@,
        decreases params@.len() - i,
    {
        if params[i] == *name {
            return true;
        }
        i = i + 1;
    }
    false
}

/// Binds the arguments of a call of `callable` to its parameters.
pub fn bind_arguments(callable: &str, params: &Vec<String>, args: &PyFuncArgs) -> (bound: Result<AttrTable, Exception>)
    ensures
        match bound {
            Ok(table) => {
                &&& table.wf()
                &&& bind_outcome(callable@, params@, args.args@, args.kwargs@) == Ok::<
                    Map<Seq<char>, ObjRef>,
                    ExceptionView,
                >(table@)
                &&& forall|limit: int|
                    refs_below(args.args@, limit) && keyword_values_below(args.kwargs@, limit)
                        ==> #[trigger] table.values_below(limit)
            },
            Err(e) => bind_outcome(callable@, params@, args.args@, args.kwargs@) == Err::<
                Map<Seq<char>, ObjRef>,
                ExceptionView,
            >(e@),
        },
{
    if args.args.len() > params.len() {
        let mut message = String::from_str(callable);
        message.append("() takes ");
        message.append(count_text(params.len()).as_str());
        message.append(" positional arguments but ");
        message.append(count_text(args.args.len()).as_str());
        message.append(" were given");
        return Err(Exception::new(ExceptionKind::TypeError, message));
    }
    let mut table = AttrTable::new();
    let mut i: usize = 0;
    while i < args.args.len()
        invariant
            i <= args.args@.len() <= params@.len(),
            table.wf(),
            table@ == bound_positionally(params@, args.args@, i as int),
            forall|limit: int| refs_below(args.args@, limit) ==> #[trigger] table.values_below(limit),
        decreases args.args@.len() - i,
    {
        table.insert(params[i].clone(), args.args[i]);
        proof {
            assert forall|limit: int| refs_below(args.args@, limit) implies #[trigger] table.values_below(limit) by {
            }
        }
        i = i + 1;
    }
    let ghost start = table@;
    let mut k: usize = 0;
    while k < args.kwargs.len()
        invariant
            k <= args.kwargs@.len(),
            table.wf(),
            args.args@.len() <= params@.len(),
            start == bound_positionally(params@, args.args@, args.args@.len() as int),
            bound_by_keyword(callable@, params@, start, args.kwargs@, k as int) == Ok::<
                Map<Seq<char>, ObjRef>,
                ExceptionView,
            >(table@),
            forall|limit: int|
                refs_below(args.args@, limit) && keyword_values_below(args.kwargs@, limit)
                    ==> #[trigger] table.values_below(limit),
        decreases args.kwargs@.len() - k,
    {
        let keyword = &args.kwargs[k];
        if !is_param(params, &keyword.name) {
            let mut message = String::from_str(callable);
            message.append("() got an unexpected keyword argument '");
            message.append(keyword.name.as_str());
            message.append("'");
            proof {
                lemma_keyword_failure(callable@, params@, start, args.kwargs@, k + 1);
            }
            return Err(Exception::new(ExceptionKind::TypeError, message));
        }
        match table.get(keyword.name.as_str()) {
            Some(_) => {
                let mut message = String::from_str(callable);
                message.append("() got multiple values for argument '");
                message.append(keyword.name.as_str());
                message.append("'");
                proof {
                    lemma_keyword_failure(callable@, params@, start, args.kwargs@, k + 1);
                }
                return Err(Exception::new(ExceptionKind::TypeError, message));
            },
            None => {},
        }
        table.insert(keyword.name.clone(), keyword.value);
        proof {
            assert forall|limit: int|
                refs_below(args.args@, limit) && keyword_values_below(args.kwargs@, limit) implies #[trigger] table.values_below(
                limit,
            ) by {
            }
        }
        k = k + 1;
    }
    let mut p: usize = 0;
    while p < params.len()
        invariant
            p <= params@.len(),
            table.wf(),
            args.args@.len() <= params@.len(),
            start == bound_positionally(params@, args.args@, args.args@.len() as int),
            bound_by_keyword(callable@, params@, start, args.kwargs@, args.kwargs@.len() as int) == Ok::<
                Map<Seq<char>, ObjRef>,
                ExceptionView,
            >(table@),
            forall|j: int| 0 <= j < p ==> table@.contains_key((#[trigger] params@[j])@),
        decreases params@.len() - p,
    {
        match table.get(params[p].as_str()) {
            Some(_) => {},
            None => {
                let mut message = String::from_str(callable);
                message.append("() missing required argument: '");
                message.append(params[p].as_str());
                message.append("'");
                proof {
                    assert(first_missing(params@, table@, p as int));
                }
                return Err(Exception::new(ExceptionKind::TypeError, message));
            },
        }
        p = p + 1;
    }
    Ok(table)
}

/// The value of every keyword argument is a handle below `limit`.
pub open spec fn keyword_values_below(keywords: Seq<Attribute>, limit: int) -> bool {
    forall|i: int| 0 <= i < keywords.len() ==> (#[trigger] keywords[i]).value.index < limit
}

/// Once the binding of a keyword has failed, the keywords after it are not
/// looked at.
pub proof fn lemma_keyword_failure(
    callable: Seq<char>,
    params: Seq<String>,
    start: Map<Seq<char>, ObjRef>,
    keywords: Seq<Attribute>,
    n: int,
)
    requires
        0 <= n <= keywords.len(),
        bound_by_keyword(callable, params, start, keywords, n) is Err,
    ensures
        bound_by_keyword(callable, params, start, keywords, keywords.len() as int) == bound_by_keyword(
            callable,
            params,
            start,
            keywords,
            n,
        ),
    decreases keywords.len() - n,
{
    if n < keywords.len() {
        lemma_keyword_failure(callable, params, start, keywords, n + 1);
    }
}

/// Enters a function defined in code: binds the arguments of the call to
/// its parameters in a new scope, enclosed by the scope that the function
/// was defined in, and tells which code is to run in that scope.
///
/// Fails with a `TypeError` when `function` is no such function, when there
/// are more positional arguments than parameters, when a keyword names no
/// parameter or one that has a value already, and when a parameter is left
/// without a value. Nothing changes then.
pub fn enter_function(ctx: &mut PyContext, function: ObjRef, args: &PyFuncArgs) -> (entered: Result<
    (CodeRef, ScopeRef),
    Exception,
>)
    requires
        old(ctx).wf(),
        old(ctx).valid(function),
        args.valid_in(old(ctx)),
        keyword_values_below(args.kwargs@, old(ctx).objects@.len() as int),
    ensures
        final(ctx).wf(),
        final(ctx).objects == old(ctx).objects,
        final(ctx).tables == old(ctx).tables,
        final(ctx).codes == old(ctx).codes,
        match entered {
            Ok((code, scope)) => {
                &&& old(ctx).kind(function) matches PyObjectKind::Function { code: runs, scope: defined }
                &&& code == runs
                &&& code.index < old(ctx).codes@.len()
                &&& scope.index == old(ctx).scopes@.len()
                &&& final(ctx).scopes@.len() == old(ctx).scopes@.len() + 1
                &&& final(ctx).scopes@.subrange(0, old(ctx).scopes@.len() as int) == old(ctx).scopes@
                &&& final(ctx).scopes@[scope.index as int].parent == Some(defined)
                &&& bind_outcome(
                    old(ctx).codes@[code.index as int].name@,
                    old(ctx).codes@[code.index as int].params@,
                    args.args@,
                    args.kwargs@,
                ) == Ok::<Map<Seq<char>, ObjRef>, ExceptionView>(final(ctx).scopes@[scope.index as int].names@)
            },
            Err(e) => {
                &&& *final(ctx) == *old(ctx)
                &&& match old(ctx).kind(function) {
                    PyObjectKind::Function { code, scope } => bind_outcome(
                        old(ctx).codes@[code.index as int].name@,
                        old(ctx).codes@[code.index as int].params@,
                        args.args@,
                        args.kwargs@,
                    ) == Err::<Map<Seq<char>, ObjRef>, ExceptionView>(e@),
                    _ => e@ == raised(ExceptionKind::TypeError, not_callable_message()),
                }
            },
        },
{
    assert(ctx.object_wf(function.index as int));
    let (code, defined) = match ctx.kind_of(function) {
        PyObjectKind::Function { code, scope } => (*code, *scope),
        _ => {
            return Err(Exception::with_message(ExceptionKind::TypeError, "object is not callable"));
        },
    };
    let bound = bind_arguments(ctx.codes[code.index].name.as_str(), &ctx.codes[code.index].params, args);
    match bound {
        Err(e) => Err(e),
        Ok(table) => {
            let scope = ctx.new_scope_with(Some(defined), table);
            Ok((code, scope))
        },
    }
}

} // verus!
