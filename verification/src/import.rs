//! The modules that the runtime itself provides.

use vstd::prelude::*;
use crate::exceptions::{raised, Exception, ExceptionKind};
use crate::pyobject::{KindView, NativeFn, ObjRef, PyContext, PyObjectKind, FUNCTION_TYPE};
use crate::stdlib::types::mk_module;

verus! {

/// The message of the import of a module that does not exist.
pub open spec fn no_module_message(name: Seq<char>) -> Seq<char> {
    "No module named '"@ + name + "'"@
}

/// The runtime itself provides a module of this name.
pub open spec fn provided(name: Seq<char>) -> bool {
    name == "types"@
}

/// Imports a module that the runtime itself provides.
///
/// The module `types` is made anew: a new module object with its
/// attributes. Any other name fails with an `ImportError` that names it,
/// and nothing changes.
pub fn import_module(ctx: &mut PyContext, name: &str) -> (imported: Result<ObjRef, Exception>)
    requires
        old(ctx).wf(),
    ensures
        final(ctx).wf(),
        match imported {
            Ok(module) => {
                &&& provided(name@)
                &&& final(ctx).extends(old(ctx))
                &&& final(ctx).objects@.len() == old(ctx).objects@.len() + 2
                &&& module.index == old(ctx).objects@.len()
                &&& final(ctx).kind(module)@ == (KindView::Module { name: name@ })
                &&& final(ctx).kind(old(ctx).upcoming(1)) == (PyObjectKind::NativeFunction {
                    function: NativeFn::TypesNewClass,
                })
                &&& final(ctx).attrs(module) == Map::<Seq<char>, ObjRef>::empty().insert(
                    "new_class"@,
                    old(ctx).upcoming(1),
                ).insert("FunctionType"@, ObjRef { index: FUNCTION_TYPE })
            },
            Err(e) => {
                &&& !provided(name@)
                &&& e@ == raised(ExceptionKind::ImportError, no_module_message(name@))
                &&& *final(ctx) == *old(ctx)
            },
        },
{
    let wanted = String::from_str(name);
    let types = String::from_str("types");
    if wanted == types {
        Ok(mk_module(ctx))
    } else {
        let mut message = String::from_str("No module named '");
        message.append(name);
        message.append("'");
        Err(Exception::new(ExceptionKind::ImportError, message))
    }
}

} // verus!
