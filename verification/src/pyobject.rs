//! The object model: handles, object kinds, and the context that owns every
//! object of one runtime.
//!
//! Objects live in an append-only store and are named by integer handles.
//! An object never changes once it is stored; what can change is the
//! attribute table that the context keeps beside each object.

use vstd::prelude::*;
use crate::attrs::{AttrTable, Attribute};
use crate::bytecode::{check_code, code_wf, lemma_code_wf_grows, CodeObject};
use crate::exceptions::{raised, Exception, ExceptionKind, ExceptionView};

verus! {

/// A handle to an object in the store.
#[derive(Clone, Copy, PartialEq, Eq, Structural, Debug)]
pub struct ObjRef {
    pub index: usize,
}

/// A handle to a scope.
#[derive(Clone, Copy, PartialEq, Eq, Structural, Debug)]
pub struct ScopeRef {
    pub index: usize,
}

/// A handle to a code object.
#[derive(Clone, Copy, PartialEq, Eq, Structural, Debug)]
pub struct CodeRef {
    pub index: usize,
}

/// The native implementations that a `NativeFunction` object can stand for.
#[derive(Clone, Copy, PartialEq, Eq, Structural, Debug)]
pub enum NativeFn {
    ObjectEq,
    ObjectRepr,
    IntEq,
    IntRepr,
    StrEq,
    StrRepr,
    TupleEq,
    TupleLen,
    TupleRepr,
    TypesNewClass,
}

/// One key and its value in a dictionary object.
#[derive(Clone, Copy, PartialEq, Eq, Structural, Debug)]
pub struct DictEntry {
    pub key: ObjRef,
    pub value: ObjRef,
}

/// What an object is, with the data of its kind.
#[derive(Clone, PartialEq, Eq, Debug)]
#[allow(inconsistent_fields)]
pub enum PyObjectKind {
    Integer { value: i64 },
    /// A floating-point number, held as the bits of its IEEE 754 encoding.
    Float { bits: u64 },
    String { value: String },
    Boolean { value: bool },
    /// The kind of the one `None` object.
    NoneValue,
    Tuple { elements: Vec<ObjRef> },
    List { elements: Vec<ObjRef> },
    Dict { entries: Vec<DictEntry> },
    Slice { start: Option<i64>, stop: Option<i64>, step: Option<i64> },
    Function { code: CodeRef, scope: ScopeRef },
    NativeFunction { function: NativeFn },
    /// A type. `mro` lists the types searched after the type itself, in
    /// order; the method resolution order is the type followed by `mro`.
    Type { name: String, bases: Vec<ObjRef>, mro: Vec<ObjRef> },
    Module { name: String },
    Exception { exception: Exception },
}

/// The mathematical content of a [`PyObjectKind`].
#[allow(inconsistent_fields)]
pub enum KindView {
    Integer { value: i64 },
    Float { bits: u64 },
    String { value: Seq<char> },
    Boolean { value: bool },
    NoneValue,
    Tuple { elements: Seq<ObjRef> },
    List { elements: Seq<ObjRef> },
    Dict { entries: Seq<DictEntry> },
    Slice { start: Option<i64>, stop: Option<i64>, step: Option<i64> },
    Function { code: CodeRef, scope: ScopeRef },
    NativeFunction { function: NativeFn },
    Type { name: Seq<char>, bases: Seq<ObjRef>, mro: Seq<ObjRef> },
    Module { name: Seq<char> },
    Exception { exception: ExceptionView },
}

impl View for PyObjectKind {
    type V = KindView;

    open spec fn view(&self) -> KindView {
        match *self {
            PyObjectKind::Integer { value } => KindView::Integer { value },
            PyObjectKind::Float { bits } => KindView::Float { bits },
            PyObjectKind::String { value } => KindView::String { value: value@ },
            PyObjectKind::Boolean { value } => KindView::Boolean { value },
            PyObjectKind::NoneValue => KindView::NoneValue,
            PyObjectKind::Tuple { elements } => KindView::Tuple { elements: elements@ },
            PyObjectKind::List { elements } => KindView::List { elements: elements@ },
            PyObjectKind::Dict { entries } => KindView::Dict { entries: entries@ },
            PyObjectKind::Slice { start, stop, step } => KindView::Slice { start, stop, step },
            PyObjectKind::Function { code, scope } => KindView::Function { code, scope },
            PyObjectKind::NativeFunction { function } => KindView::NativeFunction { function },
            PyObjectKind::Type { name, bases, mro } => KindView::Type { name: name@, bases: bases@, mro: mro@ },
            PyObjectKind::Module { name } => KindView::Module { name: name@ },
            PyObjectKind::Exception { exception } => KindView::Exception { exception: exception@ },
        }
    }
}

/// An object: its kind and the handle of its type.
#[derive(Clone, PartialEq, Eq, Debug)]
pub struct PyObject {
    pub kind: PyObjectKind,
    pub typ: ObjRef,
}

/// The handle of the root type, which ends every method resolution order.
pub const OBJECT_TYPE: usize = 0;

pub const TYPE_TYPE: usize = 1;

pub const INT_TYPE: usize = 2;

pub const FLOAT_TYPE: usize = 3;

pub const STR_TYPE: usize = 4;

pub const BOOL_TYPE: usize = 5;

pub const NONE_TYPE: usize = 6;

pub const TUPLE_TYPE: usize = 7;

pub const LIST_TYPE: usize = 8;

pub const DICT_TYPE: usize = 9;

pub const SLICE_TYPE: usize = 10;

pub const FUNCTION_TYPE: usize = 11;

pub const NATIVE_FUNCTION_TYPE: usize = 12;

pub const MODULE_TYPE: usize = 13;

pub const EXCEPTION_TYPE: usize = 14;

/// The handle of the one `None` object.
pub const NONE_OBJECT: usize = 15;

/// The number of objects that every context holds from its creation.
pub const BUILTIN_COUNT: usize = 16;

/// The index of the built-in type that objects of a kind belong to.
pub open spec fn canonical_type(kind: PyObjectKind) -> usize {
    match kind {
        PyObjectKind::Integer { .. } => INT_TYPE,
        PyObjectKind::Float { .. } => FLOAT_TYPE,
        PyObjectKind::String { .. } => STR_TYPE,
        PyObjectKind::Boolean { .. } => BOOL_TYPE,
        PyObjectKind::NoneValue => NONE_TYPE,
        PyObjectKind::Tuple { .. } => TUPLE_TYPE,
        PyObjectKind::List { .. } => LIST_TYPE,
        PyObjectKind::Dict { .. } => DICT_TYPE,
        PyObjectKind::Slice { .. } => SLICE_TYPE,
        PyObjectKind::Function { .. } => FUNCTION_TYPE,
        PyObjectKind::NativeFunction { .. } => NATIVE_FUNCTION_TYPE,
        PyObjectKind::Type { .. } => TYPE_TYPE,
        PyObjectKind::Module { .. } => MODULE_TYPE,
        PyObjectKind::Exception { .. } => EXCEPTION_TYPE,
    }
}

/// The name of each built-in type.
pub open spec fn builtin_type_name(index: int) -> Seq<char> {
    if index == OBJECT_TYPE {
        "object"@
    } else if index == TYPE_TYPE {
        "type"@
    } else if index == INT_TYPE {
        "int"@
    } else if index == FLOAT_TYPE {
        "float"@
    } else if index == STR_TYPE {
        "str"@
    } else if index == BOOL_TYPE {
        "bool"@
    } else if index == NONE_TYPE {
        "NoneType"@
    } else if index == TUPLE_TYPE {
        "tuple"@
    } else if index == LIST_TYPE {
        "list"@
    } else if index == DICT_TYPE {
        "dict"@
    } else if index == SLICE_TYPE {
        "slice"@
    } else if index == FUNCTION_TYPE {
        "function"@
    } else if index == NATIVE_FUNCTION_TYPE {
        "builtin_function_or_method"@
    } else if index == MODULE_TYPE {
        "module"@
    } else {
        "exception"@
    }
}

/// The message with which a malformed code object is refused.
pub open spec fn malformed_code_message() -> Seq<char> {
    "malformed code object"@
}

/// Every handle of `s` is below `limit`.
pub open spec fn refs_below(s: Seq<ObjRef>, limit: int) -> bool {
    forall|j: int| 0 <= j < s.len() ==> (#[trigger] s[j]).index < limit
}

/// The root type, as a handle.
pub open spec fn root() -> ObjRef {
    ObjRef { index: OBJECT_TYPE }
}

/// The arguments of a call, packed: the positional ones in order, then the
/// ones given by keyword.
#[derive(Clone, PartialEq, Eq, Debug)]
pub struct PyFuncArgs {
    pub args: Vec<ObjRef>,
    pub kwargs: Vec<Attribute>,
}

impl PyFuncArgs {
    /// Every positional argument names an object of `ctx`.
    pub open spec fn valid_in(&self, ctx: &PyContext) -> bool {
        refs_below(self.args@, ctx.objects@.len() as int)
    }

    /// The given positional arguments and no keyword arguments.
    pub fn new(args: Vec<ObjRef>) -> (packed: PyFuncArgs)
        ensures
            packed.args == args,
            packed.kwargs@.len() == 0,
    {
        PyFuncArgs { args, kwargs: Vec::new() }
    }
}

/// What the computation of a value yields, as mathematical content.
pub open spec fn outcome_view(made: Result<PyObjectKind, Exception>) -> Result<KindView, ExceptionView> {
    match made {
        Ok(kind) => Ok(kind@),
        Err(e) => Err(e@),
    }
}

/// A copy of a vector of handles.
pub fn copy_refs(source: &Vec<ObjRef>) -> (copy: Vec<ObjRef>)
    ensures
        copy@ == source@,
{
    let mut copy: Vec<ObjRef> = Vec::new();
    let mut i: usize = 0;
    while i < source.len()
        invariant
            i <= source@.len(),
            copy@ == source@.take(i as int),
        decreases source@.len() - i,
    {
        copy.push(source[i]);
        i = i + 1;
    }
    copy
}

/// A scope: the names bound in it, and the scope that encloses it.
#[derive(Clone, PartialEq, Eq, Debug)]
pub struct Scope {
    pub names: AttrTable,
    pub parent: Option<ScopeRef>,
}

/// The context of one runtime: the store of objects and, beside each object,
/// its own attribute table; the scopes; and the code objects.
pub struct PyContext {
    pub objects: Vec<PyObject>,
    pub tables: Vec<AttrTable>,
    pub scopes: Vec<Scope>,
    pub codes: Vec<CodeObject>,
}

impl PyContext {
    /// `r` names an object of this context.
    pub open spec fn valid(&self, r: ObjRef) -> bool {
        r.index < self.objects@.len()
    }

    /// The handle that the object stored `offset` objects from now will
    /// have.
    pub open spec fn upcoming(&self, offset: int) -> ObjRef {
        ObjRef { index: (self.objects@.len() + offset) as usize }
    }

    /// The kind of the object that `r` names.
    pub open spec fn kind(&self, r: ObjRef) -> PyObjectKind {
        self.objects@[r.index as int].kind
    }

    /// The type of the object that `r` names.
    pub open spec fn type_ref(&self, r: ObjRef) -> ObjRef {
        self.objects@[r.index as int].typ
    }

    /// `r` names a type.
    pub open spec fn is_type(&self, r: ObjRef) -> bool {
        self.valid(r) && self.kind(r) is Type
    }

    /// The name of the type that `r` names.
    pub open spec fn name_of_type(&self, r: ObjRef) -> Seq<char> {
        self.kind(r)->Type_name@
    }

    /// The method resolution order of the type that `r` names: the type
    /// itself, then the types searched after it.
    pub open spec fn mro_of(&self, r: ObjRef) -> Seq<ObjRef> {
        seq![r] + self.kind(r)->Type_mro@
    }

    /// The object's own attribute table, as a map.
    pub open spec fn attrs(&self, r: ObjRef) -> Map<Seq<char>, ObjRef> {
        self.tables@[r.index as int]@
    }

    /// The kind of object `r` keeps attributes of its own.
    pub open spec fn has_own_attrs(&self, r: ObjRef) -> bool {
        self.kind(r) is Type || self.kind(r) is Module
    }

    /// Every handle of `s` is below `limit` and names a type.
    pub open spec fn types_below(&self, s: Seq<ObjRef>, limit: int) -> bool {
        forall|j: int|
            0 <= j < s.len() ==> (#[trigger] s[j]).index < limit && self.objects@[s[j].index as int].kind is Type
    }

    /// Every member of `part` is the type `owner` or a member of `mro`.
    pub open spec fn covers(owner: ObjRef, mro: Seq<ObjRef>, part: Seq<ObjRef>) -> bool {
        forall|j: int| 0 <= j < part.len() ==> (#[trigger] part[j]) == owner || mro.contains(part[j])
    }

    /// An object of kind `kind` may be stored at index `i`: what it refers to
    /// was stored before it, and a type's resolution order lists each type
    /// once, covers the orders of its bases and ends in the root.
    pub open spec fn kind_wf(&self, kind: PyObjectKind, i: int) -> bool {
        match kind {
            PyObjectKind::Tuple { elements } => refs_below(elements@, i) && elements@.len() <= i64::MAX,
            PyObjectKind::List { elements } => refs_below(elements@, i) && elements@.len() <= i64::MAX,
            PyObjectKind::Dict { entries } => forall|j: int|
                0 <= j < entries@.len() ==> (#[trigger] entries@[j]).key.index < i && entries@[j].value.index < i,
            PyObjectKind::Type { name, bases, mro } => {
                &&& self.types_below(bases@, i)
                &&& self.types_below(mro@, i)
                &&& mro@.no_duplicates()
                &&& i != OBJECT_TYPE ==> mro@.len() > 0 && mro@.last() == root()
                &&& forall|j: int|
                    0 <= j < bases@.len() ==> Self::covers(
                        ObjRef { index: i as usize },
                        mro@,
                        self.mro_of(#[trigger] bases@[j]),
                    )
            },
            PyObjectKind::Exception { exception } => exception.cause matches Some(c) ==> c.index < i,
            PyObjectKind::Function { code, scope } => code.index < self.codes@.len() && scope.index
                < self.scopes@.len(),
            _ => true,
        }
    }

    /// The scope at index `i` is well formed: its names are bound to
    /// objects of this context, and the scope that encloses it was made
    /// before it.
    pub open spec fn scope_wf(&self, i: int) -> bool {
        &&& self.scopes@[i].names.wf()
        &&& self.scopes@[i].names.values_below(self.objects@.len() as int)
        &&& self.scopes@[i].parent matches Some(p) ==> p.index < i
    }

    /// The code object at index `i` is well formed.
    pub open spec fn code_ok(&self, i: int) -> bool {
        code_wf(self.codes@[i], self.objects@.len() as int, i)
    }

    /// The object at index `i` is well formed.
    pub open spec fn object_wf(&self, i: int) -> bool {
        &&& self.objects@[i].typ.index == canonical_type(self.objects@[i].kind)
        &&& self.kind_wf(self.objects@[i].kind, i)
    }

    /// The attribute table at index `i` is well formed.
    pub open spec fn table_wf(&self, i: int) -> bool {
        &&& self.tables@[i].wf()
        &&& self.tables@[i].values_below(self.objects@.len() as int)
    }

    /// The invariant of a context.
    pub open spec fn wf(&self) -> bool {
        &&& self.objects@.len() == self.tables@.len()
        &&& self.objects@.len() >= BUILTIN_COUNT
        &&& forall|k: int| 0 <= k < NONE_OBJECT ==> (#[trigger] self.objects@[k]).kind is Type
        &&& forall|k: int| 1 <= k < NONE_OBJECT ==> (#[trigger] self.objects@[k]).kind->Type_mro@ == seq![root()]
        &&& self.objects@[NONE_OBJECT as int].kind is NoneValue
        &&& forall|i: int| 0 <= i < self.objects@.len() ==> #[trigger] self.object_wf(i)
        &&& forall|i: int| 0 <= i < self.objects@.len() ==> #[trigger] self.table_wf(i)
        &&& forall|i: int| 0 <= i < self.scopes@.len() ==> #[trigger] self.scope_wf(i)
        &&& forall|i: int| 0 <= i < self.codes@.len() ==> #[trigger] self.code_ok(i)
    }

    /// This context holds every object of `before`, unchanged and with the
    /// same attributes, and possibly more objects; its scopes and its code
    /// objects are those of `before`.
    pub open spec fn extends(&self, before: &PyContext) -> bool {
        &&& before.objects@.len() <= self.objects@.len()
        &&& forall|i: int| 0 <= i < before.objects@.len() ==> #[trigger] self.objects@[i] == before.objects@[i]
        &&& forall|i: int| 0 <= i < before.objects@.len() ==> #[trigger] self.tables@[i] == before.tables@[i]
        &&& self.scopes == before.scopes
        &&& self.codes == before.codes
    }

    /// The scopes and the code objects stay well formed when objects are
    /// stored and nothing else changes.
    pub proof fn lemma_arenas_grow(&self, before: &PyContext)
        requires
            self.scopes == before.scopes,
            self.codes == before.codes,
            before.objects@.len() <= self.objects@.len(),
            forall|i: int| 0 <= i < before.scopes@.len() ==> #[trigger] before.scope_wf(i),
            forall|i: int| 0 <= i < before.codes@.len() ==> #[trigger] before.code_ok(i),
        ensures
            forall|i: int| 0 <= i < self.scopes@.len() ==> #[trigger] self.scope_wf(i),
            forall|i: int| 0 <= i < self.codes@.len() ==> #[trigger] self.code_ok(i),
    {
        assert forall|i: int| 0 <= i < self.scopes@.len() implies #[trigger] self.scope_wf(i) by {
            assert(before.scope_wf(i));
        }
        assert forall|i: int| 0 <= i < self.codes@.len() implies #[trigger] self.code_ok(i) by {
            assert(before.code_ok(i));
            lemma_code_wf_grows(self.codes@[i], before.objects@.len() as int, self.objects@.len() as int, i);
        }
    }

    /// The store and the tables agree in length, and every object and table
    /// is well formed.
    pub open spec fn core_wf(&self) -> bool {
        &&& self.objects@.len() == self.tables@.len()
        &&& forall|i: int| 0 <= i < self.objects@.len() ==> #[trigger] self.object_wf(i)
        &&& forall|i: int| 0 <= i < self.objects@.len() ==> #[trigger] self.table_wf(i)
        &&& self.scopes@.len() == 0
        &&& self.codes@.len() == 0
    }

    /// Stores the next built-in type: the root if the store is empty, else a
    /// type whose only base is the root.
    fn push_builtin_type(&mut self, name: &str)
        requires
            old(self).core_wf(),
            old(self).objects@.len() > 0 ==> old(self).kind(root()) is Type && old(self).kind(
                root(),
            )->Type_mro@.len() == 0,
        ensures
            final(self).core_wf(),
            final(self).extends(old(self)),
            final(self).objects@.len() == old(self).objects@.len() + 1,
            final(self).objects@.last().kind is Type,
            final(self).objects@.last().kind->Type_name@ == name@,
            final(self).objects@.last().kind->Type_mro@ == (if old(self).objects@.len() == 0 {
                Seq::<ObjRef>::empty()
            } else {
                seq![root()]
            }),
            final(self).objects@.last().kind->Type_bases@ == final(self).objects@.last().kind->Type_mro@,
            final(self).tables@.last()@ == Map::<Seq<char>, ObjRef>::empty(),
    {
        let ghost before = *self;
        let index = self.objects.len();
        let mut bases: Vec<ObjRef> = Vec::new();
        let mut mro: Vec<ObjRef> = Vec::new();
        if index > 0 {
            bases.push(ObjRef { index: OBJECT_TYPE });
            mro.push(ObjRef { index: OBJECT_TYPE });
        }
        let kind = PyObjectKind::Type { name: String::from_str(name), bases, mro };
        self.objects.push(PyObject { kind, typ: ObjRef { index: TYPE_TYPE } });
        self.tables.push(AttrTable::new());
        proof {
            assert forall|i: int| 0 <= i < self.objects@.len() implies #[trigger] self.object_wf(i) by {
                if i < index {
                    assert(before.object_wf(i));
                }
            }
            assert forall|i: int| 0 <= i < self.objects@.len() implies #[trigger] self.table_wf(i) by {
                if i < index {
                    assert(before.table_wf(i));
                }
            }
        }
    }

    /// A context that holds the built-in types and the `None` object, and
    /// nothing else. No object has an attribute yet.
    pub fn new() -> (ctx: PyContext)
        ensures
            ctx.wf(),
            ctx.objects@.len() == BUILTIN_COUNT,
            ctx.scopes@.len() == 0,
            ctx.codes@.len() == 0,
            forall|k: int|
                0 <= k < NONE_OBJECT ==> (#[trigger] ctx.objects@[k]).kind->Type_name@ == builtin_type_name(k),
            forall|k: int|
                0 <= k < NONE_OBJECT ==> (#[trigger] ctx.objects@[k]).kind->Type_bases@ == ctx.objects@[k].kind->Type_mro@,
            forall|k: int| 0 <= k < BUILTIN_COUNT ==> (#[trigger] ctx.tables@[k])@ == Map::<Seq<char>, ObjRef>::empty(),
    {
        let mut ctx = PyContext {
            objects: Vec::new(),
            tables: Vec::new(),
            scopes: Vec::new(),
            codes: Vec::new(),
        };
        ctx.push_builtin_type("object");
        ctx.push_builtin_type("type");
        ctx.push_builtin_type("int");
        ctx.push_builtin_type("float");
        ctx.push_builtin_type("str");
        ctx.push_builtin_type("bool");
        ctx.push_builtin_type("NoneType");
        ctx.push_builtin_type("tuple");
        ctx.push_builtin_type("list");
        ctx.push_builtin_type("dict");
        ctx.push_builtin_type("slice");
        ctx.push_builtin_type("function");
        ctx.push_builtin_type("builtin_function_or_method");
        ctx.push_builtin_type("module");
        ctx.push_builtin_type("exception");
        let ghost types = ctx;
        ctx.objects.push(PyObject { kind: PyObjectKind::NoneValue, typ: ObjRef { index: NONE_TYPE } });
        ctx.tables.push(AttrTable::new());
        proof {
            assert forall|i: int| 0 <= i < ctx.objects@.len() implies #[trigger] ctx.object_wf(i) by {
                if i < NONE_OBJECT {
                    assert(types.object_wf(i));
                }
            }
            assert forall|i: int| 0 <= i < ctx.objects@.len() implies #[trigger] ctx.table_wf(i) by {
                if i < NONE_OBJECT {
                    assert(types.table_wf(i));
                }
            }
        }
        ctx
    }

    /// The number of scopes.
    pub fn scope_count(&self) -> (n: usize)
        ensures
            n == self.scopes@.len(),
    {
        self.scopes.len()
    }

    /// A new scope that binds the given names, enclosed by `parent`.
    pub fn new_scope_with(&mut self, parent: Option<ScopeRef>, names: AttrTable) -> (scope: ScopeRef)
        requires
            old(self).wf(),
            parent matches Some(p) ==> p.index < old(self).scopes@.len(),
            names.wf(),
            names.values_below(old(self).objects@.len() as int),
        ensures
            final(self).wf(),
            final(self).objects == old(self).objects,
            final(self).tables == old(self).tables,
            final(self).codes == old(self).codes,
            scope.index == old(self).scopes@.len(),
            final(self).scopes@ == old(self).scopes@.push(Scope { names, parent }),
    {
        let ghost before = *self;
        let index = self.scopes.len();
        self.scopes.push(Scope { names, parent });
        proof {
            assert forall|i: int| 0 <= i < self.objects@.len() implies #[trigger] self.object_wf(i) by {
                assert(before.object_wf(i));
            }
            assert forall|i: int| 0 <= i < self.objects@.len() implies #[trigger] self.table_wf(i) by {
                assert(before.table_wf(i));
            }
            assert forall|i: int| 0 <= i < self.scopes@.len() implies #[trigger] self.scope_wf(i) by {
                if i < index {
                    assert(before.scope_wf(i));
                }
            }
            assert forall|i: int| 0 <= i < self.codes@.len() implies #[trigger] self.code_ok(i) by {
                assert(before.code_ok(i));
            }
        }
        ScopeRef { index }
    }

    /// A new scope that binds no name, enclosed by `parent`.
    pub fn new_scope(&mut self, parent: Option<ScopeRef>) -> (scope: ScopeRef)
        requires
            old(self).wf(),
            parent matches Some(p) ==> p.index < old(self).scopes@.len(),
        ensures
            final(self).wf(),
            final(self).objects == old(self).objects,
            final(self).tables == old(self).tables,
            final(self).codes == old(self).codes,
            scope.index == old(self).scopes@.len(),
            final(self).scopes@ == old(self).scopes@.push(final(self).scopes@[scope.index as int]),
            final(self).scopes@[scope.index as int].parent == parent,
            final(self).scopes@[scope.index as int].names@ == Map::<Seq<char>, ObjRef>::empty(),
    {
        self.new_scope_with(parent, AttrTable::new())
    }

    /// Binds `name` to `value` in the scope itself. No other scope changes.
    pub fn bind_name(&mut self, scope: ScopeRef, name: &str, value: ObjRef)
        requires
            old(self).wf(),
            scope.index < old(self).scopes@.len(),
            old(self).valid(value),
        ensures
            final(self).wf(),
            final(self).objects == old(self).objects,
            final(self).tables == old(self).tables,
            final(self).codes == old(self).codes,
            final(self).scopes@.len() == old(self).scopes@.len(),
            final(self).scopes@[scope.index as int].names@ == old(self).scopes@[scope.index as int].names@.insert(
                name@,
                value,
            ),
            forall|i: int|
                0 <= i < old(self).scopes@.len() ==> (#[trigger] final(self).scopes@[i]).parent == old(
                    self,
                ).scopes@[i].parent,
            forall|i: int|
                0 <= i < old(self).scopes@.len() && i != scope.index ==> #[trigger] final(self).scopes@[i] == old(
                    self,
                ).scopes@[i],
    {
        let ghost before = *self;
        assert(self.scope_wf(scope.index as int));
        let parent = self.scopes[scope.index].parent;
        let mut changed = Scope { names: AttrTable::new(), parent };
        std::mem::swap(&mut changed, &mut self.scopes[scope.index]);
        changed.names.insert(String::from_str(name), value);
        self.scopes.set(scope.index, changed);
        proof {
            assert forall|i: int| 0 <= i < self.objects@.len() implies #[trigger] self.object_wf(i) by {
                assert(before.object_wf(i));
            }
            assert forall|i: int| 0 <= i < self.objects@.len() implies #[trigger] self.table_wf(i) by {
                assert(before.table_wf(i));
            }
            assert forall|i: int| 0 <= i < self.scopes@.len() implies #[trigger] self.scope_wf(i) by {
                assert(before.scope_wf(i));
            }
            assert forall|i: int| 0 <= i < self.codes@.len() implies #[trigger] self.code_ok(i) by {
                assert(before.code_ok(i));
            }
        }
    }

    /// The number of code objects.
    pub fn code_count(&self) -> (n: usize)
        ensures
            n == self.codes@.len(),
    {
        self.codes.len()
    }

    /// Takes a code object in, if it is well formed: its constants are
    /// objects of this context, the code of the functions it makes was
    /// taken in before, its targets and regions lie within it and its
    /// parameters have different names. A code object that is not is
    /// refused with a `CompileError`, and nothing changes.
    pub fn add_code(&mut self, code: CodeObject) -> (added: Result<CodeRef, Exception>)
        requires
            old(self).wf(),
        ensures
            final(self).wf(),
            final(self).objects == old(self).objects,
            final(self).tables == old(self).tables,
            final(self).scopes == old(self).scopes,
            match added {
                Ok(r) => {
                    &&& code_wf(code, old(self).objects@.len() as int, old(self).codes@.len() as int)
                    &&& r.index == old(self).codes@.len()
                    &&& final(self).codes@ == old(self).codes@.push(code)
                },
                Err(e) => {
                    &&& !code_wf(code, old(self).objects@.len() as int, old(self).codes@.len() as int)
                    &&& e@ == raised(ExceptionKind::CompileError, malformed_code_message())
                    &&& final(self).codes == old(self).codes
                },
            },
    {
        let ghost before = *self;
        let index = self.codes.len();
        if !check_code(&code, self.objects.len(), index) {
            return Err(Exception::with_message(ExceptionKind::CompileError, "malformed code object"));
        }
        self.codes.push(code);
        proof {
            assert forall|i: int| 0 <= i < self.objects@.len() implies #[trigger] self.object_wf(i) by {
                assert(before.object_wf(i));
            }
            assert forall|i: int| 0 <= i < self.objects@.len() implies #[trigger] self.table_wf(i) by {
                assert(before.table_wf(i));
            }
            assert forall|i: int| 0 <= i < self.scopes@.len() implies #[trigger] self.scope_wf(i) by {
                assert(before.scope_wf(i));
            }
            assert forall|i: int| 0 <= i < self.codes@.len() implies #[trigger] self.code_ok(i) by {
                if i < index {
                    assert(before.code_ok(i));
                }
            }
        }
        Ok(CodeRef { index })
    }

    /// A new function that runs `code` in a scope enclosed by `scope`.
    pub fn new_function(&mut self, code: CodeRef, scope: ScopeRef) -> (r: ObjRef)
        requires
            old(self).wf(),
            code.index < old(self).codes@.len(),
            scope.index < old(self).scopes@.len(),
        ensures
            final(self).wf(),
            final(self).extends(old(self)),
            r.index == old(self).objects@.len(),
            final(self).objects@.len() == old(self).objects@.len() + 1,
            final(self).attrs(r) == Map::<Seq<char>, ObjRef>::empty(),
            final(self).kind(r) == (PyObjectKind::Function { code, scope }),
    {
        self.store(PyObjectKind::Function { code, scope })
    }

    /// This context holds every object of `before`, unchanged, and possibly
    /// more; its scopes and its code objects are those of `before`.
    /// Attribute tables may differ.
    pub open spec fn extends_objects(&self, before: &PyContext) -> bool {
        &&& before.objects@.len() <= self.objects@.len()
        &&& forall|i: int| 0 <= i < before.objects@.len() ==> #[trigger] self.objects@[i] == before.objects@[i]
        &&& self.scopes == before.scopes
        &&& self.codes == before.codes
    }

    /// The built-in type of objects of `kind`.
    pub fn kind_type(kind: &PyObjectKind) -> (index: usize)
        ensures
            index == canonical_type(*kind),
    {
        match kind {
            PyObjectKind::Integer { .. } => INT_TYPE,
            PyObjectKind::Float { .. } => FLOAT_TYPE,
            PyObjectKind::String { .. } => STR_TYPE,
            PyObjectKind::Boolean { .. } => BOOL_TYPE,
            PyObjectKind::NoneValue => NONE_TYPE,
            PyObjectKind::Tuple { .. } => TUPLE_TYPE,
            PyObjectKind::List { .. } => LIST_TYPE,
            PyObjectKind::Dict { .. } => DICT_TYPE,
            PyObjectKind::Slice { .. } => SLICE_TYPE,
            PyObjectKind::Function { .. } => FUNCTION_TYPE,
            PyObjectKind::NativeFunction { .. } => NATIVE_FUNCTION_TYPE,
            PyObjectKind::Type { .. } => TYPE_TYPE,
            PyObjectKind::Module { .. } => MODULE_TYPE,
            PyObjectKind::Exception { .. } => EXCEPTION_TYPE,
        }
    }

    /// Stores a new object of the given kind, with an empty attribute table,
    /// and returns its handle.
    pub fn store(&mut self, kind: PyObjectKind) -> (r: ObjRef)
        requires
            old(self).wf(),
            old(self).kind_wf(kind, old(self).objects@.len() as int),
        ensures
            final(self).wf(),
            final(self).extends(old(self)),
            r.index == old(self).objects@.len(),
            final(self).objects@.len() == old(self).objects@.len() + 1,
            final(self).kind(r) == kind,
            final(self).attrs(r) == Map::<Seq<char>, ObjRef>::empty(),
    {
        let index = self.objects.len();
        let typ = ObjRef { index: Self::kind_type(&kind) };
        let ghost before = *self;
        self.objects.push(PyObject { kind, typ });
        self.tables.push(AttrTable::new());
        proof {
            assert forall|i: int| 0 <= i < self.objects@.len() implies #[trigger] self.object_wf(i) by {
                if i < index {
                    assert(before.object_wf(i));
                }
            }
            assert forall|i: int| 0 <= i < self.objects@.len() implies #[trigger] self.table_wf(i) by {
                if i < index {
                    assert(before.table_wf(i));
                }
            }
            self.lemma_arenas_grow(&before);
        }
        ObjRef { index }
    }

    /// The number of objects stored.
    pub fn len(&self) -> (n: usize)
        ensures
            n == self.objects@.len(),
    {
        self.objects.len()
    }

    /// Whether `r` names an object of this context.
    pub fn contains(&self, r: ObjRef) -> (b: bool)
        ensures
            b == self.valid(r),
    {
        r.index < self.objects.len()
    }

    /// The kind of an object.
    pub fn kind_of(&self, r: ObjRef) -> (kind: &PyObjectKind)
        requires
            self.valid(r),
        ensures
            *kind == self.kind(r),
    {
        &self.objects[r.index].kind
    }

    /// The type of an object.
    pub fn type_of(&self, r: ObjRef) -> (typ: ObjRef)
        requires
            self.wf(),
            self.valid(r),
        ensures
            typ == self.type_ref(r),
            typ.index == canonical_type(self.kind(r)),
            self.is_type(typ),
    {
        assert(self.object_wf(r.index as int));
        self.objects[r.index].typ
    }

    /// The root type.
    pub fn object(&self) -> (r: ObjRef)
        ensures
            r == root(),
    {
        ObjRef { index: OBJECT_TYPE }
    }

    /// The type of types.
    pub fn type_type(&self) -> (r: ObjRef)
        ensures
            r.index == TYPE_TYPE,
    {
        ObjRef { index: TYPE_TYPE }
    }

    /// The type of integers.
    pub fn int_type(&self) -> (r: ObjRef)
        ensures
            r.index == INT_TYPE,
    {
        ObjRef { index: INT_TYPE }
    }

    /// The type of strings.
    pub fn str_type(&self) -> (r: ObjRef)
        ensures
            r.index == STR_TYPE,
    {
        ObjRef { index: STR_TYPE }
    }

    /// The type of tuples.
    pub fn tuple_type(&self) -> (r: ObjRef)
        ensures
            r.index == TUPLE_TYPE,
    {
        ObjRef { index: TUPLE_TYPE }
    }

    /// The type of functions defined in code.
    pub fn function_type(&self) -> (r: ObjRef)
        ensures
            r.index == FUNCTION_TYPE,
    {
        ObjRef { index: FUNCTION_TYPE }
    }

    /// The one `None` object.
    pub fn none(&self) -> (r: ObjRef)
        ensures
            r.index == NONE_OBJECT,
    {
        ObjRef { index: NONE_OBJECT }
    }

    /// A new integer object.
    pub fn new_int(&mut self, value: i64) -> (r: ObjRef)
        requires
            old(self).wf(),
        ensures
            final(self).wf(),
            final(self).extends(old(self)),
            r.index == old(self).objects@.len(),
            final(self).objects@.len() == old(self).objects@.len() + 1,
            final(self).attrs(r) == Map::<Seq<char>, ObjRef>::empty(),
            final(self).kind(r) == (PyObjectKind::Integer { value }),
    {
        self.store(PyObjectKind::Integer { value })
    }

    /// A new floating-point object with the given IEEE 754 bits.
    pub fn new_float(&mut self, bits: u64) -> (r: ObjRef)
        requires
            old(self).wf(),
        ensures
            final(self).wf(),
            final(self).extends(old(self)),
            r.index == old(self).objects@.len(),
            final(self).objects@.len() == old(self).objects@.len() + 1,
            final(self).attrs(r) == Map::<Seq<char>, ObjRef>::empty(),
            final(self).kind(r) == (PyObjectKind::Float { bits }),
    {
        self.store(PyObjectKind::Float { bits })
    }

    /// A new string object.
    pub fn new_str(&mut self, value: String) -> (r: ObjRef)
        requires
            old(self).wf(),
        ensures
            final(self).wf(),
            final(self).extends(old(self)),
            r.index == old(self).objects@.len(),
            final(self).objects@.len() == old(self).objects@.len() + 1,
            final(self).attrs(r) == Map::<Seq<char>, ObjRef>::empty(),
            final(self).kind(r) == (PyObjectKind::String { value }),
    {
        self.store(PyObjectKind::String { value })
    }

    /// A new boolean object.
    pub fn new_bool(&mut self, value: bool) -> (r: ObjRef)
        requires
            old(self).wf(),
        ensures
            final(self).wf(),
            final(self).extends(old(self)),
            r.index == old(self).objects@.len(),
            final(self).objects@.len() == old(self).objects@.len() + 1,
            final(self).attrs(r) == Map::<Seq<char>, ObjRef>::empty(),
            final(self).kind(r) == (PyObjectKind::Boolean { value }),
    {
        self.store(PyObjectKind::Boolean { value })
    }

    /// A new tuple of the given elements.
    pub fn new_tuple(&mut self, elements: Vec<ObjRef>) -> (r: ObjRef)
        requires
            old(self).wf(),
            refs_below(elements@, old(self).objects@.len() as int),
            elements@.len() <= i64::MAX,
        ensures
            final(self).wf(),
            final(self).extends(old(self)),
            r.index == old(self).objects@.len(),
            final(self).objects@.len() == old(self).objects@.len() + 1,
            final(self).attrs(r) == Map::<Seq<char>, ObjRef>::empty(),
            final(self).kind(r) == (PyObjectKind::Tuple { elements }),
    {
        self.store(PyObjectKind::Tuple { elements })
    }

    /// A new list of the given elements.
    pub fn new_list(&mut self, elements: Vec<ObjRef>) -> (r: ObjRef)
        requires
            old(self).wf(),
            refs_below(elements@, old(self).objects@.len() as int),
            elements@.len() <= i64::MAX,
        ensures
            final(self).wf(),
            final(self).extends(old(self)),
            r.index == old(self).objects@.len(),
            final(self).objects@.len() == old(self).objects@.len() + 1,
            final(self).attrs(r) == Map::<Seq<char>, ObjRef>::empty(),
            final(self).kind(r) == (PyObjectKind::List { elements }),
    {
        self.store(PyObjectKind::List { elements })
    }

    /// A new, empty dictionary.
    pub fn new_dict(&mut self) -> (r: ObjRef)
        requires
            old(self).wf(),
        ensures
            final(self).wf(),
            final(self).extends(old(self)),
            r.index == old(self).objects@.len(),
            final(self).objects@.len() == old(self).objects@.len() + 1,
            final(self).attrs(r) == Map::<Seq<char>, ObjRef>::empty(),
            final(self).kind(r) is Dict,
            final(self).kind(r)->Dict_entries@.len() == 0,
    {
        self.store(PyObjectKind::Dict { entries: Vec::new() })
    }

    /// A new slice object.
    pub fn new_slice(&mut self, start: Option<i64>, stop: Option<i64>, step: Option<i64>) -> (r: ObjRef)
        requires
            old(self).wf(),
        ensures
            final(self).wf(),
            final(self).extends(old(self)),
            r.index == old(self).objects@.len(),
            final(self).objects@.len() == old(self).objects@.len() + 1,
            final(self).attrs(r) == Map::<Seq<char>, ObjRef>::empty(),
            final(self).kind(r) == (PyObjectKind::Slice { start, stop, step }),
    {
        self.store(PyObjectKind::Slice { start, stop, step })
    }

    /// A new object that stands for a native function.
    pub fn new_rustfunc(&mut self, function: NativeFn) -> (r: ObjRef)
        requires
            old(self).wf(),
        ensures
            final(self).wf(),
            final(self).extends(old(self)),
            r.index == old(self).objects@.len(),
            final(self).objects@.len() == old(self).objects@.len() + 1,
            final(self).attrs(r) == Map::<Seq<char>, ObjRef>::empty(),
            final(self).kind(r) == (PyObjectKind::NativeFunction { function }),
    {
        self.store(PyObjectKind::NativeFunction { function })
    }

    /// A new module of the given name, with no attributes.
    pub fn new_module(&mut self, name: &str) -> (r: ObjRef)
        requires
            old(self).wf(),
        ensures
            final(self).wf(),
            final(self).extends(old(self)),
            r.index == old(self).objects@.len(),
            final(self).objects@.len() == old(self).objects@.len() + 1,
            final(self).attrs(r) == Map::<Seq<char>, ObjRef>::empty(),
            final(self).kind(r) is Module,
            final(self).kind(r)->Module_name@ == name@,
    {
        self.store(PyObjectKind::Module { name: String::from_str(name) })
    }

    /// A new object that holds an exception.
    pub fn new_exception(&mut self, exception: Exception) -> (r: ObjRef)
        requires
            old(self).wf(),
            exception.cause matches Some(c) ==> old(self).valid(c),
        ensures
            final(self).wf(),
            final(self).extends(old(self)),
            r.index == old(self).objects@.len(),
            final(self).objects@.len() == old(self).objects@.len() + 1,
            final(self).attrs(r) == Map::<Seq<char>, ObjRef>::empty(),
            final(self).kind(r) == (PyObjectKind::Exception { exception }),
    {
        self.store(PyObjectKind::Exception { exception })
    }

    /// Gives a freshly stored object its attribute table.
    pub fn adopt_attrs(&mut self, obj: ObjRef, table: AttrTable)
        requires
            old(self).wf(),
            old(self).valid(obj),
            table.wf(),
            table.values_below(old(self).objects@.len() as int),
        ensures
            final(self).wf(),
            final(self).objects == old(self).objects,
            final(self).scopes == old(self).scopes,
            final(self).codes == old(self).codes,
            final(self).tables@ == old(self).tables@.update(obj.index as int, table),
    {
        let ghost before = *self;
        self.tables.set(obj.index, table);
        proof {
            assert forall|i: int| 0 <= i < self.objects@.len() implies #[trigger] self.object_wf(i) by {
                assert(before.object_wf(i));
            }
            assert forall|i: int| 0 <= i < self.objects@.len() implies #[trigger] self.table_wf(i) by {
                assert(before.table_wf(i));
            }
            self.lemma_arenas_grow(&before);
        }
    }

    /// The value that the object's own table binds to `name`, if any.
    pub fn get_attr(&self, obj: ObjRef, name: &str) -> (found: Option<ObjRef>)
        requires
            self.wf(),
            self.valid(obj),
        ensures
            found == (if self.attrs(obj).contains_key(name@) {
                Some(self.attrs(obj)[name@])
            } else {
                None
            }),
            found matches Some(v) ==> self.valid(v),
    {
        assert(self.table_wf(obj.index as int));
        let found = self.tables[obj.index].get(name);
        proof {
            if self.attrs(obj).contains_key(name@) {
                self.tables@[obj.index as int].lemma_values_below(self.objects@.len() as int, name@);
            }
        }
        found
    }

    /// Binds `name` to `value` in the object's own table. Every other table
    /// and every object stays as it was.
    pub fn set_attr(&mut self, obj: ObjRef, name: &str, value: ObjRef)
        requires
            old(self).wf(),
            old(self).valid(obj),
            old(self).valid(value),
        ensures
            final(self).wf(),
            final(self).objects == old(self).objects,
            final(self).scopes == old(self).scopes,
            final(self).codes == old(self).codes,
            final(self).attrs(obj) == old(self).attrs(obj).insert(name@, value),
            forall|i: int|
                0 <= i < old(self).tables@.len() && i != obj.index ==> #[trigger] final(self).tables@[i] == old(
                    self,
                ).tables@[i],
    {
        let ghost before = *self;
        assert(self.table_wf(obj.index as int));
        let mut table = AttrTable::new();
        std::mem::swap(&mut table, &mut self.tables[obj.index]);
        table.insert(String::from_str(name), value);
        self.tables.set(obj.index, table);
        proof {
            assert forall|i: int| 0 <= i < self.objects@.len() implies #[trigger] self.object_wf(i) by {
                assert(before.object_wf(i));
            }
            assert forall|i: int| 0 <= i < self.objects@.len() implies #[trigger] self.table_wf(i) by {
                assert(before.table_wf(i));
            }
            self.lemma_arenas_grow(&before);
        }
    }
}

} // verus!
