//! Code objects: the compiled form in which the front end hands a unit of
//! source text to the runtime.

use vstd::prelude::*;
use crate::pyobject::{CodeRef, ObjRef};

verus! {

/// One instruction. Instructions work on the operand stack of a frame and
/// on its scope; the instruction pointer moves to the next instruction
/// unless the instruction says where it goes.
#[derive(Clone, PartialEq, Eq, Debug)]
pub enum Instruction {
    /// Pushes an object that exists since the code was compiled.
    LoadConst { value: ObjRef },
    /// Pushes what the name is bound to along the scope chain.
    LoadName { name: String },
    /// Pops a value and binds the name to it in the scope of the frame.
    StoreName { name: String },
    /// Pops a value.
    Pop,
    /// Pops `size` values and pushes a new tuple of them, the deepest first.
    BuildTuple { size: usize },
    /// Pops an index and a container and pushes what the subscription of
    /// the container yields.
    Subscript,
    /// Pops an object and pushes the value of its attribute.
    LoadAttr { name: String },
    /// Pops an object and a value and binds the attribute of the object.
    StoreAttr { name: String },
    /// Pops two values and pushes whether the deeper equals the other.
    CompareEq,
    /// Pops `count` arguments and a callable, and calls it.
    CallFunction { count: usize },
    /// Pushes a new function that runs the given code in a scope chained to
    /// the scope of the frame.
    MakeFunction { code: CodeRef },
    /// Continues at `target`.
    Jump { target: usize },
    /// Pops a value and continues at `target` unless it counts as true.
    JumpIfFalse { target: usize },
    /// Pops an exception object and raises it.
    Raise,
    /// Pops a value and returns it to the caller.
    ReturnValue,
    /// Pops a value and, unless it is `None`, prints its representation.
    PrintExpr,
}

/// A range of instructions with the handler of the exceptions raised in it.
#[derive(Clone, PartialEq, Eq, Debug)]
pub struct ExceptionRegion {
    /// The first instruction of the range.
    pub start: usize,
    /// The instruction after the last of the range.
    pub end: usize,
    /// Where execution resumes when an exception is caught.
    pub handler: usize,
    /// The depth to which the operand stack is cut before it resumes.
    pub depth: usize,
    /// The name that the exception is bound to in the scope, if any.
    pub name: Option<String>,
}

/// A code object: the parameters it takes, its instructions, and the
/// regions in which it handles exceptions. It does not change once made.
#[derive(Clone, PartialEq, Eq, Debug)]
pub struct CodeObject {
    pub name: String,
    /// The names of the parameters, in the order of the positional
    /// arguments. Every parameter is required.
    pub params: Vec<String>,
    pub instructions: Vec<Instruction>,
    pub regions: Vec<ExceptionRegion>,
}

/// An instruction of a code object of `length` instructions refers to what
/// exists: a constant among the `objects` stored, a code object made before
/// the one at `index`, a target within the code or at its end.
pub open spec fn instruction_wf(instruction: Instruction, length: int, objects: int, index: int) -> bool {
    match instruction {
        Instruction::LoadConst { value } => value.index < objects,
        Instruction::BuildTuple { size } => size <= i64::MAX,
        Instruction::MakeFunction { code } => code.index < index,
        Instruction::Jump { target } => target <= length,
        Instruction::JumpIfFalse { target } => target <= length,
        _ => true,
    }
}

/// A region lies within the code and so does its handler.
pub open spec fn region_wf(region: ExceptionRegion, length: int) -> bool {
    region.start <= region.end <= length && region.handler <= length
}

/// No two parameters have the same name.
pub open spec fn distinct_names(names: Seq<String>) -> bool {
    forall|i: int, j: int| 0 <= i < j < names.len() ==> (#[trigger] names[i])@ != (#[trigger] names[j])@
}

/// A code object is well formed as the code object at `index` of a context
/// that holds `objects` objects.
pub open spec fn code_wf(code: CodeObject, objects: int, index: int) -> bool {
    &&& forall|i: int|
        0 <= i < code.instructions@.len() ==> instruction_wf(
            #[trigger] code.instructions@[i],
            code.instructions@.len() as int,
            objects,
            index,
        )
    &&& forall|i: int|
        0 <= i < code.regions@.len() ==> region_wf(#[trigger] code.regions@[i], code.instructions@.len() as int)
    &&& distinct_names(code.params@)
}

/// A code object that is well formed stays so when more objects are stored.
pub proof fn lemma_code_wf_grows(code: CodeObject, objects: int, more: int, index: int)
    requires
        code_wf(code, objects, index),
        objects <= more,
    ensures
        code_wf(code, more, index),
{
    assert forall|i: int| 0 <= i < code.instructions@.len() implies instruction_wf(
        #[trigger] code.instructions@[i],
        code.instructions@.len() as int,
        more,
        index,
    ) by {
    }
}

/// Whether no two of the names are the same.
pub fn check_distinct(names: &Vec<String>) -> (ok: bool)
    ensures
        ok == distinct_names(names@),
{
    let mut j: usize = 0;
    while j < names.len()
        invariant
            j <= names@.len(),
            forall|a: int, b: int| 0 <= a < b < j ==> (#[trigger] names@[a])@ != (#[trigger] names@[b])@,
        decreases names@.len() - j,
    {
        let mut i: usize = 0;
        while i < j
            invariant
                i <= j < names@.len(),
                forall|a: int| 0 <= a < i ==> (#[trigger] names@[a])@ != names@[j as int]@,
            decreases j - i,
        {
            if names[i] == names[j] {
                return false;
            }
            i = i + 1;
        }
        j = j + 1;
    }
    true
}

/// Whether a code object is well formed as the code object at `index` of a
/// context that holds `objects` objects.
pub fn check_code(code: &CodeObject, objects: usize, index: usize) -> (ok: bool)
    ensures
        ok == code_wf(*code, objects as int, index as int),
{
    let length = code.instructions.len();
    let mut i: usize = 0;
    while i < length
        invariant
            length == code.instructions@.len(),
            i <= length,
            forall|k: int|
                0 <= k < i ==> instruction_wf(
                    #[trigger] code.instructions@[k],
                    length as int,
                    objects as int,
                    index as int,
                ),
        decreases length - i,
    {
        let ok = match &code.instructions[i] {
            Instruction::LoadConst { value } => value.index < objects,
            Instruction::BuildTuple { size } => *size as u64 <= i64::MAX as u64,
            Instruction::MakeFunction { code } => code.index < index,
            Instruction::Jump { target } => *target <= length,
            Instruction::JumpIfFalse { target } => *target <= length,
            _ => true,
        };
        if !ok {
            return false;
        }
        i = i + 1;
    }
    let mut r: usize = 0;
    while r < code.regions.len()
        invariant
            length == code.instructions@.len(),
            r <= code.regions@.len(),
            forall|k: int| 0 <= k < r ==> region_wf(#[trigger] code.regions@[k], length as int),
        decreases code.regions@.len() - r,
    {
        let region = &code.regions[r];
        if !(region.start <= region.end && region.end <= length && region.handler <= length) {
            return false;
        }
        r = r + 1;
    }
    check_distinct(&code.params)
}

} // verus!
