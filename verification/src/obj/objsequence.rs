//! What the sequence types share: the normalization of indices, the
//! resolution of slices, and the selection of the elements a slice names.

use vstd::prelude::*;
use vstd::arithmetic::div_mod::lemma_fundamental_div_mod_converse;
use crate::exceptions::{raised, Exception, ExceptionKind, ExceptionView};
use crate::obj::objbool::{boolval, truth};
use crate::pyobject::{refs_below, KindView, ObjRef, PyContext, PyObjectKind};
use crate::vm::{eval_method, index_bound, lemma_index_bound, method_outcome, PyResult, VirtualMachine};

verus! {

/// An index counted from the end when it is negative.
pub open spec fn normalize(len: int, index: int) -> int {
    if index < 0 {
        index + len
    } else {
        index
    }
}

/// The position that `index` names in a sequence of `len` elements, if it
/// names one.
pub open spec fn position(len: int, index: int) -> Option<int> {
    let n = normalize(len, index);
    if 0 <= n < len {
        Some(n)
    } else {
        None
    }
}

/// The place between elements that a slice bound names: `default` when the
/// bound is absent, else the normalized bound if it lies within the
/// sequence or at its end.
pub open spec fn bound(len: int, given: Option<i64>, default: int) -> Option<int> {
    match given {
        None => Some(default),
        Some(index) => {
            let n = normalize(len, index as int);
            if 0 <= n <= len {
                Some(n)
            } else {
                None
            }
        },
    }
}

/// A slice resolved against a sequence: the selected positions are
/// `start`, `start + step`, ... below `stop`.
pub struct SliceRange {
    pub start: usize,
    pub stop: usize,
    pub step: i64,
}

/// How many positions `start`, `start + step`, ... lie below `stop`.
pub open spec fn stepped_count(start: int, stop: int, step: int) -> int {
    if stop <= start {
        0
    } else {
        (stop - start + step - 1) / step
    }
}

/// The elements of `s` at the positions `start`, `start + step`, ... below
/// `stop`.
pub open spec fn select<T>(s: Seq<T>, start: int, stop: int, step: int) -> Seq<T> {
    Seq::new(stepped_count(start, stop, step) as nat, |k: int| s[start + k * step])
}

/// The message of a slice with a negative step.
pub open spec fn negative_step_message() -> Seq<char> {
    "negative step indexing not yet supported"@
}

/// The message of a slice with a step of zero.
pub open spec fn zero_step_message() -> Seq<char> {
    "slice step cannot be zero"@
}

/// The message of a slice with a bound outside the sequence.
pub open spec fn slice_range_message() -> Seq<char> {
    "slice index out of range"@
}

/// The resolution of a slice against a sequence of `len` elements.
///
/// A negative step is not supported and a zero step selects nothing
/// meaningful: both fail, whatever the bounds are. Otherwise both bounds
/// must lie within the sequence or at its end.
pub open spec fn resolve_slice(len: int, start: Option<i64>, stop: Option<i64>, step: Option<i64>) -> Result<
    (int, int, int),
    ExceptionView,
> {
    if step is Some && step->0 < 0 {
        Err(raised(ExceptionKind::UnsupportedOperation, negative_step_message()))
    } else if step is Some && step->0 == 0 {
        Err(raised(ExceptionKind::IndexError, zero_step_message()))
    } else {
        match (bound(len, start, 0), bound(len, stop, len)) {
            (Some(a), Some(b)) => Ok(
                (
                    a,
                    b,
                    match step {
                        Some(n) => n as int,
                        None => 1,
                    },
                ),
            ),
            _ => Err(raised(ExceptionKind::IndexError, slice_range_message())),
        }
    }
}

/// What a slice selects from `s`, or why it selects nothing.
pub open spec fn slice_outcome<T>(s: Seq<T>, start: Option<i64>, stop: Option<i64>, step: Option<i64>) -> Result<
    Seq<T>,
    ExceptionView,
> {
    match resolve_slice(s.len() as int, start, stop, step) {
        Ok((a, b, n)) => Ok(select(s, a, b, n)),
        Err(e) => Err(e),
    }
}

/// With step one, a slice selects the contiguous range between its bounds.
pub proof fn lemma_select_contiguous<T>(s: Seq<T>, start: int, stop: int)
    requires
        0 <= start <= stop <= s.len(),
    ensures
        select(s, start, stop, 1) == s.subrange(start, stop),
{
}

/// A slice with neither bounds nor step selects the whole sequence.
pub proof fn lemma_full_slice<T>(s: Seq<T>)
    ensures
        slice_outcome(s, None, None, None) == Ok::<Seq<T>, ExceptionView>(s),
{
    assert(select(s, 0, s.len() as int, 1) =~= s);
}

/// A slice with a negative step fails as unsupported, whatever its bounds
/// and whatever the sequence: it never selects anything.
pub proof fn lemma_negative_step_unsupported<T>(s: Seq<T>, start: Option<i64>, stop: Option<i64>, step: i64)
    requires
        step < 0,
    ensures
        slice_outcome(s, start, stop, Some(step)) == Err::<Seq<T>, ExceptionView>(
            raised(ExceptionKind::UnsupportedOperation, negative_step_message()),
        ),
{
}

/// The number of selected positions is the one `k` for which position
/// `k - 1` lies below `stop` and position `k` does not.
pub proof fn lemma_stepped_count(start: int, stop: int, step: int, k: int)
    requires
        step >= 1,
        k >= 0,
        start + k * step >= stop,
        k > 0 ==> start + (k - 1) * step < stop,
    ensures
        stepped_count(start, stop, step) == k,
{
    if stop <= start {
        if k > 0 {
            assert((k - 1) * step >= 0) by (nonlinear_arith)
                requires
                    k - 1 >= 0,
                    step >= 1,
            ;
        }
    } else {
        assert(k > 0) by {
        }
        let x = stop - start + step - 1;
        let r = x - k * step;
        assert((k - 1) * step == k * step - step) by (nonlinear_arith);
        lemma_fundamental_div_mod_converse(x, step, k, r);
    }
}

/// The position in a sequence of `sequence_length` elements that `p` names,
/// counting from the end when `p` is negative; `None` when it names none.
pub fn get_pos(sequence_length: usize, p: i64) -> (pos: Option<usize>)
    ensures
        match pos {
            Some(n) => position(sequence_length as int, p as int) == Some(n as int),
            None => position(sequence_length as int, p as int) is None,
        },
{
    let n: i128 = if p < 0 {
        p as i128 + sequence_length as i128
    } else {
        p as i128
    };
    if 0 <= n && n < sequence_length as i128 {
        Some(n as usize)
    } else {
        None
    }
}

/// The place that a slice bound names in a sequence of `sequence_length`
/// elements; `None` when it lies outside the sequence.
pub fn get_bound(sequence_length: usize, given: Option<i64>, default: usize) -> (place: Option<usize>)
    ensures
        match place {
            Some(n) => bound(sequence_length as int, given, default as int) == Some(n as int),
            None => bound(sequence_length as int, given, default as int) is None,
        },
{
    match given {
        None => Some(default),
        Some(p) => {
            let n: i128 = if p < 0 {
                p as i128 + sequence_length as i128
            } else {
                p as i128
            };
            if 0 <= n && n <= sequence_length as i128 {
                Some(n as usize)
            } else {
                None
            }
        },
    }
}

/// Resolves a slice against a sequence of `sequence_length` elements.
pub fn get_slice_range(sequence_length: usize, start: Option<i64>, stop: Option<i64>, step: Option<i64>) -> (range:
    Result<SliceRange, Exception>)
    ensures
        match range {
            Ok(r) => {
                &&& resolve_slice(sequence_length as int, start, stop, step) == Ok::<(int, int, int), ExceptionView>(
                    (r.start as int, r.stop as int, r.step as int),
                )
                &&& r.start <= sequence_length
                &&& r.stop <= sequence_length
                &&& r.step >= 1
            },
            Err(e) => resolve_slice(sequence_length as int, start, stop, step) == Err::<
                (int, int, int),
                ExceptionView,
            >(e@),
        },
{
    let step_by: i64 = match step {
        None => 1,
        Some(n) => {
            if n < 0 {
                return Err(
                    Exception::with_message(
                        ExceptionKind::UnsupportedOperation,
                        "negative step indexing not yet supported",
                    ),
                );
            }
            if n == 0 {
                return Err(Exception::with_message(ExceptionKind::IndexError, "slice step cannot be zero"));
            }
            n
        },
    };
    let first = get_bound(sequence_length, start, 0);
    let last = get_bound(sequence_length, stop, sequence_length);
    match (first, last) {
        (Some(a), Some(b)) => Ok(SliceRange { start: a, stop: b, step: step_by }),
        _ => Err(Exception::with_message(ExceptionKind::IndexError, "slice index out of range")),
    }
}

/// The positions that a resolved slice selects, in order.
pub fn slice_positions(range: &SliceRange) -> (positions: Vec<usize>)
    requires
        range.step >= 1,
    ensures
        positions@.len() == stepped_count(range.start as int, range.stop as int, range.step as int),
        forall|j: int|
            0 <= j < positions@.len() ==> (#[trigger] positions@[j]) == range.start + j * range.step && positions@[j]
                < range.stop,
{
    let start = range.start;
    let stop = range.stop;
    let step = range.step;
    let mut positions: Vec<usize> = Vec::new();
    let mut i: usize = start;
    let ghost mut k: int = 0;
    while i < stop
        invariant
            step >= 1,
            k >= 0,
            positions@.len() == k,
            forall|j: int| 0 <= j < k ==> (#[trigger] positions@[j]) == start + j * step && positions@[j] < stop,
            i < stop ==> i == start + k * step,
            i >= stop ==> start + k * step >= stop && (k > 0 ==> start + (k - 1) * step < stop),
        decreases stop - i,
    {
        positions.push(i);
        proof {
            assert((k + 1) * step == k * step + step) by (nonlinear_arith);
            k = k + 1;
        }
        if (stop - i) as u64 <= step as u64 {
            i = stop;
        } else {
            i = i + step as usize;
        }
    }
    proof {
        lemma_stepped_count(start as int, stop as int, step as int, k);
    }
    positions
}

/// The elements that a resolved slice selects from `elements`.
pub fn get_slice_items(elements: &Vec<ObjRef>, range: &SliceRange) -> (items: Vec<ObjRef>)
    requires
        range.step >= 1,
        range.stop <= elements@.len(),
    ensures
        items@ == select(elements@, range.start as int, range.stop as int, range.step as int),
{
    let positions = slice_positions(range);
    let mut items: Vec<ObjRef> = Vec::new();
    let mut j: usize = 0;
    while j < positions.len()
        invariant
            j <= positions@.len(),
            range.stop <= elements@.len(),
            forall|m: int|
                0 <= m < positions@.len() ==> (#[trigger] positions@[m]) == range.start + m * range.step
                    && positions@[m] < range.stop,
            items@.len() == j,
            forall|m: int| 0 <= m < j ==> (#[trigger] items@[m]) == elements@[range.start + m * range.step],
        decreases positions@.len() - j,
    {
        let at = positions[j];
        items.push(elements[at]);
        j = j + 1;
    }
    items
}

/// The elements `a` and `b` compare equal: the `__eq__` method of `a`,
/// called on `b`, yields a value that counts as true.
pub open spec fn compares_equal(ctx: &PyContext, a: ObjRef, b: ObjRef) -> bool {
    method_outcome(ctx, a, "__eq__"@, seq![b]) matches Ok(kind) && truth(kind)
}

/// Whether each element of `zelf` compares equal to the element of `other`
/// at the same position, asked from the front and no further than the first
/// pair that is unequal or whose comparison fails.
pub open spec fn items_equal(ctx: &PyContext, zelf: Seq<ObjRef>, other: Seq<ObjRef>) -> Result<bool, ExceptionView>
    decreases index_bound(zelf), 1nat, zelf.len(),
{
    if zelf.len() == 0 {
        Ok(true)
    } else {
        match items_equal(ctx, zelf.drop_last(), other) {
            Err(e) => Err(e),
            Ok(false) => Ok(false),
            Ok(true) => match method_outcome(ctx, zelf.last(), "__eq__"@, seq![other[zelf.len() - 1]]) {
                Err(e) => Err(e),
                Ok(kind) => Ok(truth(kind)),
            },
        }
    }
}

/// Whether two sequences are equal: they are not when their lengths differ,
/// and else they are when their elements compare equal pair by pair.
pub open spec fn seq_equal_outcome(ctx: &PyContext, zelf: Seq<ObjRef>, other: Seq<ObjRef>) -> Result<
    bool,
    ExceptionView,
>
    decreases index_bound(zelf), 1nat, zelf.len() + 1,
{
    if zelf.len() != other.len() {
        Ok(false)
    } else {
        items_equal(ctx, zelf, other)
    }
}

/// Once a prefix is found unequal, or a comparison in it has failed, the
/// elements after it are not asked.
pub proof fn lemma_items_settled(ctx: &PyContext, zelf: Seq<ObjRef>, other: Seq<ObjRef>, n: int)
    requires
        0 <= n <= zelf.len(),
        items_equal(ctx, zelf.take(n), other) != Ok::<bool, ExceptionView>(true),
    ensures
        items_equal(ctx, zelf, other) == items_equal(ctx, zelf.take(n), other),
    decreases zelf.len() - n,
{
    if n == zelf.len() {
        assert(zelf.take(n) =~= zelf);
    } else {
        assert(zelf.take(n + 1).drop_last() =~= zelf.take(n));
        lemma_items_settled(ctx, zelf, other, n + 1);
    }
}

/// Two sequences are equal exactly when they have the same length and all
/// corresponding elements compare equal. Sequences of unequal length are
/// unequal whatever their elements are, and no comparison of elements can
/// then fail.
pub proof fn lemma_seq_equal(ctx: &PyContext, zelf: Seq<ObjRef>, other: Seq<ObjRef>)
    ensures
        seq_equal_outcome(ctx, zelf, other) == Ok::<bool, ExceptionView>(true) <==> (zelf.len() == other.len()
            && forall|k: int| 0 <= k < zelf.len() ==> compares_equal(ctx, #[trigger] zelf[k], other[k])),
        zelf.len() != other.len() ==> seq_equal_outcome(ctx, zelf, other) == Ok::<bool, ExceptionView>(false),
{
    if zelf.len() == other.len() {
        lemma_items_equal(ctx, zelf, other);
    }
}

/// The elements of `zelf` are found equal to those of `other` exactly when
/// every pair compares equal.
pub proof fn lemma_items_equal(ctx: &PyContext, zelf: Seq<ObjRef>, other: Seq<ObjRef>)
    ensures
        items_equal(ctx, zelf, other) == Ok::<bool, ExceptionView>(true) <==> (forall|k: int|
            0 <= k < zelf.len() ==> compares_equal(ctx, #[trigger] zelf[k], other[k])),
    decreases zelf.len(),
{
    if zelf.len() > 0 {
        let init = zelf.drop_last();
        let last = zelf.len() - 1;
        lemma_items_equal(ctx, init, other);
        if items_equal(ctx, zelf, other) == Ok::<bool, ExceptionView>(true) {
            assert forall|k: int| 0 <= k < zelf.len() implies compares_equal(ctx, #[trigger] zelf[k], other[k]) by {
                if k < last {
                    assert(init[k] == zelf[k]);
                }
            }
        }
        if forall|k: int| 0 <= k < zelf.len() ==> compares_equal(ctx, #[trigger] zelf[k], other[k]) {
            assert forall|k: int| 0 <= k < init.len() implies compares_equal(ctx, #[trigger] init[k], other[k]) by {
            }
        }
    }
}

/// Whether two sequences of objects are equal.
///
/// Sequences of different lengths are unequal, and their elements are not
/// compared. Sequences of the same length are equal when each element's own
/// `__eq__`, called on the element at the same position, yields a true
/// value; the comparison stops at the first pair that is unequal or fails.
pub fn seq_equal(ctx: &PyContext, zelf: &Vec<ObjRef>, other: &Vec<ObjRef>) -> (equal: Result<bool, Exception>)
    requires
        ctx.wf(),
        refs_below(zelf@, ctx.objects@.len() as int),
        refs_below(other@, ctx.objects@.len() as int),
    ensures
        match equal {
            Ok(b) => seq_equal_outcome(ctx, zelf@, other@) == Ok::<bool, ExceptionView>(b),
            Err(e) => seq_equal_outcome(ctx, zelf@, other@) == Err::<bool, ExceptionView>(e@),
        },
        equal matches Err(e) ==> e.cause is None,
    decreases index_bound(zelf@), 1nat, 0nat,
{
    if zelf.len() != other.len() {
        return Ok(false);
    }
    let mut i: usize = 0;
    while i < zelf.len()
        invariant
            ctx.wf(),
            refs_below(zelf@, ctx.objects@.len() as int),
            refs_below(other@, ctx.objects@.len() as int),
            zelf@.len() == other@.len(),
            i <= zelf@.len(),
            items_equal(ctx, zelf@.take(i as int), other@) == Ok::<bool, ExceptionView>(true),
        decreases zelf@.len() - i,
    {
        let a = zelf[i];
        let mut rest: Vec<ObjRef> = Vec::new();
        rest.push(other[i]);
        proof {
            lemma_index_bound(zelf@, i as int);
            assert(zelf@.take(i + 1).drop_last() =~= zelf@.take(i as int));
        }
        match eval_method(ctx, a, "__eq__", &rest) {
            Err(e) => {
                proof {
                    lemma_items_settled(ctx, zelf@, other@, i + 1);
                }
                return Err(e);
            },
            Ok(kind) => {
                if !boolval(&kind) {
                    proof {
                        lemma_items_settled(ctx, zelf@, other@, i + 1);
                    }
                    return Ok(false);
                }
            },
        }
        i = i + 1;
    }
    assert(zelf@.take(zelf@.len() as int) =~= zelf@);
    Ok(true)
}

/// What a subscription of a sequence yields: one of its elements, or a new
/// sequence.
pub enum Fetched {
    Element(ObjRef),
    Made(KindView),
}

/// The message of subscripting what is neither a tuple nor a list.
pub open spec fn not_subscriptable_message() -> Seq<char> {
    "object is not subscriptable"@
}

/// The message of an index that names no element.
pub open spec fn index_message() -> Seq<char> {
    "Index out of bounds!"@
}

/// The message of a subscript that is neither an integer nor a slice.
pub open spec fn subscript_type_message() -> Seq<char> {
    "sequence indices must be integers or slices"@
}

/// What subscripting a tuple or a list of content `sequence` with an object
/// of content `subscript` yields: with an integer, the element at the
/// position it names; with a slice, a new sequence of the same kind that
/// holds the selected elements.
pub open spec fn get_item_outcome(sequence: KindView, subscript: KindView) -> Result<Fetched, ExceptionView> {
    match sequence {
        KindView::Tuple { elements } => match subscript {
            KindView::Integer { value } => match position(elements.len() as int, value as int) {
                Some(at) => Ok(Fetched::Element(elements[at])),
                None => Err(raised(ExceptionKind::IndexError, index_message())),
            },
            KindView::Slice { start, stop, step } => match slice_outcome(elements, start, stop, step) {
                Ok(selected) => Ok(Fetched::Made(KindView::Tuple { elements: selected })),
                Err(e) => Err(e),
            },
            _ => Err(raised(ExceptionKind::TypeError, subscript_type_message())),
        },
        KindView::List { elements } => match subscript {
            KindView::Integer { value } => match position(elements.len() as int, value as int) {
                Some(at) => Ok(Fetched::Element(elements[at])),
                None => Err(raised(ExceptionKind::IndexError, index_message())),
            },
            KindView::Slice { start, stop, step } => match slice_outcome(elements, start, stop, step) {
                Ok(selected) => Ok(Fetched::Made(KindView::List { elements: selected })),
                Err(e) => Err(e),
            },
            _ => Err(raised(ExceptionKind::TypeError, subscript_type_message())),
        },
        _ => Err(raised(ExceptionKind::TypeError, not_subscriptable_message())),
    }
}

/// Subscripting a tuple with a slice that has neither bounds nor step
/// yields a tuple of the same elements, and subscripting a list so yields a
/// list of the same elements.
pub proof fn lemma_whole_sequence(elements: Seq<ObjRef>)
    ensures
        get_item_outcome(
            KindView::Tuple { elements },
            KindView::Slice { start: None, stop: None, step: None },
        ) == Ok::<Fetched, ExceptionView>(Fetched::Made(KindView::Tuple { elements })),
        get_item_outcome(
            KindView::List { elements },
            KindView::Slice { start: None, stop: None, step: None },
        ) == Ok::<Fetched, ExceptionView>(Fetched::Made(KindView::List { elements })),
{
    lemma_full_slice(elements);
}

/// Subscripting a tuple or a list with a slice whose step is negative fails
/// as unsupported: it never yields a sequence, reversed or not.
pub proof fn lemma_reversed_sequence(elements: Seq<ObjRef>, start: Option<i64>, stop: Option<i64>, step: i64)
    requires
        step < 0,
    ensures
        get_item_outcome(KindView::Tuple { elements }, KindView::Slice { start, stop, step: Some(step) }) == Err::<
            Fetched,
            ExceptionView,
        >(raised(ExceptionKind::UnsupportedOperation, negative_step_message())),
        get_item_outcome(KindView::List { elements }, KindView::Slice { start, stop, step: Some(step) }) == Err::<
            Fetched,
            ExceptionView,
        >(raised(ExceptionKind::UnsupportedOperation, negative_step_message())),
{
    lemma_negative_step_unsupported(elements, start, stop, step);
}

/// A slice selects no more elements than lie before its upper bound.
pub proof fn lemma_stepped_count_bound(start: int, stop: int, step: int)
    requires
        step >= 1,
        0 <= start,
        0 <= stop,
    ensures
        0 <= stepped_count(start, stop, step) <= stop,
{
    if stop > start {
        let d = stop - start;
        let q = (d + step - 1) / step;
        vstd::arithmetic::div_mod::lemma_fundamental_div_mod(d + step - 1, step);
        vstd::arithmetic::div_mod::lemma_mod_bound(d + step - 1, step);
        if q > d {
            assert(step * q >= step * (d + 1)) by (nonlinear_arith)
                requires
                    q >= d + 1,
                    step >= 1,
            ;
            assert(step * (d + 1) >= d + step) by (nonlinear_arith)
                requires
                    d >= 1,
                    step >= 1,
            ;
        }
        assert(q >= 0) by (nonlinear_arith)
            requires
                step * q >= d + step - 1 - step,
                d >= 1,
                step >= 1,
        ;
    }
}

/// The elements or the new sequence that a subscription of `elements`
/// yields; `tuple` tells which kind of sequence a slice makes.
fn fetch(elements: &Vec<ObjRef>, tuple: bool, subscript: &PyObjectKind) -> (fetched: Result<
    Result<ObjRef, PyObjectKind>,
    Exception,
>)
    requires
        elements@.len() <= i64::MAX,
    ensures
        match fetched {
            Ok(Ok(element)) => get_item_outcome(
                if tuple {
                    KindView::Tuple { elements: elements@ }
                } else {
                    KindView::List { elements: elements@ }
                },
                subscript@,
            ) == Ok::<Fetched, ExceptionView>(Fetched::Element(element)) && elements@.contains(element),
            Ok(Err(kind)) => {
                &&& get_item_outcome(
                    if tuple {
                        KindView::Tuple { elements: elements@ }
                    } else {
                        KindView::List { elements: elements@ }
                    },
                    subscript@,
                ) == Ok::<Fetched, ExceptionView>(Fetched::Made(kind@))
                &&& forall|limit: int| refs_below(elements@, limit) ==> #[trigger] refs_below(sequence_items(kind), limit)
                &&& sequence_items(kind).len() <= i64::MAX
                &&& (kind is Tuple || kind is List)
            },
            Err(e) => get_item_outcome(
                if tuple {
                    KindView::Tuple { elements: elements@ }
                } else {
                    KindView::List { elements: elements@ }
                },
                subscript@,
            ) == Err::<Fetched, ExceptionView>(e@),
        },
{
    match subscript {
        PyObjectKind::Integer { value } => match get_pos(elements.len(), *value) {
            Some(at) => Ok(Ok(elements[at])),
            None => Err(Exception::with_message(ExceptionKind::IndexError, "Index out of bounds!")),
        },
        PyObjectKind::Slice { start, stop, step } => match get_slice_range(elements.len(), *start, *stop, *step) {
            Err(e) => Err(e),
            Ok(range) => {
                let items = get_slice_items(elements, &range);
                proof {
                    lemma_stepped_count_bound(range.start as int, range.stop as int, range.step as int);
                    assert forall|limit: int| refs_below(elements@, limit) implies #[trigger] refs_below(
                        items@,
                        limit,
                    ) by {
                        assert forall|j: int| 0 <= j < items@.len() implies (#[trigger] items@[j]).index < limit by {
                            lemma_select_position(range.start as int, range.stop as int, range.step as int, j);
                        }
                    }
                }
                if tuple {
                    Ok(Err(PyObjectKind::Tuple { elements: items }))
                } else {
                    Ok(Err(PyObjectKind::List { elements: items }))
                }
            },
        },
        _ => Err(Exception::with_message(ExceptionKind::TypeError, "sequence indices must be integers or slices")),
    }
}

/// The handles that a tuple or a list holds.
pub open spec fn sequence_items(kind: PyObjectKind) -> Seq<ObjRef> {
    match kind {
        PyObjectKind::Tuple { elements } => elements@,
        PyObjectKind::List { elements } => elements@,
        _ => Seq::empty(),
    }
}

/// Each position that a slice selects lies between its bounds.
pub proof fn lemma_select_position(start: int, stop: int, step: int, j: int)
    requires
        step >= 1,
        0 <= start,
        0 <= j < stepped_count(start, stop, step),
    ensures
        start <= start + j * step < stop,
{
    let d = stop - start;
    let q = (d + step - 1) / step;
    vstd::arithmetic::div_mod::lemma_fundamental_div_mod(d + step - 1, step);
    vstd::arithmetic::div_mod::lemma_mod_bound(d + step - 1, step);
    assert(j * step >= 0) by (nonlinear_arith)
        requires
            j >= 0,
            step >= 1,
    ;
    assert(step * (j + 1) <= step * q) by (nonlinear_arith)
        requires
            j + 1 <= q,
            step >= 1,
    ;
    assert(step * (j + 1) == j * step + step) by (nonlinear_arith);
}

/// Subscripts the tuple or list `sequence` with the object `subscript`.
///
/// With an integer, yields the element at the position the integer names,
/// counting from the end when it is negative; the context does not change.
/// With a slice, yields a new sequence of the same kind that holds the
/// selected elements. Fails with an `IndexError` when the position or a
/// slice bound lies outside the sequence or the step is zero, as
/// unsupported when the step is negative, and with a `TypeError` when
/// `sequence` is neither a tuple nor a list or `subscript` neither an
/// integer nor a slice; the context does not change then either.
pub fn get_item_in(ctx: &mut PyContext, sequence: ObjRef, subscript: ObjRef) -> (result: PyResult)
    requires
        old(ctx).wf(),
        old(ctx).valid(sequence),
        old(ctx).valid(subscript),
    ensures
        final(ctx).wf(),
        match result {
            Ok(r) => match get_item_outcome(old(ctx).kind(sequence)@, old(ctx).kind(subscript)@) {
                Ok(Fetched::Element(element)) => r == element && *final(ctx) == *old(ctx) && old(ctx).valid(r),
                Ok(Fetched::Made(kind)) => {
                    &&& final(ctx).extends(old(ctx))
                    &&& final(ctx).objects@.len() == old(ctx).objects@.len() + 1
                    &&& r.index == old(ctx).objects@.len()
                    &&& final(ctx).kind(r)@ == kind
                },
                Err(_) => false,
            },
            Err(e) => *final(ctx) == *old(ctx) && get_item_outcome(
                old(ctx).kind(sequence)@,
                old(ctx).kind(subscript)@,
            ) == Err::<Fetched, ExceptionView>(e@) && e.cause is None,
        },
{
    assert(ctx.object_wf(sequence.index as int));
    let fetched = match ctx.kind_of(sequence) {
        PyObjectKind::Tuple { elements } => fetch(elements, true, ctx.kind_of(subscript)),
        PyObjectKind::List { elements } => fetch(elements, false, ctx.kind_of(subscript)),
        _ => Err(Exception::with_message(ExceptionKind::TypeError, "object is not subscriptable")),
    };
    match fetched {
        Err(e) => Err(e),
        Ok(Ok(element)) => {
            Ok(element)
        },
        Ok(Err(kind)) => {
            proof {
                assert(refs_below(sequence_items(kind), sequence.index as int));
                assert forall|j: int| 0 <= j < sequence_items(kind).len() implies (#[trigger] sequence_items(
                    kind,
                )[j]).index < ctx.objects@.len() by {}
            }
            Ok(ctx.store(kind))
        },
    }
}

/// Subscripts the tuple or list `sequence` with the object `subscript`, in
/// the context of the virtual machine.
pub fn get_item(vm: &mut VirtualMachine, sequence: ObjRef, subscript: ObjRef) -> (result: PyResult)
    requires
        old(vm).wf(),
        old(vm).ctx.valid(sequence),
        old(vm).ctx.valid(subscript),
    ensures
        final(vm).wf(),
        match result {
            Ok(r) => match get_item_outcome(old(vm).ctx.kind(sequence)@, old(vm).ctx.kind(subscript)@) {
                Ok(Fetched::Element(element)) => r == element && final(vm).ctx == old(vm).ctx && old(vm).ctx.valid(r),
                Ok(Fetched::Made(kind)) => {
                    &&& final(vm).ctx.extends(&old(vm).ctx)
                    &&& final(vm).ctx.objects@.len() == old(vm).ctx.objects@.len() + 1
                    &&& r.index == old(vm).ctx.objects@.len()
                    &&& final(vm).ctx.kind(r)@ == kind
                },
                Err(_) => false,
            },
            Err(e) => final(vm).ctx == old(vm).ctx && get_item_outcome(
                old(vm).ctx.kind(sequence)@,
                old(vm).ctx.kind(subscript)@,
            ) == Err::<Fetched, ExceptionView>(e@),
        },
{
    get_item_in(&mut vm.ctx, sequence, subscript)
}

} // verus!
