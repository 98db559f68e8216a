//! What binding parameters means, whichever driver the parameters are bound for.
use crate::database::Database;
use crate::encode::Encode;
use crate::types::Type;
use vstd::prelude::*;

verus! {

/// What an argument list keeps of one parameter by itself: the wire type it is sent as and
/// whether it is `NULL`.
pub struct Parameter<TI> {
    pub type_info: TI,
    pub is_null: bool,
}

/// The parameters that have `types` as their wire types and `nulls` as their `NULL` flags,
/// position by position.
pub(crate) open spec fn parameters<TI>(types: Seq<TI>, nulls: Seq<bool>) -> Seq<Parameter<TI>> {
    Seq::new(types.len(), |i: int| Parameter { type_info: types[i], is_null: nulls[i] })
}

/// One value as it is bound: the wire type it is sent as, whether it is `NULL`, and the bytes
/// that its encoder writes.
pub struct Bound<TI> {
    pub type_info: TI,
    pub is_null: bool,
    pub bytes: Seq<u8>,
}

impl<TI> Bound<TI> {
    /// A `NULL` has no bytes.
    pub open spec fn valid(self) -> bool {
        self.is_null ==> self.bytes.len() == 0
    }

    /// The wire type and the `NULL` flag of this value.
    pub open spec fn parameter(self) -> Parameter<TI> {
        Parameter { type_info: self.type_info, is_null: self.is_null }
    }
}

/// How `value` is bound: as the wire type it asks for, or else as the wire type of its Rust
/// type, with the `NULL` flag and the bytes of its encoder.
pub open spec fn bound_of<DB: Database, T: Encode<DB> + Type<DB>>(value: T) -> Bound<DB::TypeInfo> {
    Bound {
        type_info: match value.produced() {
            Some(ty) => ty,
            None => T::type_info_spec(),
        },
        is_null: value.is_null(),
        bytes: value.encoded(),
    }
}

/// The parameters bound so far, in the order of the placeholders, and the bytes of all of
/// them, one value after the other.
pub struct Bindings<TI> {
    pub parameters: Seq<Parameter<TI>>,
    pub values: Seq<u8>,
}

impl<TI> Bindings<TI> {
    /// No parameter bound.
    pub open spec fn empty() -> Self {
        Bindings { parameters: Seq::empty(), values: Seq::empty() }
    }

    /// The number of parameters.
    pub open spec fn len(self) -> nat {
        self.parameters.len()
    }

    /// The wire type of each parameter.
    pub open spec fn types(self) -> Seq<TI> {
        Seq::new(self.parameters.len(), |i: int| self.parameters[i].type_info)
    }

    /// The `NULL` flag of each parameter.
    pub open spec fn nulls(self) -> Seq<bool> {
        Seq::new(self.parameters.len(), |i: int| self.parameters[i].is_null)
    }

    /// These bindings and one more parameter after them.
    pub open spec fn bind(self, value: Bound<TI>) -> Self {
        Bindings {
            parameters: self.parameters.push(value.parameter()),
            values: self.values + value.bytes,
        }
    }

    /// These bindings and all those of `other` after them.
    pub open spec fn append(self, other: Self) -> Self {
        Bindings {
            parameters: self.parameters + other.parameters,
            values: self.values + other.values,
        }
    }

    /// These bindings and, after them, the values of `bound`, bound one by one.
    pub open spec fn bind_all(self, bound: Seq<Bound<TI>>) -> Self
        decreases bound.len(),
    {
        if bound.len() == 0 {
            self
        } else {
            self.bind_all(bound.drop_last()).bind(bound.last())
        }
    }

    /// What binding the values of `bound` one by one, from nothing, comes to.
    pub open spec fn of(bound: Seq<Bound<TI>>) -> Self {
        Self::empty().bind_all(bound)
    }
}

/// One more wire type and one more flag make one more parameter.
pub(crate) proof fn lemma_parameters_push<TI>(
    types: Seq<TI>,
    nulls: Seq<bool>,
    ty: TI,
    is_null: bool,
)
    requires
        types.len() == nulls.len(),
    ensures
        parameters(types.push(ty), nulls.push(is_null)) == parameters(types, nulls).push(
            (Parameter { type_info: ty, is_null }),
        ),
{
}

/// Wire types and flags of two lists, joined, make the parameters of both, joined.
pub(crate) proof fn lemma_parameters_concat<TI>(
    types: Seq<TI>,
    nulls: Seq<bool>,
    more_types: Seq<TI>,
    more_nulls: Seq<bool>,
)
    requires
        types.len() == nulls.len(),
        more_types.len() == more_nulls.len(),
    ensures
        parameters(types + more_types, nulls + more_nulls) == parameters(types, nulls)
            + parameters(more_types, more_nulls),
{
}

/// Binding one value adds its wire type behind the wire types, its flag behind the flags and
/// its bytes behind the bytes; nothing that was there changes.
pub proof fn lemma_bind_parts<TI>(list: Bindings<TI>, value: Bound<TI>)
    ensures
        list.bind(value).len() == list.len() + 1,
        list.bind(value).types() == list.types().push(value.type_info),
        list.bind(value).nulls() == list.nulls().push(value.is_null),
        list.bind(value).values == list.values + value.bytes,
{
}

/// Appending joins the wire types, the flags and the bytes of two lists, each kept as it is
/// and in its order.
pub proof fn lemma_append_parts<TI>(list: Bindings<TI>, other: Bindings<TI>)
    ensures
        list.append(other).len() == list.len() + other.len(),
        list.append(other).types() == list.types() + other.types(),
        list.append(other).nulls() == list.nulls() + other.nulls(),
        list.append(other).values == list.values + other.values,
{
}

/// The number of bytes that the values before position `i` take: the lengths of those among
/// them that are not `NULL`, added up.
pub open spec fn offset<TI>(bound: Seq<Bound<TI>>, i: int) -> nat
    decreases i,
{
    if i <= 0 {
        0
    } else if bound[i - 1].is_null {
        offset(bound, i - 1)
    } else {
        offset(bound, i - 1) + bound[i - 1].bytes.len()
    }
}

/// Binding values one by one gives one parameter for each, in their order, with the wire
/// type and the `NULL` flag of each.
pub proof fn lemma_of_parameters<TI>(bound: Seq<Bound<TI>>)
    ensures
        Bindings::of(bound).len() == bound.len(),
        forall|i: int|
            0 <= i < bound.len() ==> #[trigger] Bindings::of(bound).parameters[i]
                == bound[i].parameter(),
    decreases bound.len(),
{
    if bound.len() > 0 {
        lemma_of_parameters(bound.drop_last());
    }
}

/// Binding values one by one lays their bytes end to end: the value at position `i`, if it
/// is not `NULL`, has its own bytes, all of them and nothing else, right behind those of the
/// values before it, and the bytes of the last value end the buffer. A `NULL` has none, as
/// [`Bound::valid`] says.
pub proof fn lemma_of_values<TI>(bound: Seq<Bound<TI>>, i: int)
    requires
        forall|j: int| 0 <= j < bound.len() ==> (#[trigger] bound[j]).valid(),
        0 <= i < bound.len(),
        !bound[i].is_null,
    ensures
        offset(bound, i) + bound[i].bytes.len() == offset(bound, i + 1),
        offset(bound, i + 1) <= offset(bound, bound.len() as int),
        Bindings::of(bound).values.len() == offset(bound, bound.len() as int),
        Bindings::of(bound).values.subrange(
            offset(bound, i) as int,
            offset(bound, i + 1) as int,
        ) == bound[i].bytes,
    decreases bound.len(),
{
    let front = bound.drop_last();
    let n = bound.len() as int;
    lemma_of_len_values(bound);
    lemma_offset_grows(bound, i + 1, n);
    lemma_offset_front(bound, front, i);
    lemma_offset_front(bound, front, n - 1);
    lemma_of_len_values(front);
    if i < n - 1 {
        lemma_of_values(front, i);
        lemma_offset_front(bound, front, i + 1);
    }
}

/// The offset of a position looks at the values before it alone.
proof fn lemma_offset_front<TI>(bound: Seq<Bound<TI>>, front: Seq<Bound<TI>>, i: int)
    requires
        0 <= i <= front.len() <= bound.len(),
        forall|j: int| 0 <= j < front.len() ==> front[j] == bound[j],
    ensures
        offset(front, i) == offset(bound, i),
    decreases i,
{
    if i > 0 {
        lemma_offset_front(bound, front, i - 1);
    }
}

/// Offsets do not go down from one position to a later one.
proof fn lemma_offset_grows<TI>(bound: Seq<Bound<TI>>, i: int, j: int)
    requires
        0 <= i <= j,
    ensures
        offset(bound, i) <= offset(bound, j),
    decreases j,
{
    if i < j {
        lemma_offset_grows(bound, i, j - 1);
    }
}

/// The bytes of all values, `NULL`s aside, are all the bytes there are.
proof fn lemma_of_len_values<TI>(bound: Seq<Bound<TI>>)
    requires
        forall|j: int| 0 <= j < bound.len() ==> (#[trigger] bound[j]).valid(),
    ensures
        Bindings::of(bound).values.len() == offset(bound, bound.len() as int),
    decreases bound.len(),
{
    if bound.len() > 0 {
        let front = bound.drop_last();
        lemma_of_len_values(front);
        lemma_offset_front(bound, front, front.len() as int);
    }
}

/// Binding the values of a second list one by one after a first list is appending the second
/// list, built by itself, to the first.
pub proof fn lemma_append_is_bind_all<TI>(list: Bindings<TI>, bound: Seq<Bound<TI>>)
    ensures
        list.append(Bindings::of(bound)) == list.bind_all(bound),
    decreases bound.len(),
{
    if bound.len() > 0 {
        lemma_append_is_bind_all(list, bound.drop_last());
        assert(list.append(Bindings::of(bound)).values =~= list.bind_all(bound).values);
    }
}

/// Binding `a` and then `b` is binding all of `a + b`.
proof fn lemma_bind_all_concat<TI>(list: Bindings<TI>, a: Seq<Bound<TI>>, b: Seq<Bound<TI>>)
    ensures
        list.bind_all(a + b) == list.bind_all(a).bind_all(b),
    decreases b.len(),
{
    if b.len() > 0 {
        lemma_bind_all_concat(list, a, b.drop_last());
        assert((a + b).drop_last() =~= a + b.drop_last());
    }
}

/// Binding all of `a` and then all of `b`, one by one, is binding `a`, binding `b`, and
/// appending the second list to the first; wherever the values are split in two.
pub proof fn lemma_of_concat<TI>(a: Seq<Bound<TI>>, b: Seq<Bound<TI>>)
    ensures
        Bindings::of(a + b) == Bindings::of(a).append(Bindings::of(b)),
{
    lemma_bind_all_concat(Bindings::empty(), a, b);
    lemma_append_is_bind_all(Bindings::of(a), b);
}

/// A list of bound parameters that grows one value or one whole list at a time.
///
/// A query builder binds through this trait and need not know the driver. Each driver lays the
/// parameters out in its own way; what all of them keep is stated here over [`Bindings`].
pub trait Arguments: Sized {
    /// The driver that the parameters are bound for.
    type Database: Database;

    /// The list is laid out as its driver wants it.
    spec fn wf(&self) -> bool;

    /// The parameters that the list holds.
    spec fn bindings(&self) -> Bindings<<Self::Database as Database>::TypeInfo>;

    /// Makes room for `len` more parameters with `size` bytes of values in all. The list holds
    /// what it held.
    fn reserve(&mut self, len: usize, size: usize)
        requires
            old(self).wf(),
        ensures
            final(self).wf(),
            final(self).bindings() == old(self).bindings(),
    ;

    /// Binds `value` as the next parameter: with the wire type that it asks for, or else
    /// that of its Rust type, and with the `NULL` flag and the bytes of its encoder.
    fn add<T: Encode<Self::Database> + Type<Self::Database>>(&mut self, value: T)
        requires
            old(self).wf(),
        ensures
            final(self).wf(),
            final(self).bindings() == old(self).bindings().bind(
                bound_of::<Self::Database, T>(value),
            ),
            bound_of::<Self::Database, T>(value).valid(),
    ;

    /// Binds every parameter of `other`, in order, after those of this list.
    fn extend(&mut self, other: Self)
        requires
            old(self).wf(),
            other.wf(),
        ensures
            final(self).wf(),
            final(self).bindings() == old(self).bindings().append(other.bindings()),
    ;
}

} // verus!
