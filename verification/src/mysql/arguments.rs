//! The argument list of a MySQL statement.
use crate::arguments::{
    bound_of, lemma_of_parameters, lemma_parameters_concat, lemma_parameters_push, parameters,
    Arguments, Bindings, Bound,
};
use crate::encode::{Encode, IsNull};
use crate::mysql::database::MySql;
use crate::mysql::null_bitmap::{
    bit, flags_of, is_bitmap, lemma_bit_of_packed, lemma_packed_flags, packed, push_flag,
    splice,
};
use crate::mysql::type_info::MySqlTypeInfo;
use crate::types::Type;
use vstd::prelude::*;

verus! {

/// The parameters of one execution of a prepared statement, laid out as the execute packet
/// wants them.
#[derive(Debug)]
pub struct MySqlArguments {
    /// The bytes of the values that are not `NULL`, one value after the other.
    pub(crate) values: Vec<u8>,
    /// The wire type of each parameter.
    pub(crate) types: Vec<MySqlTypeInfo>,
    /// One bit for each parameter, set where the parameter is `NULL`.
    pub(crate) null_bitmap: Vec<u8>,
}

impl View for MySqlArguments {
    type V = Bindings<MySqlTypeInfo>;

    closed spec fn view(&self) -> Bindings<MySqlTypeInfo> {
        Bindings {
            parameters: parameters(self.types@, flags_of(self.null_bitmap@, self.types@.len())),
            values: self.values@,
        }
    }
}

impl Default for MySqlArguments {
    /// An argument list without parameters.
    fn default() -> (args: Self)
        ensures
            args.wf(),
            args@ == Bindings::<MySqlTypeInfo>::empty(),
    {
        let args = MySqlArguments { values: Vec::new(), types: Vec::new(), null_bitmap: Vec::new() };
        assert(args@.parameters =~= Seq::empty());
        args
    }
}

impl MySqlArguments {
    /// The bitmap has one bit for each wire type, and no more bytes or set bits than those
    /// need.
    pub closed spec fn wf(&self) -> bool {
        is_bitmap(self.null_bitmap@, self.types@.len())
    }

    /// The number of parameters.
    pub fn len(&self) -> (n: usize)
        ensures
            n == self@.len(),
    {
        self.types.len()
    }

    /// The wire type of each parameter, in the order of the placeholders.
    pub fn types(&self) -> (types: &[MySqlTypeInfo])
        ensures
            types@ == self@.types(),
    {
        self.types.as_slice()
    }

    /// The bitmap of the `NULL` flags: parameter `i` at bit `i % 8` of byte `i / 8`, as few
    /// bytes as hold all parameters, unused bits clear.
    pub fn null_bitmap(&self) -> (bitmap: &[u8])
        requires
            self.wf(),
        ensures
            bitmap@ == packed(self@.nulls()),
    {
        proof {
            lemma_packed_flags(self.null_bitmap@, self.types@.len());
        }
        self.null_bitmap.as_slice()
    }

    /// The bytes of all values, one value after the other; a `NULL` has none.
    pub fn values(&self) -> (values: &[u8])
        ensures
            values@ == self@.values,
    {
        self.values.as_slice()
    }

    /// Binds `value` as the next parameter: its wire type is the one it asks for, or else the
    /// one of its Rust type; its bytes go behind those of the parameters before it; its bit in
    /// the bitmap is set if it is `NULL`.
    pub fn add<T: Encode<MySql> + Type<MySql>>(&mut self, value: T)
        requires
            old(self).wf(),
        ensures
            final(self).wf(),
            final(self)@ == old(self)@.bind(bound_of::<MySql, T>(value)),
            bound_of::<MySql, T>(value).valid(),
    {
        let ty: MySqlTypeInfo = match value.produces() {
            Some(ty) => ty,
            None => T::type_info(),
        };
        let index: usize = self.types.len();

        self.types.push(ty);
        let is_null: IsNull = value.encode(&mut self.values);
        push_flag(&mut self.null_bitmap, index, is_null == IsNull::Yes);

        proof {
            lemma_parameters_push(
                old(self).types@,
                flags_of(old(self).null_bitmap@, index as nat),
                ty,
                value.is_null(),
            );
        }
    }

    /// Binds every parameter of `other`, in order, after those of this list. The bits of
    /// `other` move to where its parameters now stand, across byte boundaries where the
    /// number of parameters here is no multiple of eight.
    pub fn extend(&mut self, other: Self)
        requires
            old(self).wf(),
            other.wf(),
        ensures
            final(self).wf(),
            final(self)@ == old(self)@.append(other@),
    {
        let mut rest = other;
        let index: usize = self.types.len();
        let count: usize = rest.types.len();

        self.values.append(&mut rest.values);
        self.types.append(&mut rest.types);
        assert(index + count == self.types.len());
        splice(&mut self.null_bitmap, index, rest.null_bitmap.as_slice(), count);

        proof {
            lemma_parameters_concat(
                old(self).types@,
                flags_of(old(self).null_bitmap@, index as nat),
                other.types@,
                flags_of(other.null_bitmap@, count as nat),
            );
        }
    }
}

impl Arguments for MySqlArguments {
    type Database = MySql;

    open spec fn wf(&self) -> bool {
        MySqlArguments::wf(self)
    }

    open spec fn bindings(&self) -> Bindings<MySqlTypeInfo> {
        self@
    }

    /// Asks for the room and goes on without it where it cannot be had: the buffers then
    /// grow as parameters are bound.
    fn reserve(&mut self, len: usize, size: usize) {
        let _ = self.types.try_reserve(len);
        let _ = self.values.try_reserve(size);
    }

    fn add<T: Encode<MySql> + Type<MySql>>(&mut self, value: T) {
        self.add(value)
    }

    fn extend(&mut self, other: Self) {
        self.extend(other);
    }
}

/// After binding values one by one the bitmap has a byte for every eight of them, the last
/// byte for what is left over, and bit `i` says whether value `i` is `NULL`.
pub proof fn lemma_null_bitmap_of(bound: Seq<Bound<MySqlTypeInfo>>)
    ensures
        packed(Bindings::of(bound).nulls()).len() == (bound.len() + 7) / 8,
        forall|i: int|
            0 <= i < bound.len() ==> #[trigger] bit(packed(Bindings::of(bound).nulls()), i)
                == bound[i].is_null,
{
    let nulls = Bindings::of(bound).nulls();
    lemma_of_parameters(bound);
    assert forall|i: int| 0 <= i < bound.len() implies #[trigger] bit(packed(nulls), i)
        == bound[i].is_null by {
        lemma_bit_of_packed(nulls, i);
    }
}

} // verus!
