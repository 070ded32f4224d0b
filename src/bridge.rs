use std::sync::Arc;
use vstd::prelude::*;

use crate::array::{
    share,
    arrays_model, buffers_model, buffers_of, children_of, create_of, import_of, lemma_buffers_of_err,
    lemma_child_decreases, lemma_children_of_err, null_of, opt_view, all_owned_by, buffers_owned_by,
    owned_by, ArrayData, ArrayModel, Buffer, FFI_ArrowArray,
};
use crate::datatypes::{field_model, DataType, Field, FieldModel, TypeModel};
use crate::error::{ArrowError, Result};
use crate::layout::{buffer_len, buffer_len_of, offsets_of};
use crate::schema::{model_supported, to_field, FFI_ArrowSchema};

verus! {

/// Returns the first `len` bytes of slot `index` of `array`, kept alive by `owner`; `None`
/// for an empty slot. The buffer holds a share of `owner`, so the owning record cannot be
/// released (that takes sole access to it) while the buffer lives.
pub fn create_buffer(owner: &Arc<FFI_ArrowArray>, array: &FFI_ArrowArray, index: usize, len: usize) -> (r:
    Result<Option<Buffer>>)
    requires
        index < array.spec_buffers().len(),
    ensures
        match create_of(*array, index as int, len as nat) {
            Ok(Some(v)) => r is Ok && r->Ok_0 is Some && r->Ok_0->Some_0@ == v
                && r->Ok_0->Some_0.has_owner_spec() && r->Ok_0->Some_0.spec_owner() == **owner,
            Ok(None) => r is Ok && r->Ok_0 is None,
            Err(e) => r == Err::<Option<Buffer>, ArrowError>(e),
        },
{
    match array.buffer(index) {
        None => Ok(None),
        Some(b) => if len <= b.len() {
            Ok(Some(b.window(len, owner)))
        } else {
            Err(ArrowError::CDataInterfaceProtocol)
        },
    }
}

/// Returns the data buffers of `array` (slots 1 and up), each as long as `buffer_len` says,
/// kept alive by `owner`. An empty slot among them is an error.
pub fn import_buffers(owner: &Arc<FFI_ArrowArray>, array: &FFI_ArrowArray, data_type: &DataType) -> (r:
    Result<Vec<Buffer>>)
    requires
        !array.is_released(),
        array.wf(),
        array.spec_length() >= 0,
    ensures
        match buffers_of(data_type.model(), *array, array.spec_n_buffers() - 1) {
            Ok(bs) => r is Ok && buffers_model(r->Ok_0@) == bs,
            Err(e) => r == Err::<Vec<Buffer>, ArrowError>(e),
        },
        r is Ok ==> buffers_owned_by(r->Ok_0@, **owner),
{
    let n = array.slots();
    let mut out: Vec<Buffer> = Vec::new();
    if n == 0 {
        proof {
            assert(buffers_model(out@) =~= Seq::<Seq<u8>>::empty());
        }
        return Ok(out);
    }
    let mut i: usize = 1;
    proof {
        assert(buffers_model(out@) =~= Seq::<Seq<u8>>::empty());
    }
    while i < n
        invariant
            1 <= i <= n,
            n == array.spec_buffers().len(),
            n == array.spec_n_buffers(),
            array.spec_length() >= 0,
            buffers_of(data_type.model(), *array, i - 1) == Ok::<Seq<Seq<u8>>, ArrowError>(
                buffers_model(out@),
            ),
            buffers_owned_by(out@, **owner),
        decreases n - i,
    {
        let len = match buffer_len(data_type, array, i) {
            Ok(l) => l,
            Err(e) => {
                proof {
                    lemma_buffers_of_err(data_type.model(), *array, i as int, n - 1);
                }
                return Err(e);
            },
        };
        match create_buffer(owner, array, i, len) {
            Ok(Some(b)) => {
                let ghost before = out@;
                out.push(b);
                proof {
                    assert(buffers_model(out@) =~= buffers_model(before).push(b@));
                }
            },
            Ok(None) => {
                proof {
                    lemma_buffers_of_err(data_type.model(), *array, i as int, n - 1);
                }
                return Err(ArrowError::CDataInterfaceProtocol);
            },
            Err(e) => {
                proof {
                    lemma_buffers_of_err(data_type.model(), *array, i as int, n - 1);
                }
                return Err(e);
            },
        }
        i = i + 1;
    }
    Ok(out)
}

/// Returns the validity bitmap of `array`: `ceil(length / 8)` bytes of slot 0, kept alive
/// by `owner`; `None` where the record has no slot or the slot is empty.
pub fn import_null_buffer(owner: &Arc<FFI_ArrowArray>, array: &FFI_ArrowArray) -> (r: Result<Option<Buffer>>)
    requires
        array.spec_length() >= 0,
    ensures
        match null_of(*array) {
            Ok(Some(v)) => r is Ok && r->Ok_0 is Some && r->Ok_0->Some_0@ == v,
            Ok(None) => r is Ok && r->Ok_0 is None,
            Err(e) => r == Err::<Option<Buffer>, ArrowError>(e),
        },
        r is Ok && r->Ok_0 is Some ==> r->Ok_0->Some_0.has_owner_spec()
            && r->Ok_0->Some_0.spec_owner() == **owner,
{
    if array.slots() == 0 {
        return Ok(None);
    }
    let bitmap_len = (array.length() as u128 + 7) / 8;
    if bitmap_len > usize::MAX as u128 {
        return Err(ArrowError::CDataInterfaceProtocol);
    }
    create_buffer(owner, array, 0, bitmap_len as usize)
}

/// Rebuilds the array data that the record pair `(array, schema)` describes, without
/// copying: every buffer is a window into the record's memory, kept alive by `owner`,
/// the root record of the import.
pub fn import_data(owner: &Arc<FFI_ArrowArray>, array: &FFI_ArrowArray, schema: &FFI_ArrowSchema) -> (r:
    Result<ArrayData>)
    requires
        array.wf(),
        schema.wf(),
    ensures
        match import_of(*array, *schema) {
            Ok(m) => r is Ok && r->Ok_0.model() == m,
            Err(e) => r == Err::<ArrayData, ArrowError>(e),
        },
        r is Ok ==> owned_by(r->Ok_0, **owner),
    decreases array,
{
    if array.released() || schema.released() {
        return Err(ArrowError::CDataInterfaceProtocol);
    }
    let field = to_field(schema)?;
    let length = array.length();
    let offset = array.raw_offset();
    if length < 0 || offset < 0 || length as u64 > usize::MAX as u64 || offset as u64 > usize::MAX as u64 {
        return Err(ArrowError::CDataInterfaceProtocol);
    }
    let buffers = import_buffers(owner, array, &field.data_type)?;
    let null_buffer = import_null_buffer(owner, array)?;
    if array.n_children() != schema.n_children() {
        return Err(ArrowError::CDataInterfaceProtocol);
    }
    let n = array.child_count();
    if schema.child_count() != n {
        return Err(ArrowError::CDataInterfaceProtocol);
    }
    let mut children: Vec<ArrayData> = Vec::new();
    let mut i: usize = 0;
    while i < n
        invariant
            i <= n,
            !array.is_released(),
            !schema.is_released(),
            array.wf(),
            schema.wf(),
            n == array.spec_children().len(),
            n == schema.spec_children().len(),
            array.spec_length() >= 0,
            array.spec_offset() >= 0,
            array.spec_length() <= usize::MAX,
            array.spec_offset() <= usize::MAX,
            length == array.spec_length(),
            schema.field_of() == Ok::<FieldModel, ArrowError>(field_model(field)),
            buffers_of(field_model(field).data_type, *array, array.spec_n_buffers() - 1) == Ok::<
                Seq<Seq<u8>>,
                ArrowError,
            >(buffers_model(buffers@)),
            null_of(*array) == Ok::<Option<Seq<u8>>, ArrowError>(opt_view(null_buffer)),
            array.spec_n_children() == schema.spec_n_children(),
            children_of(array.spec_children(), schema.spec_children(), i as int) == Ok::<
                Seq<ArrayModel>,
                ArrowError,
            >(arrays_model(children@)),
            buffers_owned_by(buffers@, **owner),
            null_buffer is Some ==> null_buffer->Some_0.has_owner_spec()
                && null_buffer->Some_0.spec_owner() == **owner,
            all_owned_by(children@, **owner),
        decreases n - i,
    {
        let ca = array.child(i);
        let cs = schema.child(i);
        proof {
            lemma_child_decreases(*array, i as int);
        }
        let c = match import_data(owner, ca, cs) {
            Ok(c) => c,
            Err(e) => {
                proof {
                    assert(children_of(array.spec_children(), schema.spec_children(), i as int + 1)
                        == Err::<Seq<ArrayModel>, ArrowError>(e));
                    lemma_children_of_err(array.spec_children(), schema.spec_children(), i as int + 1, n as int);
                }
                return Err(e);
            },
        };
        let ghost before = children@;
        children.push(c);
        proof {
            assert(children@.drop_last() =~= before);
        }
        i = i + 1;
    }
    let null_count = array.null_count();
    let offset = array.offset();
    Ok(ArrayData::new(field.data_type, length as usize, null_count, null_buffer, offset, buffers, children))
}

/// The type that a schema record describes, or why it describes none.
pub open spec fn type_of(s: FFI_ArrowSchema) -> Result<TypeModel> {
    if s.is_released() {
        Err(ArrowError::CDataInterfaceProtocol)
    } else {
        match s.field_of() {
            Ok(f) => Ok(f.data_type),
            Err(e) => Err(e),
        }
    }
}

/// Returns the type that `schema` describes.
fn type_of_schema(schema: &FFI_ArrowSchema) -> (r: Result<DataType>)
    requires
        schema.wf(),
    ensures
        match type_of(*schema) {
            Ok(t) => r is Ok && r->Ok_0.model() == t,
            Err(e) => r == Err::<DataType, ArrowError>(e),
        },
{
    if schema.released() {
        return Err(ArrowError::CDataInterfaceProtocol);
    }
    let f = to_field(schema)?;
    Ok(f.data_type)
}

/// The byte length of buffer `i` that an import derives from `(a, s)`.
pub open spec fn buffer_len_in(a: FFI_ArrowArray, s: FFI_ArrowSchema, i: nat) -> Result<nat> {
    match type_of(s) {
        Err(e) => Err(e),
        Ok(t) => if a.spec_length() < 0 {
            Err(ArrowError::CDataInterfaceProtocol)
        } else {
            buffer_len_of(t, a.spec_length() as nat, offsets_of(a), i)
        },
    }
}

fn buffer_len_of_pair(array: &FFI_ArrowArray, schema: &FFI_ArrowSchema, i: usize) -> (r: Result<usize>)
    requires
        schema.wf(),
    ensures
        match buffer_len_in(*array, *schema, i as nat) {
            Ok(n) => r == Ok::<usize, ArrowError>(n as usize),
            Err(e) => r == Err::<usize, ArrowError>(e),
        },
{
    let t = type_of_schema(schema)?;
    if array.length() < 0 {
        return Err(ArrowError::CDataInterfaceProtocol);
    }
    buffer_len(&t, array, i)
}

/// A record pair to import from: the records themselves and the root record that every
/// imported buffer keeps alive.
pub trait ArrowArrayRef {
    spec fn spec_array(&self) -> FFI_ArrowArray;

    spec fn spec_schema(&self) -> FFI_ArrowSchema;

    spec fn spec_owner(&self) -> FFI_ArrowArray;

    /// The root array record that imported buffers keep alive.
    fn owner(&self) -> (r: &Arc<FFI_ArrowArray>)
        ensures
            **r == self.spec_owner(),
    ;

    /// The array record.
    fn array(&self) -> (r: &FFI_ArrowArray)
        ensures
            *r == self.spec_array(),
    ;

    /// The schema record.
    fn schema(&self) -> (r: &FFI_ArrowSchema)
        ensures
            *r == self.spec_schema(),
    ;

    /// The type that the schema record describes.
    fn data_type(&self) -> (r: Result<DataType>)
        requires
            self.spec_schema().wf(),
        ensures
            match type_of(self.spec_schema()) {
                Ok(t) => r is Ok && r->Ok_0.model() == t,
                Err(e) => r == Err::<DataType, ArrowError>(e),
            },
    {
        type_of_schema(self.schema())
    }

    /// The number of bytes of buffer `i` (slot 0 being the validity bitmap).
    fn buffer_len(&self, i: usize) -> (r: Result<usize>)
        requires
            self.spec_schema().wf(),
        ensures
            match buffer_len_in(self.spec_array(), self.spec_schema(), i as nat) {
                Ok(n) => r == Ok::<usize, ArrowError>(n as usize),
                Err(e) => r == Err::<usize, ArrowError>(e),
            },
    {
        buffer_len_of_pair(self.array(), self.schema(), i)
    }

    /// The data buffers (slots 1 and up), each as long as `buffer_len` says, sharing the
    /// records' memory.
    fn buffers(&self) -> (r: Result<Vec<Buffer>>)
        requires
            self.spec_array().wf(),
            self.spec_schema().wf(),
        ensures
            match type_of(self.spec_schema()) {
                Err(e) => r == Err::<Vec<Buffer>, ArrowError>(e),
                Ok(t) => if self.spec_array().is_released() || self.spec_array().spec_length() < 0 {
                    r == Err::<Vec<Buffer>, ArrowError>(ArrowError::CDataInterfaceProtocol)
                } else {
                    match buffers_of(t, self.spec_array(), self.spec_array().spec_n_buffers() - 1) {
                        Ok(bs) => r is Ok && buffers_model(r->Ok_0@) == bs,
                        Err(e) => r == Err::<Vec<Buffer>, ArrowError>(e),
                    }
                },
            },
        r is Ok ==> buffers_owned_by(r->Ok_0@, self.spec_owner()),
    {
        let t = self.data_type()?;
        let array = self.array();
        if array.released() || array.length() < 0 {
            return Err(ArrowError::CDataInterfaceProtocol);
        }
        import_buffers(self.owner(), array, &t)
    }

    /// The validity bitmap (slot 0), `ceil(length / 8)` bytes sharing the record's memory;
    /// `None` where the slot is empty.
    fn null_bit_buffer(&self) -> (r: Result<Option<Buffer>>)
        requires
            self.spec_array().wf(),
        ensures
            if self.spec_array().is_released() || self.spec_array().spec_length() < 0 {
                r == Err::<Option<Buffer>, ArrowError>(ArrowError::CDataInterfaceProtocol)
            } else {
                match null_of(self.spec_array()) {
                    Ok(Some(v)) => r is Ok && r->Ok_0 is Some && r->Ok_0->Some_0@ == v,
                    Ok(None) => r is Ok && r->Ok_0 is None,
                    Err(e) => r == Err::<Option<Buffer>, ArrowError>(e),
                }
            },
        r is Ok && r->Ok_0 is Some ==> r->Ok_0->Some_0.has_owner_spec()
                && r->Ok_0->Some_0.spec_owner() == self.spec_owner(),
    {
        let array = self.array();
        let length = array.length();
        if array.released() || length < 0 {
            return Err(ArrowError::CDataInterfaceProtocol);
        }
        import_null_buffer(self.owner(), array)
    }

    /// Rebuilds the array data that the records describe, sharing their memory.
    fn to_data(&self) -> (r: Result<ArrayData>)
        requires
            self.spec_array().wf(),
            self.spec_schema().wf(),
        ensures
            match import_of(self.spec_array(), self.spec_schema()) {
                Ok(m) => r is Ok && r->Ok_0.model() == m,
                Err(e) => r == Err::<ArrayData, ArrowError>(e),
            },
        r is Ok ==> owned_by(r->Ok_0, self.spec_owner()),
    {
        import_data(self.owner(), self.array(), self.schema())
    }
}

/// The pair of records that moves one array across the C data interface, each record
/// shared so that imported buffers can keep the array record alive.
#[derive(Debug)]
pub struct ArrowArray {
    array: Arc<FFI_ArrowArray>,
    schema: Arc<FFI_ArrowSchema>,
}

/// A view of the records of a nested array inside an import; its buffers keep the root
/// array record alive.
#[derive(Debug)]
pub struct ArrowArrayChild<'a> {
    array: &'a FFI_ArrowArray,
    schema: &'a FFI_ArrowSchema,
    owner: Arc<FFI_ArrowArray>,
}

impl ArrowArrayRef for ArrowArray {
    closed spec fn spec_array(&self) -> FFI_ArrowArray {
        *self.array
    }

    closed spec fn spec_owner(&self) -> FFI_ArrowArray {
        *self.array
    }

    closed spec fn spec_schema(&self) -> FFI_ArrowSchema {
        *self.schema
    }

    fn owner(&self) -> (r: &Arc<FFI_ArrowArray>) {
        proof {
            assert(self.spec_owner() == *self.array);
        }
        &self.array
    }

    fn array(&self) -> (r: &FFI_ArrowArray) {
        &self.array
    }

    fn schema(&self) -> (r: &FFI_ArrowSchema) {
        &self.schema
    }
}

impl<'a> ArrowArrayRef for ArrowArrayChild<'a> {
    closed spec fn spec_array(&self) -> FFI_ArrowArray {
        *self.array
    }

    closed spec fn spec_owner(&self) -> FFI_ArrowArray {
        *self.owner
    }

    closed spec fn spec_schema(&self) -> FFI_ArrowSchema {
        *self.schema
    }

    fn owner(&self) -> (r: &Arc<FFI_ArrowArray>) {
        proof {
            assert(self.spec_owner() == *self.owner);
        }
        &self.owner
    }

    fn array(&self) -> (r: &FFI_ArrowArray) {
        self.array
    }

    fn schema(&self) -> (r: &FFI_ArrowSchema) {
        self.schema
    }
}

impl ArrowArray {
    /// Exports `data`: writes the array record that retains its buffers and the schema
    /// record of an unnamed field of its type, nullable when it has nulls. Fails with
    /// `UnsupportedType` exactly when some level of the type has no format.
    pub fn try_new(data: ArrayData) -> (r: Result<ArrowArray>)
        requires
            data.fits(),
        ensures
            r is Ok <==> model_supported(data.spec_data_type().model()),
            r is Err ==> r == Err::<ArrowArray, ArrowError>(ArrowError::UnsupportedType),
            r is Ok ==> {
                &&& r->Ok_0.spec_array().exports(data)
                &&& r->Ok_0.spec_array().wf()
                &&& r->Ok_0.spec_array().has_no_dictionary()
                &&& r->Ok_0.spec_schema().wf()
                &&& r->Ok_0.spec_schema().has_no_extras()
                &&& r->Ok_0.spec_schema().describes(
                    FieldModel {
                        name: Seq::empty(),
                        data_type: data.spec_data_type().model(),
                        nullable: data.spec_null_count() != 0,
                    },
                )
            },
    {
        let array = FFI_ArrowArray::new(&data);
        let nullable = data.null_count() != 0;
        let field = Field { name: String::new(), data_type: data.into_data_type(), nullable };
        let schema = FFI_ArrowSchema::try_new(&field)?;
        Ok(ArrowArray { array: Arc::new(array), schema: Arc::new(schema) })
    }

    /// Takes over a record pair handed in by a producer. Fails with `NullPointer` when
    /// either record is absent.
    pub fn try_from_raw(array: Option<Arc<FFI_ArrowArray>>, schema: Option<Arc<FFI_ArrowSchema>>) -> (r:
        Result<ArrowArray>)
        ensures
            r is Ok <==> (array is Some && schema is Some),
            r is Err ==> r == Err::<ArrowArray, ArrowError>(ArrowError::NullPointer),
            r is Ok ==> r->Ok_0.spec_array() == *array->Some_0 && r->Ok_0.spec_schema()
                == *schema->Some_0,
    {
        match (array, schema) {
            (Some(array), Some(schema)) => Ok(ArrowArray { array, schema }),
            _ => Err(ArrowError::NullPointer),
        }
    }

    /// A pair of released records, for a producer to fill.
    pub fn empty() -> (r: ArrowArray)
        ensures
            r.spec_array().is_released(),
            r.spec_schema().is_released(),
            r.spec_array().wf(),
            r.spec_schema().wf(),
            r.spec_array().has_no_dictionary(),
            r.spec_array().spec_length() == 0,
            r.spec_array().spec_null_count() == 0,
            r.spec_array().spec_offset() == 0,
            r.spec_array().spec_n_buffers() == 0,
            r.spec_array().spec_n_children() == 0,
            r.spec_array().spec_buffers().len() == 0,
            r.spec_array().spec_children().len() == 0,
            r.spec_schema().has_no_extras(),
            r.spec_schema().spec_format().len() == 0,
            r.spec_schema().spec_name().len() == 0,
            r.spec_schema().spec_flags() == 0,
            r.spec_schema().spec_n_children() == 0,
            r.spec_schema().spec_children().len() == 0,
    {
        ArrowArray {
            array: Arc::new(FFI_ArrowArray::empty()),
            schema: Arc::new(FFI_ArrowSchema::empty()),
        }
    }

    /// Hands the two records out; whoever takes them takes over their release.
    pub fn into_raw(this: ArrowArray) -> (r: (Arc<FFI_ArrowArray>, Arc<FFI_ArrowSchema>))
        ensures
            *r.0 == this.spec_array(),
            *r.1 == this.spec_schema(),
    {
        (this.array, this.schema)
    }
}

/// The records of the nested array at `index` of `(array, schema)`, rooted at `owner`.
fn create_child<'a>(owner: &Arc<FFI_ArrowArray>, array: &'a FFI_ArrowArray, schema: &'a FFI_ArrowSchema, index: usize) -> (r:
    ArrowArrayChild<'a>)
    requires
        !array.is_released(),
        !schema.is_released(),
        array.wf(),
        schema.wf(),
        index < array.spec_n_children(),
        index < schema.spec_n_children(),
    ensures
        r.spec_array() == array.spec_children()[index as int],
        r.spec_schema() == schema.spec_children()[index as int],
        r.spec_owner() == **owner,
        r.spec_array().wf(),
        r.spec_schema().wf(),
{
    ArrowArrayChild::from_raw(array.child(index), schema.child(index), share(owner))
}

impl ArrowArray {
    /// The records of the nested array at `index`, rooted at this pair's array record.
    pub fn child(&self, index: usize) -> (r: ArrowArrayChild<'_>)
        requires
            !self.spec_array().is_released(),
            !self.spec_schema().is_released(),
            self.spec_array().wf(),
            self.spec_schema().wf(),
            index < self.spec_array().spec_n_children(),
            index < self.spec_schema().spec_n_children(),
        ensures
            r.spec_array() == self.spec_array().spec_children()[index as int],
            r.spec_schema() == self.spec_schema().spec_children()[index as int],
            r.spec_owner() == self.spec_array(),
            r.spec_array().wf(),
            r.spec_schema().wf(),
    {
        create_child(&self.array, &self.array, &self.schema, index)
    }
}

impl<'a> ArrowArrayChild<'a> {
    /// A view of `(array, schema)` whose buffers keep `owner` alive.
    pub fn from_raw(array: &'a FFI_ArrowArray, schema: &'a FFI_ArrowSchema, owner: Arc<FFI_ArrowArray>) -> (r:
        ArrowArrayChild<'a>)
        ensures
            r.spec_array() == *array,
            r.spec_schema() == *schema,
            r.spec_owner() == *owner,
    {
        ArrowArrayChild { array, schema, owner }
    }

    /// The records of the nested array at `index`, rooted at the same owner.
    pub fn child(&self, index: usize) -> (r: ArrowArrayChild<'a>)
        requires
            !self.spec_array().is_released(),
            !self.spec_schema().is_released(),
            self.spec_array().wf(),
            self.spec_schema().wf(),
            index < self.spec_array().spec_n_children(),
            index < self.spec_schema().spec_n_children(),
        ensures
            r.spec_array() == self.spec_array().spec_children()[index as int],
            r.spec_schema() == self.spec_schema().spec_children()[index as int],
            r.spec_owner() == self.spec_owner(),
            r.spec_array().wf(),
            r.spec_schema().wf(),
    {
        create_child(&self.owner, self.array, self.schema, index)
    }
}

} // verus!
