use std::sync::Arc;
use vstd::prelude::*;

use crate::datatypes::{DataType, FieldModel, TypeModel};
use crate::layout::{buffer_len_of, offsets_of};
use crate::schema::FFI_ArrowSchema;

use crate::error::{ArrowError, Result};

verus! {

/// An immutable run of bytes, shared without copying.
///
/// A buffer read from an imported record keeps that record's root alive through `owner`.
#[derive(Debug)]
pub struct Buffer {
    data: Arc<Vec<u8>>,
    len: usize,
    owner: Option<Arc<FFI_ArrowArray>>,
}

/// Returns another handle to the value behind `a`.
pub(crate) fn share<T>(a: &Arc<T>) -> (r: Arc<T>)
    ensures
        *r == **a,
{
    a.clone()
}

impl View for Buffer {
    type V = Seq<u8>;

    closed spec fn view(&self) -> Seq<u8> {
        let n = if self.len <= (*self.data)@.len() {
            self.len as int
        } else {
            (*self.data)@.len() as int
        };
        (*self.data)@.take(n)
    }
}

impl Buffer {
    /// Creates a buffer that owns `bytes`.
    pub fn from_vec(bytes: Vec<u8>) -> (r: Buffer)
        ensures
            r@ == bytes@,
            !r.has_owner_spec(),
    {
        let len = bytes.len();
        let r = Buffer { data: Arc::new(bytes), len, owner: None };
        proof {
            assert(r@ =~= r.data@);
        }
        r
    }

    /// Whether this buffer keeps an imported record alive.
    pub closed spec fn has_owner_spec(&self) -> bool {
        self.owner is Some
    }

    /// The record that this buffer keeps alive, if any.
    pub closed spec fn spec_owner(&self) -> FFI_ArrowArray {
        *self.owner->Some_0
    }

    /// Whether this buffer keeps an imported record alive.
    pub fn has_owner(&self) -> (r: bool)
        ensures
            r == self.has_owner_spec(),
    {
        self.owner.is_some()
    }

    /// The number of bytes.
    pub fn len(&self) -> (r: usize)
        ensures
            r == self@.len(),
    {
        if self.len <= self.data.len() {
            self.len
        } else {
            self.data.len()
        }
    }

    /// The byte at `i`.
    pub fn get(&self, i: usize) -> (r: u8)
        requires
            i < self@.len(),
        ensures
            r == self@[i as int],
    {
        self.data[i]
    }

    /// A copy of the bytes.
    pub fn to_vec(&self) -> (r: Vec<u8>)
        ensures
            r@ == self@,
    {
        let n = self.len();
        let mut v: Vec<u8> = Vec::new();
        let mut i: usize = 0;
        while i < n
            invariant
                n == self@.len(),
                i <= n,
                v@ == self@.take(i as int),
            decreases n - i,
        {
            v.push(self.get(i));
            i = i + 1;
            proof {
                assert(v@ =~= self@.take(i as int));
            }
        }
        proof {
            assert(self@.take(n as int) =~= self@);
        }
        v
    }

    /// A buffer over the first `len` bytes of this one, anchored to `owner`.
    pub(crate) fn window(&self, len: usize, owner: &Arc<FFI_ArrowArray>) -> (r: Buffer)
        requires
            len <= self@.len(),
        ensures
            r@ == self@.take(len as int),
            r.has_owner_spec(),
            r.spec_owner() == **owner,
    {
        let r = Buffer { data: share(&self.data), len, owner: Some(share(owner)) };
        proof {
            assert(r@ =~= self@.take(len as int));
        }
        r
    }
}

/// The array record of the C data interface: lengths and counts, one slot per buffer,
/// and one child record per child array.
#[allow(non_camel_case_types)]
#[derive(Debug)]
pub struct FFI_ArrowArray {
    length: i64,
    null_count: i64,
    offset: i64,
    n_buffers: i64,
    n_children: i64,
    buffers: Vec<Option<Buffer>>,
    children: Vec<FFI_ArrowArray>,
    dictionary: Option<Box<FFI_ArrowArray>>,
    released: bool,
}

/// The bytes of an optional buffer.
pub open spec fn opt_view(b: Option<Buffer>) -> Option<Seq<u8>> {
    match b {
        Some(b) => Some(b@),
        None => None,
    }
}

/// Columnar data: a type, a logical length and offset, a null count, an optional validity
/// bitmap, the type's data buffers and one child per nested field.
#[derive(Debug)]
pub struct ArrayData {
    data_type: DataType,
    len: usize,
    null_count: usize,
    offset: usize,
    null_buffer: Option<Buffer>,
    buffers: Vec<Buffer>,
    child_data: Vec<ArrayData>,
}

impl ArrayData {
    pub closed spec fn spec_data_type(self) -> DataType {
        self.data_type
    }

    pub closed spec fn spec_len(self) -> usize {
        self.len
    }

    pub closed spec fn spec_null_count(self) -> usize {
        self.null_count
    }

    pub closed spec fn spec_offset(self) -> usize {
        self.offset
    }

    pub closed spec fn spec_null_buffer(self) -> Option<Buffer> {
        self.null_buffer
    }

    pub closed spec fn spec_buffers(self) -> Seq<Buffer> {
        self.buffers@
    }

    pub closed spec fn spec_child_data(self) -> Seq<ArrayData> {
        self.child_data@
    }

    /// Whether every length, count and offset in this tree fits the signed 64-bit fields
    /// of the interface's records.
    pub open spec fn fits(self) -> bool
        decreases self,
    {
        &&& self.spec_len() <= i64::MAX
        &&& self.spec_null_count() <= i64::MAX
        &&& self.spec_offset() <= i64::MAX
        &&& self.spec_buffers().len() < i64::MAX
        &&& self.spec_child_data().len() <= i64::MAX
        &&& all_fit(self.spec_child_data())
    }

    /// Assembles array data from its parts.
    pub fn new(
        data_type: DataType,
        len: usize,
        null_count: usize,
        null_buffer: Option<Buffer>,
        offset: usize,
        buffers: Vec<Buffer>,
        child_data: Vec<ArrayData>,
    ) -> (r: ArrayData)
        ensures
            r.spec_data_type() == data_type,
            r.spec_len() == len,
            r.spec_null_count() == null_count,
            r.spec_null_buffer() == null_buffer,
            r.spec_offset() == offset,
            r.spec_buffers() == buffers@,
            r.spec_child_data() == child_data@,
    {
        ArrayData { data_type, len, null_count, offset, null_buffer, buffers, child_data }
    }

    /// Gives up the data and keeps its type.
    pub fn into_data_type(self) -> (r: DataType)
        ensures
            r == self.spec_data_type(),
    {
        self.data_type
    }

    pub fn data_type(&self) -> (r: &DataType)
        ensures
            *r == self.spec_data_type(),
    {
        &self.data_type
    }

    pub fn len(&self) -> (r: usize)
        ensures
            r == self.spec_len(),
    {
        self.len
    }

    pub fn null_count(&self) -> (r: usize)
        ensures
            r == self.spec_null_count(),
    {
        self.null_count
    }

    pub fn offset(&self) -> (r: usize)
        ensures
            r == self.spec_offset(),
    {
        self.offset
    }

    pub fn null_buffer(&self) -> (r: &Option<Buffer>)
        ensures
            *r == self.spec_null_buffer(),
    {
        &self.null_buffer
    }

    pub fn buffers(&self) -> (r: &Vec<Buffer>)
        ensures
            r@ == self.spec_buffers(),
    {
        &self.buffers
    }

    pub fn child_data(&self) -> (r: &Vec<ArrayData>)
        ensures
            r@ == self.spec_child_data(),
    {
        &self.child_data
    }
}

impl Buffer {
    /// Another handle to the same bytes, keeping the same owner.
    pub fn retain(&self) -> (r: Buffer)
        ensures
            r@ == self@,
            r.has_owner_spec() == self.has_owner_spec(),
    {
        let owner = match &self.owner {
            Some(o) => Some(share(o)),
            None => None,
        };
        Buffer { data: share(&self.data), len: self.len, owner }
    }
}

impl FFI_ArrowArray {
    pub closed spec fn spec_length(self) -> i64 {
        self.length
    }

    pub closed spec fn spec_null_count(self) -> i64 {
        self.null_count
    }

    pub closed spec fn spec_offset(self) -> i64 {
        self.offset
    }

    pub closed spec fn spec_n_buffers(self) -> i64 {
        self.n_buffers
    }

    pub closed spec fn spec_n_children(self) -> i64 {
        self.n_children
    }

    pub closed spec fn spec_buffers(self) -> Seq<Option<Buffer>> {
        self.buffers@
    }

    pub closed spec fn spec_children(self) -> Seq<FFI_ArrowArray> {
        self.children@
    }

    /// Whether the record carries no dictionary.
    pub closed spec fn has_no_dictionary(self) -> bool {
        self.dictionary is None
    }

    /// Whether the release step has run (the interface's `release == NULL`).
    pub closed spec fn is_released(self) -> bool {
        self.released
    }

    /// A live record lists exactly `n_buffers` buffer slots and `n_children` live,
    /// well-formed children.
    pub open spec fn wf(self) -> bool
        decreases self,
    {
        !self.is_released() ==> {
            &&& self.spec_n_buffers() == self.spec_buffers().len()
            &&& self.spec_n_children() == self.spec_children().len()
            &&& all_live_wf(self.spec_children())
        }
    }

    /// Whether this live record is what `new` writes for `d`: the validity bitmap in
    /// slot 0, the data buffers after it, and one child record per child array.
    pub open spec fn exports(self, d: ArrayData) -> bool
        decreases self,
    {
        &&& !self.is_released()
        &&& self.spec_length() == d.spec_len() as i64
        &&& self.spec_null_count() == d.spec_null_count() as i64
        &&& self.spec_offset() == d.spec_offset() as i64
        &&& self.spec_n_buffers() == self.spec_buffers().len()
        &&& self.spec_buffers().len() == d.spec_buffers().len() + 1
        &&& opt_view(self.spec_buffers()[0]) == opt_view(d.spec_null_buffer())
        &&& forall|i: int|
            0 <= i < d.spec_buffers().len() ==> opt_view(#[trigger] self.spec_buffers()[i + 1])
                == Some(d.spec_buffers()[i]@)
        &&& self.spec_n_children() == self.spec_children().len()
        &&& all_export(self.spec_children(), d.spec_child_data())
    }
}

/// Whether every array of `ds` fits the interface's fields.
pub open spec fn all_fit(ds: Seq<ArrayData>) -> bool
    decreases ds,
{
    ds.len() == 0 || (all_fit(ds.drop_last()) && ds.last().fits())
}

/// Each array of a sequence that all fits, fits.
pub proof fn lemma_all_fit_index(ds: Seq<ArrayData>, i: int)
    requires
        all_fit(ds),
        0 <= i < ds.len(),
    ensures
        ds[i].fits(),
    decreases ds.len(),
{
    if i < ds.len() - 1 {
        lemma_all_fit_index(ds.drop_last(), i);
    }
}

/// Whether every record of `cs` is live and well formed.
pub open spec fn all_live_wf(cs: Seq<FFI_ArrowArray>) -> bool
    decreases cs,
{
    cs.len() == 0 || (all_live_wf(cs.drop_last()) && !cs.last().is_released() && cs.last().wf())
}

/// Whether `cs` and `ds` pair up, each record exporting its array data.
pub open spec fn all_export(cs: Seq<FFI_ArrowArray>, ds: Seq<ArrayData>) -> bool
    decreases cs,
{
    &&& cs.len() == ds.len()
    &&& (cs.len() == 0 || (all_export(cs.drop_last(), ds.drop_last()) && cs.last().exports(
        ds.last(),
    )))
}

/// A sequence whose records are all live and well formed satisfies `all_live_wf`.
pub proof fn lemma_all_live_wf_from_each(cs: Seq<FFI_ArrowArray>)
    requires
        forall|i: int| 0 <= i < cs.len() ==> !(#[trigger] cs[i]).is_released() && cs[i].wf(),
    ensures
        all_live_wf(cs),
    decreases cs.len(),
{
    if cs.len() > 0 {
        let d = cs.drop_last();
        assert forall|i: int| 0 <= i < d.len() implies !(#[trigger] d[i]).is_released() && d[i].wf() by {
            assert(d[i] == cs[i]);
        }
        lemma_all_live_wf_from_each(d);
    }
}

/// Each record of a sequence that is all live and well formed is live and well formed.
pub proof fn lemma_all_live_wf_index(cs: Seq<FFI_ArrowArray>, i: int)
    requires
        all_live_wf(cs),
        0 <= i < cs.len(),
    ensures
        !cs[i].is_released(),
        cs[i].wf(),
    decreases cs.len(),
{
    if i < cs.len() - 1 {
        lemma_all_live_wf_index(cs.drop_last(), i);
    }
}

impl FFI_ArrowArray {
    /// Creates the record that exports `data`: it retains every buffer of `data` and
    /// holds one child record per child array.
    pub fn new(data: &ArrayData) -> (r: FFI_ArrowArray)
        requires
            data.fits(),
        ensures
            r.exports(*data),
            r.wf(),
            r.has_no_dictionary(),
        decreases data,
    {
        let mut buffers: Vec<Option<Buffer>> = Vec::new();
        match &data.null_buffer {
            Some(b) => buffers.push(Some(b.retain())),
            None => buffers.push(None),
        }
        let nb = data.buffers.len();
        let mut i: usize = 0;
        while i < nb
            invariant
                nb == data.buffers.len(),
                nb < i64::MAX,
                i <= nb,
                buffers.len() == i + 1,
                opt_view(buffers@[0]) == opt_view(data.null_buffer),
                forall|j: int| 0 <= j < i ==> opt_view(#[trigger] buffers@[j + 1]) == Some(data.buffers@[j]@),
            decreases nb - i,
        {
            buffers.push(Some(data.buffers[i].retain()));
            i = i + 1;
        }
        let nc = data.child_data.len();
        let mut children: Vec<FFI_ArrowArray> = Vec::new();
        let mut k: usize = 0;
        while k < nc
            invariant
                nc == data.child_data.len(),
                k <= nc,
                all_fit(data.child_data@),
                children.len() == k,
                all_export(children@, data.child_data@.take(k as int)),
                all_live_wf(children@),
            decreases nc - k,
        {
            proof {
                assert(decreases_to!(data.child_data => data.child_data@));
                lemma_all_fit_index(data.child_data@, k as int);
            }
            let c = FFI_ArrowArray::new(&data.child_data[k]);
            let ghost before = children@;
            children.push(c);
            proof {
                assert(children@.drop_last() =~= before);
                assert(children@.len() <= nc);
                assert(data.child_data@.take(k + 1).drop_last() =~= data.child_data@.take(k as int));
            }
            k = k + 1;
        }
        proof {
            assert(data.child_data@.take(nc as int) =~= data.child_data@);
        }
        let n_buffers = buffers.len() as i64;
        let n_children = children.len() as i64;
        FFI_ArrowArray {
            length: data.len as i64,
            null_count: data.null_count as i64,
            offset: data.offset as i64,
            n_buffers,
            n_children,
            buffers,
            children,
            dictionary: None,
            released: false,
        }
    }
}

impl FFI_ArrowArray {
    /// Creates a released record, to be filled by a producer.
    pub fn empty() -> (r: FFI_ArrowArray)
        ensures
            r.is_released(),
            r.wf(),
            r.has_no_dictionary(),
            r.spec_length() == 0,
            r.spec_null_count() == 0,
            r.spec_offset() == 0,
            r.spec_n_buffers() == 0,
            r.spec_n_children() == 0,
            r.spec_buffers().len() == 0,
            r.spec_children().len() == 0,
    {
        FFI_ArrowArray {
            length: 0,
            null_count: 0,
            offset: 0,
            n_buffers: 0,
            n_children: 0,
            buffers: Vec::new(),
            children: Vec::new(),
            dictionary: None,
            released: true,
        }
    }

    /// Creates a live record from a producer's parts: its length, null count and offset,
    /// its buffer slots (slot 0 for the validity bitmap) and its child records.
    pub fn from_parts(
        length: i64,
        null_count: i64,
        offset: i64,
        buffers: Vec<Option<Buffer>>,
        children: Vec<FFI_ArrowArray>,
    ) -> (r: FFI_ArrowArray)
        requires
            buffers.len() <= i64::MAX,
            children.len() <= i64::MAX,
            forall|i: int|
                0 <= i < children.len() ==> !(#[trigger] children@[i]).is_released()
                    && children@[i].wf(),
        ensures
            !r.is_released(),
            r.wf(),
            r.spec_length() == length,
            r.spec_null_count() == null_count,
            r.spec_offset() == offset,
            r.spec_buffers() == buffers@,
            r.spec_children() == children@,
            r.has_no_dictionary(),
    {
        proof {
            lemma_all_live_wf_from_each(children@);
        }
        let n_buffers = buffers.len() as i64;
        let n_children = children.len() as i64;
        FFI_ArrowArray {
            length,
            null_count,
            offset,
            n_buffers,
            n_children,
            buffers,
            children,
            dictionary: None,
            released: false,
        }
    }

    /// The logical length, as the record states it.
    pub fn len(&self) -> (r: usize)
        ensures
            r == self.spec_length() as usize,
    {
        #[verifier::truncate]
        (self.length as usize)
    }

    /// Whether the logical length is zero.
    pub fn is_empty(&self) -> (r: bool)
        ensures
            r == (self.spec_length() == 0),
    {
        self.length == 0
    }

    /// The logical offset, as the record states it.
    pub fn offset(&self) -> (r: usize)
        ensures
            r == self.spec_offset() as usize,
    {
        #[verifier::truncate]
        (self.offset as usize)
    }

    /// The null count, as the record states it (the interface writes -1 for "unknown").
    pub fn null_count(&self) -> (r: usize)
        ensures
            r == self.spec_null_count() as usize,
    {
        #[verifier::truncate]
        (self.null_count as usize)
    }

    /// Runs the release step once: the record gives up its buffers and children and
    /// becomes released. On a record that is already released it does nothing.
    /// Returns whether the step ran.
    pub fn release(&mut self) -> (invoked: bool)
        ensures
            invoked == !old(self).is_released(),
            final(self).is_released(),
            final(self).wf(),
            old(self).is_released() ==> *final(self) == *old(self),
            invoked ==> final(self).spec_buffers().len() == 0 && final(self).spec_children().len()
                == 0,
    {
        if self.released {
            return false;
        }
        self.buffers = Vec::new();
        self.children = Vec::new();
        self.released = true;
        true
    }
}

impl FFI_ArrowArray {
    /// The buffer slot at `i`.
    pub fn buffer(&self, i: usize) -> (r: &Option<Buffer>)
        requires
            i < self.spec_buffers().len(),
        ensures
            *r == self.spec_buffers()[i as int],
    {
        &self.buffers[i]
    }

    /// Whether the release step has run.
    pub fn released(&self) -> (r: bool)
        ensures
            r == self.is_released(),
    {
        self.released
    }

    /// The logical offset, as the record states it.
    pub fn raw_offset(&self) -> (r: i64)
        ensures
            r == self.spec_offset(),
    {
        self.offset
    }

    /// The number of child records that the record holds.
    pub fn child_count(&self) -> (r: usize)
        ensures
            r == self.spec_children().len(),
    {
        self.children.len()
    }

    /// The number of buffer slots that the record holds.
    pub fn slots(&self) -> (r: usize)
        ensures
            r == self.spec_buffers().len(),
    {
        self.buffers.len()
    }

    /// The number of buffer slots, as the record states it.
    pub fn n_buffers(&self) -> (r: i64)
        ensures
            r == self.spec_n_buffers(),
    {
        self.n_buffers
    }

    /// The number of children, as the record states it.
    pub fn n_children(&self) -> (r: i64)
        ensures
            r == self.spec_n_children(),
    {
        self.n_children
    }

    /// The logical length, as the record states it.
    pub fn length(&self) -> (r: i64)
        ensures
            r == self.spec_length(),
    {
        self.length
    }

    /// The child record at `i` of this live record.
    pub fn child(&self, i: usize) -> (r: &FFI_ArrowArray)
        requires
            !self.is_released(),
            self.wf(),
            i < self.spec_n_children(),
        ensures
            *r == self.spec_children()[i as int],
            !r.is_released(),
            r.wf(),
    {
        proof {
            lemma_all_live_wf_index(self.spec_children(), i as int);
        }
        &self.children[i]
    }
}

/// Mathematical model of `ArrayData`: types become models and buffers their bytes.
pub struct ArrayModel {
    pub data_type: TypeModel,
    pub len: int,
    pub null_count: int,
    pub offset: int,
    pub null_buffer: Option<Seq<u8>>,
    pub buffers: Seq<Seq<u8>>,
    pub children: Seq<ArrayModel>,
}

/// The bytes of each buffer of `bs`.
pub open spec fn buffers_model(bs: Seq<Buffer>) -> Seq<Seq<u8>> {
    bs.map_values(|b: Buffer| b@)
}

impl ArrayData {
    pub open spec fn model(self) -> ArrayModel
        decreases self,
    {
        ArrayModel {
            data_type: self.spec_data_type().model(),
            len: self.spec_len() as int,
            null_count: self.spec_null_count() as int,
            offset: self.spec_offset() as int,
            null_buffer: opt_view(self.spec_null_buffer()),
            buffers: buffers_model(self.spec_buffers()),
            children: arrays_model(self.spec_child_data()),
        }
    }
}

pub open spec fn arrays_model(ds: Seq<ArrayData>) -> Seq<ArrayModel>
    decreases ds,
{
    if ds.len() == 0 {
        Seq::empty()
    } else {
        arrays_model(ds.drop_last()).push(ds.last().model())
    }
}

/// What reading `len` bytes from slot `index` of `a` gives: nothing for an empty slot,
/// an error where the slot holds fewer bytes.
pub open spec fn create_of(a: FFI_ArrowArray, index: int, len: nat) -> Result<Option<Seq<u8>>> {
    match a.spec_buffers()[index] {
        None => Ok(None),
        Some(b) => if len <= b@.len() {
            Ok(Some(b@.take(len as int)))
        } else {
            Err(ArrowError::CDataInterfaceProtocol)
        },
    }
}

/// The data buffers (slots 1 to `n`) that an import reads from `a`, of modelled type `t`.
pub open spec fn buffers_of(t: TypeModel, a: FFI_ArrowArray, n: int) -> Result<Seq<Seq<u8>>>
    decreases n,
{
    if n <= 0 {
        Ok(Seq::empty())
    } else {
        match buffers_of(t, a, n - 1) {
            Err(e) => Err(e),
            Ok(bs) => match buffer_len_of(t, a.spec_length() as nat, offsets_of(a), n as nat) {
                Err(e) => Err(e),
                Ok(l) => match create_of(a, n, l) {
                    Err(e) => Err(e),
                    Ok(None) => Err(ArrowError::CDataInterfaceProtocol),
                    Ok(Some(b)) => Ok(bs.push(b)),
                },
            },
        }
    }
}

pub proof fn lemma_buffers_of_err(t: TypeModel, a: FFI_ArrowArray, k: int, m: int)
    requires
        0 < k <= m,
        buffers_of(t, a, k) is Err,
    ensures
        buffers_of(t, a, m) == buffers_of(t, a, k),
    decreases m - k,
{
    if m > k {
        lemma_buffers_of_err(t, a, k, m - 1);
    }
}

/// The validity bitmap that an import reads from `a`: `ceil(length / 8)` bytes of slot 0.
pub open spec fn null_of(a: FFI_ArrowArray) -> Result<Option<Seq<u8>>> {
    if a.spec_buffers().len() == 0 {
        Ok(None)
    } else {
        let l = (a.spec_length() + 7) / 8;
        if l > usize::MAX {
            Err(ArrowError::CDataInterfaceProtocol)
        } else {
            create_of(a, 0, l as nat)
        }
    }
}

/// The array data that importing the record pair `(a, s)` yields, or the error it meets
/// first: the schema's type, then the lengths, the data buffers, the bitmap, and the
/// children in order.
pub open spec fn import_of(a: FFI_ArrowArray, s: FFI_ArrowSchema) -> Result<ArrayModel>
    decreases a, 1int,
{
    if a.is_released() || s.is_released() {
        Err(ArrowError::CDataInterfaceProtocol)
    } else {
        match s.field_of() {
            Err(e) => Err(e),
            Ok(f) => if a.spec_length() < 0 || a.spec_offset() < 0 || a.spec_length() > usize::MAX
                || a.spec_offset() > usize::MAX {
                Err(ArrowError::CDataInterfaceProtocol)
            } else {
                match buffers_of(f.data_type, a, a.spec_n_buffers() - 1) {
                    Err(e) => Err(e),
                    Ok(bs) => match null_of(a) {
                        Err(e) => Err(e),
                        Ok(nb) => if a.spec_n_children() != s.spec_n_children() {
                            Err(ArrowError::CDataInterfaceProtocol)
                        } else {
                            match children_of(a.spec_children(), s.spec_children(), a.spec_children().len() as int) {
                                Err(e) => Err(e),
                                Ok(cs) => Ok(
                                    ArrayModel {
                                        data_type: f.data_type,
                                        len: a.spec_length() as int,
                                        null_count: (a.spec_null_count() as usize) as int,
                                        offset: a.spec_offset() as int,
                                        null_buffer: nb,
                                        buffers: bs,
                                        children: cs,
                                    },
                                ),
                            }
                        },
                    },
                }
            },
        }
    }
}

/// The children that importing the first `n` record pairs yields, or the first error.
pub open spec fn children_of(as_: Seq<FFI_ArrowArray>, ss: Seq<FFI_ArrowSchema>, n: int) -> Result<Seq<ArrayModel>>
    decreases as_, 0int, n,
{
    if n <= 0 || n > as_.len() || n > ss.len() {
        Ok(Seq::empty())
    } else {
        match children_of(as_, ss, n - 1) {
            Err(e) => Err(e),
            Ok(cs) => match import_of(as_[n - 1], ss[n - 1]) {
                Err(e) => Err(e),
                Ok(c) => Ok(cs.push(c)),
            },
        }
    }
}

pub proof fn lemma_children_of_err(as_: Seq<FFI_ArrowArray>, ss: Seq<FFI_ArrowSchema>, k: int, m: int)
    requires
        0 < k <= m <= as_.len(),
        m <= ss.len(),
        children_of(as_, ss, k) is Err,
    ensures
        children_of(as_, ss, m) == children_of(as_, ss, k),
    decreases m - k,
{
    if m > k {
        lemma_children_of_err(as_, ss, k, m - 1);
    }
}

/// A child record is smaller than its parent.
pub proof fn lemma_child_decreases(a: FFI_ArrowArray, i: int)
    requires
        0 <= i < a.spec_children().len(),
    ensures
        decreases_to!(a => a.spec_children()[i]),
{
    assert(decreases_to!(a => a.children));
    assert(decreases_to!(a.children => a.children@));
    assert(decreases_to!(a.children@ => a.children@[i]));
}

/// A child array is smaller than its parent.
pub proof fn lemma_child_data_decreases(d: ArrayData, i: int)
    requires
        0 <= i < d.spec_child_data().len(),
    ensures
        decreases_to!(d => d.spec_child_data()[i]),
{
    assert(decreases_to!(d => d.child_data));
    assert(decreases_to!(d.child_data => d.child_data@));
    assert(decreases_to!(d.child_data@ => d.child_data@[i]));
}

/// Each record of a sequence that pairs up with array data exports its partner.
pub proof fn lemma_all_export_index(cs: Seq<FFI_ArrowArray>, ds: Seq<ArrayData>, i: int)
    requires
        all_export(cs, ds),
        0 <= i < cs.len(),
    ensures
        cs[i].exports(ds[i]),
        cs.len() == ds.len(),
    decreases cs.len(),
{
    if i < cs.len() - 1 {
        lemma_all_export_index(cs.drop_last(), ds.drop_last(), i);
    }
}

/// The fields nested directly in a modelled type.
pub open spec fn child_fields(t: TypeModel) -> Seq<FieldModel> {
    match t {
        TypeModel::List(c) => seq![*c],
        TypeModel::LargeList(c) => seq![*c],
        TypeModel::Struct(fs) => fs,
        _ => Seq::empty(),
    }
}

/// Whether `d` is laid out exactly as the interface prescribes for its type, at every
/// level: each data buffer and the bitmap are as long as the import derives, and there is
/// one child per nested field, of that field's type.
pub open spec fn canonical(d: ArrayData) -> bool
    decreases d,
{
    let t = d.spec_data_type().model();
    let bs = buffers_model(d.spec_buffers());
    let offsets = if bs.len() > 0 {
        Some(bs[0])
    } else {
        None
    };
    &&& forall|k: int|
        0 <= k < bs.len() ==> buffer_len_of(t, d.spec_len() as nat, offsets, (k + 1) as nat) == Ok::<
            nat,
            ArrowError,
        >((#[trigger] bs[k]).len())
    &&& match d.spec_null_buffer() {
        Some(b) => b@.len() == (d.spec_len() + 7) / 8,
        None => true,
    }
    &&& d.spec_child_data().len() == child_fields(t).len()
    &&& forall|i: int|
        0 <= i < d.spec_child_data().len() ==> (#[trigger] d.spec_child_data()[i]).spec_data_type().model()
            == child_fields(t)[i].data_type
    &&& all_canonical(d.spec_child_data())
}

/// Whether every array of `ds` is canonical.
pub open spec fn all_canonical(ds: Seq<ArrayData>) -> bool
    decreases ds,
{
    ds.len() == 0 || (all_canonical(ds.drop_last()) && canonical(ds.last()))
}

pub proof fn lemma_all_canonical_index(ds: Seq<ArrayData>, i: int)
    requires
        all_canonical(ds),
        0 <= i < ds.len(),
    ensures
        canonical(ds[i]),
    decreases ds.len(),
{
    if i < ds.len() - 1 {
        lemma_all_canonical_index(ds.drop_last(), i);
    }
}

/// Whether every buffer of `bs` keeps the record `o` alive.
pub open spec fn buffers_owned_by(bs: Seq<Buffer>, o: FFI_ArrowArray) -> bool {
    forall|i: int| 0 <= i < bs.len() ==> (#[trigger] bs[i]).has_owner_spec() && bs[i].spec_owner() == o
}

/// Whether every buffer of `d`, its bitmap included, down its whole child tree, keeps the
/// record `o` alive.
pub open spec fn owned_by(d: ArrayData, o: FFI_ArrowArray) -> bool
    decreases d,
{
    &&& (d.spec_null_buffer() is Some ==> d.spec_null_buffer()->Some_0.has_owner_spec()
        && d.spec_null_buffer()->Some_0.spec_owner() == o)
    &&& buffers_owned_by(d.spec_buffers(), o)
    &&& all_owned_by(d.spec_child_data(), o)
}

/// Whether every array of `ds` is `owned_by` the record `o`.
pub open spec fn all_owned_by(ds: Seq<ArrayData>, o: FFI_ArrowArray) -> bool
    decreases ds,
{
    ds.len() == 0 || (all_owned_by(ds.drop_last(), o) && owned_by(ds.last(), o))
}

} // verus!
