use vstd::prelude::*;

use crate::array::{
    all_export, arrays_model, buffers_model, buffers_of, children_of, import_of,
    lemma_all_export_index, lemma_all_fit_index, lemma_child_data_decreases, null_of, opt_view,
    canonical, child_fields, lemma_all_canonical_index, ArrayData, ArrayModel, FFI_ArrowArray,
};
use crate::datatypes::{FieldModel, TypeModel};
use crate::error::ArrowError;
use crate::layout::offsets_of;
use crate::schema::{
    all_describe,
    lemma_all_describe_index, lemma_all_supported_index, lemma_describes_reads_back,
    lemma_supported_has_formats,
    model_supported, FFI_ArrowSchema,
};

verus! {

/// The children of a record that describes a supported field describe its nested fields.
pub proof fn lemma_schema_children(s: FFI_ArrowSchema, m: FieldModel, i: int)
    requires
        s.describes(m),
        model_supported(m.data_type),
        0 <= i < child_fields(m.data_type).len(),
    ensures
        s.spec_children().len() == child_fields(m.data_type).len(),
        s.spec_children()[i].describes(child_fields(m.data_type)[i]),
        model_supported(child_fields(m.data_type)[i].data_type),
{
    match m.data_type {
        TypeModel::Struct(fs) => {
            assert(all_describe(s.spec_children(), fs));
            assert(s.spec_children().len() == fs.len());
            lemma_all_describe_index(s.spec_children(), fs, i);
            lemma_all_supported_index(fs, i);
        },
        _ => {},
    }
}

/// A record that describes a field has one child per nested field.
pub proof fn lemma_schema_children_len(s: FFI_ArrowSchema, m: FieldModel)
    requires
        s.describes(m),
    ensures
        s.spec_children().len() == child_fields(m.data_type).len(),
{
    match m.data_type {
        TypeModel::Struct(fs) => {
            assert(all_describe(s.spec_children(), fs));
        },
        _ => {},
    }
}

/// The data buffers of a record that exports canonical data read back as that data's.
pub proof fn lemma_buffers_read_back(d: ArrayData, a: FFI_ArrowArray, k: int)
    requires
        d.fits(),
        canonical(d),
        a.exports(d),
        0 <= k <= d.spec_buffers().len(),
    ensures
        buffers_of(d.spec_data_type().model(), a, k) == Ok::<Seq<Seq<u8>>, ArrowError>(
            buffers_model(d.spec_buffers()).take(k),
        ),
    decreases k,
{
    let bs = buffers_model(d.spec_buffers());
    if k == 0 {
        assert(bs.take(0) =~= Seq::<Seq<u8>>::empty());
    } else {
        lemma_buffers_read_back(d, a, k - 1);
        assert(opt_view(a.spec_buffers()[1int]) == Some(d.spec_buffers()[0]@));
        assert(offsets_of(a) == Some(bs[0]));
        assert(opt_view(a.spec_buffers()[(k - 1) + 1]) == Some(d.spec_buffers()[k - 1]@));
        assert(bs[k - 1] == d.spec_buffers()[k - 1]@);
        assert(d.spec_buffers()[k - 1]@.take(bs[k - 1].len() as int) =~= bs[k - 1]);
        assert(bs.take(k) =~= bs.take(k - 1).push(bs[k - 1]));
    }
}

/// Export then import: the record pair that exports canonical data `d`, with a schema
/// record describing a supported field of `d`'s type, imports as exactly `d` (type,
/// lengths, null count, bitmap, buffers and children).
pub proof fn lemma_export_import_round_trip(d: ArrayData, a: FFI_ArrowArray, s: FFI_ArrowSchema, m: FieldModel)
    requires
        d.fits(),
        canonical(d),
        a.exports(d),
        s.describes(m),
        m.data_type == d.spec_data_type().model(),
        model_supported(m.data_type),
    ensures
        import_of(a, s) == Ok::<ArrayModel, ArrowError>(d.model()),
    decreases d, 1int,
{
    let n = d.spec_child_data().len() as int;
    lemma_supported_has_formats(m.data_type);
    lemma_describes_reads_back(s, m);
    lemma_buffers_read_back(d, a, d.spec_buffers().len() as int);
    assert(buffers_model(d.spec_buffers()).take(d.spec_buffers().len() as int) =~= buffers_model(
        d.spec_buffers(),
    ));
    match d.spec_null_buffer() {
        Some(b) => {
            assert(b@.take(b@.len() as int) =~= b@);
        },
        None => {},
    }
    assert(null_of(a) == Ok::<Option<Seq<u8>>, ArrowError>(opt_view(d.spec_null_buffer())));
    lemma_schema_children_len(s, m);
    assert(all_export(a.spec_children(), d.spec_child_data()));
    lemma_children_read_back(d, a, s, m, n);
    assert(d.spec_child_data().take(n) =~= d.spec_child_data());
}

/// The first `k` children of an exported canonical array read back as its first `k`
/// child arrays.
pub proof fn lemma_children_read_back(d: ArrayData, a: FFI_ArrowArray, s: FFI_ArrowSchema, m: FieldModel, k: int)
    requires
        d.fits(),
        canonical(d),
        a.exports(d),
        s.describes(m),
        m.data_type == d.spec_data_type().model(),
        model_supported(m.data_type),
        0 <= k <= d.spec_child_data().len(),
    ensures
        children_of(a.spec_children(), s.spec_children(), k) == Ok::<Seq<ArrayModel>, ArrowError>(
            arrays_model(d.spec_child_data().take(k)),
        ),
    decreases d, 0int, k,
{
    let ds = d.spec_child_data();
    let fs = child_fields(m.data_type);
    if k == 0 {
        assert(ds.take(0) =~= Seq::<ArrayData>::empty());
    } else {
        lemma_children_read_back(d, a, s, m, k - 1);
        lemma_schema_children(s, m, k - 1);
        lemma_all_export_index(a.spec_children(), ds, k - 1);
        lemma_all_fit_index(ds, k - 1);
        lemma_all_canonical_index(ds, k - 1);
        lemma_child_data_decreases(d, k - 1);
        lemma_export_import_round_trip(ds[k - 1], a.spec_children()[k - 1], s.spec_children()[k - 1], fs[k - 1]);
        assert(ds.take(k).drop_last() =~= ds.take(k - 1));
    }
}

} // verus!
