use vstd::prelude::*;

use crate::datatypes::{fields_model, field_model, DataType, Field, FieldModel, TimeUnit, TypeModel};
use crate::error::{ArrowError, Result};
use crate::format::{format_of, to_format};

verus! {

/// The schema record of the C data interface: the type, name and nullability of a field,
/// with one child record per nested field.
///
/// A record whose `released` flag is set has had its release step run; it owns nothing
/// and its contents are not to be read.
#[allow(non_camel_case_types)]
#[derive(Debug)]
pub struct FFI_ArrowSchema {
    format: String,
    name: String,
    metadata: Option<String>,
    flags: i64,
    n_children: i64,
    children: Vec<FFI_ArrowSchema>,
    dictionary: Option<Box<FFI_ArrowSchema>>,
    released: bool,
}

/// Whether the nullable bit of a schema's flags is set.
pub open spec fn flags_nullable(flags: i64) -> bool {
    (flags >> 1) & 1 == 1
}

/// The format string of a modelled type's outer level.
pub open spec fn model_format(t: TypeModel) -> Option<Seq<char>> {
    match t {
        TypeModel::Leaf(d) => format_of(d),
        TypeModel::List(_) => Some("+l"@),
        TypeModel::LargeList(_) => Some("+L"@),
        TypeModel::Struct(_) => Some("+s"@),
        _ => None,
    }
}

/// Whether every level of a modelled type has a format string, and every struct level
/// has few enough fields that their count fits the record's signed 64-bit count.
pub open spec fn model_supported(t: TypeModel) -> bool
    decreases t,
{
    match t {
        TypeModel::Leaf(d) => format_of(d) is Some && !(d is List || d is LargeList || d is Struct),
        TypeModel::List(f) => model_supported(f.data_type),
        TypeModel::LargeList(f) => model_supported(f.data_type),
        TypeModel::Struct(fs) => fs.len() <= i64::MAX && all_supported(fs),
        _ => false,
    }
}

/// Whether every level of a modelled type has a format string (with no bound on the
/// number of struct fields).
pub open spec fn model_has_formats(t: TypeModel) -> bool
    decreases t,
{
    match t {
        TypeModel::Leaf(d) => format_of(d) is Some && !(d is List || d is LargeList || d is Struct),
        TypeModel::List(f) => model_has_formats(f.data_type),
        TypeModel::LargeList(f) => model_has_formats(f.data_type),
        TypeModel::Struct(fs) => all_have_formats(fs),
        _ => false,
    }
}

/// Whether every field of `fs` has a format string at every level.
pub open spec fn all_have_formats(fs: Seq<FieldModel>) -> bool
    decreases fs,
{
    fs.len() == 0 || (all_have_formats(fs.drop_last()) && model_has_formats(fs.last().data_type))
}

/// A supported type has a format string at every level.
pub proof fn lemma_supported_has_formats(t: TypeModel)
    requires
        model_supported(t),
    ensures
        model_has_formats(t),
    decreases t, 1int,
{
    match t {
        TypeModel::List(f) => lemma_supported_has_formats(f.data_type),
        TypeModel::LargeList(f) => lemma_supported_has_formats(f.data_type),
        TypeModel::Struct(fs) => lemma_all_supported_have_formats(fs),
        _ => {},
    }
}

pub proof fn lemma_all_supported_have_formats(fs: Seq<FieldModel>)
    requires
        all_supported(fs),
    ensures
        all_have_formats(fs),
    decreases fs, 0int,
{
    if fs.len() > 0 {
        lemma_all_supported_have_formats(fs.drop_last());
        lemma_supported_has_formats(fs.last().data_type);
    }
}

/// Whether every field of `fs` has a supported type.
pub open spec fn all_supported(fs: Seq<FieldModel>) -> bool
    decreases fs,
{
    fs.len() == 0 || (all_supported(fs.drop_last()) && model_supported(fs.last().data_type))
}

/// The type that a format string names, for the formats of types that nest nothing.
pub open spec fn leaf_of_format(s: Seq<char>) -> Option<DataType> {
    if s == "n"@ {
        Some(DataType::Null)
    } else if s == "b"@ {
        Some(DataType::Boolean)
    } else if s == "c"@ {
        Some(DataType::Int8)
    } else if s == "C"@ {
        Some(DataType::UInt8)
    } else if s == "s"@ {
        Some(DataType::Int16)
    } else if s == "S"@ {
        Some(DataType::UInt16)
    } else if s == "i"@ {
        Some(DataType::Int32)
    } else if s == "I"@ {
        Some(DataType::UInt32)
    } else if s == "l"@ {
        Some(DataType::Int64)
    } else if s == "L"@ {
        Some(DataType::UInt64)
    } else if s == "e"@ {
        Some(DataType::Float16)
    } else if s == "f"@ {
        Some(DataType::Float32)
    } else if s == "g"@ {
        Some(DataType::Float64)
    } else if s == "z"@ {
        Some(DataType::Binary)
    } else if s == "Z"@ {
        Some(DataType::LargeBinary)
    } else if s == "u"@ {
        Some(DataType::Utf8)
    } else if s == "U"@ {
        Some(DataType::LargeUtf8)
    } else if s == "tdD"@ {
        Some(DataType::Date32)
    } else if s == "tdm"@ {
        Some(DataType::Date64)
    } else if s == "tts"@ {
        Some(DataType::Time32(TimeUnit::Second))
    } else if s == "ttm"@ {
        Some(DataType::Time32(TimeUnit::Millisecond))
    } else if s == "ttu"@ {
        Some(DataType::Time64(TimeUnit::Microsecond))
    } else if s == "ttn"@ {
        Some(DataType::Time64(TimeUnit::Nanosecond))
    } else {
        None
    }
}

impl FFI_ArrowSchema {
    pub closed spec fn spec_format(self) -> Seq<char> {
        self.format@
    }

    pub closed spec fn spec_name(self) -> Seq<char> {
        self.name@
    }

    pub closed spec fn spec_flags(self) -> i64 {
        self.flags
    }

    pub closed spec fn spec_n_children(self) -> i64 {
        self.n_children
    }

    pub closed spec fn spec_children(self) -> Seq<FFI_ArrowSchema> {
        self.children@
    }

    /// Whether the record carries neither metadata nor a dictionary.
    pub closed spec fn has_no_extras(self) -> bool {
        self.metadata is None && self.dictionary is None
    }

    /// Whether the release step has run (the interface's `release == NULL`).
    pub closed spec fn is_released(self) -> bool {
        self.released
    }

    /// A live record lists exactly `n_children` live, well-formed children.
    pub open spec fn wf(self) -> bool
        decreases self,
    {
        !self.is_released() ==> {
            &&& self.spec_n_children() == self.spec_children().len()
            &&& all_live_wf(self.spec_children())
        }
    }

    /// Whether this live record describes the modelled field `f` the way `try_new` writes it.
    pub open spec fn describes(self, f: FieldModel) -> bool
        decreases self,
    {
        &&& !self.is_released()
        &&& model_format(f.data_type) == Some(self.spec_format())
        &&& self.spec_name() == f.name
        &&& self.spec_flags() == if f.nullable { 2i64 } else { 0i64 }
        &&& self.spec_n_children() == self.spec_children().len()
        &&& match f.data_type {
            TypeModel::List(c) => self.spec_children().len() == 1
                && self.spec_children()[0].describes(*c),
            TypeModel::LargeList(c) => self.spec_children().len() == 1
                && self.spec_children()[0].describes(*c),
            TypeModel::Struct(fs) => all_describe(self.spec_children(), fs),
            _ => self.spec_children().len() == 0,
        }
    }

    /// The field that a live, well-formed record describes, or why it describes none.
    pub open spec fn field_of(self) -> Result<FieldModel>
        decreases self, 1int,
    {
        let f = self.spec_format();
        let t: Result<TypeModel> = if f == "+l"@ || f == "+L"@ {
            if self.spec_children().len() == 0 {
                Err(ArrowError::CDataInterfaceProtocol)
            } else {
                match self.spec_children()[0].field_of() {
                    Ok(c) => Ok(
                        if f == "+l"@ {
                            TypeModel::List(Box::new(c))
                        } else {
                            TypeModel::LargeList(Box::new(c))
                        },
                    ),
                    Err(e) => Err(e),
                }
            }
        } else if f == "+s"@ {
            match fields_of(self.spec_children(), self.spec_children().len() as int) {
                Ok(fs) => Ok(TypeModel::Struct(fs)),
                Err(e) => Err(e),
            }
        } else {
            match leaf_of_format(f) {
                Some(d) => Ok(TypeModel::Leaf(d)),
                None => Err(ArrowError::UnsupportedType),
            }
        };
        match t {
            Ok(t) => Ok(
                FieldModel {
                    name: self.spec_name(),
                    data_type: t,
                    nullable: flags_nullable(self.spec_flags()),
                },
            ),
            Err(e) => Err(e),
        }
    }
}

/// Whether every record of `cs` is live and well formed.
pub open spec fn all_live_wf(cs: Seq<FFI_ArrowSchema>) -> bool
    decreases cs,
{
    cs.len() == 0 || (all_live_wf(cs.drop_last()) && !cs.last().is_released() && cs.last().wf())
}

/// Whether `cs` and `fs` pair up, each record describing its field.
pub open spec fn all_describe(cs: Seq<FFI_ArrowSchema>, fs: Seq<FieldModel>) -> bool
    decreases cs,
{
    &&& cs.len() == fs.len()
    &&& (cs.len() == 0 || (all_describe(cs.drop_last(), fs.drop_last()) && cs.last().describes(
        fs.last(),
    )))
}

/// The fields that the first `n` of `cs` describe, or the first error among them.
pub open spec fn fields_of(cs: Seq<FFI_ArrowSchema>, n: int) -> Result<Seq<FieldModel>>
    decreases cs, 0int, n,
{
    if n <= 0 || n > cs.len() {
        Ok(Seq::empty())
    } else {
        match fields_of(cs, n - 1) {
            Ok(fs) => match cs[n - 1].field_of() {
                Ok(f) => Ok(fs.push(f)),
                Err(e) => Err(e),
            },
            Err(e) => Err(e),
        }
    }
}


/// A prefix of fields that are all supported is itself all supported.
pub proof fn lemma_all_supported_prefix(fs: Seq<FieldModel>, k: int, n: int)
    requires
        0 <= k <= n <= fs.len(),
        all_supported(fs.take(n)),
    ensures
        all_supported(fs.take(k)),
    decreases n - k,
{
    if k < n {
        assert(fs.take(n).drop_last() =~= fs.take(n - 1));
        lemma_all_supported_prefix(fs, k, n - 1);
    }
}

/// `fields_model` has one entry per field, each the model of that field.
pub proof fn lemma_fields_model(fs: Seq<Field>)
    ensures
        fields_model(fs).len() == fs.len(),
        forall|i: int| 0 <= i < fs.len() ==> #[trigger] fields_model(fs)[i] == field_model(fs[i]),
    decreases fs.len(),
{
    if fs.len() > 0 {
        lemma_fields_model(fs.drop_last());
    }
}

impl FFI_ArrowSchema {
    /// Creates the record that describes `field`, with one child record per nested field.
    /// Fails with `UnsupportedType` exactly when some level of the field's type has no format.
    pub fn try_new(field: &Field) -> (r: Result<FFI_ArrowSchema>)
        ensures
            r is Ok <==> model_supported(field_model(*field).data_type),
            r is Err ==> r == Err::<FFI_ArrowSchema, ArrowError>(ArrowError::UnsupportedType),
            r is Ok ==> r->Ok_0.describes(field_model(*field)) && r->Ok_0.wf()
                && r->Ok_0.has_no_extras(),
        decreases field,
    {
        let format = to_format(&field.data_type)?;
        let mut children: Vec<FFI_ArrowSchema> = Vec::new();
        match &field.data_type {
            DataType::List(f) | DataType::LargeList(f) => {
                let c = Self::try_new(f)?;
                children.push(c);
                proof {
                    assert(children@.drop_last() =~= Seq::<FFI_ArrowSchema>::empty());
                    assert(all_live_wf(children@.drop_last()));
                    assert(c.wf());
                    assert(!children@.last().is_released());
                    assert(all_live_wf(children@));
                }
            },
            DataType::Struct(fs) => {
                proof {
                    lemma_fields_model(fs@);
                    assert(field_model(*field).data_type == TypeModel::Struct(fields_model(fs@)));
                }
                let n = fs.len();
                if n as u64 > i64::MAX as u64 {
                    return Err(ArrowError::UnsupportedType);
                }
                let mut i: usize = 0;
                while i < n
                    invariant
                        n == fs.len(),
                        n <= i64::MAX,
                        i <= n,
                        field.data_type == DataType::Struct(*fs),
                        field_model(*field).data_type == TypeModel::Struct(fields_model(fs@)),
                        fields_model(fs@).len() == n,
                        forall|j: int| 0 <= j < n ==> #[trigger] fields_model(fs@)[j] == field_model(fs@[j]),
                        all_supported(fields_model(fs@).take(i as int)),
                        all_describe(children@, fields_model(fs@).take(i as int)),
                        all_live_wf(children@),
                    decreases n - i,
                {
                    let ghost ms = fields_model(fs@);
                    proof {
                        assert(decreases_to!(*field => field.data_type));
                        assert(decreases_to!(field.data_type => field.data_type->Struct_0));
                        assert(decreases_to!(*fs => fs@));
                        assert(decreases_to!(fs@ => fs@[i as int]));
                        assert(ms.take(i + 1).drop_last() =~= ms.take(i as int));
                        assert(ms.take(i + 1).last() == field_model(fs@[i as int]));
                    }
                    match Self::try_new(&fs[i]) {
                        Ok(c) => {
                            let ghost old_children = children@;
                            children.push(c);
                            proof {
                                assert(children@.drop_last() =~= old_children);
                            }
                        },
                        Err(e) => {
                            proof {
                                if model_supported(TypeModel::Struct(ms)) {
                                    assert(ms.take(n as int) =~= ms);
                                    lemma_all_supported_prefix(ms, i as int + 1, n as int);
                                }
                            }
                            return Err(e);
                        },
                    }
                    i = i + 1;
                }
                proof {
                    assert(fields_model(fs@).take(n as int) =~= fields_model(fs@));
                }
            },
            _ => {},
        }
        proof {
            assert(children.len() <= i64::MAX);
            assert(all_live_wf(children@));
        }
        let n_children = children.len() as i64;
        let flags: i64 = if field.nullable { 2 } else { 0 };
        let s = FFI_ArrowSchema {
            format,
            name: field.name.clone(),
            metadata: None,
            flags,
            n_children,
            children,
            dictionary: None,
            released: false,
        };
        Ok(s)
    }
}

/// Each record of a sequence that is all live and well formed is live and well formed.
pub proof fn lemma_all_live_wf_index(cs: Seq<FFI_ArrowSchema>, i: int)
    requires
        all_live_wf(cs),
        0 <= i < cs.len(),
    ensures
        !cs[i].is_released(),
        cs[i].wf(),
    decreases cs.len(),
{
    if i < cs.len() - 1 {
        lemma_all_live_wf_index(cs.drop_last(), i);
    }
}

/// A sequence whose records are all live and well formed satisfies `all_live_wf`.
pub proof fn lemma_all_live_wf_from_each(cs: Seq<FFI_ArrowSchema>)
    requires
        forall|i: int| 0 <= i < cs.len() ==> !(#[trigger] cs[i]).is_released() && cs[i].wf(),
    ensures
        all_live_wf(cs),
    decreases cs.len(),
{
    if cs.len() > 0 {
        let d = cs.drop_last();
        assert forall|i: int| 0 <= i < d.len() implies !(#[trigger] d[i]).is_released() && d[i].wf() by {
            assert(d[i] == cs[i]);
        }
        lemma_all_live_wf_from_each(d);
    }
}

/// Once an error comes up among the first `k` children, it stays the outcome of any longer prefix.
pub proof fn lemma_fields_of_err(cs: Seq<FFI_ArrowSchema>, k: int, m: int)
    requires
        0 < k <= m <= cs.len(),
        fields_of(cs, k) is Err,
    ensures
        fields_of(cs, m) == fields_of(cs, k),
    decreases m - k,
{
    if m > k {
        lemma_fields_of_err(cs, k, m - 1);
    }
}

/// Whether `s` holds exactly the characters of `lit`.
fn same_text(s: &String, lit: &str) -> (r: bool)
    ensures
        r == (s@ == lit@),
{
    *s == lit.to_owned()
}

/// Returns the type that `format` names, for the formats of types that nest nothing.
fn leaf_type(format: &String) -> (r: Option<DataType>)
    ensures
        r == leaf_of_format(format@),
{
    if same_text(format, "n") {
        Some(DataType::Null)
    } else if same_text(format, "b") {
        Some(DataType::Boolean)
    } else if same_text(format, "c") {
        Some(DataType::Int8)
    } else if same_text(format, "C") {
        Some(DataType::UInt8)
    } else if same_text(format, "s") {
        Some(DataType::Int16)
    } else if same_text(format, "S") {
        Some(DataType::UInt16)
    } else if same_text(format, "i") {
        Some(DataType::Int32)
    } else if same_text(format, "I") {
        Some(DataType::UInt32)
    } else if same_text(format, "l") {
        Some(DataType::Int64)
    } else if same_text(format, "L") {
        Some(DataType::UInt64)
    } else if same_text(format, "e") {
        Some(DataType::Float16)
    } else if same_text(format, "f") {
        Some(DataType::Float32)
    } else if same_text(format, "g") {
        Some(DataType::Float64)
    } else if same_text(format, "z") {
        Some(DataType::Binary)
    } else if same_text(format, "Z") {
        Some(DataType::LargeBinary)
    } else if same_text(format, "u") {
        Some(DataType::Utf8)
    } else if same_text(format, "U") {
        Some(DataType::LargeUtf8)
    } else if same_text(format, "tdD") {
        Some(DataType::Date32)
    } else if same_text(format, "tdm") {
        Some(DataType::Date64)
    } else if same_text(format, "tts") {
        Some(DataType::Time32(TimeUnit::Second))
    } else if same_text(format, "ttm") {
        Some(DataType::Time32(TimeUnit::Millisecond))
    } else if same_text(format, "ttu") {
        Some(DataType::Time64(TimeUnit::Microsecond))
    } else if same_text(format, "ttn") {
        Some(DataType::Time64(TimeUnit::Nanosecond))
    } else {
        None
    }
}

impl FFI_ArrowSchema {
    /// Creates a released record, to be filled by a producer.
    pub fn empty() -> (r: FFI_ArrowSchema)
        ensures
            r.is_released(),
            r.wf(),
            r.has_no_extras(),
            r.spec_format().len() == 0,
            r.spec_name().len() == 0,
            r.spec_flags() == 0,
            r.spec_n_children() == 0,
            r.spec_children().len() == 0,
    {
        FFI_ArrowSchema {
            format: String::new(),
            name: String::new(),
            metadata: None,
            flags: 0,
            n_children: 0,
            children: Vec::new(),
            dictionary: None,
            released: true,
        }
    }

    /// Creates a live record from a producer's parts: its format string, name, flags and
    /// child records.
    pub fn from_parts(format: String, name: String, flags: i64, children: Vec<FFI_ArrowSchema>) -> (r:
        FFI_ArrowSchema)
        requires
            children.len() <= i64::MAX,
            forall|i: int|
                0 <= i < children.len() ==> !(#[trigger] children@[i]).is_released()
                    && children@[i].wf(),
        ensures
            !r.is_released(),
            r.wf(),
            r.spec_format() == format@,
            r.spec_name() == name@,
            r.spec_flags() == flags,
            r.spec_children() == children@,
            r.has_no_extras(),
    {
        proof {
            lemma_all_live_wf_from_each(children@);
        }
        let n_children = children.len() as i64;
        FFI_ArrowSchema {
            format,
            name,
            metadata: None,
            flags,
            n_children,
            children,
            dictionary: None,
            released: false,
        }
    }

    /// Whether the release step has run.
    pub fn released(&self) -> (r: bool)
        ensures
            r == self.is_released(),
    {
        self.released
    }

    /// The number of child records that the record holds.
    pub fn child_count(&self) -> (r: usize)
        ensures
            r == self.spec_children().len(),
    {
        self.children.len()
    }

    /// The number of children, as the record states it.
    pub fn n_children(&self) -> (r: i64)
        ensures
            r == self.spec_n_children(),
    {
        self.n_children
    }

    /// The format string of this live record.
    pub fn format(&self) -> (r: &str)
        requires
            !self.is_released(),
        ensures
            r@ == self.spec_format(),
    {
        self.format.as_str()
    }

    /// The field name of this live record.
    pub fn name(&self) -> (r: &str)
        requires
            !self.is_released(),
        ensures
            r@ == self.spec_name(),
    {
        self.name.as_str()
    }

    /// The child record at `index` of this live record.
    pub fn child(&self, index: usize) -> (r: &FFI_ArrowSchema)
        requires
            !self.is_released(),
            self.wf(),
            index < self.spec_n_children(),
        ensures
            *r == self.spec_children()[index as int],
            !r.is_released(),
            r.wf(),
    {
        proof {
            lemma_all_live_wf_index(self.spec_children(), index as int);
        }
        &self.children[index]
    }

    /// Whether the flags mark the field nullable.
    pub fn nullable(&self) -> (r: bool)
        ensures
            r == flags_nullable(self.spec_flags()),
    {
        (self.flags >> 1) & 1 == 1
    }

    /// Runs the release step once: the record gives up its strings and children and
    /// becomes released. On a record that is already released it does nothing.
    /// Returns whether the step ran.
    pub fn release(&mut self) -> (invoked: bool)
        ensures
            invoked == !old(self).is_released(),
            final(self).is_released(),
            final(self).wf(),
            old(self).is_released() ==> *final(self) == *old(self),
            invoked ==> final(self).spec_children().len() == 0,
    {
        if self.released {
            return false;
        }
        self.format = String::new();
        self.name = String::new();
        self.metadata = None;
        self.children = Vec::new();
        self.released = true;
        true
    }
}

/// Reads the field that a live record describes, with its nested fields.
pub fn to_field(schema: &FFI_ArrowSchema) -> (r: Result<Field>)
    requires
        !schema.is_released(),
        schema.wf(),
    ensures
        match schema.field_of() {
            Ok(m) => r is Ok && field_model(r->Ok_0) == m,
            Err(e) => r == Err::<Field, ArrowError>(e),
        },
    decreases schema,
{
    let list = same_text(&schema.format, "+l");
    let data_type = if list || same_text(&schema.format, "+L") {
        if schema.children.len() == 0 {
            return Err(ArrowError::CDataInterfaceProtocol);
        }
        proof {
            lemma_all_live_wf_index(schema.spec_children(), 0);
            assert(decreases_to!(schema.children => schema.children@));
        }
        let c = to_field(&schema.children[0])?;
        if list {
            DataType::List(Box::new(c))
        } else {
            DataType::LargeList(Box::new(c))
        }
    } else if same_text(&schema.format, "+s") {
        let n = schema.children.len();
        let mut fields: Vec<Field> = Vec::new();
        let mut i: usize = 0;
        while i < n
            invariant
                n == schema.children.len(),
                i <= n,
                !schema.is_released(),
                schema.wf(),
                schema.spec_format() == "+s"@,
                schema.spec_format() != "+l"@,
                schema.spec_format() != "+L"@,
                fields_of(schema.spec_children(), i as int) == Ok::<Seq<FieldModel>, ArrowError>(
                    fields_model(fields@),
                ),
            decreases n - i,
        {
            proof {
                lemma_all_live_wf_index(schema.spec_children(), i as int);
                assert(decreases_to!(schema.children => schema.children@));
            }
            let c = match to_field(&schema.children[i]) {
                Ok(c) => c,
                Err(e) => {
                    proof {
                        assert(fields_of(schema.spec_children(), i as int + 1) == Err::<
                            Seq<FieldModel>,
                            ArrowError,
                        >(e));
                        lemma_fields_of_err(schema.spec_children(), i as int + 1, n as int);
                    }
                    return Err(e);
                },
            };
            let ghost before = fields@;
            fields.push(c);
            proof {
                assert(fields@.drop_last() =~= before);
            }
            i = i + 1;
        }
        DataType::Struct(fields)
    } else {
        match leaf_type(&schema.format) {
            Some(d) => d,
            None => {
                return Err(ArrowError::UnsupportedType);
            },
        }
    };
    Ok(Field { name: schema.name.clone(), data_type, nullable: schema.nullable() })
}

/// The format string of a type that nests nothing names that type again, and is none of
/// the nested formats.
pub proof fn lemma_leaf_format(d: DataType)
    requires
        format_of(d) is Some,
        !(d is List || d is LargeList || d is Struct),
    ensures
        leaf_of_format(format_of(d)->0) == Some(d),
        format_of(d)->0 != "+l"@,
        format_of(d)->0 != "+L"@,
        format_of(d)->0 != "+s"@,
{
    reveal_strlit("n");
    assert("n"@.len() == 1 && "n"@[0] == 'n');
    reveal_strlit("b");
    assert("b"@.len() == 1 && "b"@[0] == 'b');
    reveal_strlit("c");
    assert("c"@.len() == 1 && "c"@[0] == 'c');
    reveal_strlit("C");
    assert("C"@.len() == 1 && "C"@[0] == 'C');
    reveal_strlit("s");
    assert("s"@.len() == 1 && "s"@[0] == 's');
    reveal_strlit("S");
    assert("S"@.len() == 1 && "S"@[0] == 'S');
    reveal_strlit("i");
    assert("i"@.len() == 1 && "i"@[0] == 'i');
    reveal_strlit("I");
    assert("I"@.len() == 1 && "I"@[0] == 'I');
    reveal_strlit("l");
    assert("l"@.len() == 1 && "l"@[0] == 'l');
    reveal_strlit("L");
    assert("L"@.len() == 1 && "L"@[0] == 'L');
    reveal_strlit("e");
    assert("e"@.len() == 1 && "e"@[0] == 'e');
    reveal_strlit("f");
    assert("f"@.len() == 1 && "f"@[0] == 'f');
    reveal_strlit("g");
    assert("g"@.len() == 1 && "g"@[0] == 'g');
    reveal_strlit("z");
    assert("z"@.len() == 1 && "z"@[0] == 'z');
    reveal_strlit("Z");
    assert("Z"@.len() == 1 && "Z"@[0] == 'Z');
    reveal_strlit("u");
    assert("u"@.len() == 1 && "u"@[0] == 'u');
    reveal_strlit("U");
    assert("U"@.len() == 1 && "U"@[0] == 'U');
    reveal_strlit("tdD");
    assert("tdD"@.len() == 3 && "tdD"@[0] == 't' && "tdD"@[1] == 'd' && "tdD"@[2] == 'D');
    reveal_strlit("tdm");
    assert("tdm"@.len() == 3 && "tdm"@[0] == 't' && "tdm"@[1] == 'd' && "tdm"@[2] == 'm');
    reveal_strlit("tts");
    assert("tts"@.len() == 3 && "tts"@[0] == 't' && "tts"@[1] == 't' && "tts"@[2] == 's');
    reveal_strlit("ttm");
    assert("ttm"@.len() == 3 && "ttm"@[0] == 't' && "ttm"@[1] == 't' && "ttm"@[2] == 'm');
    reveal_strlit("ttu");
    assert("ttu"@.len() == 3 && "ttu"@[0] == 't' && "ttu"@[1] == 't' && "ttu"@[2] == 'u');
    reveal_strlit("ttn");
    assert("ttn"@.len() == 3 && "ttn"@[0] == 't' && "ttn"@[1] == 't' && "ttn"@[2] == 'n');
    reveal_strlit("+l");
    assert("+l"@.len() == 2 && "+l"@[0] == '+' && "+l"@[1] == 'l');
    reveal_strlit("+L");
    assert("+L"@.len() == 2 && "+L"@[0] == '+' && "+L"@[1] == 'L');
    reveal_strlit("+s");
    assert("+s"@.len() == 2 && "+s"@[0] == '+' && "+s"@[1] == 's');
}

/// The three nested formats are distinct.
pub proof fn lemma_nested_formats_differ()
    ensures
        "+l"@ != "+L"@,
        "+l"@ != "+s"@,
        "+L"@ != "+s"@,
{
    reveal_strlit("+l");
    reveal_strlit("+L");
    reveal_strlit("+s");
    assert("+l"@[1] == 'l' && "+L"@[1] == 'L' && "+s"@[1] == 's');
}

/// Flags written for a field mark it nullable exactly when the field is.
pub proof fn lemma_flags_nullable(b: bool)
    ensures
        flags_nullable(if b { 2i64 } else { 0i64 }) == b,
{
    assert((2i64 >> 1) & 1 == 1) by (bit_vector);
    assert((0i64 >> 1) & 1 == 0) by (bit_vector);
}

/// The outcome for the first `k` children does not depend on the children after them.
pub proof fn lemma_fields_of_prefix(cs: Seq<FFI_ArrowSchema>, k: int)
    requires
        0 <= k < cs.len(),
    ensures
        fields_of(cs, k) == fields_of(cs.drop_last(), k),
    decreases k,
{
    if k > 0 {
        lemma_fields_of_prefix(cs, k - 1);
    }
}

/// Reading back a record that describes a supported field gives that field.
pub proof fn lemma_describes_reads_back(s: FFI_ArrowSchema, m: FieldModel)
    requires
        s.describes(m),
        model_has_formats(m.data_type),
    ensures
        s.field_of() == Ok::<FieldModel, ArrowError>(m),
    decreases m,
{
    lemma_flags_nullable(m.nullable);
    lemma_nested_formats_differ();
    match m.data_type {
        TypeModel::Leaf(d) => {
            lemma_leaf_format(d);
            assert(s.spec_format() == format_of(d)->0);
            assert(leaf_of_format(s.spec_format()) == Some(d));
        },
        TypeModel::List(c) => {
            lemma_describes_reads_back(s.spec_children()[0], *c);
        },
        TypeModel::LargeList(c) => {
            lemma_describes_reads_back(s.spec_children()[0], *c);
        },
        TypeModel::Struct(fs) => {
            lemma_all_describe_reads_back(s.spec_children(), fs);
        },
        _ => {},
    }
}

/// Reading back records that each describe a supported field gives those fields.
pub proof fn lemma_all_describe_reads_back(cs: Seq<FFI_ArrowSchema>, fs: Seq<FieldModel>)
    requires
        all_describe(cs, fs),
        all_have_formats(fs),
    ensures
        fields_of(cs, cs.len() as int) == Ok::<Seq<FieldModel>, ArrowError>(fs),
    decreases fs,
{
    if cs.len() > 0 {
        let n = cs.len() as int;
        lemma_all_describe_reads_back(cs.drop_last(), fs.drop_last());
        lemma_fields_of_prefix(cs, n - 1);
        lemma_describes_reads_back(cs.last(), fs.last());
        assert(fs.drop_last().push(fs.last()) =~= fs);
    } else {
        assert(fs =~= Seq::<FieldModel>::empty());
    }
}

/// Round trip of the format codec: the record that `try_new` writes for a field whose
/// type has a format string at every level reads back, through `to_field`, as that same
/// field (name, type and nullability).
pub proof fn lemma_format_round_trip(field: Field, schema: FFI_ArrowSchema)
    requires
        model_has_formats(field_model(field).data_type),
        schema.describes(field_model(field)),
    ensures
        schema.field_of() == Ok::<FieldModel, ArrowError>(field_model(field)),
{
    lemma_describes_reads_back(schema, field_model(field));
}

/// Each record of a sequence that pairs up with fields describes its partner.
pub proof fn lemma_all_describe_index(cs: Seq<FFI_ArrowSchema>, fs: Seq<FieldModel>, i: int)
    requires
        all_describe(cs, fs),
        0 <= i < cs.len(),
    ensures
        cs[i].describes(fs[i]),
        cs.len() == fs.len(),
    decreases cs.len(),
{
    if i < cs.len() - 1 {
        lemma_all_describe_index(cs.drop_last(), fs.drop_last(), i);
    }
}

/// Each field of a sequence that is all supported is supported.
pub proof fn lemma_all_supported_index(fs: Seq<FieldModel>, i: int)
    requires
        all_supported(fs),
        0 <= i < fs.len(),
    ensures
        model_supported(fs[i].data_type),
    decreases fs.len(),
{
    if i < fs.len() - 1 {
        lemma_all_supported_index(fs.drop_last(), i);
    }
}

} // verus!
