//! The two-level document shape that the emitter formats: a root mapping
//! of category names to lists of flat records, each record a list of
//! keyed fields holding scalars, lists of scalars, or one level of nested
//! object (kept only so that unexpected nesting still formats instead of
//! failing).

use vstd::prelude::*;

verus! {

/// One JSON scalar as the records of a collection use them.
pub enum ScalarValue {
    Null,
    Bool(bool),
    UInt(u64),
    Str(String),
}

/// Mathematical view of a scalar.
pub ghost enum ScalarV {
    Null,
    Bool(bool),
    UInt(u64),
    Str(Seq<char>),
}

impl DeepView for ScalarValue {
    type V = ScalarV;

    open spec fn deep_view(&self) -> ScalarV {
        match self {
            ScalarValue::Null => ScalarV::Null,
            ScalarValue::Bool(b) => ScalarV::Bool(*b),
            ScalarValue::UInt(n) => ScalarV::UInt(*n),
            ScalarValue::Str(s) => ScalarV::Str(s@),
        }
    }
}

/// A keyed scalar inside a nested object.
pub struct ScalarField {
    pub key: String,
    pub value: ScalarValue,
}

/// Mathematical view of a keyed scalar.
pub ghost struct ScalarFieldV {
    pub key: Seq<char>,
    pub value: ScalarV,
}

impl DeepView for ScalarField {
    type V = ScalarFieldV;

    open spec fn deep_view(&self) -> ScalarFieldV {
        ScalarFieldV { key: self.key@, value: self.value.deep_view() }
    }
}

/// The value of one record field: a scalar, a list of scalars, or one
/// nested object of scalars.
pub enum FieldValue {
    Scalar(ScalarValue),
    List(Vec<ScalarValue>),
    Object(Vec<ScalarField>),
}

/// Mathematical view of a field value.
pub ghost enum ValueV {
    Scalar(ScalarV),
    List(Seq<ScalarV>),
    Object(Seq<ScalarFieldV>),
}

impl DeepView for FieldValue {
    type V = ValueV;

    open spec fn deep_view(&self) -> ValueV {
        match self {
            FieldValue::Scalar(s) => ValueV::Scalar(s.deep_view()),
            FieldValue::List(items) => ValueV::List(items.deep_view()),
            FieldValue::Object(fields) => ValueV::Object(fields.deep_view()),
        }
    }
}

/// One keyed field of a record.
pub struct Field {
    pub key: String,
    pub value: FieldValue,
}

/// Mathematical view of a record field.
pub ghost struct FieldV {
    pub key: Seq<char>,
    pub value: ValueV,
}

impl DeepView for Field {
    type V = FieldV;

    open spec fn deep_view(&self) -> FieldV {
        FieldV { key: self.key@, value: self.value.deep_view() }
    }
}

/// One flat record: the fields in the order they are written.
pub struct Record {
    pub fields: Vec<Field>,
}

impl DeepView for Record {
    type V = Seq<FieldV>;

    open spec fn deep_view(&self) -> Seq<FieldV> {
        self.fields.deep_view()
    }
}

/// One category of the root mapping: its name and its records in order.
pub struct Category {
    pub name: String,
    pub records: Vec<Record>,
}

/// Mathematical view of a category.
pub ghost struct CategoryV {
    pub name: Seq<char>,
    pub records: Seq<Seq<FieldV>>,
}

impl DeepView for Category {
    type V = CategoryV;

    open spec fn deep_view(&self) -> CategoryV {
        CategoryV { name: self.name@, records: self.records.deep_view() }
    }
}

/// A whole document: the categories of the root mapping in the order they
/// are written.
pub struct Document {
    pub entries: Vec<Category>,
}

impl DeepView for Document {
    type V = Seq<CategoryV>;

    open spec fn deep_view(&self) -> Seq<CategoryV> {
        self.entries.deep_view()
    }
}

} // verus!
