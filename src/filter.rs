use vstd::prelude::*;
use vstd::string::StringExecFns;

use crate::error::{message_with, PartitionError};
use crate::operator::HudiOperator;
use crate::text::{eq_ignore_ascii_case_spec, str_eq};
use crate::value::{cast_spec, cast_text, PartitionType, PartitionValue, ValueView};

verus! {

/// A partition column: its name and declared type.
#[derive(Debug, Clone)]
pub struct PartitionField {
    pub name: String,
    pub data_type: PartitionType,
}

impl View for PartitionField {
    type V = (Seq<char>, PartitionType);

    open spec fn view(&self) -> (Seq<char>, PartitionType) {
        (self.name@, self.data_type)
    }
}

impl PartitionField {
    pub fn new(name: &str, data_type: PartitionType) -> (r: PartitionField)
        ensures
            r@ == (name@, data_type),
    {
        PartitionField { name: name.to_owned(), data_type }
    }

    /// The column's name.
    pub fn name(&self) -> (r: &str)
        ensures
            r@ == self.name@,
    {
        self.name.as_str()
    }

    /// A copy of the field.
    pub fn copy(&self) -> (r: PartitionField)
        ensures
            r@ == self@,
    {
        PartitionField { name: self.name.clone(), data_type: self.data_type }
    }
}

/// The ordered partition columns of a table. Field order is the order of the
/// segments of a partition path; names are expected to be unique.
#[derive(Debug, Clone)]
pub struct PartitionSchema {
    pub fields: Vec<PartitionField>,
}

impl View for PartitionSchema {
    type V = Seq<(Seq<char>, PartitionType)>;

    open spec fn view(&self) -> Seq<(Seq<char>, PartitionType)> {
        self.fields@.map_values(|f: PartitionField| f@)
    }
}

/// The names of the fields of a schema view.
pub open spec fn field_names(fields: Seq<(Seq<char>, PartitionType)>) -> Seq<Seq<char>> {
    fields.map_values(|f: (Seq<char>, PartitionType)| f.0)
}

impl PartitionSchema {
    pub fn new(fields: Vec<PartitionField>) -> (r: PartitionSchema)
        ensures
            r.fields@ == fields@,
    {
        PartitionSchema { fields }
    }

    /// The schema without fields.
    pub fn empty() -> (r: PartitionSchema)
        ensures
            r@.len() == 0,
    {
        PartitionSchema { fields: Vec::new() }
    }

    /// The position of the first field named `name`.
    pub fn index_of(&self, name: &str) -> (r: Option<usize>)
        ensures
            match r {
                Some(i) => i < self@.len() && field_names(self@).index_of_first(name@) == Some(
                    i as int,
                ),
                None => field_names(self@).index_of_first(name@) is None,
            },
    {
        let ghost names = field_names(self@);
        proof {
            names.index_of_first_ensures(name@);
        }
        let mut i: usize = 0;
        while i < self.fields.len()
            invariant
                names == field_names(self@),
                names.len() == self.fields@.len(),
                i <= self.fields@.len(),
                forall|j: int| 0 <= j < i ==> names[j] != name@,
            decreases self.fields@.len() - i,
        {
            if str_eq(self.fields[i].name.as_str(), name) {
                assert(names[i as int] == name@);
                proof {
                    names.index_of_first_ensures(name@);
                    let idx = names.index_of_first(name@)->Some_0;
                    if idx < i {
                        assert(names[idx] != name@);
                    }
                    if idx > i {
                        assert(names[i as int] != name@);
                    }
                }
                return Some(i);
            }
            i = i + 1;
        }
        proof {
            names.index_of_first_ensures(name@);
            if names.contains(name@) {
                let k = choose|k: int| 0 <= k < names.len() && names[k] == name@;
                assert(names[k] != name@);
            }
        }
        None
    }

    /// A copy of the schema.
    pub fn copy(&self) -> (r: PartitionSchema)
        ensures
            r@ == self@,
    {
        let mut fields: Vec<PartitionField> = Vec::new();
        let mut i: usize = 0;
        while i < self.fields.len()
            invariant
                i <= self.fields@.len(),
                fields@.len() == i,
                forall|j: int| 0 <= j < i ==> (#[trigger] fields@[j])@ == self.fields@[j]@,
            decreases self.fields@.len() - i,
        {
            fields.push(self.fields[i].copy());
            i = i + 1;
        }
        let r = PartitionSchema { fields };
        assert(r@ =~= self@);
        r
    }
}

/// An untyped filter: a field name, an operator and a text literal.
#[derive(Debug, Clone)]
pub struct Filter {
    pub field_name: String,
    pub operator: HudiOperator,
    pub value: String,
}

impl Filter {
    /// Builds a filter from a field name, an operator token and a literal.
    pub fn try_from(parts: (&str, &str, &str)) -> (r: Result<Filter, PartitionError>)
        ensures
            r is Ok <==> HudiOperator::is_token(parts.1@),
            r matches Ok(f) ==> f.field_name@ == parts.0@ && eq_ignore_ascii_case_spec(
                f.operator.token(),
                parts.1@,
            ) && f.value@ == parts.2@,
            r matches Err(e) ==> e is UnsupportedOperator,
    {
        let (field_name, token, value) = parts;
        match HudiOperator::from_str(token) {
            Ok(operator) => Ok(
                Filter { field_name: field_name.to_owned(), operator, value: value.to_owned() },
            ),
            Err(e) => Err(e),
        }
    }
}

/// A filter bound to a schema field, its literal cast into the field's type.
#[derive(Debug, Clone)]
pub struct PartitionFilter {
    pub field: PartitionField,
    pub operator: HudiOperator,
    pub value: PartitionValue,
}

/// The filter's field is in the schema and its literal casts into the field's type.
pub open spec fn filter_compiles(f: Filter, schema: Seq<(Seq<char>, PartitionType)>) -> bool {
    match field_names(schema).index_of_first(f.field_name@) {
        Some(i) => cast_spec(f.value@, schema[i].1) is Some,
        None => false,
    }
}

/// `pf` is `f` bound to the first schema field of its name, with the literal cast.
pub open spec fn compiled_as(
    pf: PartitionFilter,
    f: Filter,
    schema: Seq<(Seq<char>, PartitionType)>,
) -> bool {
    match field_names(schema).index_of_first(f.field_name@) {
        Some(i) => pf.field@ == schema[i] && pf.operator == f.operator && cast_spec(
            f.value@,
            schema[i].1,
        ) == Some(pf.value@),
        None => false,
    }
}

/// `e` is the error that compiling `f` against the schema raises.
pub open spec fn compile_failure(
    e: PartitionError,
    f: Filter,
    schema: Seq<(Seq<char>, PartitionType)>,
) -> bool {
    match field_names(schema).index_of_first(f.field_name@) {
        Some(_) => e is UnsupportedCast,
        None => e is FieldNotFound,
    }
}

impl PartitionFilter {
    /// The value's type is the field's declared type.
    pub open spec fn well_typed(&self) -> bool {
        self.value@.data_type() == self.field.data_type
    }

    /// Binds `filter` to the schema field of its name and casts its literal.
    pub fn try_from(input: (Filter, &PartitionSchema)) -> (r: Result<PartitionFilter, PartitionError>)
        ensures
            r is Ok <==> filter_compiles(input.0, input.1@),
            r matches Ok(pf) ==> compiled_as(pf, input.0, input.1@) && pf.well_typed(),
            r matches Err(e) ==> compile_failure(e, input.0, input.1@),
    {
        let (filter, schema) = input;
        PartitionFilter::compile(&filter, schema)
    }

    /// Binds `filter` to the schema field of its name and casts its literal.
    pub fn compile(filter: &Filter, schema: &PartitionSchema) -> (r: Result<
        PartitionFilter,
        PartitionError,
    >)
        ensures
            r is Ok <==> filter_compiles(*filter, schema@),
            r matches Ok(pf) ==> compiled_as(pf, *filter, schema@) && pf.well_typed(),
            r matches Err(e) ==> compile_failure(e, *filter, schema@),
    {
        let i = match schema.index_of(filter.field_name.as_str()) {
            Some(i) => i,
            None => {
                return Err(
                    PartitionError::FieldNotFound(
                        String::from_str("Partition path should be in schema."),
                    ),
                );
            },
        };
        let field = &schema.fields[i];
        assert(schema@[i as int] == field@);
        let value: [&str; 1] = [filter.value.as_str()];
        match PartitionFilter::cast_value(&value, &field.data_type) {
            Ok(v) => Ok(PartitionFilter { field: field.copy(), operator: filter.operator, value: v }),
            Err(e) => Err(e),
        }
    }

    /// Casts a single text literal into `data_type`, strictly.
    pub fn cast_value(value: &[&str; 1], data_type: &PartitionType) -> (r: Result<
        PartitionValue,
        PartitionError,
    >)
        ensures
            match r {
                Ok(v) => cast_spec(value@[0]@, *data_type) == Some(v@),
                Err(e) => cast_spec(value@[0]@, *data_type) is None && e is UnsupportedCast,
            },
    {
        match cast_text(value[0], *data_type) {
            Some(v) => {
                proof {
                    lemma_cast_type(value@[0]@, *data_type);
                }
                Ok(v)
            },
            None => Err(
                PartitionError::UnsupportedCast(
                    message_with("Unable to cast to ", data_type.name()),
                ),
            ),
        }
    }
}

/// A successful cast yields a value of the requested type.
pub proof fn lemma_cast_type(s: Seq<char>, ty: PartitionType)
    ensures
        cast_spec(s, ty) matches Some(v) ==> v.data_type() == ty,
{
}

} // verus!
