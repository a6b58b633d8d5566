use crate::schema::{declares, FieldSchema};
use vstd::prelude::*;

verus! {

/// The value of one field of a record: a single text, or an ordered list of texts.
#[derive(Clone, Debug)]
pub enum FieldValue {
    Text(String),
    TextList(Vec<String>),
}

/// A sparse mapping from field name to value, as a source hands it in.
#[derive(Clone, Debug)]
pub struct Record {
    pub entries: Vec<(String, FieldValue)>,
}

/// A record names a field that the schema does not declare.
#[derive(Clone, Debug, PartialEq, Eq)]
pub enum ValidationError {
    UnknownField(String),
}

impl Record {
    pub fn new() -> (r: Record)
        ensures
            r.entries@.len() == 0,
    {
        Record { entries: Vec::new() }
    }

    /// Adds a single-text field.
    pub fn with_text(self, name: &str, text: &str) -> (r: Record)
        ensures
            r.entries@.len() == self.entries@.len() + 1,
            r.entries@.drop_last() == self.entries@,
            r.entries@.last().0@ == name@,
            r.entries@.last().1 matches FieldValue::Text(t) && t@ == text@,
    {
        let mut entries = self.entries;
        entries.push((name.to_string(), FieldValue::Text(text.to_string())));
        Record { entries }
    }

    /// Adds a field holding a list of texts.
    pub fn with_list(self, name: &str, texts: Vec<String>) -> (r: Record)
        ensures
            r.entries@.len() == self.entries@.len() + 1,
            r.entries@.drop_last() == self.entries@,
            r.entries@.last().0@ == name@,
            r.entries@.last().1 == FieldValue::TextList(texts),
    {
        let mut entries = self.entries;
        entries.push((name.to_string(), FieldValue::TextList(texts)));
        Record { entries }
    }
}

/// Every field name of the record is declared by the schema.
pub open spec fn conforms(schema: FieldSchema, entries: Seq<(String, FieldValue)>) -> bool {
    forall|i: int| 0 <= i < entries.len() ==> declares(schema.spec_fields(), #[trigger] entries[i].0@)
}

/// Finds, for each entry of the record, the position of its field in the schema; an
/// entry whose field the schema does not declare rejects the record.
pub fn resolve_record(schema: &FieldSchema, record: &Record) -> (r: Result<Vec<usize>, ValidationError>)
    ensures
        r is Ok <==> conforms(*schema, record.entries@),
        r matches Ok(p) ==> p@.len() == record.entries@.len() && forall|i: int|
            0 <= i < p@.len() ==> p@[i] < schema.spec_fields().len() && schema.spec_fields()[#[trigger] p@[i] as int].name@
                == record.entries@[i].0@,
        r matches Err(ValidationError::UnknownField(n)) ==> !declares(schema.spec_fields(), n@)
            && exists|i: int| 0 <= i < record.entries@.len() && #[trigger] record.entries@[i].0@ == n@,
{
    let mut positions: Vec<usize> = Vec::new();
    let mut i: usize = 0;
    while i < record.entries.len()
        invariant
            0 <= i <= record.entries@.len(),
            positions@.len() == i,
            conforms(*schema, record.entries@.take(i as int)),
            forall|k: int|
                0 <= k < i ==> positions@[k] < schema.spec_fields().len() && schema.spec_fields()[#[trigger] positions@[k] as int].name@
                    == record.entries@[k].0@,
        decreases record.entries@.len() - i,
    {
        match schema.find(&record.entries[i].0) {
            Some(p) => {
                positions.push(p);
                proof {
                    assert(record.entries@.take(i + 1) == record.entries@.take(i as int).push(record.entries@[i as int]));
                }
            },
            None => {
                let name = record.entries[i].0.clone();
                return Err(ValidationError::UnknownField(name));
            },
        }
        i = i + 1;
    }
    proof {
        assert(record.entries@.take(i as int) == record.entries@);
    }
    Ok(positions)
}

} // verus!
