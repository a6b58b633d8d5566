use crate::record::{conforms, resolve_record, FieldValue, Record, ValidationError};
use crate::schema::{declares, dict_schema, is_dict_schema, valid_name, FieldSchema, FieldSpec, LanguageClass, SchemaError};
use crate::tokenize::{CJK_TOKENIZER, LATIN_TOKENIZER};
use cang_jie::{CangJieTokenizer, TokenizerOption};
use jieba_rs::Jieba;
use std::sync::Arc;
use tantivy::collector::TopDocs;
use tantivy::query::QueryParser;
use tantivy::schema::{Field, IndexRecordOption, Schema, SchemaBuilder, TextFieldIndexing, TextOptions};
use tantivy::{Document, Index, IndexReader, IndexWriter, ReloadPolicy, Searcher, TantivyError};
use vstd::prelude::*;
use vstd::string::StrSliceExecFns;

verus! {

#[verifier::external_type_specification]
#[verifier::external_body]
pub struct ExIndex(Index);

#[verifier::external_type_specification]
#[verifier::external_body]
pub struct ExIndexReader(IndexReader);

#[verifier::external_type_specification]
#[verifier::external_body]
pub struct ExIndexWriter(IndexWriter);

#[verifier::external_type_specification]
#[verifier::external_body]
pub struct ExSchema(Schema);

#[verifier::external_type_specification]
#[verifier::external_body]
pub struct ExSchemaBuilder(SchemaBuilder);

#[verifier::external_type_specification]
#[verifier::external_body]
pub struct ExSearcher(Searcher);

/// The memory budget of a writer, shared by its indexing threads.
pub const WRITER_MEMORY_BUDGET: usize = 50_000_000;

/// Failures of the single writer session of an index.
#[derive(Clone, Debug, PartialEq, Eq)]
pub enum WriterError {
    /// Another writer holds the index's lock.
    Locked,
    /// Storage failed; the message is the storage layer's.
    IOFailure(String),
}

/// Failures of `add` and `index`.
#[derive(Clone, Debug, PartialEq, Eq)]
pub enum IngestError {
    Validation(ValidationError),
    Writer(WriterError),
}

/// Failures of opening an existing index.
#[derive(Clone, Debug, PartialEq, Eq)]
pub enum OpenError {
    Schema(SchemaError),
    Writer(WriterError),
}

/// Failures of `search`.
#[derive(Clone, Debug, PartialEq, Eq)]
pub enum QueryError {
    /// A requested field is not declared by the schema.
    UnknownField(String),
    /// The query text is not well formed.
    ParseFailure(String),
    /// Reading the snapshot failed.
    IOFailure(String),
}

/// A field as the storage layer sees it: its name, the tokenizer it is indexed with
/// (none when it is not indexed), and whether its text is stored.
pub type Declared = (Seq<char>, Option<Seq<char>>, bool);

/// The fields declared to a schema builder so far, in order.
pub uninterp spec fn builder_fields(b: SchemaBuilder) -> Seq<Declared>;

/// The fields of a schema, in order.
pub uninterp spec fn schema_fields(s: Schema) -> Seq<Declared>;

/// The tokenizer registered for a language class.
pub open spec fn tokenizer_of(language: LanguageClass) -> Seq<char> {
    match language {
        LanguageClass::Cjk => CJK_TOKENIZER@,
        LanguageClass::Latin => LATIN_TOKENIZER@,
    }
}

/// How a field declaration is handed to the storage layer.
pub open spec fn declared(f: FieldSpec) -> Declared {
    (f.name@, if f.indexed { Some(tokenizer_of(f.language)) } else { None }, f.stored)
}

pub open spec fn declared_all(fields: Seq<FieldSpec>) -> Seq<Declared> {
    fields.map_values(|f: FieldSpec| declared(f))
}

/// `name` is not yet declared to the builder.
pub open spec fn fresh(b: SchemaBuilder, name: Seq<char>) -> bool {
    forall|i: int| 0 <= i < builder_fields(b).len() ==> (#[trigger] builder_fields(b)[i]).0 != name
}

/// Relies on `SchemaBuilder::default`: a builder with no fields.
#[verifier::external_body]
fn new_schema_builder() -> (r: SchemaBuilder)
    ensures
        builder_fields(r) == Seq::<Declared>::empty(),
{
    SchemaBuilder::default()
}

/// Relies on `SchemaBuilder::add_text_field`, which appends the field (it panics on an
/// invalid or repeated name), with `TextFieldIndexing::set_tokenizer`, `set_index_option`
/// (frequencies and positions) and `TextOptions::set_stored`.
#[verifier::external_body]
fn add_indexed_stored(b: &mut SchemaBuilder, name: &str, tokenizer: &str)
    requires
        valid_name(name@),
        fresh(*old(b), name@),
    ensures
        builder_fields(*final(b)) == builder_fields(*old(b)).push((name@, Some(tokenizer@), true)),
{
    let indexing = TextFieldIndexing::default().set_tokenizer(tokenizer).set_index_option(IndexRecordOption::WithFreqsAndPositions);
    b.add_text_field(name, TextOptions::default().set_indexing_options(indexing).set_stored());
}

/// Relies on `SchemaBuilder::add_text_field` as above, indexed but not stored.
#[verifier::external_body]
fn add_indexed(b: &mut SchemaBuilder, name: &str, tokenizer: &str)
    requires
        valid_name(name@),
        fresh(*old(b), name@),
    ensures
        builder_fields(*final(b)) == builder_fields(*old(b)).push((name@, Some(tokenizer@), false)),
{
    let indexing = TextFieldIndexing::default().set_tokenizer(tokenizer).set_index_option(IndexRecordOption::WithFreqsAndPositions);
    b.add_text_field(name, TextOptions::default().set_indexing_options(indexing));
}

/// Relies on `SchemaBuilder::add_text_field` with `TextOptions::set_stored`: stored, not
/// indexed.
#[verifier::external_body]
fn add_stored(b: &mut SchemaBuilder, name: &str)
    requires
        valid_name(name@),
        fresh(*old(b), name@),
    ensures
        builder_fields(*final(b)) == builder_fields(*old(b)).push((name@, None, true)),
{
    b.add_text_field(name, TextOptions::default().set_stored());
}

/// Relies on `SchemaBuilder::add_text_field` with `TextOptions::default`: neither indexed
/// nor stored.
#[verifier::external_body]
fn add_unindexed(b: &mut SchemaBuilder, name: &str)
    requires
        valid_name(name@),
        fresh(*old(b), name@),
    ensures
        builder_fields(*final(b)) == builder_fields(*old(b)).push((name@, None, false)),
{
    b.add_text_field(name, TextOptions::default());
}

/// Relies on `SchemaBuilder::build`: a schema of the declared fields.
#[verifier::external_body]
fn build_schema(b: SchemaBuilder) -> (r: Schema)
    ensures
        schema_fields(r) == builder_fields(b),
{
    b.build()
}

/// Relies on `Schema`'s `PartialEq`, which compares the field entries: equal schemas
/// declare the same fields with the same options.
#[verifier::external_body]
fn same_schema(a: &Schema, b: &Schema) -> (r: bool)
    ensures
        r ==> schema_fields(*a) == schema_fields(*b),
{
    a == b
}

/// Relies on `Index::schema`: the schema the index was created with.
#[verifier::external_body]
fn schema_of(index: &Index) -> (r: Schema) {
    index.schema()
}

/// Relies on `Index::create_in_ram`: a new, empty index held in memory.
#[verifier::external_body]
fn create_in_ram(schema: Schema) -> (r: Index) {
    Index::create_in_ram(schema)
}

/// Relies on `TokenizerManager::register` with cang_jie's `CangJieTokenizer` over an
/// empty jieba dictionary in `TokenizerOption::Unicode` mode, the tokenizer that
/// `tokenize` runs for the CJK class.
#[verifier::external_body]
fn register_cjk(index: &Index, name: &str) {
    let tokenizer = CangJieTokenizer { worker: Arc::new(Jieba::empty()), option: TokenizerOption::Unicode };
    index.tokenizers().register(name, tokenizer)
}

/// Relies on `IndexReaderBuilder::try_into` with `ReloadPolicy::OnCommit`.
#[verifier::external_body]
fn open_reader(index: &Index) -> (r: Result<IndexReader, String>) {
    index.reader_builder().reload_policy(ReloadPolicy::OnCommit).try_into().map_err(|e| e.to_string())
}

/// Relies on `Index::writer`, which takes the index's exclusive lock; a lock held
/// elsewhere comes back as `TantivyError::LockFailure`.
#[verifier::external_body]
fn open_tantivy_writer(index: &Index, budget: usize) -> (r: Result<IndexWriter, WriterError>) {
    match index.writer(budget) {
        Ok(w) => Ok(w),
        Err(TantivyError::LockFailure(..)) => Err(WriterError::Locked),
        Err(e) => Err(WriterError::IOFailure(e.to_string())),
    }
}

/// Relies on `Document::add_text` for each (field position, text) pair, in order, and on
/// `IndexWriter::add_document`, which buffers the document in the writer.
#[verifier::external_body]
fn add_document(writer: &IndexWriter, pairs: Vec<(usize, String)>) -> (r: Result<(), String>)
    requires
        forall|i: int| 0 <= i < pairs@.len() ==> #[trigger] pairs@[i].0 <= u32::MAX,
{
    let mut doc = Document::default();
    for (id, text) in pairs {
        doc.add_text(Field::from_field_id(id as u32), text);
    }
    writer.add_document(doc).map(|_| ()).map_err(|e| e.to_string())
}

/// Relies on `IndexWriter::commit`: persists every buffered document as one unit.
#[verifier::external_body]
fn commit_writer(writer: &mut IndexWriter) -> (r: Result<(), String>) {
    writer.commit().map(|_| ()).map_err(|e| e.to_string())
}

/// Relies on `IndexReader::reload`, which moves searchers to the latest commit. Where it
/// fails, the reader's `OnCommit` policy still moves them when it sees the commit.
#[verifier::external_body]
fn reload_reader(reader: &IndexReader) {
    let _ = reader.reload();
}

/// Relies on `IndexReader::searcher`: a searcher over the reader's current snapshot.
#[verifier::external_body]
fn searcher_of(reader: &IndexReader) -> (r: Searcher) {
    reader.searcher()
}

/// Relies on `QueryParser::new` and `parse_query` over the given fields of `schema`, on
/// `Searcher::search` with `TopDocs::with_limit` (at most `limit` documents, best first;
/// a fuzzy hit is not scored lower than an exact one), and on `Searcher::doc` for each,
/// whose values come with their field's position.
#[verifier::external_body]
fn search_stored(s: &Searcher, index: &Index, schema: &Schema, ids: Vec<u32>, query: &str, limit: usize) -> (r: Result<Vec<Vec<(u32, Option<String>)>>, QueryError>)
    requires
        limit >= 1,
        forall|i: int| 0 <= i < ids@.len() ==> #[trigger] ids@[i] < schema_fields(*schema).len(),
    ensures
        r matches Ok(v) ==> v@.len() <= limit,
        r matches Err(e) ==> e is ParseFailure || e is IOFailure,
{
    let fields = ids.into_iter().map(Field::from_field_id).collect();
    let parsed = QueryParser::new(schema.clone(), fields, index.tokenizers().clone()).parse_query(query);
    let io = |e| QueryError::IOFailure(TantivyError::to_string(&e));
    let hits = s.search(&parsed.map_err(|e| QueryError::ParseFailure(e.to_string()))?, &TopDocs::with_limit(limit)).map_err(io)?;
    hits.into_iter().map(|(_, a)| Ok(s.doc(a).map_err(io)?.field_values().iter().map(|v| (v.field().field_id(), v.value().as_text().map(String::from))).collect())).collect()
}

/// The tokenizer a field of the given language class is indexed with.
pub fn tokenizer_name(language: LanguageClass) -> (r: &'static str)
    ensures
        r@ == tokenizer_of(language),
{
    match language {
        LanguageClass::Cjk => CJK_TOKENIZER,
        LanguageClass::Latin => LATIN_TOKENIZER,
    }
}

/// Declares the fields of `fields` to the storage layer, in order: each with its name,
/// the tokenizer of its language class where it is indexed, and its stored flag.
pub fn tantivy_schema(fields: &FieldSchema) -> (r: Schema)
    requires
        fields.wf(),
    ensures
        schema_fields(r) == declared_all(fields.spec_fields()),
{
    let mut builder = new_schema_builder();
    let mut i: usize = 0;
    while i < fields.len()
        invariant
            fields.wf(),
            0 <= i <= fields.spec_fields().len(),
            builder_fields(builder) == declared_all(fields.spec_fields().take(i as int)),
        decreases fields.spec_fields().len() - i,
    {
        let spec = fields.field(i);
        let name = spec.name.as_str();
        proof {
            assert forall|k: int| 0 <= k < builder_fields(builder).len() implies (#[trigger] builder_fields(builder)[k]).0
                != name@ by {
                assert(builder_fields(builder)[k].0 == fields.spec_fields()[k].name@);
            }
            assert(valid_name(fields.spec_fields()[i as int].name@));
        }
        if spec.indexed {
            let tokenizer = tokenizer_name(spec.language);
            if spec.stored {
                add_indexed_stored(&mut builder, name, tokenizer);
            } else {
                add_indexed(&mut builder, name, tokenizer);
            }
        } else if spec.stored {
            add_stored(&mut builder, name);
        } else {
            add_unindexed(&mut builder, name);
        }
        proof {
            assert(declared_all(fields.spec_fields().take(i + 1)) =~= declared_all(fields.spec_fields().take(i as int)).push(
                declared(fields.spec_fields()[i as int]),
            ));
        }
        i = i + 1;
    }
    proof {
        assert(fields.spec_fields().take(i as int) =~= fields.spec_fields());
    }
    build_schema(builder)
}

/// The (field position, text) pairs of one value: one for a text, one per item of a list.
pub open spec fn value_pairs(p: usize, v: FieldValue) -> Seq<(usize, Seq<char>)> {
    match v {
        FieldValue::Text(t) => seq![(p, t@)],
        FieldValue::TextList(ts) => ts@.map_values(|t: String| (p, t@)),
    }
}

/// The pairs of the first `n` entries of a record whose entries sit at `positions`.
pub open spec fn record_pairs(positions: Seq<usize>, entries: Seq<(String, FieldValue)>, n: nat) -> Seq<(usize, Seq<char>)>
    decreases n,
{
    if n == 0 {
        seq![]
    } else {
        record_pairs(positions, entries, (n - 1) as nat) + value_pairs(positions[n - 1], entries[n - 1].1)
    }
}

pub open spec fn text_pairs_view(pairs: Seq<(usize, String)>) -> Seq<(usize, Seq<char>)> {
    pairs.map_values(|p: (usize, String)| (p.0, p.1@))
}

/// Every value of the record, in order, with the schema position of its field: what
/// the document handed to the writer holds.
pub fn document_pairs(positions: &Vec<usize>, record: &Record) -> (r: Vec<(usize, String)>)
    requires
        positions@.len() == record.entries@.len(),
    ensures
        text_pairs_view(r@) == record_pairs(positions@, record.entries@, record.entries@.len()),
{
    let mut out: Vec<(usize, String)> = Vec::new();
    let mut i: usize = 0;
    while i < record.entries.len()
        invariant
            positions@.len() == record.entries@.len(),
            0 <= i <= record.entries@.len(),
            text_pairs_view(out@) == record_pairs(positions@, record.entries@, i as nat),
        decreases record.entries@.len() - i,
    {
        let p = positions[i];
        let ghost before = text_pairs_view(out@);
        match &record.entries[i].1 {
            FieldValue::Text(t) => {
                out.push((p, t.clone()));
                proof {
                    assert(text_pairs_view(out@) =~= before + value_pairs(p, record.entries@[i as int].1));
                }
            },
            FieldValue::TextList(ts) => {
                let mut j: usize = 0;
                while j < ts.len()
                    invariant
                        0 <= j <= ts@.len(),
                        text_pairs_view(out@) == before + ts@.take(j as int).map_values(|t: String| (p, t@)),
                    decreases ts@.len() - j,
                {
                    let ghost prev = out@;
                    out.push((p, ts[j].clone()));
                    proof {
                        assert(text_pairs_view(out@) =~= text_pairs_view(prev).push((p, ts@[j as int]@)));
                        assert(ts@.take(j + 1).map_values(|t: String| (p, t@)) =~= ts@.take(j as int).map_values(
                            |t: String| (p, t@),
                        ).push((p, ts@[j as int]@)));
                        assert(text_pairs_view(out@) =~= before + ts@.take(j + 1).map_values(|t: String| (p, t@)));
                    }
                    j = j + 1;
                }
                proof {
                    assert(ts@.take(j as int) =~= ts@);
                }
            },
        }
        i = i + 1;
    }
    out
}

/// A character of Unicode's White_Space property, which the query syntax skips.
pub open spec fn is_space(c: char) -> bool {
    ('\t' <= c && c <= '\r') || c == ' ' || c == '\u{85}' || c == '\u{A0}' || c == '\u{1680}' || (
    '\u{2000}' <= c && c <= '\u{200A}') || c == '\u{2028}' || c == '\u{2029}' || c == '\u{202F}' || c
        == '\u{205F}' || c == '\u{3000}'
}

/// Whether `c` is Unicode whitespace.
fn space(c: char) -> (r: bool)
    ensures
        r == is_space(c),
{
    ('\t' <= c && c <= '\r') || c == ' ' || c == '\u{85}' || c == '\u{A0}' || c == '\u{1680}' || (
    '\u{2000}' <= c && c <= '\u{200A}') || c == '\u{2028}' || c == '\u{2029}' || c == '\u{202F}' || c
        == '\u{205F}' || c == '\u{3000}'
}

/// A query text with no term in it.
pub open spec fn is_blank(s: Seq<char>) -> bool {
    forall|i: int| 0 <= i < s.len() ==> is_space(#[trigger] s[i])
}

/// Whether `text` holds nothing but whitespace.
pub fn blank(text: &str) -> (r: bool)
    ensures
        r == is_blank(text@),
{
    let n = text.unicode_len();
    let mut i: usize = 0;
    while i < n
        invariant
            n == text@.len(),
            0 <= i <= n,
            forall|k: int| 0 <= k < i ==> is_space(#[trigger] text@[k]),
        decreases n - i,
    {
        let c = text.get_char(i);
        if !space(c) {
            return false;
        }
        i = i + 1;
    }
    true
}

/// All names of `names` are declared by the schema.
pub open spec fn all_declared(schema: FieldSchema, names: Seq<String>) -> bool {
    forall|i: int| 0 <= i < names.len() ==> crate::schema::declares(schema.spec_fields(), #[trigger] names[i]@)
}

/// One result of a search: the stored values of the document, each with its field name.
#[derive(Clone, Debug)]
pub struct Hit {
    pub fields: Vec<(String, String)>,
}

impl Hit {
    /// The first stored value of the field called `name`.
    pub fn get(&self, name: &str) -> (r: Option<String>)
        ensures
            r is None <==> forall|i: int| 0 <= i < self.fields@.len() ==> #[trigger] self.fields@[i].0@ != name@,
            r matches Some(v) ==> exists|i: int|
                0 <= i < self.fields@.len() && #[trigger] self.fields@[i].0@ == name@ && self.fields@[i].1@ == v@,
    {
        let key = name.to_string();
        let mut i: usize = 0;
        while i < self.fields.len()
            invariant
                0 <= i <= self.fields@.len(),
                key@ == name@,
                forall|k: int| 0 <= k < i ==> #[trigger] self.fields@[k].0@ != name@,
            decreases self.fields@.len() - i,
        {
            if self.fields[i].0 == key {
                return Some(self.fields[i].1.clone());
            }
            i = i + 1;
        }
        None
    }
}

/// The schema declares a stored field called `name`.
pub open spec fn is_stored(schema: FieldSchema, name: Seq<char>) -> bool {
    exists|i: int|
        0 <= i < schema.spec_fields().len() && #[trigger] schema.spec_fields()[i].name@ == name
            && schema.spec_fields()[i].stored
}

/// Every value of every hit belongs to a stored field.
pub open spec fn only_stored(schema: FieldSchema, hits: Seq<Hit>) -> bool {
    forall|h: int, j: int|
        0 <= h < hits.len() && 0 <= j < hits[h].fields@.len() ==> is_stored(schema, (#[trigger] hits[h].fields@[j]).0@)
}

/// The value `v` of the field at position `id` is returned: the field exists, is stored,
/// and the value is a text.
pub open spec fn kept(schema: FieldSchema, v: (u32, Option<String>)) -> bool {
    v.0 < schema.spec_fields().len() && schema.spec_fields()[v.0 as int].stored && v.1 is Some
}

/// The text values among `values` that belong to stored fields, in order, each under its
/// field's name.
pub open spec fn stored_view(schema: FieldSchema, values: Seq<(u32, Option<String>)>) -> Seq<(Seq<char>, Seq<char>)>
    decreases values.len(),
{
    if values.len() == 0 {
        seq![]
    } else {
        let rest = stored_view(schema, values.drop_last());
        let last = values.last();
        if kept(schema, last) {
            rest.push((schema.spec_fields()[last.0 as int].name@, last.1->0@))
        } else {
            rest
        }
    }
}

/// Every pair that `stored_view` keeps belongs to a stored field.
proof fn lemma_stored_view_names(schema: FieldSchema, values: Seq<(u32, Option<String>)>)
    ensures
        forall|j: int| 0 <= j < stored_view(schema, values).len() ==> is_stored(schema, #[trigger] stored_view(schema, values)[j].0),
    decreases values.len(),
{
    if values.len() > 0 {
        let rest = values.drop_last();
        lemma_stored_view_names(schema, rest);
        let all = stored_view(schema, values);
        assert forall|j: int| 0 <= j < all.len() implies is_stored(schema, #[trigger] all[j].0) by {
            if j < stored_view(schema, rest).len() {
                assert(all[j] == stored_view(schema, rest)[j]);
            } else {
                let id = values.last().0 as int;
                assert(schema.spec_fields()[id].name@ == all[j].0);
            }
        }
    }
}

/// A text value of a stored field comes out of the filter unchanged, under its field's
/// name: only matching goes through the tokenizers, never what is returned.
pub proof fn lemma_stored_value_kept(schema: FieldSchema, values: Seq<(u32, Option<String>)>, i: int)
    requires
        0 <= i < values.len(),
        kept(schema, values[i]),
    ensures
        exists|j: int|
            0 <= j < stored_view(schema, values).len() && #[trigger] stored_view(schema, values)[j] == (
            schema.spec_fields()[values[i].0 as int].name@,
            values[i].1->0@,
        ),
    decreases values.len(),
{
    let rest = values.drop_last();
    let want = (schema.spec_fields()[values[i].0 as int].name@, values[i].1->0@);
    if i == values.len() - 1 {
        let j = stored_view(schema, rest).len() as int;
        assert(stored_view(schema, values)[j] == want);
    } else {
        assert(rest[i] == values[i]);
        lemma_stored_value_kept(schema, rest, i);
        let j = choose|j: int| 0 <= j < stored_view(schema, rest).len() && #[trigger] stored_view(schema, rest)[j] == want;
        assert(stored_view(schema, values)[j] == stored_view(schema, rest)[j]);
    }
}

pub open spec fn pairs_view(pairs: Seq<(String, String)>) -> Seq<(Seq<char>, Seq<char>)> {
    pairs.map_values(|p: (String, String)| (p.0@, p.1@))
}

/// Keeps, in order, the text values of `values` whose field the schema declares as
/// stored, each under its field's name; values of other fields never reach a caller.
pub fn stored_only(schema: &FieldSchema, values: &Vec<(u32, Option<String>)>) -> (r: Vec<(String, String)>)
    ensures
        pairs_view(r@) == stored_view(*schema, values@),
{
    let mut out: Vec<(String, String)> = Vec::new();
    let mut i: usize = 0;
    while i < values.len()
        invariant
            0 <= i <= values@.len(),
            pairs_view(out@) == stored_view(*schema, values@.take(i as int)),
        decreases values@.len() - i,
    {
        let ghost before = out@;
        proof {
            assert(values@.take(i + 1).drop_last() == values@.take(i as int));
            assert(values@.take(i + 1).last() == values@[i as int]);
        }
        let (id, value) = &values[i];
        let id = *id as usize;
        if id < schema.len() && schema.field(id).stored {
            if let Some(text) = value {
                out.push((schema.field(id).name.clone(), text.clone()));
                proof {
                    assert(pairs_view(out@) =~= pairs_view(before).push((schema.spec_fields()[id as int].name@, text@)));
                }
            }
        }
        i = i + 1;
    }
    proof {
        assert(values@.take(i as int) == values@);
    }
    out
}

/// Every pair of a record lies at a position below `n` when every entry does.
proof fn lemma_pairs_in_schema(positions: Seq<usize>, entries: Seq<(String, FieldValue)>, m: nat, n: nat)
    requires
        m <= positions.len(),
        m <= entries.len(),
        forall|k: int| 0 <= k < positions.len() ==> #[trigger] positions[k] < n,
    ensures
        forall|i: int| 0 <= i < record_pairs(positions, entries, m).len() ==> #[trigger] record_pairs(positions, entries, m)[i].0 < n,
    decreases m,
{
    if m > 0 {
        lemma_pairs_in_schema(positions, entries, (m - 1) as nat, n);
        let prev = record_pairs(positions, entries, (m - 1) as nat);
        let last = value_pairs(positions[m - 1], entries[m - 1].1);
        assert forall|i: int| 0 <= i < (prev + last).len() implies #[trigger] (prev + last)[i].0 < n by {
            if i >= prev.len() {
                assert(last[i - prev.len()].0 == positions[m - 1]);
            }
        }
    }
}

/// A bilingual full-text index: a schema, its single writer session and a reader that
/// follows the commits.
pub struct DictIndex {
    index: Index,
    reader: IndexReader,
    schema: Schema,
    fields: FieldSchema,
    writer: Option<IndexWriter>,
    pending: usize,
    visible: usize,
}

impl DictIndex {
    /// The declared fields.
    pub closed spec fn spec_schema(&self) -> FieldSchema {
        self.fields
    }

    /// Documents added since the last commit, not yet visible to searches.
    pub closed spec fn spec_pending(&self) -> nat {
        self.pending as nat
    }

    /// Documents that committed snapshots hold.
    pub closed spec fn spec_visible(&self) -> nat {
        self.visible as nat
    }

    /// Whether this index holds the writer lock.
    pub closed spec fn spec_writer_open(&self) -> bool {
        self.writer is Some
    }

    /// What the storage layer was told of the fields.
    pub closed spec fn spec_declared(&self) -> Seq<Declared> {
        schema_fields(self.schema)
    }

    pub closed spec fn wf(&self) -> bool {
        &&& self.fields.wf()
        &&& self.fields.spec_fields().len() <= u32::MAX
        &&& schema_fields(self.schema) == declared_all(self.fields.spec_fields())
        &&& self.visible + self.pending <= usize::MAX
        &&& self.writer is None ==> self.pending == 0
    }

    /// Wraps an index whose schema is `schema`, built from `fields`, registering the CJK
    /// tokenizer with it and opening a reader that reloads on commit.
    fn from_index(index: Index, schema: Schema, fields: FieldSchema) -> (r: Result<DictIndex, WriterError>)
        requires
            fields.wf(),
            fields.spec_fields().len() <= u32::MAX,
            schema_fields(schema) == declared_all(fields.spec_fields()),
        ensures
            r matches Ok(d) ==> d.wf() && d.spec_schema() == fields && d.spec_pending() == 0
                && d.spec_visible() == 0 && !d.spec_writer_open(),
            r matches Err(e) ==> e is IOFailure,
    {
        register_cjk(&index, CJK_TOKENIZER);
        let reader = match open_reader(&index) {
            Ok(reader) => reader,
            Err(msg) => return Err(WriterError::IOFailure(msg)),
        };
        Ok(DictIndex { index, reader, schema, fields, writer: None, pending: 0, visible: 0 })
    }

    /// A new, empty index over `fields`, held in memory.
    pub fn create_in_ram(fields: FieldSchema) -> (r: Result<DictIndex, WriterError>)
        requires
            fields.wf(),
            fields.spec_fields().len() <= u32::MAX,
        ensures
            r matches Ok(d) ==> d.wf() && d.spec_schema() == fields && d.spec_pending() == 0
                && d.spec_visible() == 0 && !d.spec_writer_open() && d.spec_declared() == declared_all(
                fields.spec_fields(),
            ),
            r matches Err(e) ==> e is IOFailure,
    {
        let schema = tantivy_schema(&fields);
        let index = create_in_ram(schema);
        let schema = tantivy_schema(&fields);
        DictIndex::from_index(index, schema, fields)
    }

    /// A new, empty in-memory index over the dictionary schema.
    pub fn new() -> (r: Result<DictIndex, WriterError>)
        ensures
            r matches Ok(d) ==> d.wf() && d.spec_pending() == 0 && d.spec_visible() == 0
                && !d.spec_writer_open() && is_dict_schema(d.spec_schema()) && d.spec_declared()
                == declared_all(d.spec_schema().spec_fields()),
            r matches Err(e) ==> e is IOFailure,
    {
        let fields = dict_schema();
        DictIndex::create_in_ram(fields)
    }

    /// Wraps an existing index that is expected to hold `expected`; an index created with
    /// other fields or options is refused.
    pub fn open(index: Index, expected: FieldSchema) -> (r: Result<DictIndex, OpenError>)
        requires
            expected.wf(),
            expected.spec_fields().len() <= u32::MAX,
        ensures
            r matches Ok(d) ==> d.wf() && d.spec_schema() == expected && d.spec_pending() == 0
                && d.spec_visible() == 0 && !d.spec_writer_open() && d.spec_declared() == declared_all(
                expected.spec_fields(),
            ),
            r matches Err(e) ==> e == OpenError::Schema(SchemaError::Mismatch) || (e matches OpenError::Writer(
                w,
            ) && w is IOFailure),
    {
        let built = tantivy_schema(&expected);
        let found = schema_of(&index);
        if !same_schema(&found, &built) {
            return Err(OpenError::Schema(SchemaError::Mismatch));
        }
        match DictIndex::from_index(index, built, expected) {
            Ok(d) => Ok(d),
            Err(e) => Err(OpenError::Writer(e)),
        }
    }

    /// Takes the index's writer lock. A second writer is refused while one is open.
    pub fn open_writer(&mut self) -> (r: Result<(), WriterError>)
        requires
            old(self).wf(),
        ensures
            final(self).wf(),
            final(self).spec_schema() == old(self).spec_schema(),
            final(self).spec_visible() == old(self).spec_visible(),
            final(self).spec_pending() == old(self).spec_pending(),
            old(self).spec_writer_open() ==> r == Err::<(), WriterError>(WriterError::Locked),
            r is Ok <==> final(self).spec_writer_open() && !old(self).spec_writer_open(),
            r is Err ==> final(self).spec_writer_open() == old(self).spec_writer_open(),
    {
        if self.writer.is_some() {
            return Err(WriterError::Locked);
        }
        match open_tantivy_writer(&self.index, WRITER_MEMORY_BUDGET) {
            Ok(w) => {
                self.writer = Some(w);
                Ok(())
            },
            Err(e) => Err(e),
        }
    }

    /// Ends the writer session, releasing the lock; documents added since the last
    /// commit are discarded.
    pub fn close_writer(&mut self)
        requires
            old(self).wf(),
        ensures
            final(self).wf(),
            final(self).spec_schema() == old(self).spec_schema(),
            final(self).spec_visible() == old(self).spec_visible(),
            final(self).spec_pending() == 0,
            !final(self).spec_writer_open(),
    {
        self.writer = None;
        self.pending = 0;
    }

    /// Turns a record into a document and buffers it in the writer, opening the writer
    /// first if needed. A record naming an undeclared field is rejected and changes
    /// nothing. The document stays invisible to searches until `commit`.
    pub fn add(&mut self, record: &Record) -> (r: Result<(), IngestError>)
        requires
            old(self).wf(),
            old(self).spec_visible() + old(self).spec_pending() < usize::MAX,
        ensures
            final(self).wf(),
            final(self).spec_schema() == old(self).spec_schema(),
            final(self).spec_visible() == old(self).spec_visible(),
            r is Ok ==> final(self).spec_pending() == old(self).spec_pending() + 1
                && final(self).spec_writer_open(),
            r matches Err(IngestError::Validation(_)) <==> !conforms(old(self).spec_schema(), record.entries@),
            r matches Err(IngestError::Validation(ValidationError::UnknownField(n))) ==> !crate::schema::declares(
                old(self).spec_schema().spec_fields(),
                n@,
            ) && exists|i: int| 0 <= i < record.entries@.len() && #[trigger] record.entries@[i].0@ == n@,
            r matches Err(IngestError::Validation(_)) ==> final(self).spec_pending() == old(self).spec_pending()
                && final(self).spec_writer_open() == old(self).spec_writer_open(),
            r matches Err(IngestError::Writer(WriterError::Locked)) ==> !old(self).spec_writer_open()
                && !final(self).spec_writer_open(),
            r matches Err(IngestError::Writer(_)) ==> final(self).spec_pending() == 0
                && !final(self).spec_writer_open(),
    {
        let positions = match resolve_record(&self.fields, record) {
            Ok(p) => p,
            Err(e) => return Err(IngestError::Validation(e)),
        };
        if self.writer.is_none() {
            if let Err(e) = self.open_writer() {
                return Err(IngestError::Writer(e));
            }
        }
        let pairs = document_pairs(&positions, record);
        proof {
            assert forall|k: int| 0 <= k < positions@.len() implies #[trigger] positions@[k] < self.fields.spec_fields().len() by {
                assert(self.fields.spec_fields()[positions@[k] as int].name@ == record.entries@[k].0@);
            }
            lemma_pairs_in_schema(positions@, record.entries@, record.entries@.len(), self.fields.spec_fields().len());
            assert forall|i: int| 0 <= i < pairs@.len() implies #[trigger] pairs@[i].0 <= u32::MAX by {
                assert(text_pairs_view(pairs@)[i].0 == pairs@[i].0);
            }
        }
        let outcome = match &self.writer {
            Some(w) => add_document(w, pairs),
            None => Err("writer closed".to_string()),
        };
        match outcome {
            Ok(()) => {
                self.pending = self.pending + 1;
                Ok(())
            },
            Err(msg) => {
                self.writer = None;
                self.pending = 0;
                Err(IngestError::Writer(WriterError::IOFailure(msg)))
            },
        }
    }

    /// Makes every document added since the last commit visible to searches, all
    /// together. Without an open writer, or with nothing added, the visible documents
    /// stay as they are. A failed commit ends the writer session and loses the added
    /// documents.
    pub fn commit(&mut self) -> (r: Result<(), WriterError>)
        requires
            old(self).wf(),
        ensures
            final(self).wf(),
            final(self).spec_schema() == old(self).spec_schema(),
            final(self).spec_pending() == 0,
            r is Ok ==> final(self).spec_visible() == old(self).spec_visible() + old(self).spec_pending()
                && final(self).spec_writer_open() == old(self).spec_writer_open(),
            old(self).spec_pending() == 0 ==> final(self).spec_visible() == old(self).spec_visible(),
            final(self).spec_visible() == old(self).spec_visible() || final(self).spec_visible()
                == old(self).spec_visible() + old(self).spec_pending(),
            r is Err ==> final(self).spec_visible() == old(self).spec_visible() && !final(self).spec_writer_open(),
            !old(self).spec_writer_open() ==> r is Ok,
            r matches Err(e) ==> e is IOFailure,
    {
        let outcome = match &mut self.writer {
            Some(w) => commit_writer(w),
            None => return Ok(()),
        };
        match outcome {
            Ok(()) => {
                self.visible = self.visible + self.pending;
                self.pending = 0;
                reload_reader(&self.reader);
                Ok(())
            },
            Err(msg) => {
                self.writer = None;
                self.pending = 0;
                Err(WriterError::IOFailure(msg))
            },
        }
    }

    /// Adds every record and commits them together, then ends the writer session so that
    /// the lock is free again. The records are checked against the schema first: one that
    /// names an undeclared field rejects the whole batch, and the index is left as it was.
    /// Otherwise either all of them become visible, with whatever was added before, or none.
    pub fn index(&mut self, records: &[Record]) -> (r: Result<(), IngestError>)
        requires
            old(self).wf(),
            old(self).spec_visible() + old(self).spec_pending() + records@.len() <= usize::MAX,
        ensures
            final(self).wf(),
            final(self).spec_schema() == old(self).spec_schema(),
            r is Ok ==> final(self).spec_visible() == old(self).spec_visible() + old(self).spec_pending()
                + records@.len(),
            final(self).spec_visible() == old(self).spec_visible() || final(self).spec_visible()
                == old(self).spec_visible() + old(self).spec_pending() + records@.len(),
            records@.len() == 0 && old(self).spec_pending() == 0 ==> final(self).spec_visible()
                == old(self).spec_visible(),
            records@.len() == 0 && !old(self).spec_writer_open() ==> r is Ok,
            r matches Err(IngestError::Validation(_)) <==> exists|k: int|
                0 <= k < records@.len() && !conforms(old(self).spec_schema(), #[trigger] records@[k].entries@),
            r matches Err(IngestError::Validation(ValidationError::UnknownField(n))) ==> !declares(
                old(self).spec_schema().spec_fields(),
                n@,
            ) && exists|k: int, i: int|
                0 <= k < records@.len() && 0 <= i < records@[k].entries@.len() && #[trigger] records@[k].entries@[i].0@
                    == n@,
            r matches Err(IngestError::Validation(_)) ==> final(self).spec_visible() == old(self).spec_visible()
                && final(self).spec_pending() == old(self).spec_pending()
                && final(self).spec_writer_open() == old(self).spec_writer_open(),
            !(r matches Err(IngestError::Validation(_))) ==> !final(self).spec_writer_open()
                && final(self).spec_pending() == 0,
    {
        let mut k: usize = 0;
        while k < records.len()
            invariant
                0 <= k <= records@.len(),
                *self == *old(self),
                self.wf(),
                forall|m: int| 0 <= m < k ==> conforms(self.fields, #[trigger] records@[m].entries@),
            decreases records@.len() - k,
        {
            if let Err(e) = resolve_record(&self.fields, &records[k]) {
                return Err(IngestError::Validation(e));
            }
            k = k + 1;
        }
        let ghost start_visible = self.visible;
        let ghost start_pending = self.pending;
        k = 0;
        while k < records.len()
            invariant
                self.wf(),
                self.fields == old(self).fields,
                0 <= k <= records@.len(),
                self.visible == start_visible,
                self.pending == start_pending + k,
                start_visible == old(self).visible,
                start_pending == old(self).pending,
                k == 0 ==> (self.writer is Some) == (old(self).writer is Some),
                start_visible + start_pending + records@.len() <= usize::MAX,
                forall|m: int| 0 <= m < records@.len() ==> conforms(self.fields, #[trigger] records@[m].entries@),
            decreases records@.len() - k,
        {
            if let Err(e) = self.add(&records[k]) {
                return Err(e);
            }
            k = k + 1;
        }
        let outcome = self.commit();
        self.close_writer();
        match outcome {
            Ok(()) => Ok(()),
            Err(e) => Err(IngestError::Writer(e)),
        }
    }

    /// The schema positions of `names`, in order; the first name the schema does not
    /// declare is reported.
    fn resolve_fields(&self, names: &[String]) -> (r: Result<Vec<u32>, QueryError>)
        requires
            self.wf(),
        ensures
            r is Ok <==> all_declared(self.spec_schema(), names@),
            r matches Ok(v) ==> v@.len() == names@.len() && forall|i: int|
                0 <= i < v@.len() ==> #[trigger] v@[i] < self.spec_schema().spec_fields().len()
                    && self.spec_schema().spec_fields()[v@[i] as int].name@ == names@[i]@,
            r matches Err(QueryError::UnknownField(n)) ==> !declares(self.spec_schema().spec_fields(), n@)
                && exists|i: int| 0 <= i < names@.len() && #[trigger] names@[i]@ == n@,
            r matches Err(e) ==> e is UnknownField,
    {
        let mut out: Vec<u32> = Vec::new();
        let mut i: usize = 0;
        while i < names.len()
            invariant
                self.wf(),
                0 <= i <= names@.len(),
                out@.len() == i,
                forall|k: int|
                    0 <= k < i ==> #[trigger] out@[k] < self.fields.spec_fields().len()
                        && self.fields.spec_fields()[out@[k] as int].name@ == names@[k]@,
                forall|k: int| 0 <= k < i ==> declares(self.fields.spec_fields(), #[trigger] names@[k]@),
            decreases names@.len() - i,
        {
            match self.fields.find(&names[i]) {
                Some(p) => out.push(p as u32),
                None => return Err(QueryError::UnknownField(names[i].clone())),
            }
            i = i + 1;
        }
        Ok(out)
    }

    /// Runs `query` over exactly the fields named in `fields` against the latest committed
    /// snapshot and returns at most `top_k` documents, best first, each with its stored
    /// values only. A field the schema does not declare is refused before anything runs;
    /// a query text without terms matches nothing.
    pub fn search(&self, query: &str, top_k: usize, fields: &[String]) -> (r: Result<Vec<Hit>, QueryError>)
        requires
            self.wf(),
            top_k >= 1,
        ensures
            r matches Err(QueryError::UnknownField(_)) <==> !all_declared(self.spec_schema(), fields@),
            r matches Err(QueryError::UnknownField(n)) ==> !declares(self.spec_schema().spec_fields(), n@)
                && exists|i: int| 0 <= i < fields@.len() && #[trigger] fields@[i]@ == n@,
            all_declared(self.spec_schema(), fields@) && is_blank(query@) ==> (r matches Ok(v) && v@.len() == 0),
            r matches Ok(v) ==> v@.len() <= top_k && only_stored(self.spec_schema(), v@),
    {
        let positions = match self.resolve_fields(fields) {
            Ok(p) => p,
            Err(e) => return Err(e),
        };
        if blank(query) {
            return Ok(Vec::new());
        }
        let searcher = searcher_of(&self.reader);
        let found = match search_stored(&searcher, &self.index, &self.schema, positions, query, top_k) {
            Ok(f) => f,
            Err(e) => return Err(e),
        };
        let mut hits: Vec<Hit> = Vec::new();
        let mut i: usize = 0;
        while i < found.len()
            invariant
                self.wf(),
                0 <= i <= found@.len(),
                found@.len() <= top_k,
                hits@.len() == i,
                forall|h: int, j: int|
                    0 <= h < hits@.len() && 0 <= j < hits@[h].fields@.len() ==> is_stored(
                        self.fields,
                        (#[trigger] hits@[h].fields@[j]).0@,
                    ),
            decreases found@.len() - i,
        {
            let kept = stored_only(&self.fields, &found[i]);
            proof {
                lemma_stored_view_names(self.fields, found@[i as int]@);
                assert forall|j: int| 0 <= j < kept@.len() implies is_stored(self.fields, #[trigger] kept@[j].0@) by {
                    assert(pairs_view(kept@)[j].0 == kept@[j].0@);
                }
            }
            let ghost prev = hits@;
            let ghost kept_view = kept@;
            assert(forall|h: int, j: int|
                0 <= h < prev.len() && 0 <= j < prev[h].fields@.len() ==> is_stored(self.fields, (#[trigger] prev[h].fields@[j]).0@));
            hits.push(Hit { fields: kept });
            proof {
                assert forall|h: int, j: int|
                    0 <= h < hits@.len() && 0 <= j < hits@[h].fields@.len() implies is_stored(
                        self.fields,
                        (#[trigger] hits@[h].fields@[j]).0@,
                    ) by {
                    if h < prev.len() {
                        assert(hits@[h] == prev[h]);
                        assert(is_stored(self.fields, prev[h].fields@[j].0@));
                    } else {
                        assert(hits@[h].fields@ == kept_view);
                        assert(hits@[h].fields@[j] == kept_view[j]);
                        assert(is_stored(self.fields, kept_view[j].0@));
                    }
                }
            }
            i = i + 1;
        }
        assert(hits@.len() <= top_k);
        assert(only_stored(self.spec_schema(), hits@));
        Ok(hits)
    }
    /// The schema the index was created with.
    pub fn schema(&self) -> (r: &FieldSchema)
        ensures
            *r == self.spec_schema(),
    {
        &self.fields
    }

    /// The number of documents that searches can see.
    pub fn num_visible(&self) -> (r: usize)
        ensures
            r == self.spec_visible(),
    {
        self.visible
    }

    /// The number of documents added and not yet committed.
    pub fn num_pending(&self) -> (r: usize)
        ensures
            r == self.spec_pending(),
    {
        self.pending
    }

    /// Whether this index holds the writer lock.
    pub fn writer_open(&self) -> (r: bool)
        ensures
            r == self.spec_writer_open(),
    {
        self.writer.is_some()
    }
}

} // verus!
