use vstd::prelude::*;
use vstd::string::StrSliceExecFns;

verus! {

/// Which tokenizer a field's text goes through.
#[derive(Clone, Copy, Debug, PartialEq, Eq, Structural)]
pub enum LanguageClass {
    /// Chinese text, segmented without relying on whitespace.
    Cjk,
    /// Latin-script text, lowercased and split on non-alphanumeric characters.
    Latin,
}

/// The declaration of one field of the index.
#[derive(Clone, Debug)]
pub struct FieldSpec {
    pub name: String,
    pub language: LanguageClass,
    pub stored: bool,
    pub indexed: bool,
}

/// Problems with the set of fields an index is created or opened with.
#[derive(Clone, Debug, PartialEq, Eq)]
pub enum SchemaError {
    Empty,
    /// A field name is empty or starts with `-`.
    InvalidName(String),
    DuplicateName(String),
    NotFound,
    Corrupt,
    Mismatch,
    DirectoryNotEmpty,
}

/// A validated, immutable set of field declarations.
#[derive(Clone, Debug)]
pub struct FieldSchema {
    fields: Vec<FieldSpec>,
}

/// The abstract value of a field declaration.
pub struct SpecField {
    pub name: Seq<char>,
    pub language: LanguageClass,
    pub stored: bool,
    pub indexed: bool,
}

impl FieldSpec {
    pub open spec fn spec_view(&self) -> SpecField {
        SpecField {
            name: self.name@,
            language: self.language,
            stored: self.stored,
            indexed: self.indexed,
        }
    }

    /// A field that is indexed with frequencies and positions and whose text is stored.
    pub fn text(name: &str, language: LanguageClass) -> (r: FieldSpec)
        ensures
            r.name@ == name@,
            r.language == language,
            r.stored,
            r.indexed,
    {
        FieldSpec { name: name.to_string(), language, stored: true, indexed: true }
    }
}

/// A name the storage layer accepts for a field: not empty, not starting with `-`.
pub open spec fn valid_name(name: Seq<char>) -> bool {
    name.len() > 0 && name[0] != '-'
}

/// Every declaration has a valid name.
pub open spec fn names_valid(fields: Seq<FieldSpec>) -> bool {
    forall|i: int| 0 <= i < fields.len() ==> valid_name(#[trigger] fields[i].name@)
}

/// No two declarations share a name.
pub open spec fn names_unique(fields: Seq<FieldSpec>) -> bool {
    forall|i: int, j: int|
        0 <= i < j < fields.len() ==> #[trigger] fields[i].name@ != #[trigger] fields[j].name@
}

/// `name` is declared at two distinct positions.
pub open spec fn is_duplicate(fields: Seq<FieldSpec>, name: Seq<char>) -> bool {
    exists|i: int, j: int|
        0 <= i < j < fields.len() && #[trigger] fields[i].name@ == name && #[trigger] fields[j].name@
            == name
}

pub open spec fn declares(fields: Seq<FieldSpec>, name: Seq<char>) -> bool {
    exists|i: int| 0 <= i < fields.len() && #[trigger] fields[i].name@ == name
}

/// Two field lists describe the same schema: same names, classes and options, in order.
pub open spec fn same_fields(a: Seq<FieldSpec>, b: Seq<FieldSpec>) -> bool {
    a.len() == b.len() && forall|i: int| 0 <= i < a.len() ==> #[trigger] a[i].spec_view() == b[i].spec_view()
}

/// The fields of the dictionary index, in declaration order: one superset of the
/// vocabularies of every record source (dictionary entries, wiki pages, sentence
/// pairs, news articles and encyclopedia answers).
pub open spec fn dict_entry(i: int) -> (Seq<char>, LanguageClass) {
    if i == 0 {
        ("simplified"@, LanguageClass::Cjk)
    } else if i == 1 {
        ("traditional"@, LanguageClass::Cjk)
    } else if i == 2 {
        ("zh_definition"@, LanguageClass::Cjk)
    } else if i == 3 {
        ("eng_definition"@, LanguageClass::Latin)
    } else if i == 4 {
        ("english"@, LanguageClass::Latin)
    } else if i == 5 {
        ("synonym"@, LanguageClass::Cjk)
    } else if i == 6 {
        ("antonym"@, LanguageClass::Cjk)
    } else if i == 7 {
        ("ipa"@, LanguageClass::Latin)
    } else if i == 8 {
        ("url"@, LanguageClass::Latin)
    } else if i == 9 {
        ("title"@, LanguageClass::Cjk)
    } else if i == 10 {
        ("text"@, LanguageClass::Cjk)
    } else if i == 11 {
        ("english_sentence"@, LanguageClass::Latin)
    } else if i == 12 {
        ("chinese_sentence"@, LanguageClass::Cjk)
    } else if i == 13 {
        ("keywords"@, LanguageClass::Cjk)
    } else if i == 14 {
        ("description"@, LanguageClass::Cjk)
    } else if i == 15 {
        ("source"@, LanguageClass::Cjk)
    } else if i == 16 {
        ("time"@, LanguageClass::Latin)
    } else if i == 17 {
        ("content"@, LanguageClass::Cjk)
    } else if i == 18 {
        ("category"@, LanguageClass::Cjk)
    } else {
        ("answer"@, LanguageClass::Cjk)
    }
}

pub open spec fn dict_layout() -> Seq<(Seq<char>, LanguageClass)> {
    Seq::new(20, |i: int| dict_entry(i))
}

/// The schema holds exactly the fields of the dictionary layout, in order, each indexed
/// and stored.
pub open spec fn is_dict_schema(s: FieldSchema) -> bool {
    &&& s.spec_fields().len() == dict_layout().len()
    &&& forall|i: int|
        0 <= i < dict_layout().len() ==> (#[trigger] s.spec_fields()[i]).name@ == dict_layout()[i].0
            && s.spec_fields()[i].language == dict_layout()[i].1 && s.spec_fields()[i].stored
            && s.spec_fields()[i].indexed
}

/// Two positions of the dictionary layout hold different names: they differ in length
/// or in one of their first two characters.
proof fn lemma_dict_names_distinct(i: int, j: int)
    requires
        0 <= i < j < dict_layout().len(),
    ensures
        dict_entry(i).0 != dict_entry(j).0,
{
    reveal_strlit("simplified");
    reveal_strlit("traditional");
    reveal_strlit("zh_definition");
    reveal_strlit("eng_definition");
    reveal_strlit("english");
    reveal_strlit("synonym");
    reveal_strlit("antonym");
    reveal_strlit("ipa");
    reveal_strlit("url");
    reveal_strlit("title");
    reveal_strlit("text");
    reveal_strlit("english_sentence");
    reveal_strlit("chinese_sentence");
    reveal_strlit("keywords");
    reveal_strlit("description");
    reveal_strlit("source");
    reveal_strlit("time");
    reveal_strlit("content");
    reveal_strlit("category");
    reveal_strlit("answer");
    let (a, b) = (dict_entry(i).0, dict_entry(j).0);
    assert(a.len() != b.len() || a[0] != b[0] || a[1] != b[1]) by {
        if i == 0 {
        } else if i == 1 {
        } else if i == 2 {
        } else if i == 3 {
        } else if i == 4 {
        } else if i == 5 {
        } else if i == 6 {
        } else if i == 7 {
        } else if i == 8 {
        } else if i == 9 {
        } else if i == 10 {
        } else if i == 11 {
        } else if i == 12 {
        } else if i == 13 {
        } else if i == 14 {
        } else if i == 15 {
        } else if i == 16 {
        } else if i == 17 {
        } else if i == 18 {
        } else {
        }
    }
}

/// The dictionary schema: every field is indexed with frequencies and positions and
/// stored, and runs through the tokenizer of its language class.
pub fn dict_schema() -> (r: FieldSchema)
    ensures
        r.wf(),
        is_dict_schema(r),
        r.spec_fields().len() == dict_layout().len(),
        forall|i: int|
            0 <= i < dict_layout().len() ==> (#[trigger] r.spec_fields()[i]).name@ == dict_layout()[i].0
                && r.spec_fields()[i].language == dict_layout()[i].1 && r.spec_fields()[i].stored
                && r.spec_fields()[i].indexed,
{
    proof {
        reveal_strlit("simplified");
        reveal_strlit("traditional");
        reveal_strlit("zh_definition");
        reveal_strlit("eng_definition");
        reveal_strlit("english");
        reveal_strlit("synonym");
        reveal_strlit("antonym");
        reveal_strlit("ipa");
        reveal_strlit("url");
        reveal_strlit("title");
        reveal_strlit("text");
        reveal_strlit("english_sentence");
        reveal_strlit("chinese_sentence");
        reveal_strlit("keywords");
        reveal_strlit("description");
        reveal_strlit("source");
        reveal_strlit("time");
        reveal_strlit("content");
        reveal_strlit("category");
        reveal_strlit("answer");
    }
    let mut fields: Vec<FieldSpec> = Vec::new();
    fields.push(FieldSpec::text("simplified", LanguageClass::Cjk));
    fields.push(FieldSpec::text("traditional", LanguageClass::Cjk));
    fields.push(FieldSpec::text("zh_definition", LanguageClass::Cjk));
    fields.push(FieldSpec::text("eng_definition", LanguageClass::Latin));
    fields.push(FieldSpec::text("english", LanguageClass::Latin));
    fields.push(FieldSpec::text("synonym", LanguageClass::Cjk));
    fields.push(FieldSpec::text("antonym", LanguageClass::Cjk));
    fields.push(FieldSpec::text("ipa", LanguageClass::Latin));
    fields.push(FieldSpec::text("url", LanguageClass::Latin));
    fields.push(FieldSpec::text("title", LanguageClass::Cjk));
    fields.push(FieldSpec::text("text", LanguageClass::Cjk));
    fields.push(FieldSpec::text("english_sentence", LanguageClass::Latin));
    fields.push(FieldSpec::text("chinese_sentence", LanguageClass::Cjk));
    fields.push(FieldSpec::text("keywords", LanguageClass::Cjk));
    fields.push(FieldSpec::text("description", LanguageClass::Cjk));
    fields.push(FieldSpec::text("source", LanguageClass::Cjk));
    fields.push(FieldSpec::text("time", LanguageClass::Latin));
    fields.push(FieldSpec::text("content", LanguageClass::Cjk));
    fields.push(FieldSpec::text("category", LanguageClass::Cjk));
    fields.push(FieldSpec::text("answer", LanguageClass::Cjk));
    proof {
        assert(fields@.len() == dict_layout().len());
        assert forall|i: int| 0 <= i < dict_layout().len() implies
            (#[trigger] fields@[i]).name@ == dict_layout()[i].0 && fields@[i].language == dict_layout()[i].1
                && fields@[i].stored && fields@[i].indexed by {}
        assert forall|i: int| 0 <= i < fields@.len() implies valid_name(#[trigger] fields@[i].name@) by {
            let a = dict_entry(i).0;
            assert(a.len() > 0 && a[0] != '-');
        }
        assert forall|i: int, j: int| 0 <= i < j < fields@.len() implies #[trigger] fields@[i].name@
            != #[trigger] fields@[j].name@ by {
            lemma_dict_names_distinct(i, j);
        }
    }
    FieldSchema { fields }
}

impl FieldSchema {
    pub closed spec fn spec_fields(&self) -> Seq<FieldSpec> {
        self.fields@
    }

    /// A schema holds at least one field and no two fields share a name.
    pub open spec fn wf(&self) -> bool {
        self.spec_fields().len() > 0 && names_valid(self.spec_fields()) && names_unique(self.spec_fields())
    }

    /// Builds a schema from its field declarations, rejecting an empty list and
    /// repeated names.
    pub fn create(specs: Vec<FieldSpec>) -> (r: Result<FieldSchema, SchemaError>)
        ensures
            specs@.len() == 0 <==> r == Err::<FieldSchema, SchemaError>(SchemaError::Empty),
            r is Ok <==> specs@.len() > 0 && names_valid(specs@) && names_unique(specs@),
            r matches Ok(s) ==> s.wf() && s.spec_fields() == specs@,
            r matches Err(SchemaError::InvalidName(n)) ==> !valid_name(n@) && exists|i: int|
                0 <= i < specs@.len() && #[trigger] specs@[i].name@ == n@,
            r matches Err(SchemaError::DuplicateName(n)) ==> is_duplicate(specs@, n@),
            r matches Err(e) ==> e is Empty || e is InvalidName || e is DuplicateName,
    {
        if specs.len() == 0 {
            return Err(SchemaError::Empty);
        }
        let mut v: usize = 0;
        while v < specs.len()
            invariant
                0 <= v <= specs@.len(),
                forall|a: int| 0 <= a < v ==> valid_name(#[trigger] specs@[a].name@),
            decreases specs@.len() - v,
        {
            let name = specs[v].name.as_str();
            let bad = name.unicode_len() == 0 || name.get_char(0) == '-';
            if bad {
                return Err(SchemaError::InvalidName(specs[v].name.clone()));
            }
            v = v + 1;
        }
        let n = specs.len();
        let mut j: usize = 1;
        while j < n
            invariant
                n == specs@.len(),
                1 <= j <= n,
                forall|a: int, b: int|
                    0 <= a < b < j ==> #[trigger] specs@[a].name@ != #[trigger] specs@[b].name@,
            decreases n - j,
        {
            let mut i: usize = 0;
            while i < j
                invariant
                    n == specs@.len(),
                    0 <= i <= j < n,
                    forall|a: int, b: int|
                        0 <= a < b < j ==> #[trigger] specs@[a].name@ != #[trigger] specs@[b].name@,
                    forall|a: int| 0 <= a < i ==> #[trigger] specs@[a].name@ != specs@[j as int].name@,
                decreases j - i,
            {
                if specs[i].name == specs[j].name {
                    let name = specs[j].name.clone();
                    proof {
                        assert(specs@[i as int].name@ == name@ && specs@[j as int].name@ == name@);
                    }
                    return Err(SchemaError::DuplicateName(name));
                }
                i = i + 1;
            }
            j = j + 1;
        }
        Ok(FieldSchema { fields: specs })
    }

    pub fn len(&self) -> (r: usize)
        ensures
            r == self.spec_fields().len(),
    {
        self.fields.len()
    }

    pub fn field(&self, i: usize) -> (r: &FieldSpec)
        requires
            i < self.spec_fields().len(),
        ensures
            *r == self.spec_fields()[i as int],
    {
        &self.fields[i]
    }

    /// The position of the field called `name`.
    pub fn find(&self, name: &String) -> (r: Option<usize>)
        ensures
            r is None <==> !declares(self.spec_fields(), name@),
            r matches Some(i) ==> i < self.spec_fields().len() && self.spec_fields()[i as int].name@
                == name@,
    {
        let mut i: usize = 0;
        while i < self.fields.len()
            invariant
                0 <= i <= self.fields@.len(),
                forall|a: int| 0 <= a < i ==> #[trigger] self.fields@[a].name@ != name@,
            decreases self.fields@.len() - i,
        {
            if self.fields[i].name == *name {
                return Some(i);
            }
            i = i + 1;
        }
        None
    }

    /// Checks a schema read back from an index against the one the caller expects.
    pub fn check_same(&self, expected: &FieldSchema) -> (r: Result<(), SchemaError>)
        ensures
            r is Ok <==> same_fields(self.spec_fields(), expected.spec_fields()),
            r matches Err(e) ==> e is Mismatch,
    {
        if self.fields.len() != expected.fields.len() {
            return Err(SchemaError::Mismatch);
        }
        let mut i: usize = 0;
        while i < self.fields.len()
            invariant
                self.fields@.len() == expected.fields@.len(),
                0 <= i <= self.fields@.len(),
                forall|a: int|
                    0 <= a < i ==> #[trigger] self.fields@[a].spec_view()
                        == expected.fields@[a].spec_view(),
            decreases self.fields@.len() - i,
        {
            let a = &self.fields[i];
            let b = &expected.fields[i];
            if !(a.name == b.name && a.language == b.language && a.stored == b.stored && a.indexed
                == b.indexed) {
                proof {
                    let (x, y) = (self.fields@[i as int].spec_view(), expected.fields@[i as int].spec_view());
                    assert(x.name != y.name || x.language != y.language || x.stored != y.stored
                        || x.indexed != y.indexed);
                    assert(x != y);
                }
                return Err(SchemaError::Mismatch);
            }
            i = i + 1;
        }
        Ok(())
    }
}

} // verus!
