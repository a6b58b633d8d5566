use crate::record::{FieldValue, Record};
use crate::schema::{dict_entry, dict_layout};
use vstd::prelude::*;

verus! {

/// A record from any of the dictionary's sources, with one slot per field of the
/// dictionary schema, in the schema's order. Each source fills only the slots it knows.
#[derive(Clone, Debug, Default)]
pub struct GenericDictEntry {
    pub simplified: Option<String>,
    pub traditional: Option<String>,
    pub zh_definition: Option<String>,
    pub eng_definition: Option<String>,
    pub english: Option<String>,
    pub synonym: Vec<String>,
    pub antonym: Vec<String>,
    pub ipa: Option<String>,
    pub url: Option<String>,
    pub title: Option<String>,
    pub text: Option<String>,
    pub english_sentence: Option<String>,
    pub chinese_sentence: Option<String>,
    pub keywords: Option<String>,
    pub description: Option<String>,
    pub source: Option<String>,
    pub time: Option<String>,
    pub content: Option<String>,
    pub category: Option<String>,
    pub answer: Option<String>,
}

pub open spec fn entries_view(entries: Seq<(String, FieldValue)>) -> Seq<(Seq<char>, FieldValue)> {
    entries.map_values(|e: (String, FieldValue)| (e.0@, e.1))
}

/// A text slot: present when it holds a text.
pub open spec fn text_value(v: Option<String>) -> Option<FieldValue> {
    match v {
        Some(t) => Some(FieldValue::Text(t)),
        None => None,
    }
}

/// A list slot: present when the list is not empty.
pub open spec fn list_value(v: Vec<String>) -> Option<FieldValue> {
    if v@.len() > 0 {
        Some(FieldValue::TextList(v))
    } else {
        None
    }
}

/// The value of the slot at position `k` of the dictionary layout, if it is present.
pub open spec fn slot(e: GenericDictEntry, k: int) -> Option<FieldValue> {
    if k == 0 {
        text_value(e.simplified)
    } else if k == 1 {
        text_value(e.traditional)
    } else if k == 2 {
        text_value(e.zh_definition)
    } else if k == 3 {
        text_value(e.eng_definition)
    } else if k == 4 {
        text_value(e.english)
    } else if k == 5 {
        list_value(e.synonym)
    } else if k == 6 {
        list_value(e.antonym)
    } else if k == 7 {
        text_value(e.ipa)
    } else if k == 8 {
        text_value(e.url)
    } else if k == 9 {
        text_value(e.title)
    } else if k == 10 {
        text_value(e.text)
    } else if k == 11 {
        text_value(e.english_sentence)
    } else if k == 12 {
        text_value(e.chinese_sentence)
    } else if k == 13 {
        text_value(e.keywords)
    } else if k == 14 {
        text_value(e.description)
    } else if k == 15 {
        text_value(e.source)
    } else if k == 16 {
        text_value(e.time)
    } else if k == 17 {
        text_value(e.content)
    } else if k == 18 {
        text_value(e.category)
    } else {
        text_value(e.answer)
    }
}

/// `s`, followed by the field at position `k` of the layout when a value is present.
pub open spec fn then_value(s: Seq<(Seq<char>, FieldValue)>, k: int, v: Option<FieldValue>) -> Seq<(Seq<char>, FieldValue)> {
    match v {
        Some(x) => s.push((dict_entry(k).0, x)),
        None => s,
    }
}

/// The present fields among the first `n` slots of `e`, in order.
pub open spec fn entry_prefix(e: GenericDictEntry, n: nat) -> Seq<(Seq<char>, FieldValue)>
    decreases n,
{
    if n == 0 {
        seq![]
    } else {
        then_value(entry_prefix(e, (n - 1) as nat), n - 1, slot(e, n - 1))
    }
}

/// The present fields of `e`, in the order of the dictionary layout.
pub open spec fn entry_fields(e: GenericDictEntry) -> Seq<(Seq<char>, FieldValue)> {
    entry_prefix(e, 20)
}

/// The name is one of the dictionary layout's.
pub open spec fn in_dict_layout(name: Seq<char>) -> bool {
    exists|k: int| 0 <= k < dict_layout().len() && #[trigger] dict_entry(k).0 == name
}

/// Appends `name` with the slot's value, if there is one.
fn push_value(entries: &mut Vec<(String, FieldValue)>, k: Ghost<int>, name: &str, v: Option<FieldValue>)
    requires
        name@ == dict_entry(k@).0,
    ensures
        entries_view(final(entries)@) == then_value(entries_view(old(entries)@), k@, v),
{
    if let Some(x) = v {
        let ghost value = x;
        entries.push((name.to_string(), x));
        proof {
            assert(entries_view(final(entries)@) =~= entries_view(old(entries)@).push((name@, value)));
        }
    }
}

/// A text slot as a field value.
fn text_slot(v: Option<String>) -> (r: Option<FieldValue>)
    ensures
        r == text_value(v),
{
    match v {
        Some(t) => Some(FieldValue::Text(t)),
        None => None,
    }
}

/// A list slot as a field value.
fn list_slot(v: Vec<String>) -> (r: Option<FieldValue>)
    ensures
        r == list_value(v),
{
    if v.len() > 0 {
        Some(FieldValue::TextList(v))
    } else {
        None
    }
}

impl GenericDictEntry {
    /// The record of the present fields: every text that is there and every list that is
    /// not empty, under its dictionary field name, in the order of the dictionary layout.
    pub fn into_record(self) -> (r: Record)
        ensures
            entries_view(r.entries@) == entry_fields(self),
    {
        let ghost e = self;
        let mut entries: Vec<(String, FieldValue)> = Vec::new();
        proof {
            assert(entries_view(entries@) =~= entry_prefix(e, 0));
            reveal_strlit("simplified");
            reveal_strlit("traditional");
            reveal_strlit("zh_definition");
            reveal_strlit("eng_definition");
            reveal_strlit("english");
            reveal_strlit("synonym");
            reveal_strlit("antonym");
            reveal_strlit("ipa");
            reveal_strlit("url");
            reveal_strlit("title");
            reveal_strlit("text");
            reveal_strlit("english_sentence");
            reveal_strlit("chinese_sentence");
            reveal_strlit("keywords");
            reveal_strlit("description");
            reveal_strlit("source");
            reveal_strlit("time");
            reveal_strlit("content");
            reveal_strlit("category");
            reveal_strlit("answer");
        }
        push_value(&mut entries, Ghost(0), "simplified", text_slot(self.simplified));
        assert(entries_view(entries@) == entry_prefix(e, 1));
        push_value(&mut entries, Ghost(1), "traditional", text_slot(self.traditional));
        assert(entries_view(entries@) == entry_prefix(e, 2));
        push_value(&mut entries, Ghost(2), "zh_definition", text_slot(self.zh_definition));
        assert(entries_view(entries@) == entry_prefix(e, 3));
        push_value(&mut entries, Ghost(3), "eng_definition", text_slot(self.eng_definition));
        assert(entries_view(entries@) == entry_prefix(e, 4));
        push_value(&mut entries, Ghost(4), "english", text_slot(self.english));
        assert(entries_view(entries@) == entry_prefix(e, 5));
        push_value(&mut entries, Ghost(5), "synonym", list_slot(self.synonym));
        assert(entries_view(entries@) == entry_prefix(e, 6));
        push_value(&mut entries, Ghost(6), "antonym", list_slot(self.antonym));
        assert(entries_view(entries@) == entry_prefix(e, 7));
        push_value(&mut entries, Ghost(7), "ipa", text_slot(self.ipa));
        assert(entries_view(entries@) == entry_prefix(e, 8));
        push_value(&mut entries, Ghost(8), "url", text_slot(self.url));
        assert(entries_view(entries@) == entry_prefix(e, 9));
        push_value(&mut entries, Ghost(9), "title", text_slot(self.title));
        assert(entries_view(entries@) == entry_prefix(e, 10));
        push_value(&mut entries, Ghost(10), "text", text_slot(self.text));
        assert(entries_view(entries@) == entry_prefix(e, 11));
        push_value(&mut entries, Ghost(11), "english_sentence", text_slot(self.english_sentence));
        assert(entries_view(entries@) == entry_prefix(e, 12));
        push_value(&mut entries, Ghost(12), "chinese_sentence", text_slot(self.chinese_sentence));
        assert(entries_view(entries@) == entry_prefix(e, 13));
        push_value(&mut entries, Ghost(13), "keywords", text_slot(self.keywords));
        assert(entries_view(entries@) == entry_prefix(e, 14));
        push_value(&mut entries, Ghost(14), "description", text_slot(self.description));
        assert(entries_view(entries@) == entry_prefix(e, 15));
        push_value(&mut entries, Ghost(15), "source", text_slot(self.source));
        assert(entries_view(entries@) == entry_prefix(e, 16));
        push_value(&mut entries, Ghost(16), "time", text_slot(self.time));
        assert(entries_view(entries@) == entry_prefix(e, 17));
        push_value(&mut entries, Ghost(17), "content", text_slot(self.content));
        assert(entries_view(entries@) == entry_prefix(e, 18));
        push_value(&mut entries, Ghost(18), "category", text_slot(self.category));
        assert(entries_view(entries@) == entry_prefix(e, 19));
        push_value(&mut entries, Ghost(19), "answer", text_slot(self.answer));
        assert(entries_view(entries@) == entry_prefix(e, 20));
        Record { entries }
    }
}

/// The names of the first `n` present fields all belong to the dictionary layout.
proof fn lemma_prefix_in_layout(e: GenericDictEntry, n: nat)
    requires
        n <= 20,
    ensures
        forall|i: int| 0 <= i < entry_prefix(e, n).len() ==> in_dict_layout(#[trigger] entry_prefix(e, n)[i].0),
    decreases n,
{
    if n > 0 {
        let s = entry_prefix(e, (n - 1) as nat);
        lemma_prefix_in_layout(e, (n - 1) as nat);
        let t = entry_prefix(e, n);
        assert forall|i: int| 0 <= i < t.len() implies in_dict_layout(#[trigger] t[i].0) by {
            if i < s.len() {
                assert(t[i] == s[i]);
            } else {
                assert(dict_entry(n - 1).0 == t[i].0);
            }
        }
    }
}

/// A dictionary entry turns into a record whose fields all belong to the dictionary
/// schema, so the dictionary index never rejects it.
pub proof fn lemma_entry_fields_in_layout(e: GenericDictEntry)
    ensures
        forall|i: int| 0 <= i < entry_fields(e).len() ==> in_dict_layout(#[trigger] entry_fields(e)[i].0),
{
    lemma_prefix_in_layout(e, 20);
}

} // verus!
