use crate::schema::LanguageClass;
use cang_jie::{CangJieTokenizer, TokenizerOption};
use jieba_rs::Jieba;
use std::sync::Arc;
use tantivy::tokenizer::{LowerCaser, RemoveLongFilter, SimpleTokenizer, TextAnalyzer, Tokenizer};
use vstd::prelude::*;

verus! {

/// The name under which the CJK tokenizer is registered with an index.
pub const CJK_TOKENIZER: &'static str = "CANG_JIE";

/// The name of tantivy's built-in Latin analyzer.
pub const LATIN_TOKENIZER: &'static str = "default";

/// A token: its text and the byte range `[offset_from, offset_to)` it came from.
#[derive(Clone, Debug, PartialEq, Eq)]
pub struct Token {
    pub text: String,
    pub offset_from: usize,
    pub offset_to: usize,
}

/// A token seen as its characters and byte range.
pub type TokenView = (Seq<char>, nat, nat);

/// The tokens of tantivy's default analyzer on `s`.
pub uninterp spec fn latin_tokens_of(s: Seq<char>) -> Seq<TokenView>;

pub open spec fn tokens_view(tokens: Seq<Token>) -> Seq<TokenView> {
    tokens.map_values(|t: Token| (t.text@, t.offset_from as nat, t.offset_to as nat))
}

/// The number of bytes of `c` in UTF-8.
pub open spec fn utf8_len(c: char) -> nat {
    if c <= '\u{7F}' {
        1
    } else if c <= '\u{7FF}' {
        2
    } else if c <= '\u{FFFF}' {
        3
    } else {
        4
    }
}

/// The byte offset of character `i` of `s` in its UTF-8 encoding.
pub open spec fn byte_offset(s: Seq<char>, i: nat) -> nat
    decreases i,
{
    if i == 0 || i > s.len() {
        0
    } else {
        byte_offset(s, (i - 1) as nat) + utf8_len(s[i - 1])
    }
}

/// Each character of `s` as a token of its own, with its byte range.
pub open spec fn char_tokens(s: Seq<char>) -> Seq<TokenView> {
    Seq::new(s.len(), |i: int| (seq![s[i]], byte_offset(s, i as nat), byte_offset(s, (i + 1) as nat)))
}

/// What the tokenizer of a language class makes of `s`.
pub open spec fn tokens_of(language: LanguageClass, s: Seq<char>) -> Seq<TokenView> {
    match language {
        LanguageClass::Cjk => char_tokens(s),
        LanguageClass::Latin => latin_tokens_of(s),
    }
}

/// Relies on cang_jie's `CangJieTokenizer` over an empty jieba dictionary with
/// `TokenizerOption::Unicode`, whose token stream holds one token per character of the
/// text, in order, each with the byte range of that character.
#[verifier::external_body]
fn cjk_analyze(text: &str) -> (r: Vec<Token>)
    ensures
        tokens_view(r@) == char_tokens(text@),
{
    let tokenizer = CangJieTokenizer { worker: Arc::new(Jieba::empty()), option: TokenizerOption::Unicode };
    let mut out = Vec::new();
    tokenizer.token_stream(text).process(&mut |t| out.push(Token { text: t.text.clone(), offset_from: t.offset_from, offset_to: t.offset_to }));
    out
}

/// Relies on tantivy's default analyzer (`SimpleTokenizer`, then `RemoveLongFilter` at
/// 40 bytes, then `LowerCaser`, as its `TokenizerManager` registers it): its tokens depend
/// on the text alone, and an empty text has none.
#[verifier::external_body]
fn latin_analyze(text: &str) -> (r: Vec<Token>)
    ensures
        tokens_view(r@) == latin_tokens_of(text@),
        text@.len() == 0 ==> r@.len() == 0,
{
    let analyzer = TextAnalyzer::from(SimpleTokenizer).filter(RemoveLongFilter::limit(40)).filter(LowerCaser);
    let mut out = Vec::new();
    analyzer.token_stream(text).process(&mut |t| out.push(Token { text: t.text.clone(), offset_from: t.offset_from, offset_to: t.offset_to }));
    out
}

/// The tokens of `text` under the tokenizer of `language`, with their byte ranges. A
/// non-empty text in the CJK class always yields at least one token, since every
/// character becomes one.
pub fn tokenize(language: LanguageClass, text: &str) -> (r: Vec<Token>)
    ensures
        tokens_view(r@) == tokens_of(language, text@),
        language == LanguageClass::Cjk ==> r@.len() == text@.len(),
        language == LanguageClass::Cjk && text@.len() > 0 ==> r@.len() > 0,
        text@.len() == 0 ==> r@.len() == 0,
{
    match language {
        LanguageClass::Cjk => {
            let r = cjk_analyze(text);
            assert(tokens_view(r@).len() == r@.len());
            r
        },
        LanguageClass::Latin => latin_analyze(text),
    }
}

/// Every non-empty text in the CJK class has at least one token, and its tokens are
/// exactly its characters, each with its byte range.
pub proof fn lemma_cjk_tokens_nonempty(s: Seq<char>)
    requires
        s.len() > 0,
    ensures
        tokens_of(LanguageClass::Cjk, s).len() > 0,
        forall|i: int| 0 <= i < s.len() ==> (#[trigger] tokens_of(LanguageClass::Cjk, s)[i]).0 == seq![s[i]],
        forall|i: int|
            0 <= i < s.len() ==> (#[trigger] tokens_of(LanguageClass::Cjk, s)[i]).2 == tokens_of(LanguageClass::Cjk, s)[i].1
                + utf8_len(s[i]),
{
}

} // verus!
