//! Native names of interface languages, looked up in the ISO 639 tables.

use vstd::prelude::*;
use vstd::string::*;
use isolang::Language;
use crate::text::chars_of;

verus! {

#[verifier::external_type_specification]
#[verifier::external_body]
pub struct ExLanguage(isolang::Language);

/// The language with a given ISO 639-1 code, as `Language::from_639_1` looks it up.
pub uninterp spec fn iso639_1_language(code: Seq<char>) -> Option<Language>;

/// The autonym of a language, as `Language::to_autonym` gives it.
pub uninterp spec fn language_autonym(lang: Language) -> Option<Seq<char>>;

/// The English name of a language, as `Language::to_name` gives it.
pub uninterp spec fn language_english_name(lang: Language) -> Seq<char>;

/// The uppercase mapping of a character, as `char::to_uppercase` yields it.
pub uninterp spec fn char_uppercase(c: char) -> Seq<char>;

/// `isolang::Language::from_639_1`: the language of a two-letter code. Its table only
/// holds two-letter codes, so a code of another length finds nothing.
#[verifier::external_body]
fn language_from_639_1(code: &str) -> (r: Option<Language>)
    ensures
        r == iso639_1_language(code@),
        code@.len() != 2 ==> r is None,
{
    Language::from_639_1(code)
}

/// `isolang::Language::to_autonym`: the language's name in itself, when the table has one.
#[verifier::external_body]
fn autonym(lang: Language) -> (r: Option<String>)
    ensures
        match r {
            Some(s) => language_autonym(lang) == Some(s@),
            None => language_autonym(lang) is None,
        },
{
    lang.to_autonym().map(|s| s.to_string())
}

/// `isolang::Language::to_name`: the language's English name.
#[verifier::external_body]
fn english_name(lang: Language) -> (r: String)
    ensures
        r@ == language_english_name(lang),
{
    lang.to_name().to_string()
}

/// `char::to_uppercase`, collected into a string.
#[verifier::external_body]
fn uppercase(c: char) -> (r: String)
    ensures
        r@ == char_uppercase(c),
{
    c.to_uppercase().collect::<String>()
}

/// The length of the part of `code` before the first `-` or `_`.
pub open spec fn base_len(code: Seq<char>) -> int
    decreases code.len(),
{
    if code.len() == 0 {
        0
    } else if code[0] == '-' || code[0] == '_' {
        0
    } else {
        1 + base_len(code.drop_first())
    }
}

/// The language part of a locale code (`pt` of `pt-BR`).
pub open spec fn base_code(code: Seq<char>) -> Seq<char> {
    code.take(base_len(code))
}

/// A name with its first character in uppercase.
pub open spec fn capitalized(s: Seq<char>) -> Seq<char> {
    if s.len() == 0 {
        s
    } else {
        char_uppercase(s[0]) + s.drop_first()
    }
}

/// The name shown for an interface language: the capitalised autonym of its base code's
/// language (its English name when there is no autonym), or the code itself when the
/// base code is not an ISO 639-1 code.
pub open spec fn native_language_name(code: Seq<char>) -> Seq<char> {
    match iso639_1_language(base_code(code)) {
        Some(l) => capitalized(
            match language_autonym(l) {
                Some(a) => a,
                None => language_english_name(l),
            },
        ),
        None => code,
    }
}

proof fn lemma_base_len(code: Seq<char>, i: int)
    requires
        0 <= i <= code.len(),
        forall|k: int| 0 <= k < i ==> code[k] != '-' && code[k] != '_',
    ensures
        base_len(code) == i + base_len(code.subrange(i, code.len() as int)),
    decreases i,
{
    if i > 0 {
        let t = code.drop_first();
        assert forall|k: int| 0 <= k < i - 1 implies t[k] != '-' && t[k] != '_' by {
            assert(t[k] == code[k + 1]);
        }
        lemma_base_len(t, i - 1);
        assert(t.subrange(i - 1, t.len() as int) == code.subrange(i, code.len() as int));
    } else {
        assert(code.subrange(0, code.len() as int) == code);
    }
}

/// The name shown for an interface language code in the language picker.
pub fn get_native_language_name(code: &str) -> (r: String)
    ensures
        r@ == native_language_name(code@),
{
    let chars = chars_of(code);
    let n = chars.len();
    let mut k: usize = 0;
    while k < n && chars[k] != '-' && chars[k] != '_'
        invariant
            n == chars@.len(),
            chars@ == code@,
            k <= n,
            forall|j: int| 0 <= j < k ==> chars@[j] != '-' && chars@[j] != '_',
        decreases n - k,
    {
        k = k + 1;
    }
    proof {
        lemma_base_len(code@, k as int);
        let rest = code@.subrange(k as int, n as int);
        if k < n {
            assert(rest[0] == code@[k as int]);
        }
        assert(base_len(rest) == 0);
    }
    let base = code.substring_char(0, k);
    match language_from_639_1(base) {
        Some(lang) => {
            let raw = match autonym(lang) {
                Some(a) => a,
                None => english_name(lang),
            };
            let text = raw.as_str();
            let len = text.unicode_len();
            if len == 0 {
                return raw;
            }
            let mut out = uppercase(text.get_char(0));
            out.append(text.substring_char(1, len));
            proof {
                assert(text@.subrange(1, len as int) == text@.drop_first());
            }
            out
        },
        None => String::from_str(code),
    }
}

} // verus!
