//! Locale identifiers: a language code with an optional territory, as in `en` or `en-US`.

use crate::first_index::lemma_index_of_first;
use vstd::prelude::*;
use vstd::string::*;

verus! {

broadcast use vstd::string::group_string_axioms;

/// A language code with an optional territory qualifier.
#[derive(Debug)]
pub struct Locale {
    pub language: String,
    pub territory: Option<String>,
}

/// The mathematical value of a [`Locale`]: its two parts as character sequences.
pub ghost struct LocaleView {
    pub language: Seq<char>,
    pub territory: Option<Seq<char>>,
}

impl View for Locale {
    type V = LocaleView;

    open spec fn view(&self) -> LocaleView {
        LocaleView {
            language: self.language@,
            territory: match self.territory {
                Some(t) => Some(t@),
                None => None,
            },
        }
    }
}

impl DeepView for Locale {
    type V = LocaleView;

    open spec fn deep_view(&self) -> LocaleView {
        self@
    }
}

/// `s` cut at its first `'-'`: what stands before it, and what follows it.
/// Without a `'-'` the first part is all of `s` and there is no second part.
pub open spec fn split_dash(s: Seq<char>) -> (Seq<char>, Option<Seq<char>>) {
    match s.index_of_first('-') {
        Some(i) => (s.take(i), Some(s.skip(i + 1))),
        None => (s, None),
    }
}

/// The locale that an identifier denotes: the language is the first dash-delimited
/// segment, the territory the second one, and any further segment is dropped.
pub open spec fn parse_locale_spec(raw: Seq<char>) -> LocaleView {
    let (language, rest) = split_dash(raw);
    LocaleView {
        language,
        territory: match rest {
            Some(r) => Some(split_dash(r).0),
            None => None,
        },
    }
}

/// Cuts `s` at its first `'-'`.
fn split_at_dash(s: &str) -> (parts: (&str, Option<&str>))
    ensures
        parts.0@ == split_dash(s@).0,
        match parts.1 {
            Some(rest) => split_dash(s@).1 == Some(rest@),
            None => split_dash(s@).1 is None,
        },
{
    let n = s.unicode_len();
    let mut i: usize = 0;
    let mut at: usize = n;
    for c in it: s.chars()
        invariant
            n == s@.len(),
            it.seq() == s@,
            i == it.index(),
            at == n || (at < i && s@[at as int] == '-'),
            forall|k: int| 0 <= k < i && k < at ==> s@[k] != '-',
    {
        if at == n && c == '-' {
            at = i;
        }
        i = i + 1;
    }
    proof {
        lemma_index_of_first(s@, '-', at as int);
    }
    if at < n {
        (s.substring_char(0, at), Some(s.substring_char(at + 1, n)))
    } else {
        (s, None)
    }
}

/// Parses a locale identifier such as `en` or `en-US`.
///
/// The identifier is cut at each `'-'`. The first segment is the language, taken as it
/// stands (it is empty where the identifier starts with `'-'`). The second segment, if
/// there is one, is the territory. Further segments are dropped. Every input is accepted.
pub fn parse_locale(raw: &str) -> (locale: Locale)
    ensures
        locale@ == parse_locale_spec(raw@),
{
    let (language, rest) = split_at_dash(raw);
    let territory = match rest {
        Some(r) => Some(split_at_dash(r).0.to_owned()),
        None => None,
    };
    Locale { language: language.to_owned(), territory }
}

/// What a parsed identifier holds, in terms of the identifier alone.
///
/// The language is what stands before the first `'-'`, or the whole identifier where it
/// has none; it is empty only where the identifier is empty or starts with `'-'`. The
/// territory is absent exactly when the identifier has no `'-'`; where it is present it is
/// what stands between the first `'-'` and the next one, or the end.
pub proof fn lemma_parse_locale_parts(s: Seq<char>)
    ensures
        ({
            let language = parse_locale_spec(s).language;
            &&& language.is_prefix_of(s)
            &&& !language.contains('-')
            &&& s.contains('-') ==> language.len() < s.len() && s[language.len() as int] == '-'
            &&& !s.contains('-') ==> language == s
            &&& language.len() == 0 <==> s.len() == 0 || s[0] == '-'
        }),
        parse_locale_spec(s).territory is None <==> !s.contains('-'),
        parse_locale_spec(s).territory matches Some(territory) ==> {
            let head = parse_locale_spec(s).language + seq!['-'] + territory;
            &&& head.is_prefix_of(s)
            &&& !territory.contains('-')
            &&& head.len() == s.len() || s[head.len() as int] == '-'
        },
{
    s.index_of_first_ensures('-');
    if let Some(i) = s.index_of_first('-') {
        s.skip(i + 1).index_of_first_ensures('-');
    }
}

} // verus!
