//! The output document of one row for one application: a tagged segment for each locale
//! of the application that the row has a translation for.

use crate::locale::{Locale, LocaleView};
use crate::row::Row;
use vstd::prelude::*;
use vstd::seq_lib::lemma_flatten_concat;
use vstd::string::*;

verus! {

/// The tag of a locale: its language, followed by `-` and the territory where it has one.
pub open spec fn tag(locale: LocaleView) -> Seq<char> {
    match locale.territory {
        Some(territory) => locale.language + "-"@ + territory,
        None => locale.language,
    }
}

/// The segment that carries `text` for `locale`: a line break, the opening tag, a line
/// break, the text as it stands, a line break and the closing tag.
pub open spec fn segment(locale: LocaleView, text: Seq<char>) -> Seq<char> {
    "\n<"@ + tag(locale) + ">"@ + "\n"@ + text + "\n</"@ + tag(locale) + ">"@
}

/// What one locale adds to the document of `row`: the segment with the cell that the row
/// holds under the locale's language, or nothing where the row has no such column.
/// The territory plays no part in finding the cell.
pub open spec fn part(locale: LocaleView, row: Map<Seq<char>, Seq<char>>) -> Seq<char> {
    if row.contains_key(locale.language) {
        segment(locale, row[locale.language])
    } else {
        Seq::empty()
    }
}

/// The document of `row` for an application with these locales: the parts of the locales,
/// one after the other in the order of the list.
pub open spec fn document(locales: Seq<LocaleView>, row: Map<Seq<char>, Seq<char>>) -> Seq<char> {
    locales.flat_map(|locale: LocaleView| part(locale, row))
}

/// The languages among `locales` that `row` has no translation for, in the order of the
/// list and as often as they occur in it.
pub open spec fn missing(locales: Seq<LocaleView>, row: Map<Seq<char>, Seq<char>>) -> Seq<
    Seq<char>,
> {
    locales.filter(|locale: LocaleView| !row.contains_key(locale.language)).map_values(
        |locale: LocaleView| locale.language,
    )
}

/// One more locale at the end of the list adds its part to the document, and its language
/// to the missing ones where the row has no translation for it.
pub proof fn lemma_document_push(
    locales: Seq<LocaleView>,
    locale: LocaleView,
    row: Map<Seq<char>, Seq<char>>,
)
    ensures
        document(locales.push(locale), row) == document(locales, row) + part(locale, row),
        missing(locales.push(locale), row) == if row.contains_key(locale.language) {
            missing(locales, row)
        } else {
            missing(locales, row).push(locale.language)
        },
{
    locales.lemma_flat_map_push(|l: LocaleView| part(l, row), locale);
    locales.lemma_filter_push(locale, |l: LocaleView| !row.contains_key(l.language));
    assert(missing(locales.push(locale), row) =~= if row.contains_key(locale.language) {
        missing(locales, row)
    } else {
        missing(locales, row).push(locale.language)
    });
}

/// The document of two lists of locales, one after the other, is the document of the
/// first followed by that of the second; the same holds of the missing languages.
pub proof fn lemma_document_concat(
    first: Seq<LocaleView>,
    second: Seq<LocaleView>,
    row: Map<Seq<char>, Seq<char>>,
)
    ensures
        document(first + second, row) == document(first, row) + document(second, row),
        missing(first + second, row) == missing(first, row) + missing(second, row),
{
    let part_of = |locale: LocaleView| part(locale, row);
    assert((first + second).map_values(part_of) =~= first.map_values(part_of) + second.map_values(
        part_of,
    ));
    lemma_flatten_concat(first.map_values(part_of), second.map_values(part_of));
    Seq::filter_distributes_over_add(
        first,
        second,
        |locale: LocaleView| !row.contains_key(locale.language),
    );
}

/// Where the row has a translation for every locale of the list, the document holds
/// exactly one segment for each locale, in the order of the list, and no language is
/// missing.
pub proof fn lemma_document_complete(locales: Seq<LocaleView>, row: Map<Seq<char>, Seq<char>>)
    requires
        forall|i: int| 0 <= i < locales.len() ==> row.contains_key(#[trigger] locales[i].language),
    ensures
        document(locales, row) == Seq::new(
            locales.len(),
            |i: int| segment(locales[i], row[locales[i].language]),
        ).flatten(),
        missing(locales, row) == Seq::<Seq<char>>::empty(),
    decreases locales.len(),
{
    assert(locales.map_values(|locale: LocaleView| part(locale, row)) =~= Seq::new(
        locales.len(),
        |i: int| segment(locales[i], row[locales[i].language]),
    ));
    if locales.len() == 0 {
        reveal(Seq::filter);
    } else {
        assert(locales == locales.drop_last().push(locales.last()));
        lemma_document_complete(locales.drop_last(), row);
        lemma_document_push(locales.drop_last(), locales.last(), row);
    }
}

/// A locale that the row has no translation for leaves no segment in the document: the
/// document is that of the list without this locale. Its language is among the missing.
pub proof fn lemma_document_skips_missing(
    before: Seq<LocaleView>,
    locale: LocaleView,
    after: Seq<LocaleView>,
    row: Map<Seq<char>, Seq<char>>,
)
    requires
        !row.contains_key(locale.language),
    ensures
        document(before.push(locale) + after, row) == document(before + after, row),
        missing(before.push(locale) + after, row) == missing(before, row).push(locale.language)
            + missing(after, row),
{
    lemma_document_push(before, locale, row);
    lemma_document_concat(before.push(locale), after, row);
    lemma_document_concat(before, after, row);
}

/// Builds the tag of a locale.
pub fn locale_tag(locale: &Locale) -> (text: String)
    ensures
        text@ == tag(locale@),
{
    let mut text = locale.language.clone();
    match &locale.territory {
        Some(territory) => {
            text.append("-");
            text.append(territory.as_str());
        },
        None => {},
    }
    text
}

/// Appends to `out` the segment that carries `text` for `locale`.
fn push_segment(out: &mut String, locale: &Locale, text: &str)
    ensures
        final(out)@ == old(out)@ + segment(locale@, text@),
{
    let tag = locale_tag(locale);
    out.append("\n<");
    out.append(tag.as_str());
    out.append(">");
    out.append("\n");
    out.append(text);
    out.append("\n</");
    out.append(tag.as_str());
    out.append(">");
}

/// What [`render`] hands back: the document, and the languages that were left out of it.
pub struct Rendering {
    /// The text of the document.
    pub content: String,
    /// The languages that the row has no translation for, in the order of the locales.
    pub missing: Vec<String>,
}

/// Renders the document of `row` for an application with these locales.
///
/// Each locale whose language is a column of the row adds one segment, in the order of
/// the list. A locale without a translation adds nothing to the document; its language is
/// reported in `missing`. The document is empty where no locale has a translation.
pub fn render(locales: &Vec<Locale>, row: &Row) -> (out: Rendering)
    ensures
        out.content@ == document(locales.deep_view(), row@),
        out.missing.deep_view() == missing(locales.deep_view(), row@),
{
    let mut content = String::new();
    let mut absent: Vec<String> = Vec::new();
    let ghost all = locales.deep_view();
    assert(missing(Seq::empty(), row@) =~= Seq::empty()) by {
        reveal(Seq::filter);
    }
    for i in 0..locales.len()
        invariant
            all == locales.deep_view(),
            content@ == document(all.take(i as int), row@),
            absent.deep_view() == missing(all.take(i as int), row@),
    {
        let locale = &locales[i];
        proof {
            assert(all.take(i + 1) == all.take(i as int).push(locale@));
            lemma_document_push(all.take(i as int), locale@, row@);
        }
        match row.get(locale.language.as_str()) {
            Some(text) => {
                push_segment(&mut content, locale, text.as_str());
            },
            None => {
                absent.push(locale.language.clone());
            },
        }
    }
    assert(all.take(locales.len() as int) == all);
    Rendering { content, missing: absent }
}

} // verus!
