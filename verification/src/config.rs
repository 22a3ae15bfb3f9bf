//! The application configuration: which locales each application needs.

use crate::first_index::lemma_index_of_first;
use crate::locale::{parse_locale, parse_locale_spec, Locale, LocaleView};
use vstd::prelude::*;

verus! {

/// One application of the configuration document: its name and the identifiers of the
/// locales it needs, as they were written.
#[derive(Debug)]
pub struct AppConfig {
    pub name: String,
    pub languages: Vec<String>,
}

/// The mathematical value of an [`AppConfig`].
pub ghost struct AppConfigView {
    pub name: Seq<char>,
    pub languages: Seq<Seq<char>>,
}

impl View for AppConfig {
    type V = AppConfigView;

    open spec fn view(&self) -> AppConfigView {
        AppConfigView { name: self.name@, languages: self.languages.deep_view() }
    }
}

impl DeepView for AppConfig {
    type V = AppConfigView;

    open spec fn deep_view(&self) -> AppConfigView {
        self@
    }
}

/// The configuration document: the applications in the order in which it lists them.
#[derive(Debug)]
pub struct AllAppConfig {
    pub apps: Vec<AppConfig>,
}

impl View for AllAppConfig {
    type V = Seq<AppConfigView>;

    open spec fn view(&self) -> Seq<AppConfigView> {
        self.apps.deep_view()
    }
}

/// One application with its locales parsed.
#[derive(Debug)]
pub struct AppEntry {
    pub name: String,
    pub locales: Vec<Locale>,
}

/// The mathematical value of an [`AppEntry`].
pub ghost struct AppEntryView {
    pub name: Seq<char>,
    pub locales: Seq<LocaleView>,
}

impl View for AppEntry {
    type V = AppEntryView;

    open spec fn view(&self) -> AppEntryView {
        AppEntryView { name: self.name@, locales: self.locales.deep_view() }
    }
}

impl DeepView for AppEntry {
    type V = AppEntryView;

    open spec fn deep_view(&self) -> AppEntryView {
        self@
    }
}

/// The names of the entries, in their order.
pub open spec fn names(entries: Seq<AppEntryView>) -> Seq<Seq<char>> {
    entries.map_values(|entry: AppEntryView| entry.name)
}

/// The entries read as a mapping from the name of an application to its locales. Where a
/// name occurs more than once, the first entry with it counts.
pub open spec fn as_map(entries: Seq<AppEntryView>) -> Map<Seq<char>, Seq<LocaleView>> {
    Map::new(
        |name: Seq<char>| names(entries).contains(name),
        |name: Seq<char>| entries[names(entries).index_of_first(name).unwrap()].locales,
    )
}

/// `entries` after `entry` was put in: it takes the place of the entry of the same name,
/// or comes last where no entry has its name.
pub open spec fn upsert(entries: Seq<AppEntryView>, entry: AppEntryView) -> Seq<AppEntryView> {
    match names(entries).index_of_first(entry.name) {
        Some(i) => entries.update(i, entry),
        None => entries.push(entry),
    }
}

/// The locales that a list of identifiers denotes, one for each identifier and in the
/// same order.
pub open spec fn parse_all(languages: Seq<Seq<char>>) -> Seq<LocaleView> {
    languages.map_values(|raw: Seq<char>| parse_locale_spec(raw))
}

/// The entry that an application of the configuration document gives.
pub open spec fn entry_of(app: AppConfigView) -> AppEntryView {
    AppEntryView { name: app.name, locales: parse_all(app.languages) }
}

/// The entries that a configuration document gives: its applications are put in one
/// after the other, so that of two applications with one name the later one stays, at
/// the place of the earlier one.
pub open spec fn load(apps: Seq<AppConfigView>) -> Seq<AppEntryView> {
    apps.fold_left(
        Seq::empty(),
        |entries: Seq<AppEntryView>, app: AppConfigView| upsert(entries, entry_of(app)),
    )
}

/// Putting an entry into entries with distinct names is an insertion into the mapping
/// that they stand for: the entry's name now leads to its locales, every other name to
/// what it led to before, and the names stay distinct and keep their places.
pub proof fn lemma_upsert_is_insert(entries: Seq<AppEntryView>, entry: AppEntryView)
    requires
        names(entries).no_duplicates(),
    ensures
        names(upsert(entries, entry)).no_duplicates(),
        names(upsert(entries, entry)) == if names(entries).contains(entry.name) {
            names(entries)
        } else {
            names(entries).push(entry.name)
        },
        as_map(upsert(entries, entry)) == as_map(entries).insert(entry.name, entry.locales),
{
    let old_names = names(entries);
    let after = upsert(entries, entry);
    let new_names = names(after);
    old_names.index_of_first_ensures(entry.name);
    match old_names.index_of_first(entry.name) {
        Some(i) => {
            assert(new_names =~= old_names);
        },
        None => {
            assert(new_names =~= old_names.push(entry.name));
        },
    }
    assert forall|name: Seq<char>| #[trigger]
        new_names.contains(name) <==> old_names.contains(name) || name == entry.name by {
        if old_names.contains(name) {
            let k = choose|k: int| 0 <= k < old_names.len() && old_names[k] == name;
            assert(new_names[k] == name);
        }
        if name == entry.name {
            let at = match old_names.index_of_first(entry.name) {
                Some(i) => i,
                None => old_names.len() as int,
            };
            assert(new_names[at] == name);
        }
    }
    assert forall|name: Seq<char>| #[trigger] new_names.contains(name) implies as_map(after)[name]
        == as_map(entries).insert(entry.name, entry.locales)[name] by {
        new_names.index_of_first_ensures(name);
        old_names.index_of_first_ensures(name);
    }
}

/// What a configuration document gives, in terms of the document alone.
///
/// The names of the entries are distinct, and they are the names of the document's
/// applications. Each name leads to the locales of the last application of that name: one
/// locale for each of its identifiers, in their order, each as [`parse_locale_spec`] reads
/// it.
pub proof fn lemma_load_mapping(apps: Seq<AppConfigView>)
    ensures
        names(load(apps)).no_duplicates(),
        as_map(load(apps)).dom() == apps.map_values(|app: AppConfigView| app.name).to_set(),
        forall|i: int|
            #![trigger apps[i]]
            0 <= i < apps.len() && (forall|j: int| i < j < apps.len() ==> apps[j].name
                != apps[i].name) ==> {
                let locales = as_map(load(apps))[apps[i].name];
                &&& locales.len() == apps[i].languages.len()
                &&& forall|k: int|
                    0 <= k < locales.len() ==> locales[k] == parse_locale_spec(
                        #[trigger] apps[i].languages[k],
                    )
            },
    decreases apps.len(),
{
    let app_names = apps.map_values(|app: AppConfigView| app.name);
    if apps.len() > 0 {
        let earlier = apps.drop_last();
        let earlier_names = earlier.map_values(|app: AppConfigView| app.name);
        let last = apps.last();
        lemma_load_mapping(earlier);
        lemma_upsert_is_insert(load(earlier), entry_of(last));
        assert forall|name: Seq<char>| #[trigger]
            app_names.contains(name) <==> earlier_names.contains(name) || name == last.name by {
            if earlier_names.contains(name) {
                let k = choose|k: int| 0 <= k < earlier_names.len() && earlier_names[k] == name;
                assert(app_names[k] == name);
            }
            if name == last.name {
                assert(app_names[apps.len() - 1] == name);
            }
            if app_names.contains(name) {
                let k = choose|k: int| 0 <= k < app_names.len() && app_names[k] == name;
                if k < earlier.len() {
                    assert(earlier_names[k] == name);
                }
            }
        }
        assert forall|i: int|
            #![trigger apps[i]]
            0 <= i < apps.len() && (forall|j: int| i < j < apps.len() ==> apps[j].name
                != apps[i].name) implies {
            let locales = as_map(load(apps))[apps[i].name];
            &&& locales.len() == apps[i].languages.len()
            &&& forall|k: int|
                0 <= k < locales.len() ==> locales[k] == parse_locale_spec(
                    #[trigger] apps[i].languages[k],
                )
        } by {
            if i < apps.len() - 1 {
                assert(earlier[i] == apps[i]);
            }
        }
    }
}

/// Parses each identifier of the list.
pub fn parse_locales(languages: &Vec<String>) -> (locales: Vec<Locale>)
    ensures
        locales.deep_view() == parse_all(languages.deep_view()),
{
    let mut locales: Vec<Locale> = Vec::new();
    for i in 0..languages.len()
        invariant
            locales.len() == i,
            forall|k: int| 0 <= k < i ==> locales[k]@ == parse_locale_spec(languages[k]@),
    {
        locales.push(parse_locale(languages[i].as_str()));
    }
    locales
}

/// The locales of each application, found by the application's name. The applications
/// keep the order in which their names first came in, and no name occurs twice.
pub struct AppLocales {
    entries: Vec<AppEntry>,
}

impl View for AppLocales {
    type V = Seq<AppEntryView>;

    closed spec fn view(&self) -> Seq<AppEntryView> {
        self.entries.deep_view()
    }
}

impl AppLocales {
    #[verifier::type_invariant]
    spec fn distinct_names(self) -> bool {
        names(self.entries.deep_view()).no_duplicates()
    }

    /// A mapping without applications.
    pub fn new() -> (config: AppLocales)
        ensures
            config@ == Seq::<AppEntryView>::empty(),
    {
        AppLocales { entries: Vec::new() }
    }

    /// Puts an application in. Where the mapping has an application of this name, the new
    /// locales replace the old ones.
    pub fn insert(&mut self, name: String, locales: Vec<Locale>)
        ensures
            final(self)@ == upsert(
                old(self)@,
                AppEntryView { name: name@, locales: locales.deep_view() },
            ),
    {
        proof {
            use_type_invariant(&*self);
        }
        let ghost before = self@;
        // The entries are taken out while they change: what `self` holds has distinct
        // names at every moment.
        let mut entries: Vec<AppEntry> = Vec::new();
        std::mem::swap(&mut self.entries, &mut entries);
        let mut i: usize = 0;
        while i < entries.len() && entries[i].name != name
            invariant
                i <= entries.len(),
                entries.deep_view() == before,
                forall|k: int| 0 <= k < i ==> names(before)[k] != name@,
            decreases entries.len() - i,
        {
            i = i + 1;
        }
        proof {
            lemma_index_of_first(names(before), name@, i as int);
        }
        if i < entries.len() {
            entries.set(i, AppEntry { name, locales });
            assert(names(entries.deep_view()) =~= names(before));
        } else {
            entries.push(AppEntry { name, locales });
            assert(names(entries.deep_view()) =~= names(before).push(name@));
        }
        self.entries = entries;
    }

    /// Builds the mapping of a configuration document: each application's identifiers
    /// are parsed in their order, and the applications are put in one after the other, so
    /// that of two applications with one name the later one stays.
    pub fn from_config(config: &AllAppConfig) -> (loaded: AppLocales)
        ensures
            loaded@ == load(config@),
    {
        let mut loaded = AppLocales::new();
        for i in 0..config.apps.len()
            invariant
                loaded@ == load(config@.take(i as int)),
        {
            let app = &config.apps[i];
            assert(config@.take(i + 1).drop_last() == config@.take(i as int));
            loaded.insert(app.name.clone(), parse_locales(&app.languages));
        }
        loaded
    }

    /// The number of applications.
    pub fn len(&self) -> (n: usize)
        ensures
            n == self@.len(),
    {
        self.entries.len()
    }

    /// The applications with their locales, in the order in which their names first came
    /// in. No two of them have the same name.
    pub fn entries(&self) -> (entries: &Vec<AppEntry>)
        ensures
            entries.deep_view() == self@,
            names(self@).no_duplicates(),
    {
        proof {
            use_type_invariant(self);
        }
        &self.entries
    }

    /// The locales of the application called `name`, if there is one.
    pub fn get(&self, name: &String) -> (found: Option<&Vec<Locale>>)
        ensures
            match found {
                Some(locales) => as_map(self@).contains_key(name@) && locales.deep_view()
                    == as_map(self@)[name@],
                None => !as_map(self@).contains_key(name@),
            },
    {
        let mut i: usize = 0;
        while i < self.entries.len() && self.entries[i].name != *name
            invariant
                i <= self.entries.len(),
                forall|k: int| 0 <= k < i ==> names(self@)[k] != name@,
            decreases self.entries.len() - i,
        {
            i = i + 1;
        }
        proof {
            lemma_index_of_first(names(self@), name@, i as int);
        }
        if i < self.entries.len() {
            Some(&self.entries[i].locales)
        } else {
            None
        }
    }
}

} // verus!
