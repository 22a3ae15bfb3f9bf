//! The pipeline: for each row of the table and each application of the configuration,
//! the file that is to be written.
//!
//! Nothing here touches the file system. The functions say what is to be written, and
//! where; writing it is left to the caller.

use crate::config::{names, AppEntry, AppEntryView, AppLocales};
use crate::document::{document, missing, render};
use crate::locale::Locale;
use crate::naming::{has_name, name_of_row, row_name};
use crate::row::Row;
use vstd::prelude::*;
use vstd::string::*;

verus! {

/// The root under which the output is written, unless the caller has another one.
pub const OUTPUT_ROOT: &'static str = "./output/";

/// One file to write: the document of one row for one application.
#[derive(Debug)]
pub struct OutputFile {
    /// The directory of the application, to be made if it is not there.
    pub directory: String,
    /// The path of the file, inside `directory`.
    pub path: String,
    /// The text of the file.
    pub content: String,
    /// The languages that the row has no translation for, in the order of the
    /// application's locales. They have no segment in `content`.
    pub missing: Vec<String>,
}

/// The mathematical value of an [`OutputFile`].
pub ghost struct OutputFileView {
    pub directory: Seq<char>,
    pub path: Seq<char>,
    pub content: Seq<char>,
    pub missing: Seq<Seq<char>>,
}

impl View for OutputFile {
    type V = OutputFileView;

    open spec fn view(&self) -> OutputFileView {
        OutputFileView {
            directory: self.directory@,
            path: self.path@,
            content: self.content@,
            missing: self.missing.deep_view(),
        }
    }
}

impl DeepView for OutputFile {
    type V = OutputFileView;

    open spec fn deep_view(&self) -> OutputFileView {
        self@
    }
}

/// The directory of an application: the root, followed by the application's name.
pub open spec fn output_directory(root: Seq<char>, app_name: Seq<char>) -> Seq<char> {
    root + app_name
}

/// The path of the file of a row: the directory of the application, `/`, the base name
/// of the row and `.xml`.
pub open spec fn output_path(
    root: Seq<char>,
    app_name: Seq<char>,
    translation_name: Seq<char>,
) -> Seq<char> {
    output_directory(root, app_name) + "/"@ + translation_name + ".xml"@
}

/// The file of `row` for the application `app`, where the row's base name is
/// `translation_name`.
pub open spec fn output_file(
    root: Seq<char>,
    app: AppEntryView,
    translation_name: Seq<char>,
    row: Map<Seq<char>, Seq<char>>,
) -> OutputFileView {
    OutputFileView {
        directory: output_directory(root, app.name),
        path: output_path(root, app.name, translation_name),
        content: document(app.locales, row),
        missing: missing(app.locales, row),
    }
}

/// Says what is to be written for one row and one application: where the file goes, and
/// the document that it holds. The document is built even where the row has no
/// translation for any of the locales; it is then empty.
pub fn emit(
    root: &str,
    app_name: &str,
    translation_name: &str,
    locales: &Vec<Locale>,
    row: &Row,
) -> (file: OutputFile)
    ensures
        file@ == output_file(
            root@,
            AppEntryView { name: app_name@, locales: locales.deep_view() },
            translation_name@,
            row@,
        ),
{
    let mut directory = root.to_owned();
    directory.append(app_name);
    let mut path = directory.clone();
    path.append("/");
    path.append(translation_name);
    path.append(".xml");
    let rendering = render(locales, row);
    OutputFile { directory, path, content: rendering.content, missing: rendering.missing }
}

/// What one row gives: its base name, and one file for each application.
#[derive(Debug)]
pub struct RowOutput {
    /// The base name of the row's files.
    pub translation_name: String,
    /// Whether the base name is the row's number, for want of a name of its own.
    pub numbered: bool,
    /// The files to write, one for each application, in the order of the applications.
    pub files: Vec<OutputFile>,
}

/// The mathematical value of a [`RowOutput`].
pub ghost struct RowOutputView {
    pub translation_name: Seq<char>,
    pub numbered: bool,
    pub files: Seq<OutputFileView>,
}

impl View for RowOutput {
    type V = RowOutputView;

    open spec fn view(&self) -> RowOutputView {
        RowOutputView {
            translation_name: self.translation_name@,
            numbered: self.numbered,
            files: self.files.deep_view(),
        }
    }
}

impl DeepView for RowOutput {
    type V = RowOutputView;

    open spec fn deep_view(&self) -> RowOutputView {
        self@
    }
}

/// What row number `record_num`, counted from 0, gives under a configuration: the row is
/// named by its name column or else by its number, and each application gets one file
/// under that name.
pub open spec fn row_output(
    root: Seq<char>,
    apps: Seq<AppEntryView>,
    row: Map<Seq<char>, Seq<char>>,
    record_num: nat,
) -> RowOutputView {
    let name = row_name(row, record_num);
    RowOutputView {
        translation_name: name,
        numbered: !has_name(row),
        files: apps.map_values(|app: AppEntryView| output_file(root, app, name, row)),
    }
}

/// What a table gives under a configuration: the output of each row, in the order of the
/// rows.
pub open spec fn table_output(
    root: Seq<char>,
    apps: Seq<AppEntryView>,
    rows: Seq<Map<Seq<char>, Seq<char>>>,
) -> Seq<RowOutputView> {
    Seq::new(rows.len(), |i: int| row_output(root, apps, rows[i], i as nat))
}

/// Two texts that differ still differ between the same two texts.
proof fn lemma_framed_differ(before: Seq<char>, a: Seq<char>, b: Seq<char>, after: Seq<char>)
    requires
        a != b,
    ensures
        before + a + after != before + b + after,
{
    let x = before + a + after;
    let y = before + b + after;
    if x == y {
        assert(a.len() == b.len()) by {
            assert(x.len() == y.len());
        }
        assert forall|i: int| 0 <= i < a.len() implies a[i] == b[i] by {
            assert(y[before.len() + i] == b[i]);
        }
        assert(a =~= b);
    }
}

/// A row gives each application exactly one file, in the application's own directory.
/// Where no two applications have the same name, no two files of the row have the same
/// directory or the same path.
pub proof fn lemma_one_file_per_application(
    root: Seq<char>,
    apps: Seq<AppEntryView>,
    row: Map<Seq<char>, Seq<char>>,
    record_num: nat,
)
    requires
        names(apps).no_duplicates(),
    ensures
        row_output(root, apps, row, record_num).files.len() == apps.len(),
        forall|i: int|
            0 <= i < apps.len() ==> (#[trigger] row_output(
                root,
                apps,
                row,
                record_num,
            ).files[i]).directory == output_directory(root, apps[i].name),
        forall|i: int, j: int|
            0 <= i < apps.len() && 0 <= j < apps.len() && i != j ==> {
                let first = #[trigger] row_output(root, apps, row, record_num).files[i];
                let second = #[trigger] row_output(root, apps, row, record_num).files[j];
                first.directory != second.directory && first.path != second.path
            },
{
    let tail = "/"@ + row_name(row, record_num) + ".xml"@;
    let files = row_output(root, apps, row, record_num).files;
    assert forall|i: int, j: int| 0 <= i < apps.len() && 0 <= j < apps.len() && i != j implies {
        let first = #[trigger] files[i];
        let second = #[trigger] files[j];
        first.directory != second.directory && first.path != second.path
    } by {
        assert(names(apps)[i] != names(apps)[j]);
        lemma_framed_differ(root, apps[i].name, apps[j].name, Seq::empty());
        lemma_framed_differ(root, apps[i].name, apps[j].name, tail);
        assert(root + apps[i].name + tail =~= files[i].path);
        assert(root + apps[j].name + tail =~= files[j].path);
    }
}

/// Says what is to be written for row number `record_num`, counted from 0.
pub fn process_row(
    root: &str,
    config: &AppLocales,
    row: &Row,
    record_num: u64,
) -> (out: RowOutput)
    ensures
        out@ == row_output(root@, config@, row@, record_num as nat),
{
    let name = name_of_row(row, record_num);
    let entries = config.entries();
    let mut files: Vec<OutputFile> = Vec::new();
    for i in 0..entries.len()
        invariant
            entries.deep_view() == config@,
            name.text@ == row_name(row@, record_num as nat),
            files.len() == i,
            forall|k: int|
                0 <= k < i ==> files[k]@ == output_file(
                    root@,
                    #[trigger] config@[k],
                    name.text@,
                    row@,
                ),
    {
        let app: &AppEntry = &entries[i];
        files.push(emit(root, app.name.as_str(), name.text.as_str(), &app.locales, row));
    }
    let out = RowOutput { translation_name: name.text, numbered: name.numbered, files };
    assert(out@.files =~= row_output(root@, config@, row@, record_num as nat).files);
    out
}

/// A run of the pipeline over the rows of one table, which come in one at a time. It
/// numbers the rows from 0: each row takes the next number, whether or not the number is
/// used to name it.
pub struct Pipeline<'a> {
    root: &'a str,
    config: &'a AppLocales,
    record_num: u64,
}

/// The mathematical value of a [`Pipeline`].
pub ghost struct PipelineView {
    /// The root under which the output goes.
    pub root: Seq<char>,
    /// The applications with their locales.
    pub apps: Seq<AppEntryView>,
    /// The number of rows that have come in so far.
    pub rows_seen: nat,
}

impl<'a> View for Pipeline<'a> {
    type V = PipelineView;

    closed spec fn view(&self) -> PipelineView {
        PipelineView { root: self.root@, apps: self.config@, rows_seen: self.record_num as nat }
    }
}

impl<'a> Pipeline<'a> {
    /// A run that has seen no row yet.
    pub fn new(root: &'a str, config: &'a AppLocales) -> (pipeline: Pipeline<'a>)
        ensures
            pipeline@ == (PipelineView { root: root@, apps: config@, rows_seen: 0 }),
    {
        Pipeline { root, config, record_num: 0 }
    }

    /// The number of rows that have come in so far.
    pub fn rows_seen(&self) -> (n: u64)
        ensures
            n == self@.rows_seen,
    {
        self.record_num
    }

    /// Takes the next row and says what is to be written for it.
    pub fn next_row(&mut self, row: &Row) -> (out: RowOutput)
        requires
            old(self)@.rows_seen < u64::MAX,
        ensures
            out@ == row_output(old(self)@.root, old(self)@.apps, row@, old(self)@.rows_seen),
            final(self)@ == (PipelineView { rows_seen: old(self)@.rows_seen + 1, ..old(self)@ }),
    {
        let out = process_row(self.root, self.config, row, self.record_num);
        self.record_num = self.record_num + 1;
        out
    }
}

/// Says what is to be written for a whole table: the rows are taken in their order and
/// numbered from 0.
pub fn process_table(root: &str, config: &AppLocales, rows: &Vec<Row>) -> (out: Vec<RowOutput>)
    ensures
        out.deep_view() == table_output(root@, config@, rows.deep_view()),
{
    let mut pipeline = Pipeline::new(root, config);
    let mut out: Vec<RowOutput> = Vec::new();
    for i in 0..rows.len()
        invariant
            pipeline@ == (PipelineView { root: root@, apps: config@, rows_seen: i as nat }),
            out.len() == i,
            forall|k: int|
                0 <= k < i ==> out[k]@ == row_output(
                    root@,
                    config@,
                    #[trigger] rows[k]@,
                    k as nat,
                ),
    {
        out.push(pipeline.next_row(&rows[i]));
    }
    out
}

} // verus!
