//! The workbook, which names worksheets and makes formats, and the document
//! that it is closed into.

use crate::format::{create_format, FormatError, FormatOptions, FormatView, RustFormat};
use crate::sheet_name::{check_sheet_name, name_error, valid_sheet_name, NameError};
use crate::text::{lowercase, lowercase_of, same_text};
use crate::encode::{shows, Encoded};
use crate::worksheet::{RustWorksheet, SheetModel};
use crate::writer::{
    book_new, book_push_worksheet, book_save_to_buffer, error_message, writer_book_cell_fonts,
    writer_book_cell_numbers, writer_book_cells, writer_book_collapsed, writer_book_heights,
    writer_book_hidden, writer_book_hidden_rows, writer_book_levels, writer_book_merges,
    writer_book_names, writer_book_settings, writer_book_widths,
};
use vstd::prelude::*;

verus! {

/// Why a workbook refuses a new worksheet.
#[derive(Clone, Copy, Debug, PartialEq, Eq, Structural)]
pub enum WorkbookError {
    /// The name breaks a rule for worksheet names.
    InvalidName(NameError),
    /// The workbook has a worksheet of this name already, or of a name that
    /// differs from it in case only.
    DuplicateName,
}

/// Why a workbook cannot be closed.
#[derive(Debug, PartialEq, Eq)]
pub enum CloseError {
    /// A worksheet was handed over before.
    ConsumedWorksheet,
    /// A worksheet has a name that the workbook gave to none.
    UnknownWorksheet,
    /// Two worksheets have the same name, or names that differ in case
    /// only.
    DuplicateWorksheet,
    /// The document could not be encoded. The message says why.
    Writer(String),
}

/// Whether one of the names has the given lowercase form.
pub open spec fn key_taken(names: Seq<Seq<char>>, key: Seq<char>) -> bool {
    exists|i: int| 0 <= i < names.len() && lowercase_of(#[trigger] names[i]) == key
}

/// Why a workbook that has the given names refuses a new one, if it does:
/// the name breaks a rule, or it is one of the names when case is set
/// aside.
pub open spec fn add_error(names: Seq<Seq<char>>, name: Seq<char>) -> Option<WorkbookError> {
    match name_error(name) {
        Some(e) => Some(WorkbookError::InvalidName(e)),
        None => if key_taken(names, lowercase_of(name)) {
            Some(WorkbookError::DuplicateName)
        } else {
            None
        },
    }
}

/// Every name is valid, and no two are the same when case is set aside.
pub open spec fn distinct_valid_names(names: Seq<Seq<char>>) -> bool {
    &&& forall|i: int| 0 <= i < names.len() ==> valid_sheet_name(#[trigger] names[i])
    &&& forall|i: int, j: int|
        0 <= i < j < names.len() ==> lowercase_of(#[trigger] names[i]) != lowercase_of(
            #[trigger] names[j],
        )
}

/// What each worksheet of a sequence holds.
pub open spec fn sheet_views(sheets: Seq<RustWorksheet>) -> Seq<SheetModel> {
    Seq::new(sheets.len(), |i: int| sheets[i]@)
}

/// Why the sheet at `i` cannot go into a document of a workbook that has
/// the given names, if it cannot: it was handed over before, its name is
/// none of the workbook's, or a sheet before it has the same name when case
/// is set aside.
pub open spec fn problem_at(names: Seq<Seq<char>>, sheets: Seq<SheetModel>, i: int) -> Option<
    CloseError,
> {
    if sheets[i].consumed {
        Some(CloseError::ConsumedWorksheet)
    } else if !names.contains(sheets[i].name) {
        Some(CloseError::UnknownWorksheet)
    } else if exists|j: int|
        0 <= j < i && lowercase_of((#[trigger] sheets[j]).name) == lowercase_of(sheets[i].name) {
        Some(CloseError::DuplicateWorksheet)
    } else {
        None
    }
}

/// The problem of the first sheet, among the first `n`, that has one.
pub open spec fn first_problem(names: Seq<Seq<char>>, sheets: Seq<SheetModel>, n: int) -> Option<
    CloseError,
>
    decreases n,
{
    if n <= 0 {
        None
    } else {
        match first_problem(names, sheets, n - 1) {
            Some(e) => Some(e),
            None => problem_at(names, sheets, n - 1),
        }
    }
}

/// Why a workbook that has the given names cannot be closed over the given
/// sheets, if it cannot.
pub open spec fn close_error(names: Seq<Seq<char>>, sheets: Seq<SheetModel>) -> Option<
    CloseError,
> {
    first_problem(names, sheets, sheets.len() as int)
}

/// The sheets of a document are well formed, none was handed over, and no
/// two have the same name when case is set aside.
pub open spec fn document_wf(sheets: Seq<SheetModel>) -> bool {
    &&& forall|i: int| 0 <= i < sheets.len() ==> (#[trigger] sheets[i]).wf() && !sheets[i].consumed
    &&& forall|i: int, j: int|
        0 <= i < j < sheets.len() ==> lowercase_of((#[trigger] sheets[i]).name) != lowercase_of(
            (#[trigger] sheets[j]).name,
        )
}

/// A problem among the first sheets is the problem of any longer run.
proof fn lemma_problem_stays(names: Seq<Seq<char>>, sheets: Seq<SheetModel>, k: int, n: int)
    requires
        0 <= k <= n,
        first_problem(names, sheets, k) is Some,
    ensures
        first_problem(names, sheets, n) == first_problem(names, sheets, k),
    decreases n - k,
{
    if k < n {
        lemma_problem_stays(names, sheets, k, n - 1);
    }
}

/// Where the first sheets have no problem, none of them has one.
proof fn lemma_no_problem(names: Seq<Seq<char>>, sheets: Seq<SheetModel>, n: int, i: int)
    requires
        0 <= i < n,
        first_problem(names, sheets, n) is None,
    ensures
        problem_at(names, sheets, i) is None,
    decreases n,
{
    if i < n - 1 {
        lemma_no_problem(names, sheets, n - 1, i);
    }
}

/// Whether a workbook of `rust_xlsxwriter` has the sheets that are told, in
/// their order, each with all that is told of it.
pub(crate) open spec fn book_holds(book: rust_xlsxwriter::Workbook, sheets: Seq<Encoded>) -> bool {
    &&& writer_book_names(book) == Seq::new(sheets.len(), |i: int| sheets[i].name)
    &&& writer_book_cells(book) == Seq::new(sheets.len(), |i: int| sheets[i].cells)
    &&& writer_book_cell_numbers(book) == Seq::new(sheets.len(), |i: int| sheets[i].numbers)
    &&& writer_book_cell_fonts(book) == Seq::new(sheets.len(), |i: int| sheets[i].fonts)
    &&& writer_book_merges(book) == Seq::new(sheets.len(), |i: int| sheets[i].merges)
    &&& writer_book_hidden(book) == Seq::new(sheets.len(), |i: int| sheets[i].hidden)
    &&& writer_book_collapsed(book) == Seq::new(sheets.len(), |i: int| sheets[i].collapsed)
    &&& writer_book_levels(book) == Seq::new(sheets.len(), |i: int| sheets[i].levels)
    &&& writer_book_widths(book) == Seq::new(sheets.len(), |i: int| sheets[i].widths)
    &&& writer_book_heights(book) == Seq::new(sheets.len(), |i: int| sheets[i].heights)
    &&& writer_book_hidden_rows(book) == Seq::new(sheets.len(), |i: int| sheets[i].hidden_rows)
    &&& writer_book_settings(book) == Seq::new(sheets.len(), |i: int| sheets[i].settings)
}

/// A workbook without sheets has the sheets of an empty list.
proof fn lemma_book_starts(book: rust_xlsxwriter::Workbook, none: Seq<Encoded>)
    requires
        none.len() == 0,
        writer_book_names(book).len() == 0,
        writer_book_cells(book).len() == 0,
        writer_book_cell_numbers(book).len() == 0,
        writer_book_cell_fonts(book).len() == 0,
        writer_book_merges(book).len() == 0,
        writer_book_hidden(book).len() == 0,
        writer_book_collapsed(book).len() == 0,
        writer_book_levels(book).len() == 0,
        writer_book_widths(book).len() == 0,
        writer_book_heights(book).len() == 0,
        writer_book_hidden_rows(book).len() == 0,
        writer_book_settings(book).len() == 0,
    ensures
        book_holds(book, none),
{
    assert(writer_book_names(book) =~= Seq::new(none.len(), |i: int| none[i].name));
    assert(writer_book_cells(book) =~= Seq::new(none.len(), |i: int| none[i].cells));
    assert(writer_book_cell_numbers(book) =~= Seq::new(none.len(), |i: int| none[i].numbers));
    assert(writer_book_cell_fonts(book) =~= Seq::new(none.len(), |i: int| none[i].fonts));
    assert(writer_book_merges(book) =~= Seq::new(none.len(), |i: int| none[i].merges));
    assert(writer_book_hidden(book) =~= Seq::new(none.len(), |i: int| none[i].hidden));
    assert(writer_book_collapsed(book) =~= Seq::new(none.len(), |i: int| none[i].collapsed));
    assert(writer_book_levels(book) =~= Seq::new(none.len(), |i: int| none[i].levels));
    assert(writer_book_widths(book) =~= Seq::new(none.len(), |i: int| none[i].widths));
    assert(writer_book_heights(book) =~= Seq::new(none.len(), |i: int| none[i].heights));
    assert(writer_book_hidden_rows(book) =~= Seq::new(none.len(), |i: int| none[i].hidden_rows));
    assert(writer_book_settings(book) =~= Seq::new(none.len(), |i: int| none[i].settings));
}

/// A workbook that had some sheets and was given one more has them all.
proof fn lemma_book_grows(book: rust_xlsxwriter::Workbook, had: Seq<Encoded>, next: Encoded)
    requires
        writer_book_names(book) == Seq::new(had.len(), |i: int| had[i].name).push(next.name),
        writer_book_cells(book) == Seq::new(had.len(), |i: int| had[i].cells).push(next.cells),
        writer_book_cell_numbers(book) == Seq::new(had.len(), |i: int| had[i].numbers).push(
            next.numbers,
        ),
        writer_book_cell_fonts(book) == Seq::new(had.len(), |i: int| had[i].fonts).push(
            next.fonts,
        ),
        writer_book_merges(book) == Seq::new(had.len(), |i: int| had[i].merges).push(next.merges),
        writer_book_hidden(book) == Seq::new(had.len(), |i: int| had[i].hidden).push(next.hidden),
        writer_book_collapsed(book) == Seq::new(had.len(), |i: int| had[i].collapsed).push(
            next.collapsed,
        ),
        writer_book_levels(book) == Seq::new(had.len(), |i: int| had[i].levels).push(next.levels),
        writer_book_widths(book) == Seq::new(had.len(), |i: int| had[i].widths).push(next.widths),
        writer_book_heights(book) == Seq::new(had.len(), |i: int| had[i].heights).push(
            next.heights,
        ),
        writer_book_hidden_rows(book) == Seq::new(had.len(), |i: int| had[i].hidden_rows).push(
            next.hidden_rows,
        ),
        writer_book_settings(book) == Seq::new(had.len(), |i: int| had[i].settings).push(
            next.settings,
        ),
    ensures
        book_holds(book, had.push(next)),
{
    let all = had.push(next);
    assert(writer_book_names(book) =~= Seq::new(all.len(), |i: int| all[i].name));
    assert(writer_book_cells(book) =~= Seq::new(all.len(), |i: int| all[i].cells));
    assert(writer_book_cell_numbers(book) =~= Seq::new(all.len(), |i: int| all[i].numbers));
    assert(writer_book_cell_fonts(book) =~= Seq::new(all.len(), |i: int| all[i].fonts));
    assert(writer_book_merges(book) =~= Seq::new(all.len(), |i: int| all[i].merges));
    assert(writer_book_hidden(book) =~= Seq::new(all.len(), |i: int| all[i].hidden));
    assert(writer_book_collapsed(book) =~= Seq::new(all.len(), |i: int| all[i].collapsed));
    assert(writer_book_levels(book) =~= Seq::new(all.len(), |i: int| all[i].levels));
    assert(writer_book_widths(book) =~= Seq::new(all.len(), |i: int| all[i].widths));
    assert(writer_book_heights(book) =~= Seq::new(all.len(), |i: int| all[i].heights));
    assert(writer_book_hidden_rows(book) =~= Seq::new(all.len(), |i: int| all[i].hidden_rows));
    assert(writer_book_settings(book) =~= Seq::new(all.len(), |i: int| all[i].settings));
}

/// The sheets that make up a finished document, in the order of its tabs.
#[derive(Debug)]
pub struct Document {
    sheets: Vec<RustWorksheet>,
}

impl View for Document {
    type V = Seq<SheetModel>;

    closed spec fn view(&self) -> Seq<SheetModel> {
        sheet_views(self.sheets@)
    }
}

impl Document {
    #[verifier::type_invariant]
    spec fn inv(self) -> bool {
        document_wf(sheet_views(self.sheets@))
    }

    /// The number of sheets.
    pub fn sheet_count(&self) -> (r: usize)
        ensures
            r == self@.len(),
            document_wf(self@),
    {
        proof {
            use_type_invariant(self);
        }
        self.sheets.len()
    }

    /// The sheet at a place, counted from zero, if the document has that
    /// many.
    pub fn sheet(&self, index: usize) -> (r: Option<&RustWorksheet>)
        ensures
            index < self@.len() ==> r is Some && r->Some_0@ == self@[index as int],
            index >= self@.len() ==> r is None,
    {
        if index < self.sheets.len() {
            Some(&self.sheets[index])
        } else {
            None
        }
    }

    /// The names of the sheets, in the order of the document.
    pub fn sheet_names(&self) -> (r: Vec<String>)
        ensures
            r@.len() == self@.len(),
            forall|i: int| 0 <= i < r@.len() ==> (#[trigger] r@[i])@ == self@[i].name,
    {
        let mut out: Vec<String> = Vec::new();
        let mut i: usize = 0;
        while i < self.sheets.len()
            invariant
                i <= self.sheets@.len(),
                out@.len() == i,
                forall|j: int| 0 <= j < i ==> (#[trigger] out@[j])@ == self@[j].name,
            decreases self.sheets@.len() - i,
        {
            let name = self.sheets[i].get_name();
            proof {
                assert(self@[i as int] == self.sheets@[i as int]@);
            }
            out.push(name.to_owned());
            i += 1;
        }
        out
    }

    /// For each sheet, in the order of the document, what the encoder holds
    /// once it was handed the sheet.
    pub(crate) closed spec fn encoded(&self) -> Seq<Encoded> {
        Seq::new(self.sheets@.len(), |i: int| self.sheets@[i].encoded())
    }

    /// Builds the workbook of `rust_xlsxwriter` that stands for the
    /// document: each sheet is built and added to a new workbook, in the
    /// order of the document. Every sheet can be built, and the workbook
    /// then has the sheets, in that order, with all that the encoder holds
    /// of each.
    pub(crate) fn to_writer(&self) -> (r: Result<
        rust_xlsxwriter::Workbook,
        rust_xlsxwriter::XlsxError,
    >)
        ensures
            r is Ok,
            r matches Ok(book) ==> book_holds(book, self.encoded()),
            self.encoded().len() == self@.len(),
            forall|i: int|
                0 <= i < self@.len() ==> shows(#[trigger] self.encoded()[i], self@[i]),
    {
        let mut book = book_new();
        let mut i: usize = 0;
        proof {
            lemma_book_starts(book, self.encoded().take(0));
        }
        while i < self.sheets.len()
            invariant
                i <= self.sheets@.len(),
                self.encoded().len() == self@.len() == self.sheets@.len(),
                book_holds(book, self.encoded().take(i as int)),
                forall|k: int| 0 <= k < i ==> shows(#[trigger] self.encoded()[k], self@[k]),
            decreases self.sheets@.len() - i,
        {
            let ghost had = self.encoded().take(i as int);
            let ghost next = self.sheets@[i as int].encoded();
            match self.sheets[i].to_writer() {
                Ok(sheet) => {
                    book_push_worksheet(&mut book, sheet);
                },
                Err(e) => {
                    return Err(e);
                },
            }
            proof {
                assert(self.encoded().take(i + 1) =~= had.push(next));
                lemma_book_grows(book, had, next);
            }
            i += 1;
        }
        proof {
            assert(self.encoded().take(self.sheets@.len() as int) =~= self.encoded());
        }
        Ok(book)
    }

    /// Encodes the document as the bytes of a file: the workbook of
    /// `rust_xlsxwriter` that stands for the document is built, which
    /// cannot fail, and encoded. Whether the encoding succeeds is for
    /// `rust_xlsxwriter` to say; where it fails, its message is handed
    /// back. Where it succeeds there is at least one byte. A document
    /// without sheets is encoded with one empty sheet, since a file has to
    /// have one.
    pub fn save_to_buffer(&self) -> (r: Result<Vec<u8>, CloseError>)
        ensures
            r matches Ok(bytes) ==> bytes@.len() > 0,
            r matches Err(e) ==> e is Writer,
    {
        let mut book = match self.to_writer() {
            Ok(book) => book,
            Err(e) => {
                return Err(CloseError::Writer(error_message(&e)));
            },
        };
        let answer = match book_save_to_buffer(&mut book) {
            Ok(bytes) => Ok(bytes),
            Err(e) => Err(error_message(&e)),
        };
        encoded(answer)
    }
}

/// What encoding a document gives for each answer of the encoder: the bytes
/// as they came, or the failure with the message of the encoder.
pub fn encoded(answer: Result<Vec<u8>, String>) -> (r: Result<Vec<u8>, CloseError>)
    ensures
        match answer {
            Ok(bytes) => r == Ok::<Vec<u8>, CloseError>(bytes),
            Err(message) => r == Err::<Vec<u8>, CloseError>(CloseError::Writer(message)),
        },
{
    match answer {
        Ok(bytes) => Ok(bytes),
        Err(message) => Err(CloseError::Writer(message)),
    }
}

/// The workbook: it gives worksheets their names, makes formats, and is
/// closed once, over the worksheets that are to make up the document.
#[derive(Debug)]
pub struct RustWorkbook {
    /// Each name that was given out, with its lowercase form.
    entries: Vec<(String, String)>,
}

/// The characters of each string of a sequence.
pub open spec fn texts(names: Seq<String>) -> Seq<Seq<char>> {
    Seq::new(names.len(), |i: int| names[i]@)
}

/// The names of a sequence of names with their lowercase forms.
pub open spec fn entry_names(entries: Seq<(String, String)>) -> Seq<Seq<char>> {
    Seq::new(entries.len(), |i: int| entries[i].0@)
}

impl View for RustWorkbook {
    type V = Seq<Seq<char>>;

    closed spec fn view(&self) -> Seq<Seq<char>> {
        entry_names(self.entries@)
    }
}

impl RustWorkbook {
    #[verifier::type_invariant]
    spec fn inv(self) -> bool {
        &&& distinct_valid_names(entry_names(self.entries@))
        &&& forall|i: int|
            0 <= i < self.entries@.len() ==> (#[trigger] self.entries@[i]).1@ == lowercase_of(
                self.entries@[i].0@,
            )
    }

    /// A workbook that has given out no name.
    pub fn new() -> (r: RustWorkbook)
        ensures
            r@ == Seq::<Seq<char>>::empty(),
    {
        let r = RustWorkbook { entries: Vec::new() };
        assert(r@ =~= Seq::<Seq<char>>::empty());
        r
    }

    /// Whether the workbook gave this name, in exactly this spelling, to a
    /// worksheet.
    pub fn has_worksheet(&self, name: &str) -> (r: bool)
        ensures
            r == self@.contains(name@),
            distinct_valid_names(self@),
    {
        proof {
            use_type_invariant(self);
        }
        let mut i: usize = 0;
        while i < self.entries.len()
            invariant
                i <= self.entries@.len(),
                distinct_valid_names(self@),
                forall|j: int| 0 <= j < i ==> self.entries@[j].0@ != name@,
            decreases self.entries@.len() - i,
        {
            if same_text(self.entries[i].0.as_str(), name) {
                assert(self@[i as int] == name@);
                return true;
            }
            i += 1;
        }
        false
    }

    /// Whether the workbook gave out a name that has the given lowercase
    /// form. A name whose lowercase form is taken is refused, so that no two
    /// worksheets differ in case only.
    pub fn has_key(&self, key: &str) -> (r: bool)
        ensures
            r == key_taken(self@, key@),
    {
        proof {
            use_type_invariant(self);
        }
        let mut i: usize = 0;
        while i < self.entries.len()
            invariant
                i <= self.entries@.len(),
                forall|j: int|
                    0 <= j < self.entries@.len() ==> (#[trigger] self.entries@[j]).1@
                        == lowercase_of(self.entries@[j].0@),
                forall|j: int| 0 <= j < i ==> lowercase_of(#[trigger] self@[j]) != key@,
            decreases self.entries@.len() - i,
        {
            if same_text(self.entries[i].1.as_str(), key) {
                assert(lowercase_of(self@[i as int]) == key@);
                return true;
            }
            assert(lowercase_of(self@[i as int]) != key@);
            i += 1;
        }
        false
    }

    /// The names that the workbook gave out, in the order in which it gave
    /// them.
    pub fn worksheet_names(&self) -> (r: Vec<String>)
        ensures
            texts(r@) == self@,
    {
        let mut out: Vec<String> = Vec::new();
        let mut i: usize = 0;
        while i < self.entries.len()
            invariant
                i <= self.entries@.len(),
                texts(out@) == entry_names(self.entries@).take(i as int),
            decreases self.entries@.len() - i,
        {
            let ghost before = out@;
            out.push(self.entries[i].0.clone());
            proof {
                assert(texts(out@) =~= texts(before).push(self.entries@[i as int].0@));
                assert(entry_names(self.entries@).take(i + 1) =~= entry_names(self.entries@).take(
                    i as int,
                ).push(self.entries@[i as int].0@));
            }
            i += 1;
        }
        proof {
            assert(entry_names(self.entries@).take(self.entries@.len() as int) =~= entry_names(
                self.entries@,
            ));
        }
        out
    }

    /// The number of names that the workbook gave out.
    pub fn worksheet_count(&self) -> (r: usize)
        ensures
            r == self@.len(),
    {
        self.entries.len()
    }

    /// Makes a worksheet of the given name. The name has to meet the rules
    /// for worksheet names, and may not be that of a worksheet made before,
    /// nor differ from one in case only. The worksheet is the caller's to
    /// write to, until the workbook is closed over it.
    pub fn add_worksheet(&mut self, name: String) -> (r: Result<RustWorksheet, WorkbookError>)
        ensures
            match add_error(old(self)@, name@) {
                Some(e) => r == Err::<RustWorksheet, WorkbookError>(e) && final(self)@ == old(
                    self,
                )@,
                None => r is Ok && r->Ok_0@ == SheetModel::empty(name@) && r->Ok_0@.wf()
                    && final(self)@ == old(self)@.push(name@),
            },
            distinct_valid_names(final(self)@),
    {
        proof {
            use_type_invariant(&*self);
        }
        match check_sheet_name(name.as_str()) {
            Ok(_) => {},
            Err(e) => {
                return Err(WorkbookError::InvalidName(e));
            },
        }
        let key = lowercase(name.as_str());
        if self.has_key(key.as_str()) {
            return Err(WorkbookError::DuplicateName);
        }
        let mut entries: Vec<(String, String)> = Vec::new();
        std::mem::swap(&mut entries, &mut self.entries);
        entries.push((name.clone(), key));
        proof {
            let before = entry_names(old(self).entries@);
            let after = entry_names(entries@);
            assert(after =~= before.push(name@));
            assert forall|i: int, j: int| 0 <= i < j < after.len() implies lowercase_of(
                #[trigger] after[i],
            ) != lowercase_of(#[trigger] after[j]) by {
                if j < before.len() {
                    assert(lowercase_of(before[i]) != lowercase_of(before[j]));
                } else {
                    assert(lowercase_of(before[i]) != lowercase_of(name@));
                }
            }
            assert forall|i: int| 0 <= i < entries@.len() implies (#[trigger] entries@[i]).1@
                == lowercase_of(entries@[i].0@) by {
                if i < old(self).entries@.len() {
                    assert(entries@[i] == old(self).entries@[i]);
                }
            }
        }
        self.entries = entries;
        Ok(RustWorksheet::new(name))
    }

    /// Makes a format from a record of settings: the format on which nothing
    /// is set, with each setting that is present applied to it. The format
    /// is a value of its own; the workbook keeps nothing of it.
    pub fn add_format(&self, options: &FormatOptions) -> (r: Result<RustFormat, FormatError>)
        ensures
            match options@.first_error() {
                Some(e) => r == Err::<RustFormat, FormatError>(e),
                None => r is Ok && r->Ok_0@ == options@.apply_to(FormatView::initial())
                    && r->Ok_0@.wf(),
            },
    {
        create_format(options)
    }

    /// Whether a lowercase form is among those that were seen. Closing a
    /// workbook asks this of each worksheet in turn, over the lowercase
    /// forms of the names of the worksheets before it.
    pub fn key_seen(seen: &Vec<String>, key: &str) -> (r: bool)
        ensures
            r == exists|j: int| 0 <= j < seen@.len() && (#[trigger] seen@[j])@ == key@,
    {
        let mut j: usize = 0;
        while j < seen.len()
            invariant
                j <= seen@.len(),
                forall|k: int| 0 <= k < j ==> (#[trigger] seen@[k])@ != key@,
            decreases seen@.len() - j,
        {
            if same_text(seen[j].as_str(), key) {
                return true;
            }
            j += 1;
        }
        false
    }

    /// Closes the workbook over the worksheets that are to make up the
    /// document. The document has the worksheets in the order in which they
    /// are given, whatever the order in which they were made. Each has to
    /// bear a name that this workbook gave, none may have been handed over
    /// before, and no two may bear the same name, or names that differ in
    /// case only; the first worksheet that fails this decides the error.
    pub fn finalize(self, worksheets: Vec<RustWorksheet>) -> (r: Result<Document, CloseError>)
        ensures
            match close_error(self@, sheet_views(worksheets@)) {
                Some(e) => r == Err::<Document, CloseError>(e),
                None => r is Ok && r->Ok_0@ == sheet_views(worksheets@) && document_wf(r->Ok_0@),
            },
    {
        let ghost names = self@;
        let ghost sheets = sheet_views(worksheets@);
        let n = worksheets.len();
        let mut seen: Vec<String> = Vec::new();
        let mut i: usize = 0;
        while i < n
            invariant
                i <= n,
                n == worksheets@.len(),
                names == self@,
                sheets == sheet_views(worksheets@),
                first_problem(names, sheets, i as int) is None,
                forall|k: int| 0 <= k < i ==> (#[trigger] sheets[k]).wf(),
                seen@.len() == i,
                forall|k: int| 0 <= k < i ==> (#[trigger] seen@[k])@ == lowercase_of(sheets[k].name),
            decreases n - i,
        {
            let sheet = &worksheets[i];
            let consumed = sheet.is_consumed();
            let known = self.has_worksheet(sheet.get_name());
            let key = lowercase(sheet.get_name());
            let repeated = Self::key_seen(&seen, key.as_str());
            proof {
                assert(sheets[i as int] == sheet@);
                if repeated {
                    let j = choose|j: int| 0 <= j < seen@.len() && (#[trigger] seen@[j])@ == key@;
                    assert(lowercase_of(sheets[j].name) == lowercase_of(sheets[i as int].name));
                }
                if exists|j: int|
                    0 <= j < i && lowercase_of((#[trigger] sheets[j]).name) == lowercase_of(
                        sheets[i as int].name,
                    ) {
                    let j = choose|j: int|
                        0 <= j < i && lowercase_of((#[trigger] sheets[j]).name) == lowercase_of(
                            sheets[i as int].name,
                        );
                    assert(seen@[j]@ == key@);
                }
                if consumed || !known || repeated {
                    assert(first_problem(names, sheets, i + 1) == problem_at(names, sheets, i as int));
                    lemma_problem_stays(names, sheets, i + 1, n as int);
                }
            }
            if consumed {
                return Err(CloseError::ConsumedWorksheet);
            }
            if !known {
                return Err(CloseError::UnknownWorksheet);
            }
            if repeated {
                return Err(CloseError::DuplicateWorksheet);
            }
            seen.push(key);
            i += 1;
        }
        proof {
            assert forall|a: int| 0 <= a < sheets.len() implies !(#[trigger] sheets[a]).consumed by {
                lemma_no_problem(names, sheets, n as int, a);
            }
            assert forall|a: int, b: int| 0 <= a < b < sheets.len() implies lowercase_of(
                (#[trigger] sheets[a]).name,
            ) != lowercase_of((#[trigger] sheets[b]).name) by {
                lemma_no_problem(names, sheets, n as int, b);
            }
        }
        Ok(Document { sheets: worksheets })
    }

    /// Closes the workbook over the given worksheets and encodes the
    /// document as the bytes of a file. The worksheets appear in the file in
    /// the order in which they are given. Where the worksheets cannot make
    /// up a document, the error says why, as for `finalize`; otherwise the
    /// result is what encoding the document gives.
    pub fn close(self, worksheets: Vec<RustWorksheet>) -> (r: Result<Vec<u8>, CloseError>)
        ensures
            match close_error(self@, sheet_views(worksheets@)) {
                Some(e) => r == Err::<Vec<u8>, CloseError>(e),
                None => (r matches Ok(bytes) ==> bytes@.len() > 0) && (r matches Err(e) ==> e
                    is Writer),
            },
    {
        match self.finalize(worksheets) {
            Ok(document) => document.save_to_buffer(),
            Err(e) => {
                proof {
                    lemma_close_error_is_no_writer_error(self@, sheet_views(worksheets@));
                }
                Err(e)
            },
        }
    }
}

/// The sheets never make a workbook fail with the error of an encoder.
pub proof fn lemma_close_error_is_no_writer_error(names: Seq<Seq<char>>, sheets: Seq<SheetModel>)
    ensures
        close_error(names, sheets) matches Some(e) ==> !(e is Writer),
{
    lemma_first_problem_is_no_writer_error(names, sheets, sheets.len() as int);
}

proof fn lemma_first_problem_is_no_writer_error(
    names: Seq<Seq<char>>,
    sheets: Seq<SheetModel>,
    n: int,
)
    ensures
        first_problem(names, sheets, n) matches Some(e) ==> !(e is Writer),
    decreases n,
{
    if n > 0 {
        lemma_first_problem_is_no_writer_error(names, sheets, n - 1);
    }
}

/// A workbook refuses a name that it gave out, in any case: after a
/// worksheet of some name was added, a second one of the same name, or of a
/// name with the same lowercase form, is a duplicate.
pub proof fn lemma_same_name_refused(names: Seq<Seq<char>>, first: Seq<char>, second: Seq<char>)
    requires
        add_error(names, first) is None,
        valid_sheet_name(second),
        lowercase_of(second) == lowercase_of(first),
    ensures
        add_error(names.push(first), first) == Some(WorkbookError::DuplicateName),
        add_error(names.push(first), second) == Some(WorkbookError::DuplicateName),
{
    assert(names.push(first)[names.len() as int] == first);
}

/// A workbook accepts a name after another: where it would accept either
/// of two names that differ in more than case, it accepts the second after
/// the first.
pub proof fn lemma_distinct_names_accepted(
    names: Seq<Seq<char>>,
    first: Seq<char>,
    second: Seq<char>,
)
    requires
        add_error(names, first) is None,
        add_error(names, second) is None,
        lowercase_of(first) != lowercase_of(second),
    ensures
        add_error(names.push(first), second) is None,
{
    let after = names.push(first);
    if key_taken(after, lowercase_of(second)) {
        let i = choose|i: int|
            0 <= i < after.len() && lowercase_of(#[trigger] after[i]) == lowercase_of(second);
        if i < names.len() {
            assert(lowercase_of(names[i]) == lowercase_of(second));
        }
    }
}

/// Two worksheets that the workbook gave names that differ in more than
/// case can be closed over in either order. The document then has them in
/// the order given, as `finalize` states.
pub proof fn lemma_two_sheets_close_in_either_order(
    names: Seq<Seq<char>>,
    a: SheetModel,
    b: SheetModel,
)
    requires
        names.contains(a.name),
        names.contains(b.name),
        lowercase_of(a.name) != lowercase_of(b.name),
        !a.consumed,
        !b.consumed,
    ensures
        close_error(names, seq![a, b]) is None,
        close_error(names, seq![b, a]) is None,
{
    lemma_pair_closes(names, a, b);
    lemma_pair_closes(names, b, a);
}

proof fn lemma_pair_closes(names: Seq<Seq<char>>, a: SheetModel, b: SheetModel)
    requires
        names.contains(a.name),
        names.contains(b.name),
        lowercase_of(a.name) != lowercase_of(b.name),
        !a.consumed,
        !b.consumed,
    ensures
        close_error(names, seq![a, b]) is None,
{
    let sheets = seq![a, b];
    assert(sheets[0] == a && sheets[1] == b);
    assert(first_problem(names, sheets, 0) is None);
    assert(problem_at(names, sheets, 0) is None);
    assert(first_problem(names, sheets, 1) is None);
    assert(problem_at(names, sheets, 1) is None);
    assert(first_problem(names, sheets, 2) is None);
}

} // verus!
