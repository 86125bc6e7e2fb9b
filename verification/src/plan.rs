use vstd::prelude::*;
use vstd::string::*;

use crate::cell::{count_to_text, lemma_nat_digits_injective, nat_digits};
use crate::csv_text::{CsvWriteError, rows_csv, texts, write_range};
use crate::dialect::Dialect;
use crate::format::{Format, detect_format, detected_format};
use crate::sheet::Grid;
use crate::text::{
    char_texts, eq_ignore_ascii_case, equal_ignoring_ascii_case, push_char, split_chars,
    split_on, string_chars, string_of, trim, trimmed,
};

verus! {

/// The text printed for a list of lines: each line followed by a line feed.
pub open spec fn lines_text(lines: Seq<Seq<char>>) -> Seq<char>
    decreases lines.len(),
{
    if lines.len() == 0 {
        Seq::empty()
    } else {
        lines_text(lines.drop_last()) + lines.last().push('\n')
    }
}

/// A `--write-sheets` value that selects every worksheet: `-`, or `all` in
/// any letter case.
pub open spec fn selects_all(spec: Seq<char>) -> bool {
    spec == seq!['-'] || eq_ignore_ascii_case(spec, seq!['a', 'l', 'l'])
}

/// The sheets that a `--write-sheets` value names: every sheet of the
/// workbook for `-` or `all`, else the comma-separated names with
/// surrounding white space removed.
pub open spec fn targets_of(spec: Seq<char>, names: Seq<Seq<char>>) -> Seq<Seq<char>> {
    if selects_all(spec) {
        names
    } else {
        split_on(spec, ',').map_values(|p: Seq<char>| trim(p))
    }
}

/// The first position of `name` among `names`, if it occurs.
pub open spec fn first_index(names: Seq<Seq<char>>, name: Seq<char>) -> Option<int> {
    if exists|k: int| 0 <= k < names.len() && names[k] == name {
        Some(
            choose|k: int|
                0 <= k < names.len() && names[k] == name && forall|j: int|
                    0 <= j < k ==> names[j] != name,
        )
    } else {
        None
    }
}

/// The file that a sheet is written to: `<name>.csv` with sheet names in
/// use, else `sheet<n>.csv` where `n` counts from one the sheet's first
/// position in the workbook (one for a name that is not there).
pub open spec fn file_name_of(name: Seq<char>, names: Seq<Seq<char>>, use_sheet_names: bool) -> Seq<
    char,
> {
    if use_sheet_names {
        name + ".csv"@
    } else {
        let n: nat = match first_index(names, name) {
            Some(k) => (k + 1) as nat,
            None => 1,
        };
        "sheet"@ + nat_digits(n) + ".csv"@
    }
}

/// No name occurs twice.
pub open spec fn distinct_names(names: Seq<Seq<char>>) -> bool {
    forall|j: int, k: int| 0 <= j < k < names.len() ==> names[j] != names[k]
}

/// In a workbook whose worksheet names are all different, `first_index`
/// finds each worksheet at its own position.
pub proof fn lemma_first_index_distinct(names: Seq<Seq<char>>, i: int)
    requires
        distinct_names(names),
        0 <= i < names.len(),
    ensures
        first_index(names, names[i]) == Some(i),
{
    let name = names[i];
    assert(0 <= i < names.len() && names[i] == name);
    let k = choose|k: int|
        0 <= k < names.len() && names[k] == name && forall|j: int| 0 <= j < k ==> names[j] != name;
    if k < i {
        assert(names[k] != names[i]);
    }
    if k > i {
        assert(names[i] != name);
    }
}

/// `--write-sheets -` or `all` (in any letter case) without `--use-sheet-names`
/// writes every worksheet, in workbook order, the one at position `i` to
/// `sheet<i + 1>.csv`, where the worksheet names are all different.
pub proof fn law_all_sheets_numbered(spec: Seq<char>, names: Seq<Seq<char>>, i: int)
    requires
        selects_all(spec),
        distinct_names(names),
        0 <= i < names.len(),
    ensures
        targets_of(spec, names) == names,
        file_name_of(targets_of(spec, names)[i], names, false) == "sheet"@ + nat_digits(
            (i + 1) as nat,
        ) + ".csv"@,
{
    lemma_first_index_distinct(names, i);
}

/// Without `--use-sheet-names`, worksheets at different positions of a
/// workbook whose worksheet names are all different are written to
/// different files.
pub proof fn law_numbered_files_distinct(names: Seq<Seq<char>>, i: int, j: int)
    requires
        distinct_names(names),
        0 <= i < j < names.len(),
    ensures
        file_name_of(names[i], names, false) != file_name_of(names[j], names, false),
{
    lemma_first_index_distinct(names, i);
    lemma_first_index_distinct(names, j);
    let fi = file_name_of(names[i], names, false);
    let fj = file_name_of(names[j], names, false);
    let di = nat_digits((i + 1) as nat);
    let dj = nat_digits((j + 1) as nat);
    reveal_strlit("sheet");
    reveal_strlit(".csv");
    if fi == fj {
        assert(fi.subrange(5, fi.len() - 4) =~= di);
        assert(fj.subrange(5, fj.len() - 4) =~= dj);
        lemma_nat_digits_injective((i + 1) as nat, (j + 1) as nat);
    }
}

/// With sheet names in use, a sheet's file is named by the whole sheet name,
/// unchanged, followed by `.csv`; so different sheet names give different
/// files.
pub proof fn law_named_files(names: Seq<Seq<char>>, a: Seq<char>, b: Seq<char>)
    ensures
        file_name_of(a, names, true).len() == a.len() + 4,
        file_name_of(a, names, true).subrange(0, a.len() as int) == a,
        file_name_of(a, names, true).subrange(a.len() as int, a.len() + 4int) == seq![
            '.',
            'c',
            's',
            'v',
        ],
        a != b ==> file_name_of(a, names, true) != file_name_of(b, names, true),
{
    reveal_strlit(".csv");
    let fa = file_name_of(a, names, true);
    let fb = file_name_of(b, names, true);
    assert(fa.subrange(0, a.len() as int) =~= a);
    assert(fa.subrange(a.len() as int, a.len() + 4int) =~= seq!['.', 'c', 's', 'v']);
    if a != b && fa == fb {
        assert(fa.subrange(0, a.len() as int) =~= a);
        assert(fb.subrange(0, b.len() as int) =~= b);
    }
}

/// The lines printed by `--names`.
pub fn names_listing(names: &Vec<String>) -> (t: String)
    ensures
        t@ == lines_text(texts(names@)),
{
    let n = names.len();
    let mut t = String::new();
    for i in 0..n
        invariant
            n == names@.len(),
            t@ == lines_text(texts(names@).take(i as int)),
    {
        t.append(names[i].as_str());
        push_char(&mut t, '\n');
        assert(texts(names@).take(i + 1).drop_last() == texts(names@).take(i as int));
        assert(t@ =~= lines_text(texts(names@).take(i + 1)));
    }
    assert(texts(names@).take(n as int) == texts(names@));
    t
}

/// A copy of a list of strings.
fn copy_strings(v: &Vec<String>) -> (c: Vec<String>)
    ensures
        texts(c@) == texts(v@),
{
    let n = v.len();
    let mut c: Vec<String> = Vec::new();
    for i in 0..n
        invariant
            n == v@.len(),
            c@.len() == i,
            forall|k: int| 0 <= k < i ==> #[trigger] c@[k]@ == v@[k]@,
    {
        c.push(v[i].clone());
    }
    assert(texts(c@) =~= texts(v@));
    c
}

/// The sheets that a `--write-sheets` value selects.
pub fn sheet_targets(spec: &String, names: &Vec<String>) -> (t: Vec<String>)
    ensures
        texts(t@) == targets_of(spec@, texts(names@)),
{
    let chars = string_chars(spec);
    let all: Vec<char> = vec!['a', 'l', 'l'];
    let dash: Vec<char> = vec!['-'];
    let is_dash = chars.len() == 1 && chars[0] == '-';
    assert(dash@ =~= seq!['-']);
    assert(is_dash == (chars@ == dash@)) by {
        if chars@ == dash@ {
            assert(chars@[0] == dash@[0]);
        }
        if is_dash {
            assert(chars@ =~= dash@);
        }
    }
    if is_dash || equal_ignoring_ascii_case(&chars, &all) {
        return copy_strings(names);
    }
    let pieces = split_chars(&chars, ',');
    let n = pieces.len();
    let mut t: Vec<String> = Vec::new();
    for i in 0..n
        invariant
            n == pieces@.len(),
            t@.len() == i,
            forall|k: int| 0 <= k < i ==> #[trigger] t@[k]@ == trim(pieces@[k]@),
    {
        let piece = trimmed(&pieces[i]);
        t.push(string_of(&piece));
    }
    assert(texts(t@) =~= char_texts(pieces@).map_values(|p: Seq<char>| trim(p)));
    t
}

/// The first position of `name` among `names`.
fn find_sheet(names: &Vec<String>, name: &String) -> (r: Option<usize>)
    ensures
        match r {
            Some(k) => k < names@.len() && first_index(texts(names@), name@) == Some(k as int),
            None => first_index(texts(names@), name@) == None::<int>,
        },
{
    let n = names.len();
    for i in 0..n
        invariant
            n == names@.len(),
            forall|j: int| 0 <= j < i ==> #[trigger] texts(names@)[j] != name@,
    {
        if names[i] == *name {
            let ghost ns = texts(names@);
            assert(ns[i as int] == name@);
            let ghost k = choose|k: int|
                0 <= k < ns.len() && ns[k] == name@ && forall|j: int| 0 <= j < k ==> ns[j] != name@;
            assert(k == i);
            return Some(i);
        }
    }
    None
}

/// The file that a sheet is written to by `--write-sheets`.
pub fn output_file_name(name: &String, names: &Vec<String>, use_sheet_names: bool) -> (f: String)
    ensures
        f@ == file_name_of(name@, texts(names@), use_sheet_names),
{
    if use_sheet_names {
        let mut f = name.clone();
        f.append(".csv");
        f
    } else {
        let count = names.len();
        let n: usize = match find_sheet(names, name) {
            Some(k) => {
                assert(k < count);
                k + 1
            },
            None => 1,
        };
        let mut f = String::from_str("sheet");
        let digits = count_to_text(n);
        f.append(digits.as_str());
        f.append(".csv");
        f
    }
}

/// What a run is asked to do, as the command line gives it.
#[derive(Debug)]
pub struct RunOptions {
    /// The workbook file to read; `None` for standard input.
    pub input: Option<String>,
    /// The workbook format to read (`--format`); found from the file name,
    /// or from the first bytes on standard input, when absent.
    pub format: Option<Format>,
    /// Print the worksheet names and stop (`--names`).
    pub names: bool,
    /// The worksheet to convert (`--sheet`); the first one when absent.
    pub sheet: Option<String>,
    /// Worksheets to write to files (`--write-sheets`): `all`, or names
    /// separated by commas.
    pub write_sheets: Option<String>,
    /// Name the files after the worksheets (`--use-sheet-names`).
    pub use_sheet_names: bool,
    /// `--reset-dimensions` was given.
    pub reset_dimensions: bool,
    /// `--encoding-xls` was given.
    pub encoding_given: bool,
    /// `--field-size-limit` was given.
    pub field_size_limit_given: bool,
}

/// One worksheet to write, and the file it goes to.
#[derive(Debug)]
pub struct SheetJob {
    pub sheet: String,
    pub file_name: String,
}

/// What a run does once the workbook is open.
#[derive(Debug)]
pub enum Plan {
    /// Print this text (the worksheet names, one per line).
    ListNames(String),
    /// Write each worksheet to its file, in this order.
    WriteFiles(Vec<SheetJob>),
    /// Write this worksheet to standard output.
    WriteStdout(String),
}

/// Why a run fails.
#[derive(Debug)]
pub enum RunError {
    /// The workbook could not be opened: the file at this path, or the
    /// bytes on standard input for `None`.
    CannotOpen(Option<String>),
    /// The format of the workbook on standard input is not recognised, and
    /// none was given.
    UnknownFormat,
    /// The workbook has no worksheets, and none was named.
    NoSheets,
    /// The worksheet of this name could not be read.
    SheetNotFound(String),
    /// The CSV writer failed.
    Csv(CsvWriteError),
}

/// `jobs` write the `targets`, in order, each to its file.
pub open spec fn jobs_for(
    jobs: Seq<SheetJob>,
    targets: Seq<Seq<char>>,
    names: Seq<Seq<char>>,
    use_sheet_names: bool,
) -> bool {
    &&& jobs.len() == targets.len()
    &&& forall|i: int|
        0 <= i < jobs.len() ==> {
            &&& (#[trigger] jobs[i]).sheet@ == targets[i]
            &&& jobs[i].file_name@ == file_name_of(targets[i], names, use_sheet_names)
        }
}

/// The outcome of planning a run on a workbook with these worksheet names.
pub open spec fn plan_outcome(
    o: RunOptions,
    names: Seq<Seq<char>>,
    r: Result<Plan, RunError>,
) -> bool {
    if o.names {
        r matches Ok(Plan::ListNames(t)) && t@ == lines_text(names)
    } else {
        match o.write_sheets {
            Some(spec) => r matches Ok(Plan::WriteFiles(jobs)) && jobs_for(
                jobs@,
                targets_of(spec@, names),
                names,
                o.use_sheet_names,
            ),
            None => match o.sheet {
                Some(s) => r matches Ok(Plan::WriteStdout(x)) && x@ == s@,
                None => if names.len() > 0 {
                    r matches Ok(Plan::WriteStdout(x)) && x@ == names[0]
                } else {
                    r matches Err(RunError::NoSheets)
                },
            },
        }
    }
}

/// Decides what a run does: `opened` holds the worksheet names of the
/// workbook, or `None` where it could not be opened.
pub fn plan_run(o: &RunOptions, opened: Option<&Vec<String>>) -> (r: Result<Plan, RunError>)
    ensures
        opened is None ==> (r matches Err(RunError::CannotOpen(p)) && match (p, o.input) {
            (Some(p), Some(i)) => p@ == i@,
            (None, None) => true,
            _ => false,
        }),
        opened matches Some(names) ==> plan_outcome(*o, texts(names@), r),
{
    let names = match opened {
        None => {
            let input = match &o.input {
                Some(i) => Some(i.clone()),
                None => None,
            };
            return Err(RunError::CannotOpen(input));
        },
        Some(names) => names,
    };
    if o.names {
        return Ok(Plan::ListNames(names_listing(names)));
    }
    match &o.write_sheets {
        Some(spec) => {
            let targets = sheet_targets(spec, names);
            let n = targets.len();
            let mut jobs: Vec<SheetJob> = Vec::new();
            for i in 0..n
                invariant
                    n == targets@.len(),
                    texts(targets@) == targets_of(spec@, texts(names@)),
                    jobs@.len() == i,
                    forall|k: int|
                        0 <= k < i ==> {
                            &&& (#[trigger] jobs@[k]).sheet@ == texts(targets@)[k]
                            &&& jobs@[k].file_name@ == file_name_of(
                                texts(targets@)[k],
                                texts(names@),
                                o.use_sheet_names,
                            )
                        },
            {
                let file_name = output_file_name(&targets[i], names, o.use_sheet_names);
                jobs.push(SheetJob { sheet: targets[i].clone(), file_name });
            }
            Ok(Plan::WriteFiles(jobs))
        },
        None => match &o.sheet {
            Some(s) => Ok(Plan::WriteStdout(s.clone())),
            None => {
                if names.len() > 0 {
                    Ok(Plan::WriteStdout(names[0].clone()))
                } else {
                    Err(RunError::NoSheets)
                }
            },
        },
    }
}

/// The CSV text of a worksheet: `read` holds its cells, or `None` where the
/// worksheet could not be read.
pub fn sheet_output(sheet: &String, read: Option<&Grid>, d: &Dialect) -> (r: Result<
    Vec<u8>,
    RunError,
>)
    ensures
        read is None ==> (r matches Err(RunError::SheetNotFound(x)) && x@ == sheet@),
        read matches Some(g) ==> (r matches Ok(out) && out@ == rows_csv(*d, g@)),
{
    match read {
        None => Err(RunError::SheetNotFound(sheet.clone())),
        Some(g) => match write_range(g, d) {
            Ok(out) => Ok(out),
            Err(e) => Err(RunError::Csv(e)),
        },
    }
}

/// The format to read a workbook on standard input with: the one given,
/// else the one its first bytes reveal.
pub open spec fn input_format_of(given: Option<Format>, head: Seq<u8>) -> Result<Format, ()> {
    match given {
        Some(f) => Ok(f),
        None => match detected_format(head) {
            Some(f) => Ok(f),
            None => Err(()),
        },
    }
}

/// Decides the format of the workbook on standard input from the options
/// and its first bytes.
pub fn input_format(o: &RunOptions, head: &[u8]) -> (r: Result<Format, RunError>)
    ensures
        match input_format_of(o.format, head@) {
            Ok(f) => r == Ok::<Format, RunError>(f),
            Err(_) => r matches Err(RunError::UnknownFormat),
        },
{
    match o.format {
        Some(f) => Ok(f),
        None => match detect_format(head) {
            Some(f) => Ok(f),
            None => Err(RunError::UnknownFormat),
        },
    }
}

/// The warnings printed for options that are accepted but have no effect.
pub open spec fn warning_texts(o: RunOptions) -> Seq<Seq<char>> {
    (if o.reset_dimensions {
        seq![
            "warning: --reset-dimensions is not yet implemented; calamine always uses declared worksheet dimensions"@,
        ]
    } else {
        Seq::empty()
    }) + (if o.encoding_given {
        seq![
            "warning: --encoding-xls is informational in v0.1.0; calamine uses CP1252 as the XLS fallback encoding"@,
        ]
    } else {
        Seq::empty()
    }) + (if o.field_size_limit_given {
        seq!["warning: --field-size-limit is informational in v0.1.0; no limit is enforced"@]
    } else {
        Seq::empty()
    })
}

/// The warnings for options that are accepted but have no effect, in the
/// order they are printed.
pub fn warnings(o: &RunOptions) -> (w: Vec<String>)
    ensures
        texts(w@) == warning_texts(*o),
{
    let mut w: Vec<String> = Vec::new();
    if o.reset_dimensions {
        w.push(
            String::from_str(
                "warning: --reset-dimensions is not yet implemented; calamine always uses declared worksheet dimensions",
            ),
        );
    }
    if o.encoding_given {
        w.push(
            String::from_str(
                "warning: --encoding-xls is informational in v0.1.0; calamine uses CP1252 as the XLS fallback encoding",
            ),
        );
    }
    if o.field_size_limit_given {
        w.push(
            String::from_str(
                "warning: --field-size-limit is informational in v0.1.0; no limit is enforced",
            ),
        );
    }
    assert(texts(w@) =~= warning_texts(*o));
    w
}

} // verus!
