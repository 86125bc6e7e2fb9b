use vstd::prelude::*;
use vstd::utf8::encode_utf8;

use crate::cell::{Cell, cell_text, render_cell};
use crate::dialect::{Dialect, QuoteStyle};
use crate::sheet::{Grid, row_cells};

verus! {

#[verifier::external_type_specification]
#[verifier::external_body]
pub struct ExCsvError(csv::Error);

/// The bytes that the CSV writer of the `csv` crate produces for one record
/// (the given fields, then the record terminator) when it is configured with
/// the given delimiter, quote, quoting style, quote doubling, escape and
/// terminator.  It depends on these values alone.
pub uninterp spec fn csv_record(
    delimiter: u8,
    quote: u8,
    style: QuoteStyle,
    double_quote: bool,
    escape: u8,
    terminator: u8,
    fields: Seq<Seq<char>>,
) -> Seq<u8>;

/// The texts held by a sequence of strings.
pub open spec fn texts(v: Seq<String>) -> Seq<Seq<char>> {
    v.map_values(|s: String| s@)
}

/// The bytes of one record under a dialect.
pub open spec fn record_bytes(d: Dialect, fields: Seq<Seq<char>>) -> Seq<u8> {
    csv_record(d.delimiter, d.quote, d.style, d.double_quote, d.escape, d.terminator, fields)
}

/// The UTF-8 bytes of each field.
pub open spec fn field_bytes(fields: Seq<Seq<char>>) -> Seq<Seq<u8>> {
    fields.map_values(|f: Seq<char>| encode_utf8(f))
}

/// Byte strings joined, with `sep` between each two.
pub open spec fn join_bytes(parts: Seq<Seq<u8>>, sep: u8) -> Seq<u8>
    decreases parts.len(),
{
    if parts.len() == 0 {
        Seq::empty()
    } else if parts.len() == 1 {
        parts[0]
    } else {
        join_bytes(parts.drop_last(), sep).push(sep) + parts.last()
    }
}

/// None of the UTF-8 bytes of field `f` is the delimiter, the quote, the
/// escape, a carriage return, a line feed or the terminator.
pub open spec fn plain_field(f: Seq<char>, delimiter: u8, quote: u8, escape: u8, terminator: u8) -> bool {
    forall|k: int|
        0 <= k < encode_utf8(f).len() ==> {
            let b = #[trigger] encode_utf8(f)[k];
            b != delimiter && b != quote && b != escape && b != 13 && b != 10 && b != terminator
        }
}

/// A record that the writer puts out as it is: quoting only where necessary,
/// every field plain, and at least one byte of fields and delimiters to write.
pub open spec fn writes_plainly(
    delimiter: u8,
    quote: u8,
    style: QuoteStyle,
    escape: u8,
    terminator: u8,
    fields: Seq<Seq<char>>,
) -> bool {
    &&& style == QuoteStyle::Necessary
    &&& forall|i: int|
        0 <= i < fields.len() ==> plain_field(#[trigger] fields[i], delimiter, quote, escape, terminator)
    &&& (fields.len() >= 2 || (fields.len() == 1 && fields[0].len() > 0))
}

/// Encodes one record with a fresh CSV writer of the `csv` crate.
///
/// Builds a `csv::WriterBuilder` with the given configuration, writes the
/// fields with `Writer::write_record` into an empty `Vec<u8>` and takes the
/// bytes back with `Writer::into_inner`.  The contract claims that this
/// succeeds, giving the bytes named by `csv_record` for these arguments, and
/// that they end with the terminator byte (`write_record` ends every record
/// with `write_terminator`, which writes that byte for `Terminator::Any`).
/// Success: in the crate's source the writer fails only where writing to the
/// underlying writer fails (`flush_buf`, `flush`) or where a record's field
/// count differs from the first record's (`check_field_count`); a fresh
/// writer writes a single record here, and the underlying writer is a
/// `Vec<u8>`, which std documents as appending to the vector, growing it as
/// needed.  It claims too what the source shows of a record that needs no
/// quotes: under `QuoteStyle::Necessary`, `should_quote` is false for a
/// field none of whose bytes is marked in `requires_quotes` (set by
/// `WriterBuilder::build` for the delimiter, the quote, the escape where
/// quotes are not doubled, CR and LF for a line-feed terminator, the
/// terminator otherwise; no comment byte is set), such a field is copied
/// unchanged (`write_optimistic`), fields are separated by the delimiter
/// (`write_delimiter`), and the terminator follows; the `""` that
/// `terminator` writes for a record with no bytes is ruled out by asking
/// for two fields or one non-empty field.
#[verifier::external_body]
fn csv_encode_record(
    delimiter: u8,
    quote: u8,
    style: QuoteStyle,
    double_quote: bool,
    escape: u8,
    terminator: u8,
    fields: &Vec<String>,
) -> (res: Result<Vec<u8>, csv::Error>)
    ensures
        res is Ok,
        res matches Ok(bytes) ==> bytes@ == csv_record(
            delimiter,
            quote,
            style,
            double_quote,
            escape,
            terminator,
            texts(fields@),
        ),
        res matches Ok(bytes) ==> bytes@.len() > 0 && bytes@.last() == terminator,
        res matches Ok(bytes) ==> (writes_plainly(
            delimiter,
            quote,
            style,
            escape,
            terminator,
            texts(fields@),
        ) ==> bytes@ == join_bytes(field_bytes(texts(fields@)), delimiter).push(terminator)),
{
    let style = match style {
        QuoteStyle::Necessary => csv::QuoteStyle::Necessary,
        QuoteStyle::Always => csv::QuoteStyle::Always,
        QuoteStyle::NonNumeric => csv::QuoteStyle::NonNumeric,
        QuoteStyle::Never => csv::QuoteStyle::Never,
    };
    let mut builder = csv::WriterBuilder::new();
    builder.delimiter(delimiter).quote(quote).quote_style(style).double_quote(double_quote);
    builder.escape(escape).terminator(csv::Terminator::Any(terminator));
    let mut writer = builder.from_writer(Vec::new());
    writer.write_record(fields)?;
    writer.into_inner().map_err(|e| csv::Error::from(e.into_error()))
}

/// The field texts of a row of cells.
pub open spec fn row_texts(row: Seq<Cell>) -> Seq<Seq<char>> {
    row.map_values(|c: Cell| cell_text(c))
}

/// The CSV text of rows of cells: the record of each row, in order.
pub open spec fn rows_csv(d: Dialect, rows: Seq<Seq<Cell>>) -> Seq<u8>
    decreases rows.len(),
{
    if rows.len() == 0 {
        Seq::empty()
    } else {
        rows_csv(d, rows.drop_last()) + record_bytes(d, row_texts(rows.last()))
    }
}

/// The CSV text of two runs of rows, one after the other, is the text of the
/// first run followed by the text of the second: each row is written on its
/// own, whatever rows come before or after it.
pub proof fn law_rows_written_independently(d: Dialect, a: Seq<Seq<Cell>>, b: Seq<Seq<Cell>>)
    ensures
        rows_csv(d, a + b) == rows_csv(d, a) + rows_csv(d, b),
    decreases b.len(),
{
    if b.len() == 0 {
        assert(a + b =~= a);
        assert(rows_csv(d, a) + rows_csv(d, b) =~= rows_csv(d, a));
    } else {
        law_rows_written_independently(d, a, b.drop_last());
        assert((a + b).drop_last() =~= a + b.drop_last());
        assert((a + b).last() == b.last());
        assert(rows_csv(d, a + b) =~= rows_csv(d, a) + rows_csv(d, b));
    }
}

/// A record writes plainly under a dialect.
pub open spec fn plain_row(d: Dialect, fields: Seq<Seq<char>>) -> bool {
    writes_plainly(d.delimiter, d.quote, d.style, d.escape, d.terminator, fields)
}

/// The fields' UTF-8 bytes joined by the delimiter, then the terminator.
pub open spec fn plain_record(d: Dialect, fields: Seq<Seq<char>>) -> Seq<u8> {
    join_bytes(field_bytes(fields), d.delimiter).push(d.terminator)
}

/// The rows written as plain records, one after another.
pub open spec fn plain_rows_csv(d: Dialect, rows: Seq<Seq<Cell>>) -> Seq<u8>
    decreases rows.len(),
{
    if rows.len() == 0 {
        Seq::empty()
    } else {
        plain_rows_csv(d, rows.drop_last()) + plain_record(d, row_texts(rows.last()))
    }
}

/// Where each row's record is its plain record, the CSV text of the rows is
/// the plain records one after another.
pub proof fn lemma_rows_csv_plain(d: Dialect, rows: Seq<Seq<Cell>>)
    requires
        forall|i: int|
            0 <= i < rows.len() ==> #[trigger] record_bytes(d, row_texts(rows[i])) == plain_record(
                d,
                row_texts(rows[i]),
            ),
    ensures
        rows_csv(d, rows) == plain_rows_csv(d, rows),
    decreases rows.len(),
{
    if rows.len() > 0 {
        assert forall|i: int| 0 <= i < rows.drop_last().len() implies #[trigger] record_bytes(
            d,
            row_texts(rows.drop_last()[i]),
        ) == plain_record(d, row_texts(rows.drop_last()[i])) by {
            assert(rows.drop_last()[i] == rows[i]);
        }
        lemma_rows_csv_plain(d, rows.drop_last());
        assert(record_bytes(d, row_texts(rows[rows.len() - 1])) == plain_record(
            d,
            row_texts(rows[rows.len() - 1]),
        ));
    }
}

/// `s` is not empty and its last byte is `b`.
pub open spec fn ends_with_byte(s: Seq<u8>, b: u8) -> bool {
    s.len() > 0 && s.last() == b
}

/// A failure of the CSV writer.
#[derive(Debug)]
pub struct CsvWriteError {
    pub cause: csv::Error,
}

/// Renders each cell of a row.
pub fn render_row(row: &Vec<Cell>) -> (fields: Vec<String>)
    ensures
        texts(fields@) == row_texts(row@),
{
    let n = row.len();
    let mut fields: Vec<String> = Vec::new();
    for j in 0..n
        invariant
            n == row@.len(),
            fields@.len() == j,
            forall|k: int| 0 <= k < j ==> #[trigger] fields@[k]@ == cell_text(row@[k]),
    {
        let t = render_cell(&row[j]);
        fields.push(t);
    }
    assert(texts(fields@) =~= row_texts(row@));
    fields
}

/// Writes a worksheet area as CSV: one record per row, each cell rendered
/// as its text, under the given dialect.
pub fn write_range(grid: &Grid, d: &Dialect) -> (r: Result<Vec<u8>, CsvWriteError>)
    ensures
        r is Ok,
        r matches Ok(out) ==> out@ == rows_csv(*d, grid@),
        r matches Ok(out) ==> (grid@.len() > 0 ==> out@.len() > 0 && out@.last() == d.terminator),
        forall|i: int|
            0 <= i < grid@.len() ==> ends_with_byte(
                #[trigger] record_bytes(*d, row_texts(grid@[i])),
                d.terminator,
            ),
        forall|i: int|
            0 <= i < grid@.len() && plain_row(*d, row_texts(grid@[i])) ==> #[trigger] record_bytes(
                *d,
                row_texts(grid@[i]),
            ) == plain_record(*d, row_texts(grid@[i])),
        (forall|i: int| 0 <= i < grid@.len() ==> plain_row(*d, #[trigger] row_texts(grid@[i])))
            ==> (r matches Ok(out) && out@ == plain_rows_csv(*d, grid@)),
{
    let rows = grid.rows();
    let n = rows.len();
    let mut out: Vec<u8> = Vec::new();
    for i in 0..n
        invariant
            n == rows@.len(),
            row_cells(rows@) == grid@,
            out@ == rows_csv(*d, grid@.take(i as int)),
            i > 0 ==> out@.len() > 0 && out@.last() == d.terminator,
            forall|k: int|
                0 <= k < i ==> ends_with_byte(
                    #[trigger] record_bytes(*d, row_texts(grid@[k])),
                    d.terminator,
                ),
            forall|k: int|
                0 <= k < i && plain_row(*d, row_texts(grid@[k])) ==> #[trigger] record_bytes(
                    *d,
                    row_texts(grid@[k]),
                ) == plain_record(*d, row_texts(grid@[k])),
    {
        let fields = render_row(&rows[i]);
        match csv_encode_record(
            d.delimiter,
            d.quote,
            d.style,
            d.double_quote,
            d.escape,
            d.terminator,
            &fields,
        ) {
            Ok(bytes) => {
                let mut bytes = bytes;
                let ghost before = out@;
                out.append(&mut bytes);
                assert(grid@.take(i + 1).drop_last() == grid@.take(i as int));
                assert(grid@.take(i + 1).last() == rows@[i as int]@);
                assert(out@ == before + record_bytes(*d, row_texts(rows@[i as int]@)));
                assert(grid@[i as int] == rows@[i as int]@);
            },
            Err(e) => {
                return Err(CsvWriteError { cause: e });
            },
        }
    }
    assert(grid@.take(n as int) == grid@);
    proof {
        if forall|i: int| 0 <= i < grid@.len() ==> plain_row(*d, #[trigger] row_texts(grid@[i])) {
            assert forall|i: int| 0 <= i < grid@.len() implies #[trigger] record_bytes(
                *d,
                row_texts(grid@[i]),
            ) == plain_record(*d, row_texts(grid@[i])) by {
                assert(plain_row(*d, row_texts(grid@[i])));
            }
            lemma_rows_csv_plain(*d, grid@);
        }
    }
    Ok(out)
}

} // verus!
