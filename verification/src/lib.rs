//! Verified core of a converter from spreadsheet worksheets to CSV text:
//! option handling, cell rendering, CSV framing of whole worksheets and the
//! planning of which worksheets go where.

pub mod ascii;
pub mod cell;
pub mod csv_text;
pub mod dialect;
pub mod format;
pub mod plan;
pub mod sheet;
pub mod text;

pub use ascii::parse_ascii_byte;
pub use cell::{int_to_text, render_cell, Cell};
pub use csv_text::{render_row, write_range, CsvWriteError};
pub use dialect::{resolve_dialect, CsvOptions, Dialect, QuoteMode, QuoteStyle};
pub use format::{detect_format, Format};
pub use plan::{
    input_format, names_listing, output_file_name, plan_run, sheet_output, sheet_targets, warnings, Plan,
    RunError, RunOptions, SheetJob,
};
pub use sheet::Grid;
