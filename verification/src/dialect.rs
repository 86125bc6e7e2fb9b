use vstd::prelude::*;

verus! {

/// When the CSV writer puts a field in quotes.
#[derive(Clone, Copy, Debug, PartialEq, Eq, Structural)]
pub enum QuoteStyle {
    /// Only where the field holds a delimiter, a quote or a line break.
    Necessary,
    /// Always.
    Always,
    /// Where the field does not read as a number.
    NonNumeric,
    /// Never.
    Never,
}

/// The quoting mode that a user names (`minimal | all | nonnumeric | none`; `Never` is
/// the mode `none`).
#[derive(Clone, Copy, Debug, PartialEq, Eq, Structural)]
pub enum QuoteMode {
    Minimal,
    All,
    Nonnumeric,
    Never,
}

/// The CSV options as a user gives them; an absent option is `None`.
#[derive(Clone, Copy, Debug, PartialEq, Eq, Structural)]
pub struct CsvOptions {
    /// Field delimiter (`-d`).
    pub delimiter: Option<u8>,
    /// Tab as delimiter (`-t`).
    pub tabs: bool,
    /// Quote character (`-q`).
    pub quotechar: Option<u8>,
    /// Quoting mode (`-u`).
    pub quoting: Option<QuoteMode>,
    /// Escape quotes with the escape character instead of doubling them (`-b`).
    pub no_doublequote: bool,
    /// Escape character (`-p`).
    pub escapechar: Option<u8>,
}

/// Everything the CSV writer is configured with.
#[derive(Clone, Copy, Debug, PartialEq, Eq, Structural)]
pub struct Dialect {
    pub delimiter: u8,
    pub quote: u8,
    pub style: QuoteStyle,
    pub double_quote: bool,
    pub escape: u8,
    pub terminator: u8,
}

/// The writer's quoting style for a quoting mode; no mode means `Necessary`.
pub open spec fn quote_style_of(mode: Option<QuoteMode>) -> QuoteStyle {
    match mode {
        Some(QuoteMode::All) => QuoteStyle::Always,
        Some(QuoteMode::Nonnumeric) => QuoteStyle::NonNumeric,
        Some(QuoteMode::Never) => QuoteStyle::Never,
        _ => QuoteStyle::Necessary,
    }
}

/// The dialect that the options select: tab when `tabs` is set, else the
/// given delimiter or a comma; the given quote or `"`; quotes doubled unless
/// `no_doublequote`; the given escape character or `\` (the writer's own
/// default); records ended by a line feed.
pub open spec fn dialect_of(o: CsvOptions) -> Dialect {
    Dialect {
        delimiter: if o.tabs {
            9u8
        } else {
            match o.delimiter {
                Some(d) => d,
                None => 44u8,
            }
        },
        quote: match o.quotechar {
            Some(q) => q,
            None => 34u8,
        },
        style: quote_style_of(o.quoting),
        double_quote: !o.no_doublequote,
        escape: match o.escapechar {
            Some(e) => e,
            None => 92u8,
        },
        terminator: 10u8,
    }
}

/// The quoting style follows the quoting mode alone: no mode or `minimal`
/// quotes where necessary, `all` always, `nonnumeric` non-numbers, `none`
/// never, whatever the delimiter and tab options say.
pub proof fn law_style_follows_quoting_mode(o: CsvOptions)
    ensures
        (o.quoting is None || o.quoting == Some(QuoteMode::Minimal)) ==> dialect_of(o).style
            == QuoteStyle::Necessary,
        o.quoting == Some(QuoteMode::All) ==> dialect_of(o).style == QuoteStyle::Always,
        o.quoting == Some(QuoteMode::Nonnumeric) ==> dialect_of(o).style == QuoteStyle::NonNumeric,
        o.quoting == Some(QuoteMode::Never) ==> dialect_of(o).style == QuoteStyle::Never,
{
}

/// Options that differ only in the delimiter and tab options give dialects
/// that differ only in the delimiter.
pub proof fn law_delimiter_options_touch_only_delimiter(a: CsvOptions, b: CsvOptions)
    requires
        a.quotechar == b.quotechar,
        a.quoting == b.quoting,
        a.no_doublequote == b.no_doublequote,
        a.escapechar == b.escapechar,
    ensures
        dialect_of(a).quote == dialect_of(b).quote,
        dialect_of(a).style == dialect_of(b).style,
        dialect_of(a).double_quote == dialect_of(b).double_quote,
        dialect_of(a).escape == dialect_of(b).escape,
        dialect_of(a).terminator == dialect_of(b).terminator,
{
}

/// The delimiter is a tab under `tabs`, else the delimiter given, else a
/// comma; the other options do not touch it.
pub proof fn law_delimiter_choice(o: CsvOptions)
    ensures
        o.tabs ==> dialect_of(o).delimiter == 9,
        !o.tabs && o.delimiter is Some ==> dialect_of(o).delimiter == o.delimiter->0,
        !o.tabs && o.delimiter is None ==> dialect_of(o).delimiter == 44,
{
}

/// Resolves the user's CSV options into the writer's configuration.
pub fn resolve_dialect(o: &CsvOptions) -> (d: Dialect)
    ensures
        d == dialect_of(*o),
{
    let delimiter: u8 = if o.tabs {
        9u8
    } else {
        match o.delimiter {
            Some(d) => d,
            None => 44u8,
        }
    };
    let quote: u8 = match o.quotechar {
        Some(q) => q,
        None => 34u8,
    };
    let style = match o.quoting {
        Some(QuoteMode::All) => QuoteStyle::Always,
        Some(QuoteMode::Nonnumeric) => QuoteStyle::NonNumeric,
        Some(QuoteMode::Never) => QuoteStyle::Never,
        _ => QuoteStyle::Necessary,
    };
    let escape: u8 = match o.escapechar {
        Some(e) => e,
        None => 92u8,
    };
    Dialect {
        delimiter,
        quote,
        style,
        double_quote: !o.no_doublequote,
        escape,
        terminator: 10u8,
    }
}

} // verus!
