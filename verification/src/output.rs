//! Output formats a command can be asked for, and which commands accept which.

use vstd::prelude::*;
use vstd::string::*;

verus! {

/// `--format` values.
#[derive(Debug, Clone, Copy, PartialEq, Eq, Structural)]
pub enum OutputFormat {
    Table,
    Json,
    Csv,
}

/// The set of formats one command accepts.
#[derive(Debug, Clone, Copy, PartialEq, Eq, Structural)]
pub enum SupportedFormats {
    /// Human table only.
    TableOnly,
    /// Table or JSON.
    TableJson,
    /// Table, JSON or CSV.
    TableJsonCsv,
}

pub open spec fn spec_supports(set: SupportedFormats, format: OutputFormat) -> bool {
    match set {
        SupportedFormats::TableOnly => format == OutputFormat::Table,
        SupportedFormats::TableJson => format != OutputFormat::Csv,
        SupportedFormats::TableJsonCsv => true,
    }
}

pub open spec fn format_name(format: OutputFormat) -> Seq<char> {
    match format {
        OutputFormat::Table => "table"@,
        OutputFormat::Json => "json"@,
        OutputFormat::Csv => "csv"@,
    }
}

/// The `--format` spelling of `format`.
pub fn output_format_name(format: OutputFormat) -> (r: &'static str)
    ensures
        r@ == format_name(format),
{
    match format {
        OutputFormat::Table => "table",
        OutputFormat::Json => "json",
        OutputFormat::Csv => "csv",
    }
}

/// Whether `set` holds `format`.
pub fn supports(set: SupportedFormats, format: OutputFormat) -> (r: bool)
    ensures
        r == spec_supports(set, format),
{
    match set {
        SupportedFormats::TableOnly => match format {
            OutputFormat::Table => true,
            _ => false,
        },
        SupportedFormats::TableJson => match format {
            OutputFormat::Csv => false,
            _ => true,
        },
        SupportedFormats::TableJsonCsv => true,
    }
}

/// A command was asked for a format it cannot produce.
#[derive(Debug, Clone)]
pub struct UnsupportedFormat {
    pub command: String,
    pub format: OutputFormat,
}

impl UnsupportedFormat {
    /// "`<command>` does not support --format <format>".
    pub fn message(&self) -> (r: String)
        ensures
            r@ == "`"@ + self.command@ + "` does not support --format "@ + format_name(self.format),
    {
        let mut s = String::from_str("`");
        s.append(self.command.as_str());
        s.append("` does not support --format ");
        s.append(output_format_name(self.format));
        s
    }
}

/// `Ok` when `supported` holds `format`; otherwise the error names `command_name`.
pub fn ensure_supported(command_name: &str, format: OutputFormat, supported: SupportedFormats) -> (r:
    Result<(), UnsupportedFormat>)
    ensures
        r is Ok <==> spec_supports(supported, format),
        r matches Err(e) ==> e.command@ == command_name@ && e.format == format,
{
    if supports(supported, format) {
        Ok(())
    } else {
        Err(UnsupportedFormat { command: String::from_str(command_name), format })
    }
}

} // verus!
