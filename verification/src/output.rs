//! The two supported output package formats.

use crate::strutil::{lower_matches, sp_lower_matches};
use vstd::prelude::*;

verus! {

/// Which on-disk package format a run produces.
#[derive(Clone, Copy, PartialEq, Eq, Structural, Debug)]
pub enum OutputFormat {
    /// StarDict and GoldenDict formats.
    StarDict,
    /// Ven. Anandajyoti Dictionary format.
    AjDict,
}

pub open spec fn sp_output_format_name(f: OutputFormat) -> Seq<char> {
    match f {
        OutputFormat::StarDict => "stardict"@,
        OutputFormat::AjDict => "ajdict"@,
    }
}

impl OutputFormat {
    /// The lower-case name of the format.
    pub fn as_str(&self) -> (r: &'static str)
        ensures
            r@ == sp_output_format_name(*self),
    {
        match self {
            OutputFormat::StarDict => "stardict",
            OutputFormat::AjDict => "ajdict",
        }
    }

    /// Parses a format name, ignoring ASCII case; any other text is rejected.
    pub fn from_str(s: &str) -> (r: Result<OutputFormat, String>)
        ensures
            match r {
                Ok(f) => (f == OutputFormat::StarDict && sp_lower_matches(s@, "stardict"@)) || (f
                    == OutputFormat::AjDict && sp_lower_matches(s@, "ajdict"@)),
                Err(e) => !sp_lower_matches(s@, "stardict"@) && !sp_lower_matches(s@, "ajdict"@)
                    && e@ == "Unknown output format"@,
            },
    {
        if lower_matches(s, "stardict") {
            Ok(OutputFormat::StarDict)
        } else if lower_matches(s, "ajdict") {
            Ok(OutputFormat::AjDict)
        } else {
            Err("Unknown output format".to_owned())
        }
    }
}

} // verus!
