//! The two supported input schemas. Every row of the source table decodes
//! into one of these named-field records; each schema exposes a headword.

use crate::strutil::{lower_matches, sp_lower_matches};
use vstd::prelude::*;

verus! {

/// Which input schema the source table uses.
#[derive(Clone, Copy, PartialEq, Eq, Structural, Debug)]
pub enum InputFormat {
    /// Digital Pali Dictionary.
    Dpd,
    /// Devamitta Pali Study.
    Dps,
}

pub open spec fn sp_input_format_name(f: InputFormat) -> Seq<char> {
    match f {
        InputFormat::Dpd => "dpd"@,
        InputFormat::Dps => "dps"@,
    }
}

impl InputFormat {
    /// The lower-case name of the format.
    pub fn as_str(&self) -> (r: &'static str)
        ensures
            r@ == sp_input_format_name(*self),
    {
        match self {
            InputFormat::Dpd => "dpd",
            InputFormat::Dps => "dps",
        }
    }

    /// Parses a format name, ignoring ASCII case; any other text is rejected.
    pub fn from_str(s: &str) -> (r: Result<InputFormat, String>)
        ensures
            match r {
                Ok(f) => (f == InputFormat::Dpd && sp_lower_matches(s@, "dpd"@)) || (f
                    == InputFormat::Dps && sp_lower_matches(s@, "dps"@)),
                Err(e) => !sp_lower_matches(s@, "dpd"@) && !sp_lower_matches(s@, "dps"@) && e@
                    == "Unknown input format"@,
            },
    {
        if lower_matches(s, "dpd") {
            Ok(InputFormat::Dpd)
        } else if lower_matches(s, "dps") {
            Ok(InputFormat::Dps)
        } else {
            Err("Unknown input format".to_owned())
        }
    }
}

/// One row of the Digital Pali Dictionary schema.
pub struct DpdPaliWord {
    pub pali1: String,
    pub pali2: String,
    pub fin: String,
    pub pos: String,
    pub grammar: String,
    pub derived_from: String,
    pub neg: String,
    pub verb: String,
    pub trans: String,
    pub case_detail: String,
    pub in_english: String,
    pub sanskrit: String,
    pub sanskrit_root: String,
    pub family: String,
    pub pali_root: String,
    pub v: String,
    pub grp: String,
    pub sgn: String,
    pub root_meaning: String,
    pub base: String,
    pub construction: String,
    pub derivative: String,
    pub suffix: String,
    pub compound: String,
    pub compound_construction: String,
    pub source1: String,
    pub sutta1: String,
    pub example1: String,
    pub source2: String,
    pub sutta2: String,
    pub example2: String,
    pub antonyms: String,
    pub synonyms: String,
    pub variant: String,
    pub commentary: String,
    pub literal_meaning: String,
    pub root_in_compound: String,
    pub notes: String,
    pub stem: String,
    pub pattern: String,
    pub buddhadatta: String,
    pub cl: String,
}

/// One row of the Devamitta Pali Study schema.
pub struct DpsPaliWord {
    pub pali: String,
    pub fin: String,
    pub pos: String,
    pub grammar: String,
    pub derived_from: String,
    pub neg: String,
    pub verb: String,
    pub trans: String,
    pub case_detail: String,
    pub in_english: String,
    pub in_russian: String,
    pub pali_root: String,
    pub base: String,
    pub construction: String,
    pub sanskrit: String,
    pub sanskrit_root: String,
    pub commentary: String,
    pub notes: String,
    pub source1: String,
    pub example1: String,
    pub sutta1: String,
    pub source2: String,
    pub example2: String,
    pub sutta2: String,
    pub chapter: String,
    pub test: String,
    pub variant: String,
}

} // verus!
