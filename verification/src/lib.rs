//! Generator for dictionary packages: turns a stream of typed word records
//! into a canonically sorted, grouped, byte-offset-indexed binary dictionary
//! package (index, body, synonym and metadata files), or into a lighter
//! plain-text package, depending on the selected output format.

pub mod ajdict;
pub mod dpd;
pub mod dps;
pub mod glib;
pub mod grouping;
pub mod inflection;
pub mod input;
pub mod keys;
pub mod output;
pub mod render;
pub mod sorting;
pub mod stardict;
pub mod strutil;
pub mod validate;

use crate::input::InputFormat;
use crate::output::OutputFormat;
use crate::sorting::views;
use vstd::prelude::*;

verus! {

/// The configuration of one run: simple pass-through values consumed
/// read-only by the pipeline.
pub struct DictionaryInfo<'a> {
    pub name: &'a str,
    pub input_data_path: &'a str,
    pub input_format: InputFormat,
    pub output_format: OutputFormat,
    pub output_folder: &'a str,
    pub short_name: &'a str,
    pub author: &'a str,
    pub description: &'a str,
    pub links_color: &'a str,
    pub headings_color: &'a str,
    pub time_stamp: &'a str,
    pub icon_path: Option<&'a str>,
    pub icon: Vec<u8>,
    pub feedback_form_url: &'a str,
    pub host_url: &'a str,
    pub host_version: &'a str,
    pub inflections_db_path: Option<&'a str>,
}

/// One produced file of the output package.
pub struct DictionaryFile {
    pub extension: String,
    pub bom: Vec<u8>,
    pub data: Vec<u8>,
    pub can_be_empty: bool,
}

#[verifier::ext_equal]
pub ghost struct DictionaryFileView {
    pub extension: Seq<char>,
    pub bom: Seq<u8>,
    pub data: Seq<u8>,
    pub can_be_empty: bool,
}

impl View for DictionaryFile {
    type V = DictionaryFileView;

    open spec fn view(&self) -> DictionaryFileView {
        DictionaryFileView {
            extension: self.extension@,
            bom: self.bom@,
            data: self.data@,
            can_be_empty: self.can_be_empty,
        }
    }
}

/// A file passes pre-write validation when it may be empty or holds data.
pub open spec fn sp_file_ok(f: DictionaryFileView) -> bool {
    f.can_be_empty || f.data.len() > 0
}

/// The message rejecting a run whose required file came out empty.
pub open spec fn sp_empty_file_msg(ext: Seq<char>) -> Seq<char> {
    "'"@ + ext + "' file cannot be empty. Check that input csv has required columns and data."@
}

/// Pre-write validation: the first file that must not be empty but is,
/// in order, rejects the run.
pub open spec fn sp_validate_files(files: Seq<DictionaryFileView>) -> Result<(), Seq<char>>
    decreases files.len(),
{
    if files.len() == 0 {
        Ok(())
    } else if !sp_file_ok(files[0]) {
        Err(sp_empty_file_msg(files[0].extension))
    } else {
        sp_validate_files(files.drop_first())
    }
}

/// Rejects the run if any file flagged "must be non-empty" is empty — the
/// signal that required input columns or data were missing.
pub fn validate_dictionary_files(dict_files: &Vec<DictionaryFile>) -> (r: Result<(), String>)
    ensures
        match r {
            Ok(()) => sp_validate_files(views(dict_files@)) == Result::<(), Seq<char>>::Ok(()),
            Err(e) => sp_validate_files(views(dict_files@)) == Result::<(), Seq<char>>::Err(e@),
        },
{
    let n: usize = dict_files.len();
    let mut i: usize = 0;
    proof {
        assert(views(dict_files@).skip(0) =~= views(dict_files@));
    }
    while i < n
        invariant
            0 <= i <= n,
            n == dict_files@.len(),
            sp_validate_files(views(dict_files@)) == sp_validate_files(
                views(dict_files@).skip(i as int),
            ),
        decreases n - i,
    {
        let f = &dict_files[i];
        proof {
            assert(views(dict_files@).skip(i as int)[0] == views(dict_files@)[i as int]);
            assert(views(dict_files@).skip(i as int).drop_first() =~= views(dict_files@).skip(
                i + 1,
            ));
        }
        if !f.can_be_empty && f.data.len() == 0 {
            proof {
                reveal_strlit("'");
                reveal_strlit(
                    "' file cannot be empty. Check that input csv has required columns and data.",
                );
            }
            let mut msg: String = "'".to_owned();
            msg.append(f.extension.as_str());
            msg.append(
                "' file cannot be empty. Check that input csv has required columns and data.",
            );
            proof {
                assert(msg@ =~= sp_empty_file_msg(f.extension@));
            }
            return Err(msg);
        }
        i = i + 1;
    }
    proof {
        assert(views(dict_files@).skip(n as int) =~= Seq::<DictionaryFileView>::empty());
    }
    Ok(())
}

} // verus!
