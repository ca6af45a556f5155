//! The lighter plain-text output: one UTF-8 text file per logical
//! sub-dictionary (full and concise), each entry's bytes terminated by
//! CR LF, the files prefixed with a byte-order mark. No offset, index or
//! synonym files are produced.

use crate::render::res_view;
use crate::stardict::sp_unwrap_or_err;
use crate::sorting::views;
use crate::{DictionaryFile, DictionaryFileView, DictionaryInfo};
use vstd::prelude::*;

verus! {

broadcast use crate::sorting::group_views_lemmas;

/// One record of the input table, as the plain-text pipeline consumes it.
pub trait AjDictPaliWord: Sized {
    /// The headword.
    spec fn sp_id(&self) -> Seq<char>;

    /// The ordinal-normalized headword.
    spec fn sp_sort_key(&self) -> Seq<char>;

    /// What `word_data_entry` returns.
    spec fn sp_word_data(&self) -> Result<Seq<char>, Seq<char>>;

    /// What `concise_word_data_entry` returns.
    spec fn sp_concise_word_data(&self) -> Result<Seq<char>, Seq<char>>;

    fn id(&self) -> (r: &str)
        ensures
            r@ == self.sp_id(),
    ;

    fn sort_key(&self) -> (r: String)
        ensures
            r@ == self.sp_sort_key(),
    ;

    fn word_data_entry(&self) -> (r: Result<String, String>)
        ensures
            res_view(r) == self.sp_word_data(),
    ;

    fn concise_word_data_entry(&self) -> (r: Result<String, String>)
        ensures
            res_view(r) == self.sp_concise_word_data(),
    ;
}

/// The full and concise entry texts of every record, in order; a record
/// whose rendering fails contributes its error text as the entry, visibly,
/// never fatally.
pub open spec fn sp_dict_entries<T: AjDictPaliWord>(words: Seq<T>) -> (
    Seq<Seq<char>>,
    Seq<Seq<char>>,
)
    decreases words.len(),
{
    if words.len() == 0 {
        (Seq::empty(), Seq::empty())
    } else {
        let p = sp_dict_entries(words.drop_last());
        (
            p.0.push(sp_unwrap_or_err(words.last().sp_word_data())),
            p.1.push(sp_unwrap_or_err(words.last().sp_concise_word_data())),
        )
    }
}

/// Renders every record's full and concise entry texts, in record order; a
/// record whose rendering fails yields its error text in place of the entry
/// and the run continues.
pub fn create_dict_entries<T: AjDictPaliWord>(words: Vec<T>) -> (r: Result<
    (Vec<String>, Vec<String>),
    String,
>)
    ensures
        r matches Ok(p) && views(p.0@) == sp_dict_entries(words@).0 && views(p.1@)
            == sp_dict_entries(words@).1,
{
    let ghost all = words@;
    let mut dpd_entries: Vec<String> = Vec::new();
    let mut cdpd_entries: Vec<String> = Vec::new();
    let n: usize = words.len();
    let mut i: usize = 0;
    proof {
        assert(views(dpd_entries@) =~= sp_dict_entries(all.take(0)).0);
        assert(views(cdpd_entries@) =~= sp_dict_entries(all.take(0)).1);
    }
    while i < n
        invariant
            0 <= i <= n,
            n == words@.len(),
            all == words@,
            views(dpd_entries@) == sp_dict_entries(all.take(i as int)).0,
            views(cdpd_entries@) == sp_dict_entries(all.take(i as int)).1,
        decreases n - i,
    {
        let w = &words[i];
        let d = match w.word_data_entry() {
            Ok(d) => d,
            Err(e) => e,
        };
        let c = match w.concise_word_data_entry() {
            Ok(c) => c,
            Err(e) => e,
        };
        dpd_entries.push(d);
        cdpd_entries.push(c);
        proof {
            assert(all.take(i + 1).drop_last() =~= all.take(i as int));
            assert(all.take(i + 1).last() == all[i as int]);
        }
        i = i + 1;
    }
    proof {
        assert(all.take(n as int) =~= all);
    }
    Ok((dpd_entries, cdpd_entries))
}

/// The text file's bytes: each entry's UTF-8 bytes followed by CR LF.
pub open spec fn sp_txt_data(entries: Seq<Seq<char>>) -> Seq<u8>
    decreases entries.len(),
{
    if entries.len() == 0 {
        Seq::empty()
    } else {
        sp_txt_data(entries.drop_last()) + vstd::utf8::encode_utf8(entries.last()) + seq![
            0x0du8,
            0x0au8,
        ]
    }
}

/// Encodes the entry texts as one UTF-8 text file, each entry terminated by
/// CR LF.
pub fn create_txt_data(dict_entries: Vec<String>) -> (txt: Vec<u8>)
    ensures
        txt@ == sp_txt_data(views(dict_entries@)),
{
    let ghost ev = views(dict_entries@);
    let mut txt: Vec<u8> = Vec::new();
    let n: usize = dict_entries.len();
    let mut i: usize = 0;
    proof {
        assert(ev.take(0) =~= Seq::<Seq<char>>::empty());
    }
    while i < n
        invariant
            0 <= i <= n,
            n == dict_entries@.len(),
            ev == views(dict_entries@),
            txt@ == sp_txt_data(ev.take(i as int)),
        decreases n - i,
    {
        let mut eb = dict_entries[i].as_str().as_bytes_vec();
        txt.append(&mut eb);
        txt.push(0x0du8);
        txt.push(0x0au8);
        proof {
            assert(ev.take(i + 1).drop_last() =~= ev.take(i as int));
            assert(ev.take(i + 1).last() == ev[i as int]);
            assert(txt@ =~= sp_txt_data(ev.take(i as int)) + vstd::utf8::encode_utf8(
                ev[i as int],
            ) + seq![0x0du8, 0x0au8]);
        }
        i = i + 1;
    }
    proof {
        assert(ev.take(n as int) =~= ev);
    }
    txt
}

/// The byte-order mark that prefixes each text file.
pub open spec fn sp_bom() -> Seq<u8> {
    seq![0xefu8, 0xbbu8, 0xbfu8]
}

/// The whole plain-text package as a function of the record stream: the full
/// and the concise sub-dictionary, both required to be non-empty.
pub open spec fn sp_ajdict_output<T: AjDictPaliWord>(words: Seq<T>) -> Seq<DictionaryFileView> {
    let p = sp_dict_entries(words);
    seq![
        DictionaryFileView {
            extension: "dpd.ajd.txt"@,
            bom: sp_bom(),
            data: sp_txt_data(p.0),
            can_be_empty: false,
        },
        DictionaryFileView {
            extension: "cdpd.ajd.txt"@,
            bom: sp_bom(),
            data: sp_txt_data(p.1),
            can_be_empty: false,
        },
    ]
}

/// Builds the plain-text package: one file of full entries and one of
/// concise entries, each entry CR-LF-terminated, each file with a
/// byte-order mark and required to be non-empty.
pub fn create_dictionary<T: AjDictPaliWord>(words: Vec<T>) -> (r: Result<
    Vec<DictionaryFile>,
    String,
>)
    ensures
        r matches Ok(files) && views(files@) == sp_ajdict_output(words@),
{
    let ghost all = words@;
    let (dpd_entries, cdpd_entries) = match create_dict_entries(words) {
        Ok(p) => p,
        Err(e) => {
            return Err(e);
        },
    };
    let dpd_txt = create_txt_data(dpd_entries);
    let cdpd_txt = create_txt_data(cdpd_entries);
    let mut bom1: Vec<u8> = Vec::new();
    bom1.push(0xefu8);
    bom1.push(0xbbu8);
    bom1.push(0xbfu8);
    let mut bom2: Vec<u8> = Vec::new();
    bom2.push(0xefu8);
    bom2.push(0xbbu8);
    bom2.push(0xbfu8);
    proof {
        assert(bom1@ =~= sp_bom());
        assert(bom2@ =~= sp_bom());
    }
    let mut files: Vec<DictionaryFile> = Vec::new();
    files.push(
        DictionaryFile {
            extension: "dpd.ajd.txt".to_owned(),
            bom: bom1,
            data: dpd_txt,
            can_be_empty: false,
        },
    );
    files.push(
        DictionaryFile {
            extension: "cdpd.ajd.txt".to_owned(),
            bom: bom2,
            data: cdpd_txt,
            can_be_empty: false,
        },
    );
    proof {
        assert(views(files@) =~= sp_ajdict_output(all));
    }
    Ok(files)
}

/// The plain-text package builder for one run's configuration.
pub struct AjDict<'a> {
    pub dict_info: &'a DictionaryInfo<'a>,
}

impl<'a> AjDict<'a> {
    pub fn new(dict_info: &'a DictionaryInfo<'a>) -> (r: AjDict<'a>)
        ensures
            r.dict_info == dict_info,
    {
        AjDict { dict_info }
    }

    /// Builds the package files for the given records.
    pub fn build_files<T: AjDictPaliWord>(&self, words: Vec<T>) -> (r: Result<
        Vec<DictionaryFile>,
        String,
    >)
        ensures
            r matches Ok(files) && views(files@) == sp_ajdict_output(words@),
    {
        create_dictionary(words)
    }
}

} // verus!
