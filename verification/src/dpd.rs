//! The Digital Pali Dictionary schema's rendering: how one `DpdPaliWord`
//! row becomes a table-of-contents fragment, a detail fragment, and the
//! plain-text entries of the lighter output format.

use crate::ajdict::AjDictPaliWord;
use crate::inflection::InflectionGenerator;
use crate::input::DpdPaliWord;
use crate::keys::{make_group_id, make_sort_key, make_toc_id, sp_make_toc_id};
use crate::render::{render_template, rendered, res_view};
use crate::stardict::StarDictPaliWord;
use crate::strutil::{sp_strip_newlines, strip_newlines};
use vstd::prelude::*;

verus! {

pub open spec fn sp_dpd_toc_template() -> Seq<char> {
    "<li><a href=\"#{{toc_id}}\">{{pali1}}</a> <i>{{pos}}</i> {{in_english}} [{{buddhadatta}}] <span class=\"dsn\">{{dict_short_name}}</span></li>"@
}

fn dpd_toc_template() -> (r: &'static str)
    ensures
        r@ == sp_dpd_toc_template(),
{
    "<li><a href=\"#{{toc_id}}\">{{pali1}}</a> <i>{{pos}}</i> {{in_english}} [{{buddhadatta}}] <span class=\"dsn\">{{dict_short_name}}</span></li>"
}

pub open spec fn sp_dpd_data_template() -> Seq<char> {
    "<div id=\"{{toc_id}}\" class=\"word_data\"><h4>{{pali1}}</h4><p><i>{{grammar}}</i> {{in_english}}</p><p>{{construction}}</p>{{inflection_table}}<p class=\"meta\"><a href=\"{{feedback_form_url}}\">Feedback</a> | {{dict_short_name}} | {{host_url}} {{host_version}}</p></div>"@
}

fn dpd_data_template() -> (r: &'static str)
    ensures
        r@ == sp_dpd_data_template(),
{
    "<div id=\"{{toc_id}}\" class=\"word_data\"><h4>{{pali1}}</h4><p><i>{{grammar}}</i> {{in_english}}</p><p>{{construction}}</p>{{inflection_table}}<p class=\"meta\"><a href=\"{{feedback_form_url}}\">Feedback</a> | {{dict_short_name}} | {{host_url}} {{host_version}}</p></div>"
}

pub open spec fn sp_ajdict_dpd_template() -> Seq<char> {
    "{{pali1}};{{pos}};{{in_english}};{{grammar}};{{construction}}"@
}

fn ajdict_dpd_template() -> (r: &'static str)
    ensures
        r@ == sp_ajdict_dpd_template(),
{
    "{{pali1}};{{pos}};{{in_english}};{{grammar}};{{construction}}"
}

pub open spec fn sp_ajdict_dpd_concise_template() -> Seq<char> {
    "{{pali1}};{{pos}};{{buddhadatta}}"@
}

fn ajdict_dpd_concise_template() -> (r: &'static str)
    ensures
        r@ == sp_ajdict_dpd_concise_template(),
{
    "{{pali1}};{{pos}};{{buddhadatta}}"
}

/// The names under which a row's fields are bound into a template context.
pub open spec fn sp_dpd_field_keys() -> Seq<Seq<char>> {
    seq![
        "pali1"@,
        "pali2"@,
        "fin"@,
        "pos"@,
        "grammar"@,
        "derived_from"@,
        "neg"@,
        "verb"@,
        "trans"@,
        "case_detail"@,
        "in_english"@,
        "sanskrit"@,
        "sanskrit_root"@,
        "family"@,
        "pali_root"@,
        "v"@,
        "grp"@,
        "sgn"@,
        "root_meaning"@,
        "base"@,
        "construction"@,
        "derivative"@,
        "suffix"@,
        "compound"@,
        "compound_construction"@,
        "source1"@,
        "sutta1"@,
        "example1"@,
        "source2"@,
        "sutta2"@,
        "example2"@,
        "antonyms"@,
        "synonyms"@,
        "variant"@,
        "commentary"@,
        "literal_meaning"@,
        "root_in_compound"@,
        "notes"@,
        "stem"@,
        "pattern"@,
        "buddhadatta"@,
        "cl"@,
    ]
}

/// A row's field values, in the order of `sp_dpd_field_keys`.
pub open spec fn sp_dpd_field_vals(w: DpdPaliWord) -> Seq<Seq<char>> {
    seq![
        w.pali1@,
        w.pali2@,
        w.fin@,
        w.pos@,
        w.grammar@,
        w.derived_from@,
        w.neg@,
        w.verb@,
        w.trans@,
        w.case_detail@,
        w.in_english@,
        w.sanskrit@,
        w.sanskrit_root@,
        w.family@,
        w.pali_root@,
        w.v@,
        w.grp@,
        w.sgn@,
        w.root_meaning@,
        w.base@,
        w.construction@,
        w.derivative@,
        w.suffix@,
        w.compound@,
        w.compound_construction@,
        w.source1@,
        w.sutta1@,
        w.example1@,
        w.source2@,
        w.sutta2@,
        w.example2@,
        w.antonyms@,
        w.synonyms@,
        w.variant@,
        w.commentary@,
        w.literal_meaning@,
        w.root_in_compound@,
        w.notes@,
        w.stem@,
        w.pattern@,
        w.buddhadatta@,
        w.cl@,
    ]
}

fn dpd_field_keys() -> (r: Vec<String>)
    ensures
        r.deep_view() == sp_dpd_field_keys(),
{
    let mut r: Vec<String> = Vec::new();
    r.push("pali1".to_owned());
    r.push("pali2".to_owned());
    r.push("fin".to_owned());
    r.push("pos".to_owned());
    r.push("grammar".to_owned());
    r.push("derived_from".to_owned());
    r.push("neg".to_owned());
    r.push("verb".to_owned());
    r.push("trans".to_owned());
    r.push("case_detail".to_owned());
    r.push("in_english".to_owned());
    r.push("sanskrit".to_owned());
    r.push("sanskrit_root".to_owned());
    r.push("family".to_owned());
    r.push("pali_root".to_owned());
    r.push("v".to_owned());
    r.push("grp".to_owned());
    r.push("sgn".to_owned());
    r.push("root_meaning".to_owned());
    r.push("base".to_owned());
    r.push("construction".to_owned());
    r.push("derivative".to_owned());
    r.push("suffix".to_owned());
    r.push("compound".to_owned());
    r.push("compound_construction".to_owned());
    r.push("source1".to_owned());
    r.push("sutta1".to_owned());
    r.push("example1".to_owned());
    r.push("source2".to_owned());
    r.push("sutta2".to_owned());
    r.push("example2".to_owned());
    r.push("antonyms".to_owned());
    r.push("synonyms".to_owned());
    r.push("variant".to_owned());
    r.push("commentary".to_owned());
    r.push("literal_meaning".to_owned());
    r.push("root_in_compound".to_owned());
    r.push("notes".to_owned());
    r.push("stem".to_owned());
    r.push("pattern".to_owned());
    r.push("buddhadatta".to_owned());
    r.push("cl".to_owned());
    proof {
        assert(r.deep_view() =~= sp_dpd_field_keys());
    }
    r
}

fn dpd_field_vals(w: &DpdPaliWord) -> (r: Vec<String>)
    ensures
        r.deep_view() == sp_dpd_field_vals(*w),
{
    let mut r: Vec<String> = Vec::new();
    r.push(w.pali1.clone());
    r.push(w.pali2.clone());
    r.push(w.fin.clone());
    r.push(w.pos.clone());
    r.push(w.grammar.clone());
    r.push(w.derived_from.clone());
    r.push(w.neg.clone());
    r.push(w.verb.clone());
    r.push(w.trans.clone());
    r.push(w.case_detail.clone());
    r.push(w.in_english.clone());
    r.push(w.sanskrit.clone());
    r.push(w.sanskrit_root.clone());
    r.push(w.family.clone());
    r.push(w.pali_root.clone());
    r.push(w.v.clone());
    r.push(w.grp.clone());
    r.push(w.sgn.clone());
    r.push(w.root_meaning.clone());
    r.push(w.base.clone());
    r.push(w.construction.clone());
    r.push(w.derivative.clone());
    r.push(w.suffix.clone());
    r.push(w.compound.clone());
    r.push(w.compound_construction.clone());
    r.push(w.source1.clone());
    r.push(w.sutta1.clone());
    r.push(w.example1.clone());
    r.push(w.source2.clone());
    r.push(w.sutta2.clone());
    r.push(w.example2.clone());
    r.push(w.antonyms.clone());
    r.push(w.synonyms.clone());
    r.push(w.variant.clone());
    r.push(w.commentary.clone());
    r.push(w.literal_meaning.clone());
    r.push(w.root_in_compound.clone());
    r.push(w.notes.clone());
    r.push(w.stem.clone());
    r.push(w.pattern.clone());
    r.push(w.buddhadatta.clone());
    r.push(w.cl.clone());
    proof {
        assert(r.deep_view() =~= sp_dpd_field_vals(*w));
    }
    r
}

/// The names of the extra values a detail fragment is rendered with.
pub open spec fn sp_dpd_extra_keys() -> Seq<Seq<char>> {
    seq![
        "toc_id"@,
        "dict_short_name"@,
        "feedback_form_url"@,
        "host_url"@,
        "host_version"@,
        "inflection_table"@,
    ]
}

impl StarDictPaliWord for DpdPaliWord {
    open spec fn sp_id(&self) -> Seq<char> {
        self.pali1@
    }

    open spec fn sp_sort_key(&self) -> Seq<char> {
        crate::keys::sp_sort_key(self.pali1@)
    }

    open spec fn sp_group_id(&self) -> Seq<char> {
        crate::keys::sp_group_key(self.pali1@)
    }

    open spec fn sp_toc_entry(&self, dict_short_name: Seq<char>) -> Result<Seq<char>, Seq<char>> {
        rendered(
            sp_dpd_toc_template(),
            seq!["dict_short_name"@, "toc_id"@, "pali1"@, "pos"@, "in_english"@, "buddhadatta"@],
            seq![
                dict_short_name,
                sp_make_toc_id(self.pali1@, dict_short_name),
                self.pali1@,
                self.pos@,
                self.in_english@,
                self.buddhadatta@,
            ],
            Seq::empty(),
            Seq::empty(),
        )
    }

    open spec fn sp_word_data(
        &self,
        dict_short_name: Seq<char>,
        feedback_form_url: Seq<char>,
        host_url: Seq<char>,
        host_version: Seq<char>,
        inflection_table: Seq<char>,
    ) -> Result<Seq<char>, Seq<char>> {
        rendered(
            sp_dpd_data_template(),
            sp_dpd_field_keys() + sp_dpd_extra_keys(),
            sp_dpd_field_vals(*self) + seq![
                sp_make_toc_id(self.pali1@, dict_short_name),
                dict_short_name,
                feedback_form_url,
                host_url,
                host_version,
                inflection_table,
            ],
            Seq::empty(),
            Seq::empty(),
        )
    }

    fn id(&self) -> (r: &str) {
        self.pali1.as_str()
    }

    fn sort_key(&self) -> (r: String) {
        make_sort_key(self.pali1.as_str())
    }

    fn group_id(&self) -> (r: String) {
        make_group_id(self.pali1.as_str())
    }

    fn toc_id(&self, dict_short_name: &str) -> (r: String) {
        make_toc_id(self.pali1.as_str(), dict_short_name)
    }

    fn toc_entry(&self, dict_short_name: &str) -> (r: Result<String, String>) {
        let mut keys: Vec<String> = Vec::new();
        keys.push("dict_short_name".to_owned());
        keys.push("toc_id".to_owned());
        keys.push("pali1".to_owned());
        keys.push("pos".to_owned());
        keys.push("in_english".to_owned());
        keys.push("buddhadatta".to_owned());
        let mut vals: Vec<String> = Vec::new();
        vals.push(dict_short_name.to_owned());
        vals.push(make_toc_id(self.pali1.as_str(), dict_short_name));
        vals.push(self.pali1.clone());
        vals.push(self.pos.clone());
        vals.push(self.in_english.clone());
        vals.push(self.buddhadatta.clone());
        let list_keys: Vec<String> = Vec::new();
        let list_vals: Vec<Vec<String>> = Vec::new();
        proof {
            assert(keys.deep_view() =~= seq![
                "dict_short_name"@,
                "toc_id"@,
                "pali1"@,
                "pos"@,
                "in_english"@,
                "buddhadatta"@,
            ]);
            assert(vals.deep_view() =~= seq![
                dict_short_name@,
                sp_make_toc_id(self.pali1@, dict_short_name@),
                self.pali1@,
                self.pos@,
                self.in_english@,
                self.buddhadatta@,
            ]);
            assert(list_keys.deep_view() =~= Seq::<Seq<char>>::empty());
            assert(list_vals.deep_view() =~= Seq::<Seq<Seq<char>>>::empty());
        }
        render_template(dpd_toc_template(), &keys, &vals, &list_keys, &list_vals)
    }

    fn word_data_entry<I: InflectionGenerator>(
        &self,
        dict_short_name: &str,
        feedback_form_url: &str,
        host_url: &str,
        host_version: &str,
        igen: &I,
    ) -> (r: Result<String, String>) {
        let inflection_table = igen.generate_inflection_table_html(self.pali1.as_str());
        let mut keys = dpd_field_keys();
        keys.push("toc_id".to_owned());
        keys.push("dict_short_name".to_owned());
        keys.push("feedback_form_url".to_owned());
        keys.push("host_url".to_owned());
        keys.push("host_version".to_owned());
        keys.push("inflection_table".to_owned());
        let mut vals = dpd_field_vals(self);
        vals.push(make_toc_id(self.pali1.as_str(), dict_short_name));
        vals.push(dict_short_name.to_owned());
        vals.push(feedback_form_url.to_owned());
        vals.push(host_url.to_owned());
        vals.push(host_version.to_owned());
        vals.push(inflection_table);
        let list_keys: Vec<String> = Vec::new();
        let list_vals: Vec<Vec<String>> = Vec::new();
        proof {
            assert(keys.deep_view() =~= sp_dpd_field_keys() + sp_dpd_extra_keys());
            assert(vals.deep_view() =~= sp_dpd_field_vals(*self) + seq![
                sp_make_toc_id(self.pali1@, dict_short_name@),
                dict_short_name@,
                feedback_form_url@,
                host_url@,
                host_version@,
                igen.sp_table_html(self.pali1@),
            ]);
            assert(list_keys.deep_view() =~= Seq::<Seq<char>>::empty());
            assert(list_vals.deep_view() =~= Seq::<Seq<Seq<char>>>::empty());
        }
        render_template(dpd_data_template(), &keys, &vals, &list_keys, &list_vals)
    }
}

impl AjDictPaliWord for DpdPaliWord {
    open spec fn sp_id(&self) -> Seq<char> {
        self.pali1@
    }

    open spec fn sp_sort_key(&self) -> Seq<char> {
        crate::keys::sp_sort_key(self.pali1@)
    }

    open spec fn sp_word_data(&self) -> Result<Seq<char>, Seq<char>> {
        match rendered(
            sp_ajdict_dpd_template(),
            sp_dpd_field_keys(),
            sp_dpd_field_vals(*self),
            Seq::empty(),
            Seq::empty(),
        ) {
            Ok(s) => Ok(sp_strip_newlines(s)),
            Err(e) => Err(e),
        }
    }

    open spec fn sp_concise_word_data(&self) -> Result<Seq<char>, Seq<char>> {
        match rendered(
            sp_ajdict_dpd_concise_template(),
            sp_dpd_field_keys(),
            sp_dpd_field_vals(*self),
            Seq::empty(),
            Seq::empty(),
        ) {
            Ok(s) => Ok(sp_strip_newlines(s)),
            Err(e) => Err(e),
        }
    }

    fn id(&self) -> (r: &str) {
        self.pali1.as_str()
    }

    fn sort_key(&self) -> (r: String) {
        make_sort_key(self.pali1.as_str())
    }

    fn word_data_entry(&self) -> (r: Result<String, String>) {
        let keys = dpd_field_keys();
        let vals = dpd_field_vals(self);
        let list_keys: Vec<String> = Vec::new();
        let list_vals: Vec<Vec<String>> = Vec::new();
        proof {
            assert(list_keys.deep_view() =~= Seq::<Seq<char>>::empty());
            assert(list_vals.deep_view() =~= Seq::<Seq<Seq<char>>>::empty());
        }
        match render_template(ajdict_dpd_template(), &keys, &vals, &list_keys, &list_vals) {
            Ok(s) => Ok(strip_newlines(s.as_str())),
            Err(e) => Err(e),
        }
    }

    fn concise_word_data_entry(&self) -> (r: Result<String, String>) {
        let keys = dpd_field_keys();
        let vals = dpd_field_vals(self);
        let list_keys: Vec<String> = Vec::new();
        let list_vals: Vec<Vec<String>> = Vec::new();
        proof {
            assert(list_keys.deep_view() =~= Seq::<Seq<char>>::empty());
            assert(list_vals.deep_view() =~= Seq::<Seq<Seq<char>>>::empty());
        }
        match render_template(ajdict_dpd_concise_template(), &keys, &vals, &list_keys, &list_vals) {
            Ok(s) => Ok(strip_newlines(s.as_str())),
            Err(e) => Err(e),
        }
    }
}

} // verus!
