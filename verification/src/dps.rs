//! The Devamitta Pali Study schema's rendering: how one `DpsPaliWord` row
//! becomes a table-of-contents fragment and a detail fragment.

use crate::inflection::InflectionGenerator;
use crate::input::DpsPaliWord;
use crate::keys::{make_group_id, make_sort_key, make_toc_id, sp_make_toc_id};
use crate::render::{render_template, rendered, res_view};
use crate::stardict::StarDictPaliWord;
use vstd::prelude::*;

verus! {

pub open spec fn sp_dps_toc_template() -> Seq<char> {
    "<li><a href=\"#{{toc_id}}\">{{pali}}</a> {{fin}} <i>{{pos}}</i> {{in_english}} <span class=\"dsn\">{{dict_short_name}}</span></li>"@
}

fn dps_toc_template() -> (r: &'static str)
    ensures
        r@ == sp_dps_toc_template(),
{
    "<li><a href=\"#{{toc_id}}\">{{pali}}</a> {{fin}} <i>{{pos}}</i> {{in_english}} <span class=\"dsn\">{{dict_short_name}}</span></li>"
}

pub open spec fn sp_dps_data_template() -> Seq<char> {
    "<div id=\"{{toc_id}}\" class=\"word_data\"><h4>{{pali}}</h4><p><i>{{grammar}}</i> {{in_english}}</p><p>{{in_russian}}</p><p>{{construction}}</p>{{inflection_table}}<p class=\"meta\"><a href=\"{{feedback_form_url}}\">Feedback</a> | {{dict_short_name}} | {{host_url}} {{host_version}}</p></div>"@
}

fn dps_data_template() -> (r: &'static str)
    ensures
        r@ == sp_dps_data_template(),
{
    "<div id=\"{{toc_id}}\" class=\"word_data\"><h4>{{pali}}</h4><p><i>{{grammar}}</i> {{in_english}}</p><p>{{in_russian}}</p><p>{{construction}}</p>{{inflection_table}}<p class=\"meta\"><a href=\"{{feedback_form_url}}\">Feedback</a> | {{dict_short_name}} | {{host_url}} {{host_version}}</p></div>"
}

/// The names under which a row's fields are bound into a template context.
pub open spec fn sp_dps_field_keys() -> Seq<Seq<char>> {
    seq![
        "pali"@,
        "fin"@,
        "pos"@,
        "grammar"@,
        "derived_from"@,
        "neg"@,
        "verb"@,
        "trans"@,
        "case_detail"@,
        "in_english"@,
        "in_russian"@,
        "pali_root"@,
        "base"@,
        "construction"@,
        "sanskrit"@,
        "sanskrit_root"@,
        "commentary"@,
        "notes"@,
        "source1"@,
        "example1"@,
        "sutta1"@,
        "source2"@,
        "example2"@,
        "sutta2"@,
        "chapter"@,
        "test"@,
        "variant"@,
    ]
}

/// A row's field values, in the order of `sp_dps_field_keys`.
pub open spec fn sp_dps_field_vals(w: DpsPaliWord) -> Seq<Seq<char>> {
    seq![
        w.pali@,
        w.fin@,
        w.pos@,
        w.grammar@,
        w.derived_from@,
        w.neg@,
        w.verb@,
        w.trans@,
        w.case_detail@,
        w.in_english@,
        w.in_russian@,
        w.pali_root@,
        w.base@,
        w.construction@,
        w.sanskrit@,
        w.sanskrit_root@,
        w.commentary@,
        w.notes@,
        w.source1@,
        w.example1@,
        w.sutta1@,
        w.source2@,
        w.example2@,
        w.sutta2@,
        w.chapter@,
        w.test@,
        w.variant@,
    ]
}

fn dps_field_keys() -> (r: Vec<String>)
    ensures
        r.deep_view() == sp_dps_field_keys(),
{
    let mut r: Vec<String> = Vec::new();
    r.push("pali".to_owned());
    r.push("fin".to_owned());
    r.push("pos".to_owned());
    r.push("grammar".to_owned());
    r.push("derived_from".to_owned());
    r.push("neg".to_owned());
    r.push("verb".to_owned());
    r.push("trans".to_owned());
    r.push("case_detail".to_owned());
    r.push("in_english".to_owned());
    r.push("in_russian".to_owned());
    r.push("pali_root".to_owned());
    r.push("base".to_owned());
    r.push("construction".to_owned());
    r.push("sanskrit".to_owned());
    r.push("sanskrit_root".to_owned());
    r.push("commentary".to_owned());
    r.push("notes".to_owned());
    r.push("source1".to_owned());
    r.push("example1".to_owned());
    r.push("sutta1".to_owned());
    r.push("source2".to_owned());
    r.push("example2".to_owned());
    r.push("sutta2".to_owned());
    r.push("chapter".to_owned());
    r.push("test".to_owned());
    r.push("variant".to_owned());
    proof {
        assert(r.deep_view() =~= sp_dps_field_keys());
    }
    r
}

fn dps_field_vals(w: &DpsPaliWord) -> (r: Vec<String>)
    ensures
        r.deep_view() == sp_dps_field_vals(*w),
{
    let mut r: Vec<String> = Vec::new();
    r.push(w.pali.clone());
    r.push(w.fin.clone());
    r.push(w.pos.clone());
    r.push(w.grammar.clone());
    r.push(w.derived_from.clone());
    r.push(w.neg.clone());
    r.push(w.verb.clone());
    r.push(w.trans.clone());
    r.push(w.case_detail.clone());
    r.push(w.in_english.clone());
    r.push(w.in_russian.clone());
    r.push(w.pali_root.clone());
    r.push(w.base.clone());
    r.push(w.construction.clone());
    r.push(w.sanskrit.clone());
    r.push(w.sanskrit_root.clone());
    r.push(w.commentary.clone());
    r.push(w.notes.clone());
    r.push(w.source1.clone());
    r.push(w.example1.clone());
    r.push(w.sutta1.clone());
    r.push(w.source2.clone());
    r.push(w.example2.clone());
    r.push(w.sutta2.clone());
    r.push(w.chapter.clone());
    r.push(w.test.clone());
    r.push(w.variant.clone());
    proof {
        assert(r.deep_view() =~= sp_dps_field_vals(*w));
    }
    r
}

/// The names of the extra values a detail fragment is rendered with.
pub open spec fn sp_dps_extra_keys() -> Seq<Seq<char>> {
    seq![
        "toc_id"@,
        "dict_short_name"@,
        "feedback_form_url"@,
        "host_url"@,
        "host_version"@,
        "inflection_table"@,
    ]
}

impl StarDictPaliWord for DpsPaliWord {
    open spec fn sp_id(&self) -> Seq<char> {
        self.pali@
    }

    open spec fn sp_sort_key(&self) -> Seq<char> {
        crate::keys::sp_sort_key(self.pali@)
    }

    open spec fn sp_group_id(&self) -> Seq<char> {
        crate::keys::sp_group_key(self.pali@)
    }

    open spec fn sp_toc_entry(&self, dict_short_name: Seq<char>) -> Result<Seq<char>, Seq<char>> {
        rendered(
            sp_dps_toc_template(),
            seq!["dict_short_name"@, "toc_id"@, "pali"@, "fin"@, "pos"@, "in_english"@],
            seq![
                dict_short_name,
                sp_make_toc_id(self.pali@, dict_short_name),
                self.pali@,
                self.fin@,
                self.pos@,
                self.in_english@,
            ],
            Seq::empty(),
            Seq::empty(),
        )
    }

    open spec fn sp_word_data(
        &self,
        dict_short_name: Seq<char>,
        feedback_form_url: Seq<char>,
        host_url: Seq<char>,
        host_version: Seq<char>,
        inflection_table: Seq<char>,
    ) -> Result<Seq<char>, Seq<char>> {
        rendered(
            sp_dps_data_template(),
            sp_dps_field_keys() + sp_dps_extra_keys(),
            sp_dps_field_vals(*self) + seq![
                sp_make_toc_id(self.pali@, dict_short_name),
                dict_short_name,
                feedback_form_url,
                host_url,
                host_version,
                inflection_table,
            ],
            Seq::empty(),
            Seq::empty(),
        )
    }

    fn id(&self) -> (r: &str) {
        self.pali.as_str()
    }

    fn sort_key(&self) -> (r: String) {
        make_sort_key(self.pali.as_str())
    }

    fn group_id(&self) -> (r: String) {
        make_group_id(self.pali.as_str())
    }

    fn toc_id(&self, dict_short_name: &str) -> (r: String) {
        make_toc_id(self.pali.as_str(), dict_short_name)
    }

    fn toc_entry(&self, dict_short_name: &str) -> (r: Result<String, String>) {
        let mut keys: Vec<String> = Vec::new();
        keys.push("dict_short_name".to_owned());
        keys.push("toc_id".to_owned());
        keys.push("pali".to_owned());
        keys.push("fin".to_owned());
        keys.push("pos".to_owned());
        keys.push("in_english".to_owned());
        let mut vals: Vec<String> = Vec::new();
        vals.push(dict_short_name.to_owned());
        vals.push(make_toc_id(self.pali.as_str(), dict_short_name));
        vals.push(self.pali.clone());
        vals.push(self.fin.clone());
        vals.push(self.pos.clone());
        vals.push(self.in_english.clone());
        let list_keys: Vec<String> = Vec::new();
        let list_vals: Vec<Vec<String>> = Vec::new();
        proof {
            assert(keys.deep_view() =~= seq![
                "dict_short_name"@,
                "toc_id"@,
                "pali"@,
                "fin"@,
                "pos"@,
                "in_english"@,
            ]);
            assert(vals.deep_view() =~= seq![
                dict_short_name@,
                sp_make_toc_id(self.pali@, dict_short_name@),
                self.pali@,
                self.fin@,
                self.pos@,
                self.in_english@,
            ]);
            assert(list_keys.deep_view() =~= Seq::<Seq<char>>::empty());
            assert(list_vals.deep_view() =~= Seq::<Seq<Seq<char>>>::empty());
        }
        render_template(dps_toc_template(), &keys, &vals, &list_keys, &list_vals)
    }

    fn word_data_entry<I: InflectionGenerator>(
        &self,
        dict_short_name: &str,
        feedback_form_url: &str,
        host_url: &str,
        host_version: &str,
        igen: &I,
    ) -> (r: Result<String, String>) {
        let inflection_table = igen.generate_inflection_table_html(self.pali.as_str());
        let mut keys = dps_field_keys();
        keys.push("toc_id".to_owned());
        keys.push("dict_short_name".to_owned());
        keys.push("feedback_form_url".to_owned());
        keys.push("host_url".to_owned());
        keys.push("host_version".to_owned());
        keys.push("inflection_table".to_owned());
        let mut vals = dps_field_vals(self);
        vals.push(make_toc_id(self.pali.as_str(), dict_short_name));
        vals.push(dict_short_name.to_owned());
        vals.push(feedback_form_url.to_owned());
        vals.push(host_url.to_owned());
        vals.push(host_version.to_owned());
        vals.push(inflection_table);
        let list_keys: Vec<String> = Vec::new();
        let list_vals: Vec<Vec<String>> = Vec::new();
        proof {
            assert(keys.deep_view() =~= sp_dps_field_keys() + sp_dps_extra_keys());
            assert(vals.deep_view() =~= sp_dps_field_vals(*self) + seq![
                sp_make_toc_id(self.pali@, dict_short_name@),
                dict_short_name@,
                feedback_form_url@,
                host_url@,
                host_version@,
                igen.sp_table_html(self.pali@),
            ]);
            assert(list_keys.deep_view() =~= Seq::<Seq<char>>::empty());
            assert(list_vals.deep_view() =~= Seq::<Seq<Seq<char>>>::empty());
        }
        render_template(dps_data_template(), &keys, &vals, &list_keys, &list_vals)
    }
}

} // verus!
