//! The StarDict output pipeline: records are grouped by group key, each
//! group is rendered to one HTML fragment, the fragments are concatenated
//! into the body buffer with cumulative byte offsets, and the index, synonym
//! and metadata files are encoded around that buffer.

use crate::glib::{g_ascii_strcasecmp, sp_glib_le};
use crate::inflection::InflectionGenerator;
use crate::keys::sp_make_toc_id;
use crate::render::{render_template, rendered, res_view};
use crate::sorting::{group_views_lemmas, le_fn, sort_items, stable_sort, views, SortItem};
use crate::strutil::{sp_str_le, str_cmp};
use crate::{DictionaryFile, DictionaryFileView, DictionaryInfo};
use vstd::prelude::*;

verus! {

broadcast use group_views_lemmas;

/// One record of the input table, as the StarDict pipeline consumes it.
/// Every schema exposes a headword (`id`), the keys derived from it, and two
/// rendered fragments; the spec functions name those values so that the
/// pipeline's contracts are exact.
pub trait StarDictPaliWord: Sized {
    /// The headword.
    spec fn sp_id(&self) -> Seq<char>;

    /// The ordinal-normalized headword used for ordering within a group.
    spec fn sp_sort_key(&self) -> Seq<char>;

    /// The headword with its ordinal stripped; one group key identifies one
    /// dictionary entry.
    spec fn sp_group_id(&self) -> Seq<char>;

    /// What `toc_entry` returns.
    spec fn sp_toc_entry(&self, dict_short_name: Seq<char>) -> Result<Seq<char>, Seq<char>>;

    /// What `word_data_entry` returns, given the inflection table the
    /// generator yields for this record's headword.
    spec fn sp_word_data(
        &self,
        dict_short_name: Seq<char>,
        feedback_form_url: Seq<char>,
        host_url: Seq<char>,
        host_version: Seq<char>,
        inflection_table: Seq<char>,
    ) -> Result<Seq<char>, Seq<char>>;

    fn id(&self) -> (r: &str)
        ensures
            r@ == self.sp_id(),
    ;

    fn sort_key(&self) -> (r: String)
        ensures
            r@ == self.sp_sort_key(),
    ;

    fn group_id(&self) -> (r: String)
        ensures
            r@ == self.sp_group_id(),
    ;

    fn toc_id(&self, dict_short_name: &str) -> (r: String)
        ensures
            r@ == sp_make_toc_id(self.sp_id(), dict_short_name@),
    ;

    fn toc_entry(&self, dict_short_name: &str) -> (r: Result<String, String>)
        ensures
            res_view(r) == self.sp_toc_entry(dict_short_name@),
    ;

    fn word_data_entry<I: InflectionGenerator>(
        &self,
        dict_short_name: &str,
        feedback_form_url: &str,
        host_url: &str,
        host_version: &str,
        igen: &I,
    ) -> (r: Result<String, String>)
        ensures
            res_view(r) == self.sp_word_data(
                dict_short_name@,
                feedback_form_url@,
                host_url@,
                host_version@,
                igen.sp_table_html(self.sp_id()),
            ),
    ;
}

/// One entry of the index: a group key, where the group's fragment sits in
/// the body buffer, and the synonym words that should resolve to it.
pub struct IdxEntry {
    pub word: String,
    pub data_offset: u32,
    pub data_size: u32,
    pub synonym_words: Vec<String>,
}

#[verifier::ext_equal]
pub ghost struct IdxEntryView {
    pub word: Seq<char>,
    pub data_offset: u32,
    pub data_size: u32,
    pub synonym_words: Seq<Seq<char>>,
}

impl View for IdxEntry {
    type V = IdxEntryView;

    open spec fn view(&self) -> IdxEntryView {
        IdxEntryView {
            word: self.word@,
            data_offset: self.data_offset,
            data_size: self.data_size,
            synonym_words: views(self.synonym_words@),
        }
    }
}

impl SortItem for IdxEntry {
    open spec fn sp_le(a: IdxEntryView, b: IdxEntryView) -> bool {
        sp_glib_le(a.word, b.word)
    }

    fn le(&self, other: &Self) -> (r: bool) {
        match g_ascii_strcasecmp(self.word.as_str(), other.word.as_str()) {
            core::cmp::Ordering::Greater => false,
            _ => true,
        }
    }
}

/// The per-record strings a group fragment is assembled from, in the order
/// the record sorts within its group.
pub struct RenderedWord {
    pub sort_key: String,
    pub id: String,
    pub toc: String,
    pub data: String,
}

#[verifier::ext_equal]
pub ghost struct RenderedWordView {
    pub sort_key: Seq<char>,
    pub id: Seq<char>,
    pub toc: Seq<char>,
    pub data: Seq<char>,
}

impl View for RenderedWord {
    type V = RenderedWordView;

    open spec fn view(&self) -> RenderedWordView {
        RenderedWordView {
            sort_key: self.sort_key@,
            id: self.id@,
            toc: self.toc@,
            data: self.data@,
        }
    }
}

impl SortItem for RenderedWord {
    open spec fn sp_le(a: RenderedWordView, b: RenderedWordView) -> bool {
        sp_str_le(a.sort_key, b.sort_key)
    }

    fn le(&self, other: &Self) -> (r: bool) {
        match str_cmp(self.sort_key.as_str(), other.sort_key.as_str()) {
            core::cmp::Ordering::Greater => false,
            _ => true,
        }
    }
}

/// The configuration fields the StarDict pipeline reads.
#[verifier::ext_equal]
pub ghost struct StarDictConfig {
    pub name: Seq<char>,
    pub short_name: Seq<char>,
    pub accent_color: Seq<char>,
    pub author: Seq<char>,
    pub description: Seq<char>,
    pub time_stamp: Seq<char>,
    pub feedback_form_url: Seq<char>,
    pub host_url: Seq<char>,
    pub host_version: Seq<char>,
    pub icon: Seq<u8>,
}

impl<'a> DictionaryInfo<'a> {
    /// What the StarDict pipeline reads of the configuration; the links
    /// color doubles as the accent color of rendered fragments.
    pub open spec fn sp_stardict_config(&self) -> StarDictConfig {
        StarDictConfig {
            name: self.name@,
            short_name: self.short_name@,
            accent_color: self.links_color@,
            author: self.author@,
            description: self.description@,
            time_stamp: self.time_stamp@,
            feedback_form_url: self.feedback_form_url@,
            host_url: self.host_url@,
            host_version: self.host_version@,
            icon: self.icon@,
        }
    }
}

pub open spec fn sp_word_group_template() -> Seq<char> {
    "<div class=\"word_group {{ods_type}}\"><ul class=\"word_group_toc\">{% for t in toc_entries %}{{t}}{% endfor %}</ul><div class=\"word_group_body\" style=\"--accent: {{accent_color}}\">{% for d in descriptions %}{{d}}{% endfor %}</div></div>"@
}

fn word_group_template() -> (r: &'static str)
    ensures
        r@ == sp_word_group_template(),
{
    "<div class=\"word_group {{ods_type}}\"><ul class=\"word_group_toc\">{% for t in toc_entries %}{{t}}{% endfor %}</ul><div class=\"word_group_body\" style=\"--accent: {{accent_color}}\">{% for d in descriptions %}{{d}}{% endfor %}</div></div>"
}

pub open spec fn sp_unwrap_or_err(r: Result<Seq<char>, Seq<char>>) -> Seq<char> {
    match r {
        Ok(s) => s,
        Err(e) => e,
    }
}

/// The strings one record contributes to its group fragment: a failed
/// fragment render degrades to its error text, visibly, never fatally.
pub open spec fn sp_rendered_word<T: StarDictPaliWord, I: InflectionGenerator>(
    w: T,
    cfg: StarDictConfig,
    igen: I,
) -> RenderedWordView {
    RenderedWordView {
        sort_key: w.sp_sort_key(),
        id: w.sp_id(),
        toc: sp_unwrap_or_err(w.sp_toc_entry(cfg.short_name)),
        data: sp_unwrap_or_err(
            w.sp_word_data(
                cfg.short_name,
                cfg.feedback_form_url,
                cfg.host_url,
                cfg.host_version,
                igen.sp_table_html(w.sp_id()),
            ),
        ),
    }
}

/// One group's headwords (in sorted order) and its rendered HTML fragment:
/// the members sort stably by sort key, their toc fragments and detail
/// fragments are concatenated by the group template.
pub open spec fn sp_group_render<T: StarDictPaliWord, I: InflectionGenerator>(
    cfg: StarDictConfig,
    run: Seq<T>,
    igen: I,
) -> Result<(Seq<Seq<char>>, Seq<char>), Seq<char>> {
    let sorted = stable_sort(
        run.map_values(|w: T| sp_rendered_word(w, cfg, igen)),
        le_fn::<RenderedWord>(),
    );
    let ids = sorted.map_values(|rw: RenderedWordView| rw.id);
    let tocs = sorted.map_values(|rw: RenderedWordView| rw.toc);
    let descs = sorted.map_values(|rw: RenderedWordView| rw.data);
    match rendered(
        sp_word_group_template(),
        seq!["ods_type"@, "accent_color"@],
        seq![cfg.short_name, cfg.accent_color],
        seq!["toc_entries"@, "descriptions"@],
        seq![tocs, descs],
    ) {
        Ok(html) => Ok((ids, html)),
        Err(e) => Err(e),
    }
}

/// Renders one word group: its records sorted stably by sort key, each
/// record's fragments computed (errors degrade to their text), and the
/// group template applied to the collected fragments.
pub fn get_ids_and_html_for_word_group<T: StarDictPaliWord, I: InflectionGenerator>(
    dict_info: &DictionaryInfo,
    words: &Vec<T>,
    igen: &I,
) -> (r: Result<(Vec<String>, String), String>)
    ensures
        match r {
            Ok(p) => sp_group_render(dict_info.sp_stardict_config(), words@, *igen) == Result::<
                (Seq<Seq<char>>, Seq<char>),
                Seq<char>,
            >::Ok((views(p.0@), p.1@)),
            Err(e) => sp_group_render(dict_info.sp_stardict_config(), words@, *igen) == Result::<
                (Seq<Seq<char>>, Seq<char>),
                Seq<char>,
            >::Err(e@),
        },
{
    let ghost cfg = dict_info.sp_stardict_config();
    let mut word_info: Vec<RenderedWord> = Vec::new();
    let n: usize = words.len();
    let mut i: usize = 0;
    while i < n
        invariant
            0 <= i <= n,
            n == words@.len(),
            cfg == dict_info.sp_stardict_config(),
            views(word_info@) =~= words@.take(i as int).map_values(
                |w: T| sp_rendered_word(w, cfg, *igen),
            ),
        decreases n - i,
    {
        let w = &words[i];
        let sort_key = w.sort_key();
        let id = w.id().to_owned();
        let toc = match w.toc_entry(dict_info.short_name) {
            Ok(t) => t,
            Err(e) => e,
        };
        let data = match w.word_data_entry(
            dict_info.short_name,
            dict_info.feedback_form_url,
            dict_info.host_url,
            dict_info.host_version,
            igen,
        ) {
            Ok(t) => t,
            Err(e) => e,
        };
        let rw = RenderedWord { sort_key, id, toc, data };
        proof {
            assert(rw@ == sp_rendered_word(words@[i as int], cfg, *igen));
        }
        word_info.push(rw);
        proof {
            assert(views(word_info@) =~= words@.take(i + 1).map_values(
                |w: T| sp_rendered_word(w, cfg, *igen),
            ));
        }
        i = i + 1;
    }
    proof {
        assert(words@.take(n as int) =~= words@);
    }
    let sorted = sort_items(word_info);
    let ghost sorted_views = stable_sort(
        words@.map_values(|w: T| sp_rendered_word(w, cfg, *igen)),
        le_fn::<RenderedWord>(),
    );
    let mut ids: Vec<String> = Vec::new();
    let mut toc_entries: Vec<String> = Vec::new();
    let mut descriptions: Vec<String> = Vec::new();
    let m: usize = sorted.len();
    let mut j: usize = 0;
    while j < m
        invariant
            0 <= j <= m,
            m == sorted@.len(),
            views(sorted@) == sorted_views,
            views(ids@) =~= sorted_views.take(j as int).map_values(
                |rw: RenderedWordView| rw.id,
            ),
            views(toc_entries@) =~= sorted_views.take(j as int).map_values(
                |rw: RenderedWordView| rw.toc,
            ),
            views(descriptions@) =~= sorted_views.take(j as int).map_values(
                |rw: RenderedWordView| rw.data,
            ),
        decreases m - j,
    {
        proof {
            assert(views(sorted@)[j as int] == sorted@[j as int]@);
        }
        ids.push(sorted[j].id.clone());
        toc_entries.push(sorted[j].toc.clone());
        descriptions.push(sorted[j].data.clone());
        proof {
            assert(views(ids@) =~= sorted_views.take(j + 1).map_values(
                |rw: RenderedWordView| rw.id,
            ));
            assert(views(toc_entries@) =~= sorted_views.take(j + 1).map_values(
                |rw: RenderedWordView| rw.toc,
            ));
            assert(views(descriptions@) =~= sorted_views.take(j + 1).map_values(
                |rw: RenderedWordView| rw.data,
            ));
        }
        j = j + 1;
    }
    proof {
        assert(sorted_views.take(m as int) =~= sorted_views);
    }
    let mut str_keys: Vec<String> = Vec::new();
    str_keys.push("ods_type".to_owned());
    str_keys.push("accent_color".to_owned());
    let mut str_vals: Vec<String> = Vec::new();
    str_vals.push(dict_info.short_name.to_owned());
    str_vals.push(dict_info.links_color.to_owned());
    let mut list_keys: Vec<String> = Vec::new();
    list_keys.push("toc_entries".to_owned());
    list_keys.push("descriptions".to_owned());
    let ghost tocs_v = views(toc_entries@);
    let ghost descs_v = views(descriptions@);
    let mut list_vals: Vec<Vec<String>> = Vec::new();
    list_vals.push(toc_entries);
    list_vals.push(descriptions);
    proof {
        assert(list_vals@[0].deep_view() =~= tocs_v);
        assert(list_vals@[1].deep_view() =~= descs_v);
        assert(str_keys.deep_view() =~= seq!["ods_type"@, "accent_color"@]);
        assert(str_vals.deep_view() =~= seq![cfg.short_name, cfg.accent_color]);
        assert(list_keys.deep_view() =~= seq!["toc_entries"@, "descriptions"@]);
        assert(list_vals.deep_view() =~= seq![
            sorted_views.map_values(|rw: RenderedWordView| rw.toc),
            sorted_views.map_values(|rw: RenderedWordView| rw.data),
        ]);
    }
    match render_template(word_group_template(), &str_keys, &str_vals, &list_keys, &list_vals) {
        Ok(html) => {
            proof {
                assert(views(ids@) =~= sorted_views.map_values(|rw: RenderedWordView| rw.id));
            }
            Ok((ids, html))
        },
        Err(e) => Err(e),
    }
}

/// All inflected forms the generator yields for the given headwords, in
/// headword order.
pub open spec fn sp_syn_of<I: InflectionGenerator>(igen: I, ids: Seq<Seq<char>>) -> Seq<Seq<char>>
    decreases ids.len(),
{
    if ids.len() == 0 {
        Seq::empty()
    } else {
        sp_syn_of(igen, ids.drop_last()) + igen.sp_inflections(ids.last())
    }
}

/// The message rejecting a run whose body buffer outgrows 32-bit offsets.
pub open spec fn sp_size_overflow_msg() -> Seq<char> {
    "The dictionary body exceeds the supported size."@
}

/// Assembles the runs from `off` onwards: each run's fragment is appended to
/// the body and indexed at the cumulative offset; the first failing render,
/// or the offset outgrowing 32 bits, aborts with that error.
pub open spec fn sp_assemble<T: StarDictPaliWord, I: InflectionGenerator>(
    cfg: StarDictConfig,
    igen: I,
    runs: Seq<Seq<T>>,
    off: int,
) -> Result<(Seq<u8>, Seq<IdxEntryView>), Seq<char>>
    decreases runs.len(),
{
    if runs.len() == 0 {
        Ok((Seq::empty(), Seq::empty()))
    } else {
        match sp_group_render(cfg, runs[0], igen) {
            Err(e) => Err(e),
            Ok(p) => {
                let bytes = vstd::utf8::encode_utf8(p.1);
                if off + bytes.len() > 0xffff_ffff {
                    Err(sp_size_overflow_msg())
                } else {
                    let entry = IdxEntryView {
                        word: runs[0][0].sp_group_id(),
                        data_offset: off as u32,
                        data_size: bytes.len() as u32,
                        synonym_words: sp_syn_of(igen, p.0),
                    };
                    match sp_assemble(cfg, igen, runs.drop_first(), off + bytes.len()) {
                        Err(e) => Err(e),
                        Ok(q) => Ok((bytes + q.0, seq![entry] + q.1)),
                    }
                }
            },
        }
    }
}

/// The body buffer and index entries assembled from a record stream: the
/// stream partitioned into adjacent runs by group key, each run rendered,
/// its fragment's bytes appended, and one entry per run recording the
/// cumulative offset, the byte length, and the synonym candidates.
pub open spec fn sp_create_dict<T: StarDictPaliWord, I: InflectionGenerator>(
    cfg: StarDictConfig,
    igen: I,
    words: Seq<T>,
) -> Result<(Seq<u8>, Seq<IdxEntryView>), Seq<char>> {
    sp_assemble(cfg, igen, crate::grouping::group_runs(words), 0)
}

pub proof fn lemma_sp_assemble_ok_len<T: StarDictPaliWord, I: InflectionGenerator>(
    cfg: StarDictConfig,
    igen: I,
    runs: Seq<Seq<T>>,
    off: int,
)
    ensures
        sp_assemble(cfg, igen, runs, off) matches Ok(q) ==> q.1.len() == runs.len(),
    decreases runs.len(),
{
    if runs.len() > 0 {
        lemma_sp_assemble_ok_len(cfg, igen, runs.drop_first(), off + vstd::utf8::encode_utf8(
            match sp_group_render(cfg, runs[0], igen) {
                Ok(p) => p.1,
                Err(e) => e,
            },
        ).len());
    }
}

/// Builds the body buffer and the index entries from the record stream, in
/// stream order: the fragments' bytes concatenated, one entry per word group
/// holding the group key, the cumulative byte offset, the byte length, and
/// every inflected form of the group's headwords as synonym candidates.
pub fn create_dict<T: StarDictPaliWord, I: InflectionGenerator>(
    dict_info: &DictionaryInfo,
    words: Vec<T>,
    igen: &I,
) -> (r: Result<(Vec<u8>, Vec<IdxEntry>), String>)
    ensures
        match r {
            Ok(p) => sp_create_dict(dict_info.sp_stardict_config(), *igen, words@) == Result::<
                (Seq<u8>, Seq<IdxEntryView>),
                Seq<char>,
            >::Ok((p.0@, views(p.1@))),
            Err(e) => sp_create_dict(dict_info.sp_stardict_config(), *igen, words@) == Result::<
                (Seq<u8>, Seq<IdxEntryView>),
                Seq<char>,
            >::Err(e@),
        },
{
    let ghost cfg = dict_info.sp_stardict_config();
    let ghost all = words@;
    let groups = crate::grouping::split_groups(words);
    let ghost rv = crate::grouping::run_views(groups@);
    proof {
        crate::grouping::lemma_group_runs(all);
        assert(rv.skip(0) =~= rv);
    }
    let mut dict_buffer: Vec<u8> = Vec::new();
    let mut idx_words: Vec<IdxEntry> = Vec::new();
    let mut off: u32 = 0;
    let n: usize = groups.len();
    let mut gi: usize = 0;
    while gi < n
        invariant
            0 <= gi <= n,
            n == groups@.len(),
            cfg == dict_info.sp_stardict_config(),
            all == words@,
            rv == crate::grouping::run_views(groups@),
            rv == crate::grouping::group_runs(all),
            forall|k: int| 0 <= k < rv.len() ==> (#[trigger] rv[k]).len() >= 1,
            match sp_assemble(cfg, *igen, rv.skip(gi as int), off as int) {
                Ok(q) => sp_create_dict(cfg, *igen, all) == Result::<
                    (Seq<u8>, Seq<IdxEntryView>),
                    Seq<char>,
                >::Ok((dict_buffer@ + q.0, views(idx_words@) + q.1)),
                Err(e) => sp_create_dict(cfg, *igen, all) == Result::<
                    (Seq<u8>, Seq<IdxEntryView>),
                    Seq<char>,
                >::Err(e),
            },
        decreases n - gi,
    {
        let group = &groups[gi];
        proof {
            assert(group@ == rv[gi as int]);
            assert(rv.skip(gi as int)[0] == rv[gi as int]);
            assert(rv.skip(gi as int).drop_first() =~= rv.skip(gi + 1));
        }
        let (ids, html) = match get_ids_and_html_for_word_group(dict_info, group, igen) {
            Ok(p) => p,
            Err(e) => {
                proof {
                    assert(sp_assemble(cfg, *igen, rv.skip(gi as int), off as int) == Result::<
                        (Seq<u8>, Seq<IdxEntryView>),
                        Seq<char>,
                    >::Err(e@));
                }
                return Err(e);
            },
        };
        let mut synonym_words: Vec<String> = Vec::new();
        let m: usize = ids.len();
        let mut j: usize = 0;
        proof {
            assert(views(ids@).take(0) =~= Seq::<Seq<char>>::empty());
        }
        while j < m
            invariant
                0 <= j <= m,
                m == ids@.len(),
                views(synonym_words@) == sp_syn_of(*igen, views(ids@).take(j as int)),
            decreases m - j,
        {
            let mut infl = igen.generate_all_inflections(ids[j].as_str());
            proof {
                assert(views(ids@).take(j + 1).drop_last() =~= views(ids@).take(j as int));
                assert(views(ids@).take(j + 1).last() == views(ids@)[j as int]);
            }
            synonym_words.append(&mut infl);
            j = j + 1;
        }
        proof {
            assert(views(ids@).take(m as int) =~= views(ids@));
        }
        let html_bytes = html.as_str().as_bytes_vec();
        if html_bytes.len() > (u32::MAX - off) as usize {
            proof {
                reveal_strlit("The dictionary body exceeds the supported size.");
                assert(off as int + vstd::utf8::encode_utf8(html@).len() > 0xffff_ffff);
                assert(sp_assemble(cfg, *igen, rv.skip(gi as int), off as int) == Result::<
                    (Seq<u8>, Seq<IdxEntryView>),
                    Seq<char>,
                >::Err(sp_size_overflow_msg()));
            }
            return Err("The dictionary body exceeds the supported size.".to_owned());
        }
        let size: u32 = html_bytes.len() as u32;
        let key = {
            let first = &group[0];
            first.group_id()
        };
        let entry = IdxEntry {
            word: key,
            data_offset: off,
            data_size: size,
            synonym_words,
        };
        let ghost entry_v = entry@;
        let ghost q_bytes = vstd::utf8::encode_utf8(html@);
        proof {
            assert(html_bytes@ == q_bytes);
            assert(entry_v == IdxEntryView {
                word: rv[gi as int][0].sp_group_id(),
                data_offset: off,
                data_size: q_bytes.len() as u32,
                synonym_words: sp_syn_of(*igen, views(ids@)),
            });
        }
        let ghost idx_pre = idx_words@;
        let ghost buf_pre = dict_buffer@;
        idx_words.push(entry);
        let mut hb = html_bytes;
        dict_buffer.append(&mut hb);
        proof {
            assert(off as int + q_bytes.len() <= 0xffff_ffff);
            assert(sp_group_render(cfg, rv.skip(gi as int)[0], *igen) == Result::<
                (Seq<Seq<char>>, Seq<char>),
                Seq<char>,
            >::Ok((views(ids@), html@)));
            match sp_assemble(cfg, *igen, rv.skip(gi + 1), off as int + q_bytes.len()) {
                Ok(q2) => {
                    assert(sp_assemble(cfg, *igen, rv.skip(gi as int), off as int) == Result::<
                        (Seq<u8>, Seq<IdxEntryView>),
                        Seq<char>,
                    >::Ok((q_bytes + q2.0, seq![entry_v] + q2.1)));
                    assert(sp_create_dict(cfg, *igen, all) == Result::<
                        (Seq<u8>, Seq<IdxEntryView>),
                        Seq<char>,
                    >::Ok((buf_pre + (q_bytes + q2.0), views(idx_pre) + (seq![entry_v] + q2.1))));
                    assert(buf_pre + (q_bytes + q2.0) =~= dict_buffer@ + q2.0);
                    assert(views(idx_words@) =~= views(idx_pre).push(entry_v));
                    assert(views(idx_pre) + (seq![entry_v] + q2.1) =~= views(idx_words@) + q2.1);
                },
                Err(e2) => {
                    assert(sp_assemble(cfg, *igen, rv.skip(gi as int), off as int) == Result::<
                        (Seq<u8>, Seq<IdxEntryView>),
                        Seq<char>,
                    >::Err(e2));
                    assert(sp_create_dict(cfg, *igen, all) == Result::<
                        (Seq<u8>, Seq<IdxEntryView>),
                        Seq<char>,
                    >::Err(e2));
                },
            }
        }
        off = off + size;
        gi = gi + 1;
    }
    proof {
        assert(rv.skip(n as int) =~= Seq::<Seq<T>>::empty());
        assert(dict_buffer@ + Seq::<u8>::empty() =~= dict_buffer@);
        assert(views(idx_words@) + Seq::<IdxEntryView>::empty() =~= views(idx_words@));
    }
    Ok((dict_buffer, idx_words))
}

/// The four bytes of `n`, big end first.
pub open spec fn sp_be32(n: u32) -> Seq<u8> {
    seq![
        ((n >> 24) & 0xff) as u8,
        ((n >> 16) & 0xff) as u8,
        ((n >> 8) & 0xff) as u8,
        (n & 0xff) as u8,
    ]
}

/// Appends the four big-endian bytes of `n`.
fn push_be32(acc: &mut Vec<u8>, n: u32)
    ensures
        final(acc)@ == old(acc)@ + sp_be32(n),
{
    proof {
        assert((n >> 24) & 0xff < 256 && (n >> 16) & 0xff < 256 && (n >> 8) & 0xff < 256 && n
            & 0xff < 256) by (bit_vector);
    }
    acc.push(((n >> 24) & 0xff) as u8);
    acc.push(((n >> 16) & 0xff) as u8);
    acc.push(((n >> 8) & 0xff) as u8);
    acc.push((n & 0xff) as u8);
    proof {
        assert(acc@ =~= old(acc)@ + sp_be32(n));
    }
}

/// One index record: the word's UTF-8 bytes, one NUL byte, then the offset
/// and the size, each as four big-endian bytes.
pub open spec fn sp_idx_entry_bytes(e: IdxEntryView) -> Seq<u8> {
    vstd::utf8::encode_utf8(e.word) + seq![0u8] + sp_be32(e.data_offset) + sp_be32(e.data_size)
}

/// The index file: the records' encodings concatenated with no separators.
pub open spec fn sp_idx_bytes(entries: Seq<IdxEntryView>) -> Seq<u8>
    decreases entries.len(),
{
    if entries.len() == 0 {
        Seq::empty()
    } else {
        sp_idx_bytes(entries.drop_last()) + sp_idx_entry_bytes(entries.last())
    }
}

/// Encodes the index entries, in the order given, as the index file's bytes.
pub fn create_idx(idx_entries: &Vec<IdxEntry>) -> (idx: Vec<u8>)
    ensures
        idx@ == sp_idx_bytes(views(idx_entries@)),
{
    let ghost ev = views(idx_entries@);
    let mut idx: Vec<u8> = Vec::new();
    let n: usize = idx_entries.len();
    let mut i: usize = 0;
    proof {
        assert(ev.take(0) =~= Seq::<IdxEntryView>::empty());
    }
    while i < n
        invariant
            0 <= i <= n,
            n == idx_entries@.len(),
            ev == views(idx_entries@),
            idx@ == sp_idx_bytes(ev.take(i as int)),
        decreases n - i,
    {
        let e = &idx_entries[i];
        let mut wb = e.word.as_str().as_bytes_vec();
        idx.append(&mut wb);
        idx.push(0u8);
        push_be32(&mut idx, e.data_offset);
        push_be32(&mut idx, e.data_size);
        proof {
            assert(ev.take(i + 1).drop_last() =~= ev.take(i as int));
            assert(ev.take(i + 1).last() == ev[i as int]);
            assert(idx@ =~= sp_idx_bytes(ev.take(i as int)) + sp_idx_entry_bytes(ev[i as int]));
        }
        i = i + 1;
    }
    proof {
        assert(ev.take(n as int) =~= ev);
    }
    idx
}

/// One synonym record: a synonym word and the position, in the sorted index,
/// of the entry it resolves to.
pub struct SynEntry {
    pub synonym_word: String,
    pub original_word_index: u32,
}

#[verifier::ext_equal]
pub ghost struct SynEntryView {
    pub synonym_word: Seq<char>,
    pub original_word_index: u32,
}

impl View for SynEntry {
    type V = SynEntryView;

    open spec fn view(&self) -> SynEntryView {
        SynEntryView {
            synonym_word: self.synonym_word@,
            original_word_index: self.original_word_index,
        }
    }
}

impl SortItem for SynEntry {
    open spec fn sp_le(a: SynEntryView, b: SynEntryView) -> bool {
        sp_glib_le(a.synonym_word, b.synonym_word)
    }

    fn le(&self, other: &Self) -> (r: bool) {
        match g_ascii_strcasecmp(self.synonym_word.as_str(), other.synonym_word.as_str()) {
            core::cmp::Ordering::Greater => false,
            _ => true,
        }
    }
}

/// The synonym records of one index entry, all referring to position `n`.
pub open spec fn sp_entry_pairs(ws: Seq<Seq<char>>, n: u32) -> Seq<SynEntryView>
    decreases ws.len(),
{
    if ws.len() == 0 {
        Seq::empty()
    } else {
        sp_entry_pairs(ws.drop_last(), n).push(
            SynEntryView { synonym_word: ws.last(), original_word_index: n },
        )
    }
}

/// Every (synonym word, entry position) pair of the index, in index order.
pub open spec fn sp_syn_pairs(entries: Seq<IdxEntryView>) -> Seq<SynEntryView>
    decreases entries.len(),
{
    if entries.len() == 0 {
        Seq::empty()
    } else {
        sp_syn_pairs(entries.drop_last()) + sp_entry_pairs(
            entries.last().synonym_words,
            (entries.len() - 1) as u32,
        )
    }
}

/// One synonym record's bytes: the word's UTF-8 bytes, one NUL byte, then
/// the entry position as four big-endian bytes.
pub open spec fn sp_syn_entry_bytes(p: SynEntryView) -> Seq<u8> {
    vstd::utf8::encode_utf8(p.synonym_word) + seq![0u8] + sp_be32(p.original_word_index)
}

pub open spec fn sp_syn_pair_list_bytes(pairs: Seq<SynEntryView>) -> Seq<u8>
    decreases pairs.len(),
{
    if pairs.len() == 0 {
        Seq::empty()
    } else {
        sp_syn_pair_list_bytes(pairs.drop_last()) + sp_syn_entry_bytes(pairs.last())
    }
}

/// The synonym file and its record count: every pair, sorted stably by the
/// collation on its synonym word, then encoded.
pub open spec fn sp_syn_bytes(entries: Seq<IdxEntryView>) -> Seq<u8> {
    sp_syn_pair_list_bytes(stable_sort(sp_syn_pairs(entries), le_fn::<SynEntry>()))
}

/// Flattens every (synonym word, entry position) pair of the given index
/// entries, sorts the pairs by the collation on the synonym word, and
/// encodes them as the synonym file's bytes, returning also the pair count.
pub fn create_syn(idx_entries: &Vec<IdxEntry>) -> (r: (Vec<u8>, usize))
    requires
        idx_entries@.len() <= 0xffff_ffff,
    ensures
        r.0@ == sp_syn_bytes(views(idx_entries@)),
        r.1 == sp_syn_pairs(views(idx_entries@)).len(),
{
    let ghost ev = views(idx_entries@);
    let mut syn_entries: Vec<SynEntry> = Vec::new();
    let n: usize = idx_entries.len();
    let mut i: usize = 0;
    proof {
        assert(ev.take(0) =~= Seq::<IdxEntryView>::empty());
    }
    while i < n
        invariant
            0 <= i <= n,
            n == idx_entries@.len(),
            n <= 0xffff_ffff,
            ev == views(idx_entries@),
            views(syn_entries@) == sp_syn_pairs(ev.take(i as int)),
        decreases n - i,
    {
        let e = &idx_entries[i];
        let ghost ws = ev[i as int].synonym_words;
        let m: usize = e.synonym_words.len();
        let mut j: usize = 0;
        proof {
            assert(ws.take(0) =~= Seq::<Seq<char>>::empty());
            assert(views(syn_entries@) + Seq::<SynEntryView>::empty() =~= views(syn_entries@));
        }
        while j < m
            invariant
                0 <= j <= m,
                0 <= i < n,
                n == idx_entries@.len(),
                n <= 0xffff_ffff,
                ev == views(idx_entries@),
                m == ev[i as int].synonym_words.len(),
                ws == ev[i as int].synonym_words,
                views(syn_entries@) == sp_syn_pairs(ev.take(i as int)) + sp_entry_pairs(
                    ws.take(j as int),
                    i as u32,
                ),
            decreases m - j,
        {
            let se = SynEntry {
                synonym_word: idx_entries[i].synonym_words[j].clone(),
                original_word_index: i as u32,
            };
            proof {
                assert(se@ == SynEntryView {
                    synonym_word: ws[j as int],
                    original_word_index: i as u32,
                });
                assert(ws.take(j + 1).drop_last() =~= ws.take(j as int));
                assert(ws.take(j + 1).last() == ws[j as int]);
            }
            syn_entries.push(se);
            proof {
                assert(views(syn_entries@) =~= sp_syn_pairs(ev.take(i as int)) + sp_entry_pairs(
                    ws.take(j + 1),
                    i as u32,
                ));
            }
            j = j + 1;
        }
        proof {
            assert(ws.take(m as int) =~= ws);
            assert(ev.take(i + 1).drop_last() =~= ev.take(i as int));
            assert(ev.take(i + 1).last() == ev[i as int]);
            assert((ev.take(i + 1).len() - 1) as u32 == i as u32);
        }
        i = i + 1;
    }
    proof {
        assert(ev.take(n as int) =~= ev);
    }
    let syn_count: usize = syn_entries.len();
    let sorted = sort_items(syn_entries);
    let ghost sorted_views = stable_sort(sp_syn_pairs(ev), le_fn::<SynEntry>());
    let mut syn: Vec<u8> = Vec::new();
    let sn: usize = sorted.len();
    let mut k: usize = 0;
    proof {
        assert(sorted_views.take(0) =~= Seq::<SynEntryView>::empty());
    }
    while k < sn
        invariant
            0 <= k <= sn,
            sn == sorted@.len(),
            views(sorted@) == sorted_views,
            syn@ == sp_syn_pair_list_bytes(sorted_views.take(k as int)),
        decreases sn - k,
    {
        let p = &sorted[k];
        let mut wb = p.synonym_word.as_str().as_bytes_vec();
        syn.append(&mut wb);
        syn.push(0u8);
        push_be32(&mut syn, p.original_word_index);
        proof {
            assert(sorted_views.take(k + 1).drop_last() =~= sorted_views.take(k as int));
            assert(sorted_views.take(k + 1).last() == sorted_views[k as int]);
            assert(p@ == sorted_views[k as int]);
            assert(syn@ =~= sp_syn_pair_list_bytes(sorted_views.take(k as int))
                + sp_syn_entry_bytes(sorted_views[k as int]));
        }
        k = k + 1;
    }
    proof {
        assert(sorted_views.take(sn as int) =~= sorted_views);
    }
    (syn, syn_count)
}

pub open spec fn sp_ifo_template() -> Seq<char> {
    "StarDict's dict ifo file\nversion=3.0.0\nbookname={{name}}\nwordcount={{word_count}}\nsynwordcount={{syn_word_count}}\nidxfilesize={{idx_file_size}}\nauthor={{author}}\ndescription={{description}}\ndate={{time_stamp}}\nsametypesequence=h\n"@
}

fn ifo_template() -> (r: &'static str)
    ensures
        r@ == sp_ifo_template(),
{
    "StarDict's dict ifo file\nversion=3.0.0\nbookname={{name}}\nwordcount={{word_count}}\nsynwordcount={{syn_word_count}}\nidxfilesize={{idx_file_size}}\nauthor={{author}}\ndescription={{description}}\ndate={{time_stamp}}\nsametypesequence=h\n"
}

/// The metadata file's text: the counts rendered in decimal alongside the
/// dictionary's name, author, description and timestamp.
pub open spec fn sp_ifo_render(
    cfg: StarDictConfig,
    word_count: nat,
    syn_word_count: nat,
    idx_file_size: nat,
) -> Result<Seq<char>, Seq<char>> {
    rendered(
        sp_ifo_template(),
        seq![
            "name"@,
            "word_count"@,
            "syn_word_count"@,
            "idx_file_size"@,
            "author"@,
            "description"@,
            "time_stamp"@,
        ],
        seq![
            cfg.name,
            crate::strutil::dec_digits(word_count),
            crate::strutil::dec_digits(syn_word_count),
            crate::strutil::dec_digits(idx_file_size),
            cfg.author,
            cfg.description,
            cfg.time_stamp,
        ],
        Seq::empty(),
        Seq::empty(),
    )
}

/// Renders the metadata file carrying the headword count, the synonym count,
/// the index file's byte length, and the dictionary's descriptive fields.
pub fn create_ifo(
    dict_info: &DictionaryInfo,
    word_count: usize,
    syn_word_count: usize,
    idx_file_size: usize,
) -> (r: Result<Vec<u8>, String>)
    ensures
        match r {
            Ok(b) => sp_ifo_render(
                dict_info.sp_stardict_config(),
                word_count as nat,
                syn_word_count as nat,
                idx_file_size as nat,
            ) matches Ok(t) && b@ == vstd::utf8::encode_utf8(t),
            Err(e) => sp_ifo_render(
                dict_info.sp_stardict_config(),
                word_count as nat,
                syn_word_count as nat,
                idx_file_size as nat,
            ) == Result::<Seq<char>, Seq<char>>::Err(e@),
        },
{
    let mut str_keys: Vec<String> = Vec::new();
    str_keys.push("name".to_owned());
    str_keys.push("word_count".to_owned());
    str_keys.push("syn_word_count".to_owned());
    str_keys.push("idx_file_size".to_owned());
    str_keys.push("author".to_owned());
    str_keys.push("description".to_owned());
    str_keys.push("time_stamp".to_owned());
    let mut str_vals: Vec<String> = Vec::new();
    str_vals.push(dict_info.name.to_owned());
    str_vals.push(crate::strutil::to_dec_string(word_count as u64));
    str_vals.push(crate::strutil::to_dec_string(syn_word_count as u64));
    str_vals.push(crate::strutil::to_dec_string(idx_file_size as u64));
    str_vals.push(dict_info.author.to_owned());
    str_vals.push(dict_info.description.to_owned());
    str_vals.push(dict_info.time_stamp.to_owned());
    let list_keys: Vec<String> = Vec::new();
    let list_vals: Vec<Vec<String>> = Vec::new();
    proof {
        assert(str_keys.deep_view() =~= seq![
            "name"@,
            "word_count"@,
            "syn_word_count"@,
            "idx_file_size"@,
            "author"@,
            "description"@,
            "time_stamp"@,
        ]);
        assert(str_vals.deep_view() =~= seq![
            dict_info.name@,
            crate::strutil::dec_digits(word_count as nat),
            crate::strutil::dec_digits(syn_word_count as nat),
            crate::strutil::dec_digits(idx_file_size as nat),
            dict_info.author@,
            dict_info.description@,
            dict_info.time_stamp@,
        ]);
        assert(list_keys.deep_view() =~= Seq::<Seq<char>>::empty());
        assert(list_vals.deep_view() =~= Seq::<Seq<Seq<char>>>::empty());
    }
    match render_template(ifo_template(), &str_keys, &str_vals, &list_keys, &list_vals) {
        Ok(s) => Ok(s.as_str().as_bytes_vec()),
        Err(e) => Err(e),
    }
}

/// Copies the configured icon bytes unchanged.
pub fn create_png(dict_info: &DictionaryInfo) -> (r: Vec<u8>)
    ensures
        r@ == dict_info.icon@,
{
    let mut png: Vec<u8> = Vec::new();
    png.extend_from_slice(dict_info.icon.as_slice());
    proof {
        assert(png@ =~= dict_info.icon@);
    }
    png
}

pub open spec fn sp_file(ext: Seq<char>, data: Seq<u8>, can_be_empty: bool) -> DictionaryFileView {
    DictionaryFileView { extension: ext, bom: Seq::empty(), data, can_be_empty }
}

/// The whole StarDict package as a function of the configuration, the
/// generator and the record stream: the body assembled, the index sorted by
/// the collation, the index, synonym and metadata files encoded around it,
/// and the icon passed through.
pub open spec fn sp_stardict_output<T: StarDictPaliWord, I: InflectionGenerator>(
    cfg: StarDictConfig,
    igen: I,
    words: Seq<T>,
) -> Result<Seq<DictionaryFileView>, Seq<char>> {
    match sp_create_dict(cfg, igen, words) {
        Err(e) => Err(e),
        Ok(p) => {
            let sorted = stable_sort(p.1, le_fn::<IdxEntry>());
            let idx_bytes = sp_idx_bytes(sorted);
            let syn_bytes = sp_syn_bytes(sorted);
            match sp_ifo_render(cfg, sorted.len(), sp_syn_pairs(sorted).len(), idx_bytes.len()) {
                Err(e) => Err(e),
                Ok(t) => Ok(
                    seq![
                        sp_file("idx"@, idx_bytes, false),
                        sp_file("dict"@, p.0, false),
                        sp_file("syn"@, syn_bytes, true),
                        sp_file("ifo"@, vstd::utf8::encode_utf8(t), false),
                        sp_file("png"@, cfg.icon, true),
                    ],
                ),
            }
        },
    }
}

/// Builds the full StarDict package from a record stream: index, body,
/// synonym and metadata files plus the icon passthrough, with the index and
/// synonym files sorted by the case-insensitive collation.
pub fn create_dictionary<T: StarDictPaliWord, I: InflectionGenerator>(
    dict_info: &DictionaryInfo,
    words: Vec<T>,
    igen: &I,
) -> (r: Result<Vec<DictionaryFile>, String>)
    requires
        words@.len() <= 0xffff_ffff,
    ensures
        match r {
            Ok(files) => sp_stardict_output(dict_info.sp_stardict_config(), *igen, words@)
                == Result::<Seq<DictionaryFileView>, Seq<char>>::Ok(views(files@)),
            Err(e) => sp_stardict_output(dict_info.sp_stardict_config(), *igen, words@)
                == Result::<Seq<DictionaryFileView>, Seq<char>>::Err(e@),
        },
{
    let ghost cfg = dict_info.sp_stardict_config();
    let ghost all = words@;
    proof {
        crate::grouping::lemma_group_runs(all);
        lemma_sp_assemble_ok_len(cfg, *igen, crate::grouping::group_runs(all), 0);
    }
    let (dict, idx_entries) = match create_dict(dict_info, words, igen) {
        Ok(p) => p,
        Err(e) => {
            return Err(e);
        },
    };
    let sorted_entries = sort_items(idx_entries);
    proof {
        crate::sorting::lemma_stable_sort_len(
            views(idx_entries@),
            le_fn::<IdxEntry>(),
        );
    }
    let idx = create_idx(&sorted_entries);
    let (syn, syn_count) = create_syn(&sorted_entries);
    let word_count: usize = sorted_entries.len();
    let idx_size: usize = idx.len();
    let ifo = match create_ifo(dict_info, word_count, syn_count, idx_size) {
        Ok(b) => b,
        Err(e) => {
            return Err(e);
        },
    };
    let png = create_png(dict_info);
    let mut files: Vec<DictionaryFile> = Vec::new();
    files.push(
        DictionaryFile {
            extension: "idx".to_owned(),
            bom: Vec::new(),
            data: idx,
            can_be_empty: false,
        },
    );
    files.push(
        DictionaryFile {
            extension: "dict".to_owned(),
            bom: Vec::new(),
            data: dict,
            can_be_empty: false,
        },
    );
    files.push(
        DictionaryFile {
            extension: "syn".to_owned(),
            bom: Vec::new(),
            data: syn,
            can_be_empty: true,
        },
    );
    files.push(
        DictionaryFile {
            extension: "ifo".to_owned(),
            bom: Vec::new(),
            data: ifo,
            can_be_empty: false,
        },
    );
    files.push(
        DictionaryFile {
            extension: "png".to_owned(),
            bom: Vec::new(),
            data: png,
            can_be_empty: true,
        },
    );
    proof {
        assert(views(files@) =~= sp_stardict_output(cfg, *igen, all)->Ok_0);
    }
    Ok(files)
}

/// Position of the first NUL byte, or the length when there is none.
pub open spec fn sp_find_zero(bytes: Seq<u8>) -> nat
    decreases bytes.len(),
{
    if bytes.len() == 0 {
        0
    } else if bytes[0] == 0 {
        0
    } else {
        1 + sp_find_zero(bytes.drop_first())
    }
}

pub proof fn lemma_find_zero(bytes: Seq<u8>)
    ensures
        sp_find_zero(bytes) <= bytes.len(),
        sp_find_zero(bytes) < bytes.len() ==> bytes[sp_find_zero(bytes) as int] == 0,
        forall|j: int| 0 <= j < sp_find_zero(bytes) ==> bytes[j] != 0,
    decreases bytes.len(),
{
    if bytes.len() > 0 && bytes[0] != 0 {
        lemma_find_zero(bytes.drop_first());
        assert(forall|j: int|
            1 <= j < sp_find_zero(bytes) ==> bytes[j] == bytes.drop_first()[j - 1]);
    }
}

proof fn lemma_find_zero_concat(a: Seq<u8>, b: Seq<u8>)
    requires
        forall|j: int| 0 <= j < a.len() ==> a[j] != 0,
    ensures
        sp_find_zero(a + seq![0u8] + b) == a.len(),
    decreases a.len(),
{
    let s = a + seq![0u8] + b;
    if a.len() == 0 {
        assert(s[0] == 0);
    } else {
        assert(s[0] == a[0]);
        assert(s.drop_first() =~= a.drop_first() + seq![0u8] + b);
        assert(forall|j: int| 0 <= j < a.len() - 1 ==> #[trigger] a.drop_first()[j] == a[j + 1]);
        lemma_find_zero_concat(a.drop_first(), b);
    }
}

/// The value read from four big-endian bytes.
pub open spec fn sp_be32_val(b: Seq<u8>) -> u32
    recommends
        b.len() == 4,
{
    ((b[0] as u32) << 24) | ((b[1] as u32) << 16) | ((b[2] as u32) << 8) | (b[3] as u32)
}

pub proof fn lemma_be32_round_trip(n: u32)
    ensures
        sp_be32(n).len() == 4,
        sp_be32_val(sp_be32(n)) == n,
{
    assert(((((n >> 24) & 0xff) as u8 as u32) << 24) | ((((n >> 16) & 0xff) as u8 as u32) << 16)
        | ((((n >> 8) & 0xff) as u8 as u32) << 8) | ((n & 0xff) as u8 as u32) == n)
        by (bit_vector);
}

proof fn lemma_encode_scalar_no_zero(v: u32)
    requires
        vstd::utf8::is_scalar(v),
        v != 0,
    ensures
        forall|j: int|
            0 <= j < vstd::utf8::encode_scalar(v).len() ==> vstd::utf8::encode_scalar(v)[j] != 0,
{
    if vstd::utf8::has_width_1_encoding(v) {
        assert(v < 0x80 && v != 0 ==> (v & 0x7F) as u8 != 0) by (bit_vector);
    } else {
        assert(0xC0 | ((v >> 6) & 0x1F) as u8 != 0) by (bit_vector);
        assert(0xE0 | ((v >> 12) & 0x0F) as u8 != 0) by (bit_vector);
        assert(0xF0 | ((v >> 18) & 0x7) as u8 != 0) by (bit_vector);
        assert(0x80 | (v & 0x3F) as u8 != 0) by (bit_vector);
        assert(0x80 | ((v >> 6) & 0x3F) as u8 != 0) by (bit_vector);
        assert(0x80 | ((v >> 12) & 0x3F) as u8 != 0) by (bit_vector);
    }
}

/// No NUL character in the text means no NUL byte in its UTF-8 encoding.
pub proof fn lemma_encode_no_nul(s: Seq<char>)
    requires
        forall|i: int| 0 <= i < s.len() ==> s[i] != '\0',
    ensures
        forall|j: int|
            0 <= j < vstd::utf8::encode_utf8(s).len() ==> vstd::utf8::encode_utf8(s)[j] != 0,
    decreases s.len(),
{
    if s.len() > 0 {
        vstd::utf8::char_is_scalar(s[0]);
        vstd::utf8::char_u32_cast(s[0], s[0] as u32);
        vstd::utf8::char_u32_cast('\0', '\0' as u32);
        assert('\0' as u32 == 0);
        assert(s[0] as u32 != 0);
        lemma_encode_scalar_no_zero(s[0] as u32);
        lemma_encode_no_nul(s.drop_first());
        let head = vstd::utf8::encode_scalar(s[0] as u32);
        let tail = vstd::utf8::encode_utf8(s.drop_first());
        assert forall|j: int|
            0 <= j < vstd::utf8::encode_utf8(s).len() implies vstd::utf8::encode_utf8(s)[j]
            != 0 by {
            if j < head.len() {
                assert(vstd::utf8::encode_utf8(s)[j] == head[j]);
            } else {
                assert(vstd::utf8::encode_utf8(s)[j] == tail[j - head.len()]);
            }
        }
    }
}

/// Reads an index file back: repeatedly one NUL-terminated word, then the
/// offset and the size, each from four big-endian bytes; trailing or
/// malformed bytes make the whole read fail.
pub open spec fn sp_decode_idx(bytes: Seq<u8>) -> Option<Seq<(Seq<u8>, u32, u32)>>
    decreases bytes.len(),
{
    if bytes.len() == 0 {
        Some(Seq::empty())
    } else {
        let k = sp_find_zero(bytes) as int;
        if k + 9 > bytes.len() {
            None
        } else {
            let entry = (
                bytes.take(k),
                sp_be32_val(bytes.subrange(k + 1, k + 5)),
                sp_be32_val(bytes.subrange(k + 5, k + 9)),
            );
            match sp_decode_idx(bytes.skip(k + 9)) {
                None => None,
                Some(rest) => Some(seq![entry] + rest),
            }
        }
    }
}

proof fn lemma_idx_bytes_prepend(entries: Seq<IdxEntryView>)
    requires
        entries.len() > 0,
    ensures
        sp_idx_bytes(entries) == sp_idx_entry_bytes(entries[0]) + sp_idx_bytes(
            entries.drop_first(),
        ),
    decreases entries.len(),
{
    if entries.len() == 1 {
        assert(entries.drop_last() =~= Seq::<IdxEntryView>::empty());
        assert(entries.drop_first() =~= Seq::<IdxEntryView>::empty());
        assert(sp_idx_bytes(entries) =~= sp_idx_entry_bytes(entries[0]) + sp_idx_bytes(
            entries.drop_first(),
        ));
    } else {
        lemma_idx_bytes_prepend(entries.drop_last());
        assert(entries.drop_first().drop_last() =~= entries.drop_last().drop_first());
        assert(entries.drop_first().last() == entries.last());
        assert(entries.drop_last()[0] == entries[0]);
        assert(sp_idx_bytes(entries) == sp_idx_bytes(entries.drop_last()) + sp_idx_entry_bytes(
            entries.last(),
        ));
        assert(sp_idx_bytes(entries.drop_first()) == sp_idx_bytes(
            entries.drop_first().drop_last(),
        ) + sp_idx_entry_bytes(entries.drop_first().last()));
        assert(sp_idx_bytes(entries) =~= sp_idx_entry_bytes(entries[0]) + sp_idx_bytes(
            entries.drop_first(),
        ));
    }
}

/// No NUL character anywhere in the text.
pub open spec fn sp_no_nul(s: Seq<char>) -> bool {
    forall|j: int| 0 <= j < s.len() ==> s[j] != '\0'
}

/// Law: encoding an index and decoding it again reproduces, entry for
/// entry, the word's UTF-8 bytes and the original offset and size integers,
/// for every entry list whose words hold no NUL character.
#[verifier::rlimit(30)]
pub proof fn lemma_idx_round_trip(entries: Seq<IdxEntryView>)
    requires
        forall|i: int| 0 <= i < entries.len() ==> sp_no_nul(#[trigger] entries[i].word),
    ensures
        sp_decode_idx(sp_idx_bytes(entries)) == Some(
            entries.map_values(
                |e: IdxEntryView| (vstd::utf8::encode_utf8(e.word), e.data_offset, e.data_size),
            ),
        ),
    decreases entries.len(),
{
    let f = |e: IdxEntryView| (vstd::utf8::encode_utf8(e.word), e.data_offset, e.data_size);
    if entries.len() == 0 {
        assert(sp_idx_bytes(entries).len() == 0);
        assert(entries.map_values(f) =~= Seq::<(Seq<u8>, u32, u32)>::empty());
    } else {
        let e0 = entries[0];
        let wb = vstd::utf8::encode_utf8(e0.word);
        let rest = sp_idx_bytes(entries.drop_first());
        let bytes = sp_idx_bytes(entries);
        lemma_idx_bytes_prepend(entries);
        lemma_encode_no_nul(e0.word);
        lemma_be32_round_trip(e0.data_offset);
        lemma_be32_round_trip(e0.data_size);
        assert(bytes =~= wb + seq![0u8] + (sp_be32(e0.data_offset) + sp_be32(e0.data_size)
            + rest));
        lemma_find_zero_concat(wb, sp_be32(e0.data_offset) + sp_be32(e0.data_size) + rest);
        let k = sp_find_zero(bytes) as int;
        assert(k == wb.len());
        assert(bytes.len() == wb.len() + 9 + rest.len());
        assert(bytes.take(k) =~= wb);
        assert(bytes.subrange(k + 1, k + 5) =~= sp_be32(e0.data_offset));
        assert(bytes.subrange(k + 5, k + 9) =~= sp_be32(e0.data_size));
        assert(bytes.skip(k + 9) =~= rest);
        assert(forall|i: int|
            0 <= i < entries.drop_first().len() ==> sp_no_nul(
                #[trigger] entries.drop_first()[i].word,
            ));
        lemma_idx_round_trip(entries.drop_first());
        assert(seq![f(e0)] + entries.drop_first().map_values(f) =~= entries.map_values(f));
    }
}

/// Reads an index file back into (word bytes, offset, size) records; a file
/// not shaped as `create_idx` writes it yields nothing.
pub fn decode_idx(bytes: &Vec<u8>) -> (r: Option<Vec<(Vec<u8>, u32, u32)>>)
    ensures
        match r {
            Some(v) => sp_decode_idx(bytes@) == Some(v.deep_view()),
            None => sp_decode_idx(bytes@) is None,
        },
{
    let n: usize = bytes.len();
    let mut out: Vec<(Vec<u8>, u32, u32)> = Vec::new();
    let mut pos: usize = 0;
    proof {
        assert(bytes@.skip(0) =~= bytes@);
        assert(out.deep_view() =~= Seq::<(Seq<u8>, u32, u32)>::empty());
    }
    while pos < n
        invariant
            0 <= pos <= n,
            n == bytes@.len(),
            match sp_decode_idx(bytes@.skip(pos as int)) {
                Some(rest) => sp_decode_idx(bytes@) == Some(out.deep_view() + rest),
                None => sp_decode_idx(bytes@) is None,
            },
        decreases n - pos,
    {
        let ghost tail = bytes@.skip(pos as int);
        let mut j: usize = pos;
        while j < n && bytes[j] != 0
            invariant
                pos <= j <= n,
                n == bytes@.len(),
                forall|t: int| pos <= t < j ==> bytes@[t] != 0,
            decreases n - j,
        {
            j = j + 1;
        }
        proof {
            lemma_find_zero(tail);
            assert(forall|t: int| 0 <= t < tail.len() ==> tail[t] == bytes@[pos + t]);
        }
        if j == n {
            proof {
                assert(sp_find_zero(tail) == tail.len());
                assert(sp_decode_idx(tail) is None);
            }
            return None;
        }
        proof {
            assert(bytes@[j as int] == 0);
            assert(tail.len() == n - pos);
            assert(tail[j - pos] == 0);
            if sp_find_zero(tail) < j - pos {
                assert(tail[sp_find_zero(tail) as int] == 0);
                assert(bytes@[pos + sp_find_zero(tail)] != 0);
                assert(false);
            }
            assert(sp_find_zero(tail) == j - pos);
        }
        let k: usize = j - pos;
        if n - j < 9 {
            proof {
                assert(sp_decode_idx(tail) is None);
            }
            return None;
        }
        let word = vstd::slice::slice_to_vec(
            vstd::slice::slice_subrange(bytes.as_slice(), pos, j),
        );
        let off: u32 = ((bytes[j + 1] as u32) << 24) | ((bytes[j + 2] as u32) << 16) | ((bytes[j
            + 3] as u32) << 8) | (bytes[j + 4] as u32);
        let size: u32 = ((bytes[j + 5] as u32) << 24) | ((bytes[j + 6] as u32) << 16) | ((bytes[j
            + 7] as u32) << 8) | (bytes[j + 8] as u32);
        let ghost out_pre = out.deep_view();
        proof {
            assert(word@ =~= tail.take(k as int));
            assert(word.deep_view() =~= tail.take(k as int));
            assert(tail.subrange(k + 1, k + 5) =~= bytes@.subrange(j + 1, j + 5));
            assert(tail.subrange(k + 5, k + 9) =~= bytes@.subrange(j + 5, j + 9));
            assert(off == sp_be32_val(tail.subrange(k + 1, k + 5)));
            assert(size == sp_be32_val(tail.subrange(k + 5, k + 9)));
            assert(tail.skip(k + 9) =~= bytes@.skip(j + 9));
        }
        out.push((word, off, size));
        proof {
            assert(out.deep_view() =~~= out_pre.push((tail.take(k as int), off, size)));
            match sp_decode_idx(bytes@.skip(j + 9)) {
                Some(rest2) => {
                    assert(sp_decode_idx(tail) == Some(
                        seq![(tail.take(k as int), off, size)] + rest2,
                    ));
                    assert(out_pre + (seq![(tail.take(k as int), off, size)] + rest2)
                        =~~= out.deep_view() + rest2);
                },
                None => {
                    assert(sp_decode_idx(tail) is None);
                },
            }
        }
        pos = j + 9;
    }
    proof {
        assert(bytes@.skip(pos as int) =~= Seq::<u8>::empty());
        assert(out.deep_view() + Seq::<(Seq<u8>, u32, u32)>::empty() =~= out.deep_view());
    }
    Some(out)
}

/// Law: the persisted index lists its entries in collation order — the
/// stable sort the pipeline applies yields a sequence ordered by the
/// case-insensitive collation, which is total and transitive, so a binary
/// search over the index file is sound.
pub proof fn lemma_index_order(entries: Seq<IdxEntryView>)
    ensures
        crate::sorting::sp_sorted_by(
            stable_sort(entries, le_fn::<IdxEntry>()),
            le_fn::<IdxEntry>(),
        ),
{
    let le = le_fn::<IdxEntry>();
    assert forall|p: IdxEntryView, q: IdxEntryView| #[trigger] le(p, q) || le(q, p) by {
        crate::glib::lemma_glib_le_total(p.word, q.word);
    }
    assert forall|p: IdxEntryView, q: IdxEntryView, r: IdxEntryView|
        #[trigger] le(p, q) && #[trigger] le(q, r) implies le(p, r) by {
        crate::glib::lemma_glib_le_trans(p.word, q.word, r.word);
    }
    crate::sorting::lemma_stable_sort_sorted(entries, le);
}

/// Law (idempotence): the package depends on nothing but the configuration
/// fields the pipeline reads, the record stream, and the generator. Two
/// runs over unchanged input with a fixed timestamp therefore yield
/// byte-identical index, body and synonym files, whatever else (paths,
/// output folder, format selectors, heading color) differs between them.
pub proof fn lemma_stardict_output_deterministic<
    'a,
    'b,
    T: StarDictPaliWord,
    I: InflectionGenerator,
>(di1: &DictionaryInfo<'a>, di2: &DictionaryInfo<'b>, words1: Seq<T>, words2: Seq<T>, igen: &I)
    requires
        di1.name@ == di2.name@,
        di1.short_name@ == di2.short_name@,
        di1.links_color@ == di2.links_color@,
        di1.author@ == di2.author@,
        di1.description@ == di2.description@,
        di1.time_stamp@ == di2.time_stamp@,
        di1.feedback_form_url@ == di2.feedback_form_url@,
        di1.host_url@ == di2.host_url@,
        di1.host_version@ == di2.host_version@,
        di1.icon@ == di2.icon@,
        words1 == words2,
    ensures
        sp_stardict_output(di1.sp_stardict_config(), *igen, words1) == sp_stardict_output(
            di2.sp_stardict_config(),
            *igen,
            words2,
        ),
{
    assert(di1.sp_stardict_config() =~= di2.sp_stardict_config());
}

/// The StarDict package builder for one run's configuration.
pub struct StarDict<'a> {
    pub dict_info: &'a DictionaryInfo<'a>,
}

impl<'a> StarDict<'a> {
    pub fn new(dict_info: &'a DictionaryInfo<'a>) -> (r: StarDict<'a>)
        ensures
            r.dict_info == dict_info,
    {
        StarDict { dict_info }
    }

    /// Builds the package files for the given records.
    pub fn build_files<T: StarDictPaliWord, I: InflectionGenerator>(
        &self,
        words: Vec<T>,
        igen: &I,
    ) -> (r: Result<Vec<DictionaryFile>, String>)
        requires
            words@.len() <= 0xffff_ffff,
        ensures
            match r {
                Ok(files) => sp_stardict_output(self.dict_info.sp_stardict_config(), *igen, words@)
                    == Result::<Seq<DictionaryFileView>, Seq<char>>::Ok(views(files@)),
                Err(e) => sp_stardict_output(self.dict_info.sp_stardict_config(), *igen, words@)
                    == Result::<Seq<DictionaryFileView>, Seq<char>>::Err(e@),
            },
    {
        create_dictionary(self.dict_info, words, igen)
    }
}

} // verus!
