//! The template engine behind every rendered fragment. One trusted wrapper
//! makes the call; its result is named by `rendered`, a function of the
//! template text and the named values alone, so every caller's contract is
//! exact up to that name.

use vstd::prelude::*;

verus! {

/// Maps a fallible string result to its view.
pub open spec fn res_view(r: Result<String, String>) -> Result<Seq<char>, Seq<char>> {
    match r {
        Ok(s) => Ok(s@),
        Err(e) => Err(e@),
    }
}

/// The template texts this crate renders. The engine also registers a
/// template function that reads the process environment, so rendering an
/// arbitrary template is not a function of the template and context alone;
/// it is one for these fixed templates, none of which calls any template
/// function.
pub open spec fn sp_known_template(t: Seq<char>) -> bool {
    ||| t == crate::stardict::sp_word_group_template()
    ||| t == crate::stardict::sp_ifo_template()
    ||| t == crate::dpd::sp_dpd_toc_template()
    ||| t == crate::dpd::sp_dpd_data_template()
    ||| t == crate::dpd::sp_ajdict_dpd_template()
    ||| t == crate::dpd::sp_ajdict_dpd_concise_template()
    ||| t == crate::dps::sp_dps_toc_template()
    ||| t == crate::dps::sp_dps_data_template()
}

/// What the template engine yields for one of this crate's templates and a
/// context holding the given named strings and named string lists: either
/// the rendered text or an error message, a function of these arguments
/// alone.
pub uninterp spec fn rendered(
    template: Seq<char>,
    str_keys: Seq<Seq<char>>,
    str_vals: Seq<Seq<char>>,
    list_keys: Seq<Seq<char>>,
    list_vals: Seq<Seq<Seq<char>>>,
) -> Result<Seq<char>, Seq<char>>;

/// Relies on tera::Tera::add_raw_template, tera::Context::insert and
/// tera::Tera::render: rendering one raw template against a context of named
/// plain string and string-list values is deterministic in the template text
/// and those values, provided the template invokes no template function —
/// tera registers `get_env`, which reads the process environment, so this
/// holds only of this crate's fixed templates, which `requires` confines the
/// call to. The error of a failed parse or render is reported as its display
/// text.
#[verifier::external_body]
pub(crate) fn render_template(
    template: &str,
    str_keys: &Vec<String>,
    str_vals: &Vec<String>,
    list_keys: &Vec<String>,
    list_vals: &Vec<Vec<String>>,
) -> (r: Result<String, String>)
    requires
        sp_known_template(template@),
        str_keys.deep_view().len() == str_vals.deep_view().len(),
        list_keys.deep_view().len() == list_vals.deep_view().len(),
    ensures
        res_view(r) == rendered(
            template@,
            str_keys.deep_view(),
            str_vals.deep_view(),
            list_keys.deep_view(),
            list_vals.deep_view(),
        ),
{
    let mut tera = tera::Tera::default();
    if let Err(e) = tera.add_raw_template("item", template) {
        return Err(e.to_string());
    }
    let mut context = tera::Context::new();
    for i in 0..str_keys.len() {
        context.insert(&str_keys[i], &str_vals[i]);
    }
    for i in 0..list_keys.len() {
        context.insert(&list_keys[i], &list_vals[i]);
    }
    tera.render("item", &context).map_err(|e| e.to_string())
}

} // verus!
