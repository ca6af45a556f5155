//! The inflection provider: given a headword it yields an HTML inflection
//! table and a list of inflected surface forms. Real providers sit on a
//! linguistic database outside this crate; the null provider yields empty
//! results for every headword.

use crate::sorting::views;
use crate::strutil::str_starts_with;
use vstd::prelude::*;

verus! {

/// A per-headword source of inflection tables and inflected forms. What a
/// generator yields is a function of the generator value and the headword;
/// the two spec functions name those results so that everything downstream
/// of a generator call has an exact contract.
pub trait InflectionGenerator {
    /// The inflection-table HTML this generator yields for a headword.
    spec fn sp_table_html(&self, word: Seq<char>) -> Seq<char>;

    /// The inflected surface forms this generator yields for a headword.
    spec fn sp_inflections(&self, word: Seq<char>) -> Seq<Seq<char>>;

    /// Whether this generator's availability check is known to succeed; a
    /// generator over an outside store promises nothing here.
    spec fn sp_check_succeeds(&self) -> bool;

    /// Checks that the generator's backing store is usable; a failure aborts
    /// the run before any output is produced.
    fn check_inflection_db(&self) -> (r: Result<(), String>)
        ensures
            self.sp_check_succeeds() ==> r is Ok,
    ;

    fn generate_inflection_table_html(&self, pali1: &str) -> (r: String)
        ensures
            r@ == self.sp_table_html(pali1@),
    ;

    fn generate_all_inflections(&self, pali1: &str) -> (r: Vec<String>)
        ensures
            views(r@) == self.sp_inflections(pali1@),
    ;
}

/// A provider for runs without an inflection database: every headword yields
/// an empty table and no inflected forms.
pub struct NullInflectionGenerator {}

impl NullInflectionGenerator {
    pub fn new() -> (r: NullInflectionGenerator)
        ensures
            forall|w: Seq<char>| r.sp_table_html(w) == Seq::<char>::empty(),
            forall|w: Seq<char>| r.sp_inflections(w) == Seq::<Seq<char>>::empty(),
            r.sp_check_succeeds(),
    {
        NullInflectionGenerator {  }
    }
}

impl InflectionGenerator for NullInflectionGenerator {
    open spec fn sp_table_html(&self, word: Seq<char>) -> Seq<char> {
        Seq::empty()
    }

    open spec fn sp_inflections(&self, word: Seq<char>) -> Seq<Seq<char>> {
        Seq::empty()
    }

    open spec fn sp_check_succeeds(&self) -> bool {
        true
    }

    fn check_inflection_db(&self) -> (r: Result<(), String>) {
        Ok(())
    }

    fn generate_inflection_table_html(&self, pali1: &str) -> (r: String) {
        String::new()
    }

    fn generate_all_inflections(&self, pali1: &str) -> (r: Vec<String>) {
        proof {
            assert(views(Seq::<String>::empty()) =~= Seq::<Seq<char>>::empty());
        }
        Vec::new()
    }
}

/// The query result of a version lookup has the expected shape: one table
/// of one row of three cells.
pub open spec fn sp_version_shape_ok(v: Seq<Seq<Seq<Seq<char>>>>) -> bool {
    v.len() == 1 && v[0].len() == 1 && v[0][0].len() == 3
}

/// A usable inflection database: the version row carries a forty-character
/// commit id or names the expected repository.
pub open spec fn sp_version_info_ok(v: Seq<Seq<Seq<Seq<char>>>>) -> bool {
    sp_version_shape_ok(v) && (v[0][0][0].len() == 40 || v[0][0][2]
        == "digitalpalitools/inflection-generator"@)
}

/// The message rejecting an unusable inflection database.
pub open spec fn sp_version_error_msg(v: Seq<Seq<Seq<Seq<char>>>>) -> Seq<char> {
    if !sp_version_shape_ok(v) {
        "Invalid inflection db. Unexpected data in _version table."@
    } else {
        "Invalid inflection db: commit_id: "@ + v[0][0][0] + ", repository: "@ + v[0][0][2] + "."@
    }
}

/// Judges the rows fetched from an inflection database's version table: the
/// database is usable exactly when one table of one three-cell row came
/// back, carrying a forty-character commit id or the expected repository
/// name. An unusable database is fatal to the run.
pub fn validate_inflection_db_version(ver_info: Vec<Vec<Vec<String>>>) -> (r: Result<(), String>)
    ensures
        r is Ok <==> sp_version_info_ok(ver_info.deep_view()),
        r matches Err(e) ==> e@ == sp_version_error_msg(ver_info.deep_view()),
{
    let ghost dv = ver_info.deep_view();
    proof {
        reveal_strlit("Invalid inflection db. Unexpected data in _version table.");
    }
    if ver_info.len() != 1 {
        return Err("Invalid inflection db. Unexpected data in _version table.".to_owned());
    }
    let table = &ver_info[0];
    proof {
        assert(dv[0] =~= table.deep_view());
    }
    if table.len() != 1 {
        return Err("Invalid inflection db. Unexpected data in _version table.".to_owned());
    }
    let row = &table[0];
    proof {
        assert(dv[0][0] =~= row.deep_view());
    }
    if row.len() != 3 {
        return Err("Invalid inflection db. Unexpected data in _version table.".to_owned());
    }
    proof {
        assert(sp_version_shape_ok(dv));
        assert(dv[0][0][0] =~= row@[0]@);
        assert(dv[0][0][2] =~= row@[2]@);
    }
    let commit_id = &row[0];
    let repository = &row[2];
    let expected_repository: String = "digitalpalitools/inflection-generator".to_owned();
    if commit_id.as_str().unicode_len() == 40 || *repository == expected_repository {
        Ok(())
    } else {
        proof {
            reveal_strlit("Invalid inflection db: commit_id: ");
            reveal_strlit(", repository: ");
            reveal_strlit(".");
        }
        let mut msg: String = "Invalid inflection db: commit_id: ".to_owned();
        msg.append(commit_id.as_str());
        msg.append(", repository: ");
        msg.append(repository.as_str());
        msg.append(".");
        proof {
            assert(msg@ =~= sp_version_error_msg(dv));
        }
        Err(msg)
    }
}

/// A headword is excluded from inflection processing when a non-empty
/// allow-list prefix is configured and the headword does not start with it.
pub fn is_black_listed_word(allowed_prefix: &str, pali1: &str) -> (r: bool)
    ensures
        r == (allowed_prefix@.len() > 0 && !(allowed_prefix@.len() <= pali1@.len()
            && pali1@.take(allowed_prefix@.len() as int) == allowed_prefix@)),
{
    !allowed_prefix.is_empty() && !str_starts_with(pali1, allowed_prefix)
}

} // verus!
