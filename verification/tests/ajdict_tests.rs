use edpdgen::ajdict::{create_dictionary, create_txt_data, AjDictPaliWord};
use edpdgen::input::DpdPaliWord;

fn dpd_word(pali1: &str, pos: &str, in_english: &str) -> DpdPaliWord {
    DpdPaliWord {
        pali1: pali1.to_string(),
        pali2: String::new(),
        fin: String::new(),
        pos: pos.to_string(),
        grammar: String::new(),
        derived_from: String::new(),
        neg: String::new(),
        verb: String::new(),
        trans: String::new(),
        case_detail: String::new(),
        in_english: in_english.to_string(),
        sanskrit: String::new(),
        sanskrit_root: String::new(),
        family: String::new(),
        pali_root: String::new(),
        v: String::new(),
        grp: String::new(),
        sgn: String::new(),
        root_meaning: String::new(),
        base: String::new(),
        construction: String::new(),
        derivative: String::new(),
        suffix: String::new(),
        compound: String::new(),
        compound_construction: String::new(),
        source1: String::new(),
        sutta1: String::new(),
        example1: String::new(),
        source2: String::new(),
        sutta2: String::new(),
        example2: String::new(),
        antonyms: String::new(),
        synonyms: String::new(),
        variant: String::new(),
        commentary: String::new(),
        literal_meaning: String::new(),
        root_in_compound: String::new(),
        notes: String::new(),
        stem: String::new(),
        pattern: String::new(),
        buddhadatta: String::new(),
        cl: String::new(),
    }
}

#[test]
fn create_dict_test() {
    let dict_entries = vec!["a;1;2".to_string(), "b;3;4".to_string()];

    let txt_data = create_txt_data(dict_entries);

    assert_eq!(
        txt_data,
        vec![97, 59, 49, 59, 50, 13, 10, 98, 59, 51, 59, 52, 13, 10]
    );
}

#[test]
fn entry_text_has_no_newlines() {
    let w = dpd_word("pada", "noun", "foot\nof a verse");
    let entry = AjDictPaliWord::word_data_entry(&w).expect("must render");
    assert!(!entry.contains('\n'));
    assert!(!entry.contains('\r'));
    assert!(entry.contains("pada"));
}

#[test]
fn package_has_full_and_concise_files() {
    let words = vec![
        dpd_word("pada", "noun", "foot"),
        dpd_word("pana", "particle", "but"),
    ];

    let files = create_dictionary(words).expect("must build");

    assert_eq!(files.len(), 2);
    assert_eq!(files[0].extension, "dpd.ajd.txt");
    assert_eq!(files[1].extension, "cdpd.ajd.txt");
    assert_eq!(files[0].bom, vec![0xEF, 0xBB, 0xBF]);
    assert_eq!(files[1].bom, vec![0xEF, 0xBB, 0xBF]);
    assert!(!files[0].can_be_empty);
    let text = String::from_utf8(files[0].data.clone()).expect("must be UTF-8");
    assert!(text.contains("pada;noun;foot"));
    assert!(text.ends_with("\r\n"));
}
