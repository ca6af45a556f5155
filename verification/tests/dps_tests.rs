use edpdgen::inflection::NullInflectionGenerator;
use edpdgen::input::DpsPaliWord;
use edpdgen::stardict::StarDictPaliWord;

fn dps_word(pali: &str, in_english: &str) -> DpsPaliWord {
    DpsPaliWord {
        pali: pali.to_string(),
        fin: String::new(),
        pos: "noun".to_string(),
        grammar: String::new(),
        derived_from: String::new(),
        neg: String::new(),
        verb: String::new(),
        trans: String::new(),
        case_detail: String::new(),
        in_english: in_english.to_string(),
        in_russian: String::new(),
        pali_root: String::new(),
        base: String::new(),
        construction: String::new(),
        sanskrit: String::new(),
        sanskrit_root: String::new(),
        commentary: String::new(),
        notes: String::new(),
        source1: String::new(),
        example1: String::new(),
        sutta1: String::new(),
        source2: String::new(),
        example2: String::new(),
        sutta2: String::new(),
        chapter: String::new(),
        test: String::new(),
        variant: String::new(),
    }
}

#[test]
fn dps_keys_follow_headword() {
    let w = dps_word("abala 1", "weak");
    assert_eq!(w.id(), "abala 1");
    assert_eq!(w.sort_key(), "abala 001");
    assert_eq!(w.group_id(), "abala");
    assert_eq!(w.toc_id("dps"), "abala_1_dps");
}

#[test]
fn dps_fragments_render() {
    let w = dps_word("abala", "weak");
    let toc = w.toc_entry("dps").expect("must render");
    assert!(toc.contains("abala"));
    assert!(toc.contains("abala_dps"));
    let igen = NullInflectionGenerator::new();
    let data = w
        .word_data_entry("dps", "fb_url", "host url", "host version", &igen)
        .expect("must render");
    assert!(data.contains("abala"));
    assert!(data.contains("weak"));
    assert!(data.contains("fb_url"));
}
