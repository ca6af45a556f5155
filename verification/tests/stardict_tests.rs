use edpdgen::inflection::{is_black_listed_word, InflectionGenerator, NullInflectionGenerator};
use edpdgen::input::{DpdPaliWord, InputFormat};
use edpdgen::output::OutputFormat;
use edpdgen::stardict::{
    create_dict, create_dictionary, create_idx, create_ifo, create_syn, decode_idx,
    get_ids_and_html_for_word_group, IdxEntry, StarDict,
};
use edpdgen::{validate_dictionary_files, DictionaryFile, DictionaryInfo};

fn dpd_word(pali1: &str, in_english: &str) -> DpdPaliWord {
    DpdPaliWord {
        pali1: pali1.to_string(),
        pali2: String::new(),
        fin: String::new(),
        pos: "noun".to_string(),
        grammar: "nt".to_string(),
        derived_from: String::new(),
        neg: String::new(),
        verb: String::new(),
        trans: String::new(),
        case_detail: String::new(),
        in_english: in_english.to_string(),
        sanskrit: String::new(),
        sanskrit_root: String::new(),
        family: String::new(),
        pali_root: String::new(),
        v: String::new(),
        grp: String::new(),
        sgn: String::new(),
        root_meaning: String::new(),
        base: String::new(),
        construction: String::new(),
        derivative: String::new(),
        suffix: String::new(),
        compound: String::new(),
        compound_construction: String::new(),
        source1: String::new(),
        sutta1: String::new(),
        example1: String::new(),
        source2: String::new(),
        sutta2: String::new(),
        example2: String::new(),
        antonyms: String::new(),
        synonyms: String::new(),
        variant: String::new(),
        commentary: String::new(),
        literal_meaning: String::new(),
        root_in_compound: String::new(),
        notes: String::new(),
        stem: String::new(),
        pattern: String::new(),
        buddhadatta: String::new(),
        cl: String::new(),
    }
}

fn create_dict_info<'a>() -> DictionaryInfo<'a> {
    DictionaryInfo {
        name: "Digital Pāli Tools Dictionary (DPD)",
        input_data_path: "words.csv",
        input_format: InputFormat::Dpd,
        output_format: OutputFormat::StarDict,
        output_folder: "dicts",
        short_name: "dpd",
        author: "Digital Pāli Tools <digitalpalitools@gmail.com>",
        description: "The next generation comprehensive digital Pāli dictionary.",
        links_color: "orange",
        headings_color: "green",
        time_stamp: "xxxx",
        icon_path: None,
        icon: vec![1u8, 2, 3],
        feedback_form_url: "http://feedback.form/???",
        host_url: "this is the host",
        host_version: "host version",
        inflections_db_path: None,
    }
}

#[test]
fn create_idx_test() {
    let idx_entries = vec![
        IdxEntry {
            word: "a".to_string(),
            data_offset: 1,
            data_size: 2,
            synonym_words: vec!["a1".to_string(), "a2".to_string()],
        },
        IdxEntry {
            word: "bc".to_string(),
            data_offset: 0x01000100,
            data_size: 0x00020002,
            synonym_words: vec!["b1".to_string(), "b2".to_string()],
        },
    ];

    let idx = create_idx(&idx_entries);

    assert_eq!(
        idx,
        vec![0x61, 0, 0, 0, 0, 1, 0, 0, 0, 2, 0x62, 0x63, 0, 1, 0, 1, 0, 0, 2, 0, 2]
    )
}

#[test]
fn mod_create_idx_test() {
    let idx_entries = vec![
        IdxEntry {
            word: "a".to_string(),
            data_offset: 1,
            data_size: 2,
            synonym_words: Vec::new(),
        },
        IdxEntry {
            word: "bc".to_string(),
            data_offset: 0x01000100,
            data_size: 0x00020002,
            synonym_words: Vec::new(),
        },
    ];

    let idx = create_idx(&idx_entries);

    assert_eq!(
        idx,
        vec![0x61, 0, 0, 0, 0, 1, 0, 0, 0, 2, 0x62, 0x63, 0, 1, 0, 1, 0, 0, 2, 0, 2]
    )
}

#[test]
fn create_syn_test() {
    let idx_entries = vec![
        IdxEntry {
            word: "a".to_string(),
            data_offset: 1,
            data_size: 2,
            synonym_words: vec!["a1".to_string()],
        },
        IdxEntry {
            word: "bc".to_string(),
            data_offset: 0x01000100,
            data_size: 0x00020002,
            synonym_words: vec!["b1".to_string(), "b2".to_string()],
        },
    ];

    let (syn, syn_count) = create_syn(&idx_entries);

    assert_eq!(
        syn,
        vec![0x61, 0x31, 0, 0, 0, 0, 0, 0x62, 0x31, 0, 0, 0, 0, 1, 0x62, 0x32, 0, 0, 0, 0, 1]
    );
    assert_eq!(syn_count, 3);
}

#[test]
fn syn_entries_sorted_by_collation() {
    let idx_entries = vec![
        IdxEntry {
            word: "z".to_string(),
            data_offset: 0,
            data_size: 1,
            synonym_words: vec!["zz".to_string(), "B".to_string()],
        },
        IdxEntry {
            word: "a".to_string(),
            data_offset: 1,
            data_size: 1,
            synonym_words: vec!["a".to_string()],
        },
    ];

    let (syn, syn_count) = create_syn(&idx_entries);

    // Pairs sort case-insensitively by synonym word: "a" (entry 1),
    // "B" (entry 0), "zz" (entry 0).
    assert_eq!(
        syn,
        vec![0x61, 0, 0, 0, 0, 1, 0x42, 0, 0, 0, 0, 0, 0x7a, 0x7a, 0, 0, 0, 0, 0]
    );
    assert_eq!(syn_count, 3);
}

#[test]
fn idx_round_trip() {
    let idx_entries = vec![
        IdxEntry {
            word: "pada".to_string(),
            data_offset: 0,
            data_size: 17,
            synonym_words: Vec::new(),
        },
        IdxEntry {
            word: "pāda".to_string(),
            data_offset: 17,
            data_size: 0x01020304,
            synonym_words: Vec::new(),
        },
    ];

    let idx = create_idx(&idx_entries);
    let decoded = decode_idx(&idx).expect("a well-formed index must decode");

    assert_eq!(decoded.len(), 2);
    assert_eq!(decoded[0].0, "pada".as_bytes().to_vec());
    assert_eq!(decoded[0].1, 0);
    assert_eq!(decoded[0].2, 17);
    assert_eq!(decoded[1].0, "pāda".as_bytes().to_vec());
    assert_eq!(decoded[1].1, 17);
    assert_eq!(decoded[1].2, 0x01020304);
}

#[test]
fn decode_rejects_truncated_index() {
    let idx_entries = vec![IdxEntry {
        word: "a".to_string(),
        data_offset: 1,
        data_size: 2,
        synonym_words: Vec::new(),
    }];
    let mut idx = create_idx(&idx_entries);
    idx.pop();
    assert!(decode_idx(&idx).is_none());
}

#[test]
fn two_rows_one_group() {
    // Two rows with headwords "pada 1" and "pada 2" and identical other
    // fields form one word group keyed "pada": one body fragment holding
    // both renderings, one index entry at offset zero whose size is the
    // byte length of the combined fragment.
    let di = create_dict_info();
    let igen = NullInflectionGenerator::new();
    let words = vec![dpd_word("pada 1", "foot"), dpd_word("pada 2", "verse")];

    let (dict_data, idx_entries) = create_dict(&di, words, &igen).expect("must build");

    assert_eq!(idx_entries.len(), 1);
    assert_eq!(idx_entries[0].word, "pada");
    assert_eq!(idx_entries[0].data_offset, 0);
    assert_eq!(idx_entries[0].data_size as usize, dict_data.len());
    let html = String::from_utf8(dict_data).expect("fragment must be UTF-8");
    assert!(html.contains("pada 1"));
    assert!(html.contains("pada 2"));
    assert!(html.contains("foot"));
    assert!(html.contains("verse"));
}

#[test]
fn groups_split_on_different_group_key() {
    let di = create_dict_info();
    let igen = NullInflectionGenerator::new();
    let words = vec![
        dpd_word("pada 1", "foot"),
        dpd_word("pada 2", "verse"),
        dpd_word("pana", "but"),
    ];

    let (dict_data, idx_entries) = create_dict(&di, words, &igen).expect("must build");

    assert_eq!(idx_entries.len(), 2);
    assert_eq!(idx_entries[0].word, "pada");
    assert_eq!(idx_entries[1].word, "pana");
    assert_eq!(idx_entries[0].data_offset, 0);
    assert_eq!(
        idx_entries[1].data_offset,
        idx_entries[0].data_size
    );
    assert_eq!(
        (idx_entries[0].data_size + idx_entries[1].data_size) as usize,
        dict_data.len()
    );
}

#[test]
fn unsorted_stream_splits_a_group() {
    // Grouping is by adjacency: in a stream pre-sorted by sort key it
    // matches a full grouping by key, but records of one group separated by
    // another group key stay in separate runs.
    let di = create_dict_info();
    let igen = NullInflectionGenerator::new();
    let words = vec![
        dpd_word("pada 1", "foot"),
        dpd_word("pana", "but"),
        dpd_word("pada 2", "verse"),
    ];

    let (_, idx_entries) = create_dict(&di, words, &igen).expect("must build");

    let keys: Vec<&str> = idx_entries.iter().map(|e| e.word.as_str()).collect();
    assert_eq!(keys, vec!["pada", "pana", "pada"]);
}

#[test]
fn group_members_sorted_by_sort_key() {
    let di = create_dict_info();
    let igen = NullInflectionGenerator::new();
    // Presented out of ordinal order; the group fragment sorts them.
    let words = vec![dpd_word("pada 2", "verse"), dpd_word("pada 1", "foot")];

    let (ids, html) = get_ids_and_html_for_word_group(&di, &words, &igen).expect("must render");

    assert_eq!(ids, vec!["pada 1".to_string(), "pada 2".to_string()]);
    let foot = html.find("foot").expect("first sense present");
    let verse = html.find("verse").expect("second sense present");
    assert!(foot < verse);
}

#[test]
fn create_ifo_test() {
    let di = create_dict_info();
    let ifo = create_ifo(&di, 100, 500, 1000).expect("must render");
    let text = String::from_utf8(ifo).expect("must be UTF-8");
    assert_eq!(
        text,
        "StarDict's dict ifo file\nversion=3.0.0\n\
         bookname=Digital Pāli Tools Dictionary (DPD)\n\
         wordcount=100\nsynwordcount=500\nidxfilesize=1000\n\
         author=Digital Pāli Tools <digitalpalitools@gmail.com>\n\
         description=The next generation comprehensive digital Pāli dictionary.\n\
         date=xxxx\nsametypesequence=h\n"
    );
}

#[test]
fn full_package_files() {
    let di = create_dict_info();
    let igen = NullInflectionGenerator::new();
    let words = vec![dpd_word("b", "second"), dpd_word("A", "first")];

    let files = create_dictionary(&di, words, &igen).expect("must build");

    let exts: Vec<&str> = files.iter().map(|f| f.extension.as_str()).collect();
    assert_eq!(exts, vec!["idx", "dict", "syn", "ifo", "png"]);
    // The index is sorted by the case-insensitive collation: "A" before "b".
    let idx = &files[0];
    let decoded = decode_idx(&idx.data).expect("must decode");
    assert_eq!(decoded[0].0, b"A".to_vec());
    assert_eq!(decoded[1].0, b"b".to_vec());
    // The icon passes through unchanged and the synonym file is empty under
    // the null generator.
    assert_eq!(files[4].data, vec![1u8, 2, 3]);
    assert!(files[2].data.is_empty());
    assert!(files[2].can_be_empty);
    assert!(!files[0].can_be_empty);
    assert!(validate_dictionary_files(&files).is_ok());
}

#[test]
fn pipeline_is_idempotent() {
    // Running the pipeline twice on unchanged input with a fixed timestamp
    // yields byte-identical body, index and synonym files.
    let di = create_dict_info();
    let igen = NullInflectionGenerator::new();
    let words1 = vec![dpd_word("pada 1", "foot"), dpd_word("pada 2", "verse")];
    let words2 = vec![dpd_word("pada 1", "foot"), dpd_word("pada 2", "verse")];

    let files1 = create_dictionary(&di, words1, &igen).expect("must build");
    let files2 = create_dictionary(&di, words2, &igen).expect("must build");

    assert_eq!(files1.len(), files2.len());
    for (f1, f2) in files1.iter().zip(files2.iter()) {
        assert_eq!(f1.extension, f2.extension);
        assert_eq!(f1.data, f2.data);
    }
}

#[test]
fn stardict_builder_delegates() {
    let di = create_dict_info();
    let sd = StarDict::new(&di);
    let igen = NullInflectionGenerator::new();
    let files = sd
        .build_files(vec![dpd_word("pada", "foot")], &igen)
        .expect("must build");
    assert_eq!(files.len(), 5);
}

#[test]
fn validate_rejects_empty_required_file() {
    let files = vec![
        DictionaryFile {
            extension: "idx".to_string(),
            bom: Vec::new(),
            data: Vec::new(),
            can_be_empty: false,
        },
    ];
    let e = validate_dictionary_files(&files).unwrap_err();
    assert_eq!(
        e,
        "'idx' file cannot be empty. Check that input csv has required columns and data."
    );

    let ok_files = vec![
        DictionaryFile {
            extension: "syn".to_string(),
            bom: Vec::new(),
            data: Vec::new(),
            can_be_empty: true,
        },
        DictionaryFile {
            extension: "dict".to_string(),
            bom: Vec::new(),
            data: vec![1u8],
            can_be_empty: false,
        },
    ];
    assert!(validate_dictionary_files(&ok_files).is_ok());
}

#[test]
fn null_generator_yields_empty_results() {
    let igen = NullInflectionGenerator::new();
    assert!(igen.check_inflection_db().is_ok());
    assert_eq!(igen.generate_inflection_table_html("pada"), "");
    assert!(igen.generate_all_inflections("pada").is_empty());
}

#[test]
fn black_list_honours_prefix() {
    assert!(!is_black_listed_word("", "pada"));
    assert!(!is_black_listed_word("pa", "pada"));
    assert!(is_black_listed_word("xy", "pada"));
}
