use edpdgen::input::InputFormat;
use edpdgen::output::OutputFormat;
use edpdgen::validate::{
    validate_description, validate_html_color, validate_name, validate_short_name,
};

#[test]
fn input_format_parse() {
    assert_eq!(InputFormat::from_str("dpd").unwrap(), InputFormat::Dpd);
    assert_eq!(InputFormat::from_str("DPD").unwrap(), InputFormat::Dpd);
    assert_eq!(InputFormat::from_str("Dps").unwrap(), InputFormat::Dps);
    assert_eq!(
        InputFormat::from_str("other").unwrap_err(),
        "Unknown input format"
    );
    assert_eq!(InputFormat::Dpd.as_str(), "dpd");
    assert_eq!(InputFormat::Dps.as_str(), "dps");
}

#[test]
fn output_format_parse() {
    assert_eq!(
        OutputFormat::from_str("stardict").unwrap(),
        OutputFormat::StarDict
    );
    assert_eq!(
        OutputFormat::from_str("StarDict").unwrap(),
        OutputFormat::StarDict
    );
    assert_eq!(
        OutputFormat::from_str("AJDICT").unwrap(),
        OutputFormat::AjDict
    );
    assert_eq!(
        OutputFormat::from_str("text").unwrap_err(),
        "Unknown output format"
    );
    assert_eq!(OutputFormat::StarDict.as_str(), "stardict");
    assert_eq!(OutputFormat::AjDict.as_str(), "ajdict");
}

#[test]
fn name_and_description_limits() {
    assert!(validate_name("A Dictionary").is_ok());
    let long = "x".repeat(65);
    let e = validate_name(&long).unwrap_err();
    assert!(e.contains("has invalid format"));
    assert!(validate_description(&"d".repeat(256)).is_ok());
    assert!(validate_description(&"d".repeat(257)).is_err());
}

#[test]
fn short_name_format() {
    assert!(validate_short_name("dpd").is_ok());
    assert!(validate_short_name("a_b_c_9").is_ok());
    assert!(validate_short_name("ab").is_err());
    assert!(validate_short_name("Abc").is_err());
    assert!(validate_short_name("abcdefghijk").is_err());
    assert!(validate_short_name("ab-c").is_err());
}

#[test]
fn html_color_format() {
    assert!(validate_html_color("#fff").is_ok());
    assert!(validate_html_color("#0006c8").is_ok());
    assert!(validate_html_color("#0006C8").is_ok());
    assert!(validate_html_color("orange").is_err());
    assert!(validate_html_color("#ffff").is_err());
    assert!(validate_html_color("#gggggg").is_err());
}
