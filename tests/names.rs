use rau::additive::Function;
use rau::filt::FiltType;
use rau::module::{parse, parse_result, parse_terminal};
use rau::text::{find_char, str_equals};
use rau::units::Samples;

#[test]
fn parse_reads_numbers() {
    assert_eq!(parse::<usize>("order", "12"), Ok(12));
    assert_eq!(parse::<f64>("freq", "440.5"), Ok(440.5));
}

#[test]
fn parse_failure_names_parameter_and_text() {
    assert_eq!(
        parse::<usize>("order", "twelve"),
        Err("can't parse order 'twelve".to_string())
    );
}

#[test]
fn parse_reads_waveforms_and_filter_types() {
    assert!(parse::<Function>("functype", "sawdown") == Ok(Function::SAWDOWN));
    assert!(parse::<FiltType>("filttype", "notch") == Ok(FiltType::Notch));
    assert_eq!(
        parse::<Function>("functype", "saw").err(),
        Some("can't parse functype 'saw".to_string())
    );
}

#[test]
fn parse_result_passes_value_or_builds_message() {
    assert_eq!(parse_result("q", "1.5", Some(1.5f64)), Ok(1.5));
    assert_eq!(
        parse_result::<u8>("q", "x", None),
        Err("can't parse q 'x".to_string())
    );
}

#[test]
fn terminal_splits_at_first_colon() {
    assert_eq!(parse_terminal("source", "osc:out"), Ok(("osc", "out")));
    assert_eq!(parse_terminal("dest", "a:b:c"), Ok(("a", "b:c")));
    assert_eq!(parse_terminal("dest", ":in"), Ok(("", "in")));
}

#[test]
fn terminal_without_colon_is_an_error() {
    assert_eq!(
        parse_terminal("source", "osc"),
        Err("bad terminal format for wire source 'osc'".to_string())
    );
}

#[test]
fn function_names() {
    assert!(Function::from_name("sin") == Ok(Function::SIN));
    assert!(Function::from_name("tri") == Ok(Function::TRI));
    assert!(Function::from_name("sawup") == Ok(Function::SAWUP));
    assert!(Function::from_name("sawdown") == Ok(Function::SAWDOWN));
    assert!(Function::from_name("square") == Ok(Function::SQUARE));
    assert!(Function::default() == Function::SIN);
}

#[test]
fn function_unknown_name() {
    assert_eq!(
        Function::from_name("Sin").err(),
        Some("unrecognized function 'Sin'".to_string())
    );
    let parsed: Result<Function, String> = "".parse();
    assert_eq!(parsed.err(), Some("unrecognized function ''".to_string()));
}

#[test]
fn filter_type_names() {
    assert_eq!(FiltType::from_name("lp"), Ok(FiltType::LP));
    assert_eq!(FiltType::from_name("bp"), Ok(FiltType::BP));
    assert_eq!(FiltType::from_name("notch"), Ok(FiltType::Notch));
    assert_eq!(FiltType::from_name("hp"), Ok(FiltType::HP));
    assert_eq!(FiltType::from_name("lowshelf"), Ok(FiltType::LowShelf));
    assert_eq!(FiltType::from_name("centershelf"), Ok(FiltType::CenterShelf));
    assert_eq!(FiltType::from_name("highshelf"), Ok(FiltType::HighShelf));
    assert_eq!(FiltType::default(), FiltType::LP);
}

#[test]
fn filter_type_unknown_name() {
    assert_eq!(
        FiltType::from_name("band").err(),
        Some("unrecognized filttype 'band'".to_string())
    );
}

#[test]
fn string_helpers() {
    assert!(str_equals("abc", "abc"));
    assert!(!str_equals("abc", "abd"));
    assert!(!str_equals("abc", "ab"));
    assert!(str_equals("", ""));
    assert_eq!(find_char("wire:x", ':'), Some(4));
    assert_eq!(find_char("héllo", 'l'), Some(2));
    assert_eq!(find_char("none", ':'), None);
}

#[test]
fn samples_count() {
    assert_eq!(Samples(48).0, 48);
    assert!(Samples(2) < Samples(3));
    assert_eq!(Samples(3), Samples(3));
}
