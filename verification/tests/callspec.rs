use sap_automate::callspec::{parse_call_spec, split_once_char};
use sap_automate::text::{find_char, split_char};

#[test]
fn call_spec_with_pairs() {
    let (name, pairs) = parse_call_spec("abap.search=query=ZCL_*,max_results=5").unwrap();
    assert_eq!(name, "abap.search");
    assert_eq!(
        pairs,
        vec![
            ("query".to_string(), "ZCL_*".to_string()),
            ("max_results".to_string(), "5".to_string())
        ]
    );
}

#[test]
fn call_spec_name_only() {
    let (name, pairs) = parse_call_spec("sap.system.info").unwrap();
    assert_eq!(name, "sap.system.info");
    assert!(pairs.is_empty());
    let (name, pairs) = parse_call_spec("echo=").unwrap();
    assert_eq!(name, "echo");
    assert!(pairs.is_empty());
}

#[test]
fn call_spec_value_keeps_later_equals() {
    let (_, pairs) = parse_call_spec("t=expr=a=b").unwrap();
    assert_eq!(pairs, vec![("expr".to_string(), "a=b".to_string())]);
}

#[test]
fn call_spec_pair_without_equals_is_refused() {
    assert_eq!(parse_call_spec("echo=text=hi,oops").unwrap_err(), "oops");
    assert_eq!(parse_call_spec("echo=text=hi,").unwrap_err(), "");
}

#[test]
fn split_helpers() {
    assert_eq!(find_char("a=b", '='), Some(1));
    assert_eq!(find_char("ab", '='), None);
    assert_eq!(split_char("a,,b,", ','), vec!["a", "", "b", ""]);
    assert_eq!(split_char("", ','), vec![""]);
    assert_eq!(split_once_char("k=v=w", '='), Some(("k".to_string(), "v=w".to_string())));
    assert_eq!(split_once_char("kv", '='), None);
}
