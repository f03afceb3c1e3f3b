use sap_automate::adt::destination::{auth_type_label, default_language, AdtAuth, AdtDestination};
use sap_automate::adt::error::AdtError;

fn basic(user: &str, password: &str) -> AdtDestination {
    AdtDestination {
        name: "stale-on-disk-label".to_string(),
        base_url: "https://s4dev.example.com:44300".to_string(),
        client: "100".to_string(),
        language: "EN".to_string(),
        auth: AdtAuth::Basic { user: user.to_string(), password: password.to_string() },
    }
}

#[test]
fn search_paths_order_with_dir_override() {
    let paths = AdtDestination::build_search_paths("dev-s4", Some("/etc/sap-dest"), Some("/home/u/.config"));
    assert_eq!(paths[0], "/etc/sap-dest/dev-s4.toml");
    assert_eq!(paths[1], "./.sap-automate/destinations/dev-s4.toml");
    assert_eq!(paths[2], "/home/u/.config/sap-automate/destinations/dev-s4.toml");
}

#[test]
fn search_paths_without_override_start_project_local() {
    let paths = AdtDestination::build_search_paths("dev-s4", None, None);
    assert_eq!(paths.len(), 1);
    assert_eq!(paths[0], "./.sap-automate/destinations/dev-s4.toml");
}

#[test]
fn search_paths_join_without_doubling_slashes() {
    let paths = AdtDestination::build_search_paths("qa", Some("/etc/sap-dest/"), Some("/home/u/.config/"));
    assert_eq!(paths, vec![
        "/etc/sap-dest/qa.toml".to_string(),
        "./.sap-automate/destinations/qa.toml".to_string(),
        "/home/u/.config/sap-automate/destinations/qa.toml".to_string(),
    ]);
}

#[test]
fn redacted_never_leaks_password() {
    let dest = basic("TECHUSER", "do-not-leak").named("dev-s4");
    let r = dest.redacted();
    for field in [&r.name, &r.base_url, &r.client, &r.language, &r.auth_type] {
        assert!(!field.contains("do-not-leak"), "password leaked: {field}");
        assert!(!field.contains("TECHUSER"), "user leaked: {field}");
    }
    assert_eq!(r.auth_type, "basic");
    assert_eq!(r.name, "dev-s4");
}

#[test]
fn loads_basic_auth_destination_and_overrides_name() {
    let dest = AdtDestination::load("dev-s4", Some(Ok(basic("TECHUSER", "s3cret")))).ok().unwrap();
    assert_eq!(dest.name, "dev-s4");
    assert_eq!(dest.base_url, "https://s4dev.example.com:44300");
    assert_eq!(dest.client, "100");
    match &dest.auth {
        AdtAuth::Basic { user, password } => {
            assert_eq!(user, "TECHUSER");
            assert_eq!(password, "s3cret");
        }
        _ => panic!("expected basic auth"),
    }
}

#[test]
fn load_without_a_file_is_not_found() {
    match AdtDestination::load("dev-s4", None) {
        Err(AdtError::NotFound { kind, name }) => {
            assert_eq!(kind, "Destination");
            assert_eq!(name, "dev-s4");
        }
        _ => panic!("expected NotFound"),
    }
}

#[test]
fn load_passes_a_read_error_through() {
    let e = AdtDestination::read_error("/etc/sap-dest/x.toml", "permission denied");
    match AdtDestination::load("x", Some(Err(e))) {
        Err(AdtError::Internal(m)) => assert_eq!(m, "read destination /etc/sap-dest/x.toml: permission denied"),
        _ => panic!("expected the read error"),
    }
}

#[test]
fn invalid_toml_error_withholds_the_line() {
    match AdtDestination::invalid_toml_error("/tmp/d.toml") {
        AdtError::Internal(m) => {
            assert_eq!(m, "destination /tmp/d.toml is not valid TOML (syntax error; detail withheld to avoid logging credential lines)");
        }
        _ => panic!("expected Internal"),
    }
}

#[test]
fn name_field_is_optional_in_file() {
    let dest = AdtDestination {
        name: String::new(),
        base_url: "https://s4dev.example.com:44300".to_string(),
        client: "100".to_string(),
        language: default_language(),
        auth: AdtAuth::Bearer { token: "jwt-abc".to_string() },
    };
    let dest = AdtDestination::load("dev-s4", Some(Ok(dest))).ok().unwrap();
    assert_eq!(dest.name, "dev-s4");
    assert_eq!(dest.language, "EN");
    assert_eq!(dest.auth.label(), "bearer");
}

#[test]
fn auth_labels_name_each_method() {
    assert_eq!(auth_type_label(&AdtAuth::Mock), "mock");
    assert_eq!(auth_type_label(&AdtAuth::ServiceKey { path: "k.json".to_string() }), "service_key");
    assert_eq!(
        auth_type_label(&AdtAuth::Certificate { cert_path: "c.pem".to_string(), key_path: "k.pem".to_string() }),
        "certificate"
    );
}

#[test]
fn mock_destination_needs_no_network() {
    let d = AdtDestination::mock("dev");
    assert_eq!(d.name, "dev");
    assert_eq!(d.base_url, "https://mock.sap.example");
    assert_eq!(d.client, "100");
    assert!(matches!(d.auth, AdtAuth::Mock));
}

#[test]
fn the_first_existing_candidate_is_read() {
    assert_eq!(AdtDestination::first_existing(&vec![false, true, true]), Some(1));
    assert_eq!(AdtDestination::first_existing(&vec![true, false, true]), Some(0));
    assert_eq!(AdtDestination::first_existing(&vec![false, false, false]), None);
    assert_eq!(AdtDestination::first_existing(&vec![]), None);
}

#[test]
fn only_the_first_existing_candidate_is_read_and_keeps_the_name() {
    let reads = std::cell::RefCell::new(Vec::new());
    let d = AdtDestination::load_first("dev", &vec![false, true, true], |i| {
        reads.borrow_mut().push(i);
        Ok(basic("u", "p"))
    })
    .unwrap();
    assert_eq!(*reads.borrow(), vec![1]);
    assert_eq!(d.name, "dev");
    reads.borrow_mut().clear();
    let r = AdtDestination::load_first("dev", &vec![true, true], |i| {
        reads.borrow_mut().push(i);
        Err(AdtDestination::invalid_toml_error("/etc/first.toml"))
    });
    assert!(r.is_err());
    assert_eq!(*reads.borrow(), vec![0]);
    let r = AdtDestination::load_first("dev", &vec![false], |_| Ok(basic("u", "p")));
    assert!(matches!(r, Err(AdtError::NotFound { .. })));
}
