use packagekit::client::{PackageKit, Request, Results, FILTER_NOT_INSTALLED};
use packagekit::error::Error;
use packagekit::package::{Package, RawPackage};

fn buf(text: &str) -> Option<Vec<u8>> {
    let mut bytes = text.as_bytes().to_vec();
    bytes.push(0);
    Some(bytes)
}

fn with_id(id: &str) -> Package {
    Package::new(
        id.to_string(),
        String::new(),
        String::new(),
        String::new(),
        String::new(),
        String::new(),
    )
}

#[test]
fn error_keeps_its_message() {
    assert_eq!(Error::new("no-network".to_string()).message(), "no-network");
    assert_eq!(Error::new(String::new()).message(), "");
}

#[test]
fn search_sends_one_name_with_the_not_installed_filter() {
    let pk = PackageKit::new();
    match pk.search_package("w3m") {
        Request::Resolve { filters, names } => {
            assert_eq!(filters, 3);
            assert_eq!(filters, FILTER_NOT_INSTALLED);
            assert_eq!(names, vec![b"w3m\0".to_vec()]);
        }
        other => panic!("unexpected request {:?}", other),
    }
}

#[test]
fn search_gives_one_match() {
    let pk = PackageKit::new();
    let results = Results {
        error: None,
        packages: vec![RawPackage {
            id: buf("w3m;0.5.3-34;amd64;installed"),
            summary: buf("WWW browsable pager"),
            parts: vec![buf("w3m"), buf("0.5.3-34"), buf("amd64"), buf("installed")],
        }],
    };
    let found = pk.search_outcome(&results).unwrap();
    assert_eq!(found.len(), 1);
    assert_eq!(found[0].id(), "w3m;0.5.3-34;amd64;installed");
    assert_eq!(found[0].name(), "w3m");
    assert_eq!(found[0].version(), "0.5.3-34");
    assert_eq!(found[0].arch(), "amd64");
    assert_eq!(found[0].data(), "installed");
    assert_eq!(found[0].summary(), "WWW browsable pager");
}

#[test]
fn search_keeps_backend_order() {
    let pk = PackageKit::new();
    let record = |id: &str| RawPackage {
        id: buf(id),
        summary: None,
        parts: id.split(';').map(buf).collect(),
    };
    let results = Results {
        error: None,
        packages: vec![record("z;1;a;m"), record("y;1;a;m"), record("x;1;a;m")],
    };
    let found = pk.search_outcome(&results).unwrap();
    let names: Vec<&str> = found.iter().map(|p| p.name()).collect();
    assert_eq!(names, vec!["z", "y", "x"]);
}

#[test]
fn search_error_carries_backend_message() {
    let pk = PackageKit::new();
    let results = Results {
        error: Some(buf("package-not-found")),
        packages: vec![RawPackage { id: buf("w3m;1;a;m"), summary: None, parts: Vec::new() }],
    };
    match pk.search_outcome(&results) {
        Err(e) => assert_eq!(e.message(), "package-not-found"),
        Ok(found) => panic!("unexpected packages: {}", found.len()),
    }
}

#[test]
fn error_with_null_message_is_still_an_error() {
    let pk = PackageKit::new();
    let results = Results { error: Some(None), packages: Vec::new() };
    assert_eq!(pk.search_outcome(&results).unwrap_err().message(), "");
    assert_eq!(pk.install_outcome(&results).unwrap_err().message(), "");
}

#[test]
fn install_of_nothing_sends_no_identifier() {
    let pk = PackageKit::new();
    assert!(pk.can_install(&Vec::new()));
    match pk.install_packages(&Vec::new()) {
        Request::InstallPackages { ids } => assert!(ids.is_empty()),
        other => panic!("unexpected request {:?}", other),
    }
    let results = Results { error: None, packages: Vec::new() };
    assert!(pk.install_outcome(&results).is_ok());
}

#[test]
fn install_packages_sends_each_identifier_in_order() {
    let pk = PackageKit::new();
    let pkgs = vec![with_id("b;2;i686;extra"), with_id("a;1;x86_64;main")];
    assert!(pk.can_install(&pkgs));
    match pk.install_packages(&pkgs) {
        Request::InstallPackages { ids } => {
            assert_eq!(ids, vec![b"b;2;i686;extra\0".to_vec(), b"a;1;x86_64;main\0".to_vec()]);
        }
        other => panic!("unexpected request {:?}", other),
    }
}

#[test]
fn install_sends_the_one_identifier() {
    let pk = PackageKit::new();
    match pk.install(&with_id("w3m;0.5.3-34;amd64;installed")) {
        Request::InstallPackages { ids } => {
            assert_eq!(ids, vec![b"w3m;0.5.3-34;amd64;installed\0".to_vec()]);
        }
        other => panic!("unexpected request {:?}", other),
    }
}

#[test]
fn install_error_carries_backend_message() {
    let pk = PackageKit::new();
    let results = Results { error: Some(buf("not-authorized")), packages: Vec::new() };
    assert_eq!(pk.install_outcome(&results).unwrap_err().message(), "not-authorized");
}

#[test]
fn cannot_install_identifier_with_zero_byte() {
    let pk = PackageKit::new();
    assert!(!pk.can_install(&vec![with_id("a;1;x;m"), with_id("b\0;1;x;m")]));
    assert!(pk.can_install(&vec![with_id("a;1;x;m"), with_id("")]));
}
