use packagekit::package::{
    decode_array, Package, RawPackage, PART_ARCH, PART_COUNT, PART_DATA, PART_NAME, PART_VERSION,
};

fn buf(text: &str) -> Option<Vec<u8>> {
    let mut bytes = text.as_bytes().to_vec();
    bytes.push(0);
    Some(bytes)
}

fn raw(id: &str, summary: &str) -> RawPackage {
    let parts = id.split(';').map(buf).collect();
    RawPackage { id: buf(id), summary: buf(summary), parts }
}

fn sample() -> Package {
    Package::new(
        "w3m;0.5.3-34;amd64;installed".to_string(),
        "w3m".to_string(),
        "0.5.3-34".to_string(),
        "WWW browsable pager".to_string(),
        "amd64".to_string(),
        "installed".to_string(),
    )
}

#[test]
fn new_keeps_each_field() {
    let p = sample();
    assert_eq!(p.id(), "w3m;0.5.3-34;amd64;installed");
    assert_eq!(p.name(), "w3m");
    assert_eq!(p.version(), "0.5.3-34");
    assert_eq!(p.summary(), "WWW browsable pager");
    assert_eq!(p.arch(), "amd64");
    assert_eq!(p.data(), "installed");
}

#[test]
fn part_places() {
    assert_eq!(PART_NAME, 0);
    assert_eq!(PART_VERSION, 1);
    assert_eq!(PART_ARCH, 2);
    assert_eq!(PART_DATA, 3);
    assert_eq!(PART_COUNT, 4);
}

#[test]
fn equal_when_all_fields_equal() {
    assert!(sample() == sample());
    assert!(sample() == sample().clone());
}

#[test]
fn unequal_when_one_field_differs() {
    let f = ["i", "n", "v", "s", "a", "d"];
    let make = |f: [&str; 6]| {
        Package::new(
            f[0].to_string(),
            f[1].to_string(),
            f[2].to_string(),
            f[3].to_string(),
            f[4].to_string(),
            f[5].to_string(),
        )
    };
    for k in 0..6 {
        let mut g = f;
        g[k] = "other";
        assert!(make(f) != make(g));
        assert!(make(g) == make(g));
    }
}

#[test]
fn fields_are_not_interchanged() {
    let a = Package::new(
        "x".to_string(),
        "1".to_string(),
        "2".to_string(),
        "3".to_string(),
        "4".to_string(),
        "5".to_string(),
    );
    let b = Package::new(
        "x".to_string(),
        "2".to_string(),
        "1".to_string(),
        "3".to_string(),
        "5".to_string(),
        "4".to_string(),
    );
    assert!(a != b);
}

#[test]
fn from_raw_decodes_every_field() {
    let p = Package::from_raw(&raw("w3m;0.5.3-34;amd64;installed", "WWW browsable pager"));
    assert!(p == sample());
}

#[test]
fn from_raw_null_record_gives_empty_fields() {
    let p = Package::from_raw(&RawPackage { id: None, summary: None, parts: Vec::new() });
    assert_eq!(p.id(), "");
    assert_eq!(p.name(), "");
    assert_eq!(p.version(), "");
    assert_eq!(p.summary(), "");
    assert_eq!(p.arch(), "");
    assert_eq!(p.data(), "");
}

#[test]
fn from_raw_without_four_parts_gives_empty_parts() {
    let p = Package::from_raw(&RawPackage {
        id: buf("w3m;1"),
        summary: buf("pager"),
        parts: vec![buf("w3m"), buf("1")],
    });
    assert_eq!(p.id(), "w3m;1");
    assert_eq!(p.summary(), "pager");
    assert_eq!(p.name(), "");
    assert_eq!(p.version(), "");
    assert_eq!(p.arch(), "");
    assert_eq!(p.data(), "");
}

#[test]
fn from_raw_degrades_ill_formed_text() {
    let p = Package::from_raw(&RawPackage {
        id: Some(vec![0xff, 0]),
        summary: buf("pager"),
        parts: vec![buf("w3m"), None, Some(vec![0x80, 0]), buf("main")],
    });
    assert_eq!(p.id(), "");
    assert_eq!(p.summary(), "pager");
    assert_eq!(p.name(), "w3m");
    assert_eq!(p.version(), "");
    assert_eq!(p.arch(), "");
    assert_eq!(p.data(), "main");
}

#[test]
fn decode_array_keeps_length_and_order() {
    let raws = vec![
        raw("a;1;x86_64;main", "first"),
        raw("b;2;i686;extra", "second"),
        raw("c;3;noarch;main", "third"),
    ];
    let pkgs = decode_array(&raws);
    assert_eq!(pkgs.len(), 3);
    assert_eq!(pkgs[0].name(), "a");
    assert_eq!(pkgs[1].name(), "b");
    assert_eq!(pkgs[2].name(), "c");
    assert_eq!(pkgs[1].version(), "2");
    assert_eq!(pkgs[1].arch(), "i686");
    assert_eq!(pkgs[1].data(), "extra");
    assert_eq!(pkgs[2].summary(), "third");
}

#[test]
fn decode_array_of_nothing_is_empty() {
    assert_eq!(decode_array(&Vec::new()).len(), 0);
}
