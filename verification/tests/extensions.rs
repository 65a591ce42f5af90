use limb_sampler::extensions::{Extension, ExtensionType, Extensions};

fn ext(ext_type: ExtensionType, critical: bool, value: &str) -> Extension {
    Extension { ext_type, critical, value: String::from(value) }
}

#[test]
fn empty_collection_yields_nothing() {
    let exts = Extensions::new();
    let mut it = exts.iter();
    assert!(it.next().is_none());
}

#[test]
fn extensions_keep_insertion_order() {
    let mut exts = Extensions::new();
    exts.add(ext(ExtensionType::KeyUsage, true, "digitalSignature"));
    exts.add(ext(ExtensionType::SubjectAltName, false, "DNS:example.com"));
    exts.add(ext(ExtensionType::OtherNid(177), false, "OCSPSigning"));

    let mut it = exts.iter();
    let (t0, e0) = it.next().unwrap();
    assert_eq!(ExtensionType::KeyUsage, t0);
    assert_eq!("digitalSignature", e0.value);
    assert!(e0.critical);
    let (t1, e1) = it.next().unwrap();
    assert_eq!(ExtensionType::SubjectAltName, t1);
    assert_eq!("DNS:example.com", e1.value);
    let (t2, e2) = it.next().unwrap();
    assert_eq!(ExtensionType::OtherNid(177), t2);
    assert_eq!("OCSPSigning", e2.value);
    assert!(it.next().is_none());
}

#[test]
fn adding_an_existing_type_replaces_in_place() {
    let mut exts = Extensions::new();
    exts.add(ext(ExtensionType::KeyUsage, true, "digitalSignature"));
    exts.add(ext(ExtensionType::SubjectAltName, false, "DNS:example.com"));
    exts.add(ext(ExtensionType::KeyUsage, false, "keyEncipherment"));

    let mut it = exts.iter();
    let (t0, e0) = it.next().unwrap();
    assert_eq!(ExtensionType::KeyUsage, t0);
    assert_eq!("keyEncipherment", e0.value);
    assert!(!e0.critical);
    let (t1, _) = it.next().unwrap();
    assert_eq!(ExtensionType::SubjectAltName, t1);
    assert!(it.next().is_none());
}
