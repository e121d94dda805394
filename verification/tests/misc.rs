use glu_demangle::demo::{get_cc, get_pizza_count, hex_string, message, speaker, timing};
use glu_demangle::{demangle_symbol, strip_mangling_prefix, GluSymbol};

#[test]
fn speaker_and_message() {
    assert_eq!(speaker(), "Rust");
    assert_eq!(message(), "Rust adds safety to the project");
}

#[test]
fn timing_is_clamped() {
    assert_eq!(timing(10), 10);
    assert_eq!(timing(30), 30);
    assert_eq!(timing(31), 30);
    assert_eq!(timing(u32::MAX), 30);
}

#[test]
fn interface_dump_values() {
    assert_eq!(get_pizza_count(), 42);
    assert_eq!(get_cc(), "Rust");
}

#[test]
fn hex_rendering() {
    assert_eq!(hex_string(&vec![]), "");
    assert_eq!(hex_string(&vec![0x00]), "00");
    assert_eq!(hex_string(&vec![0xab, 0x01, 0xff]), "ab01ff");
    assert_eq!(hex_string(&vec![0xde, 0xad, 0xbe, 0xef]), "deadbeef");
}

#[test]
fn prefix_stripping() {
    assert_eq!(strip_mangling_prefix("_$GLU$abc"), "abc");
    assert_eq!(strip_mangling_prefix("$GLU$abc"), "abc");
    assert_eq!(strip_mangling_prefix("abc"), "abc");
    assert_eq!(strip_mangling_prefix("$GLUabc"), "$GLUabc");
}

#[test]
fn components_survive_a_round_trip() {
    // Re-encode the decoded module path and name by the length-prefix
    // rule and decode again: the component list is reproduced exactly.
    let sym = demangle_symbol("3std2io5printFvR").unwrap();
    let (path, name) = match &sym {
        GluSymbol::Function(f) => (f.mod_path.clone(), f.name.clone()),
        GluSymbol::Global(g) => (g.mod_path.clone(), g.name.clone()),
    };
    let mut encoded = String::new();
    for part in path.iter().chain(std::iter::once(&name)) {
        encoded.push_str(&part.len().to_string());
        encoded.push_str(part);
    }
    encoded.push_str("FvR");
    let again = demangle_symbol(&encoded).unwrap();
    match &again {
        GluSymbol::Function(f) => {
            assert_eq!(f.mod_path, path);
            assert_eq!(f.name, name);
        },
        _ => panic!("expected function"),
    }
}
