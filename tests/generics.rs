use nanoserde_derive::generics::{
    bounds_strings, enum_bounds_strings, struct_bounds_strings, Enum, Generic, Struct,
};

fn ty(name: &str, bounds: &[&str]) -> Generic {
    Generic::Type {
        name: name.to_string(),
        bounds: bounds.iter().map(|b| b.to_string()).collect(),
    }
}

fn lifetime(name: &str, bounds: &[&str]) -> Generic {
    Generic::Lifetime {
        name: name.to_string(),
        bounds: bounds.iter().map(|b| b.to_string()).collect(),
    }
}

fn konst(name: &str, t: &str) -> Generic {
    Generic::Const { name: name.to_string(), ty: t.to_string() }
}


#[test]
fn empty_list_gives_no_clause() {
    assert_eq!(
        bounds_strings(&vec![], "MyContract"),
        (String::new(), String::new())
    );
}

#[test]
fn two_type_parameters() {
    let (with, bare) = bounds_strings(&vec![ty("T", &[]), ty("U", &[])], "Ser");
    assert_eq!(with, "<T: nanoserde::Ser, U: nanoserde::Ser, >");
    assert_eq!(bare, "<T, U, >");
}

#[test]
fn placeholder_is_left_out() {
    let (with, bare) = bounds_strings(&vec![ty("Self", &[]), ty("T", &[])], "Ser");
    assert_eq!(with, "<T: nanoserde::Ser, >");
    assert_eq!(bare, "<T, >");
    assert!(!with.contains("Self") && !bare.contains("Self"));
}

#[test]
fn placeholder_anywhere_changes_nothing() {
    let without = bounds_strings(&vec![ty("A", &[]), konst("N", "u8")], "De");
    let with = bounds_strings(&vec![ty("A", &[]), ty("Self", &[]), konst("N", "u8")], "De");
    assert_eq!(with, without);
}

#[test]
fn const_parameter_gets_no_contract() {
    let (with, bare) = bounds_strings(&vec![konst("N", "usize"), ty("T", &[])], "Ser");
    assert_eq!(with, "<const N: usize, T: nanoserde::Ser, >");
    assert_eq!(bare, "<N, T, >");
}

#[test]
fn lifetimes_and_existing_bounds() {
    let generics = vec![
        lifetime("'a", &[]),
        lifetime("'b", &["'a"]),
        ty("T", &["Clone", "Default"]),
    ];
    let (with, bare) = bounds_strings(&generics, "SerJson");
    assert_eq!(
        with,
        "<'a, 'b: 'a, T: Clone + Default + nanoserde::SerJson, >"
    );
    assert_eq!(bare, "<'a, 'b, T, >");
}

#[test]
fn only_placeholder_gives_empty_brackets() {
    assert_eq!(
        bounds_strings(&vec![ty("Self", &[])], "Ser"),
        ("<>".to_string(), "<>".to_string())
    );
}

#[test]
fn struct_and_enum_agree() {
    let generics = || vec![lifetime("'a", &[]), konst("N", "usize"), ty("T", &["Copy"])];
    let s = Struct { name: "Rec".to_string(), generics: generics() };
    let e = Enum { name: "Tag".to_string(), generics: generics() };
    let from_struct = struct_bounds_strings(&s, "DeBin");
    let from_enum = enum_bounds_strings(&e, "DeBin");
    assert_eq!(from_struct, from_enum);
    assert_eq!(
        from_struct.0,
        "<'a, const N: usize, T: Copy + nanoserde::DeBin, >"
    );
    assert_eq!(from_struct.1, "<'a, N, T, >");
}
