use ghostkey::naming::{camel_case_to_upper, struct_name};

#[test]
fn test_struct_name() {
    assert_eq!(struct_name("ghostkey::armorable::tests::TestStruct"), "TEST_STRUCT");
}

#[test]
fn test_camel_case_to_upper() {
    assert_eq!(camel_case_to_upper("camelCaseString"), "CAMEL_CASE_STRING");
}

#[test]
fn an_uppercase_first_character_gets_no_underscore() {
    assert_eq!(camel_case_to_upper("GhostKey"), "GHOST_KEY");
    assert_eq!(camel_case_to_upper("GhostkeyCertificate"), "GHOSTKEY_CERTIFICATE");
    assert_eq!(camel_case_to_upper("X"), "X");
    assert_eq!(camel_case_to_upper("x"), "X");
    assert_eq!(camel_case_to_upper(""), "");
    assert_eq!(camel_case_to_upper("ABC"), "A_B_C");
    assert_eq!(camel_case_to_upper("already_lower"), "ALREADY_LOWER");
}

#[test]
fn case_is_that_of_unicode() {
    assert_eq!(camel_case_to_upper("großÜbung"), "GROSS_ÜBUNG");
    assert_eq!(camel_case_to_upper("éÉ"), "É_É");
    assert_eq!(camel_case_to_upper("a1B2"), "A1_B2");
}

#[test]
fn the_label_is_made_of_the_last_segment_of_a_path() {
    assert_eq!(struct_name("ghostkey::certificate::DelegateKeyCertificate"), "DELEGATE_KEY_CERTIFICATE");
    assert_eq!(struct_name("GhostKey"), "GHOST_KEY");
    assert_eq!(struct_name(""), "");
    assert_eq!(struct_name("a::"), "");
    assert_eq!(struct_name("::b"), "B");
    assert_eq!(struct_name("a:::bC"), ":B_C");
    assert_eq!(struct_name("a::::bC"), "B_C");
    assert_eq!(struct_name("a:b"), "A:B");
    assert_eq!(struct_name("únï::Çode"), "ÇODE");
    let std_last = "a:::bC".split("::").last().unwrap();
    assert_eq!(struct_name("a:::bC"), camel_case_to_upper(std_last));
}
