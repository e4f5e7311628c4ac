use templateer::class_names::{is_valid_main_class_name, sanitize_class_name, validate_name, ClassNameError};
use templateer::mod_ids::{is_valid_mod_id, to_mod_id, validate_mod_id, ModIdError};

#[test]
fn mod_id_from_name() {
    assert_eq!(to_mod_id("My Cool Mod"), "my_cool_mod");
    assert!(validate_mod_id(&to_mod_id("My Cool Mod")).is_ok());
}

#[test]
fn mod_id_lowercases() {
    assert_eq!(to_mod_id("ABC DEF"), "abc_def");
}

#[test]
fn mod_id_drops_leading_non_letters() {
    assert_eq!(to_mod_id("123 Abc"), "abc");
    assert_eq!(to_mod_id("42"), "");
}

#[test]
fn mod_id_keeps_dashes_and_drops_symbols() {
    assert_eq!(to_mod_id("cool-mod! v2"), "cool-mod_v2");
}

#[test]
fn mod_id_is_capped_at_64() {
    let name = "a".repeat(100);
    let id = to_mod_id(&name);
    assert_eq!(id.len(), 64);
    assert!(is_valid_mod_id(&id));
}

#[test]
fn mod_id_output_alphabet() {
    for name in ["Hello World 2", "Zz 9 9 9", "x y", "Mod Name With Many Words 123"] {
        let id = to_mod_id(name);
        assert!(id.len() <= 64);
        assert!(id.chars().all(|c| matches!(c, 'a'..='z' | '0'..='9' | '-' | '_')));
        if id.len() >= 2 {
            assert!(validate_mod_id(&id).is_ok());
        }
    }
}

#[test]
fn single_letter_mod_id_is_too_short() {
    assert_eq!(to_mod_id("a"), "a");
    assert_eq!(validate_mod_id("a"), Err(ModIdError::InvalidLength));
}

#[test]
fn mod_id_errors() {
    assert_eq!(validate_mod_id(&"a".repeat(65)), Err(ModIdError::InvalidLength));
    assert_eq!(validate_mod_id("1abc"), Err(ModIdError::InvalidStart('1')));
    assert_eq!(validate_mod_id("ab!c?"), Err(ModIdError::InvalidCharacter('!')));
    assert_eq!(validate_mod_id("Abc"), Err(ModIdError::InvalidStart('A')));
    assert_eq!(validate_mod_id("ab"), Ok(()));
    assert!(!is_valid_mod_id("a b"));
}

#[test]
fn mod_id_length_counts_bytes() {
    assert_eq!(validate_mod_id("é"), Err(ModIdError::InvalidStart('é')));
    assert_eq!(validate_mod_id(&"é".repeat(33)), Err(ModIdError::InvalidLength));
    assert_eq!(validate_mod_id(&format!("a{}", "é".repeat(31))), Err(ModIdError::InvalidCharacter('é')));
}

#[test]
fn class_name_from_words() {
    assert_eq!(sanitize_class_name("my mod name"), "MyModName");
}

#[test]
fn class_name_skips_leading_digits_and_trims() {
    assert_eq!(sanitize_class_name("  1st mod  "), "StMod");
}

#[test]
fn class_name_keeps_unicode_letters() {
    assert_eq!(sanitize_class_name("héllo wörld"), "HélloWörld");
}

#[test]
fn class_name_trims_unicode_space() {
    assert_eq!(sanitize_class_name("\u{3000}abc\u{3000}"), "Abc");
}

#[test]
fn class_name_errors() {
    assert_eq!(validate_name(""), Err(ClassNameError::Empty));
    assert_eq!(validate_name("1A"), Err(ClassNameError::InvalidStart('1')));
    assert_eq!(validate_name("Ab-c"), Err(ClassNameError::InvalidCharacter('-')));
    assert_eq!(validate_name("My_Mod2"), Ok(()));
    assert!(is_valid_main_class_name("MyMod"));
    assert!(!is_valid_main_class_name("my mod"));
}
