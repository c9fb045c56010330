use f1rma::keyed::TextMap;
use f1rma::paths::{
    components_start_with, file_name_or_default, paths_equal, same_components, starts_with,
    stem_and_extension, PathMap,
};
use f1rma::text::{
    chars_of, contains_chars, has_prefix, has_suffix, replace_char_exec, same_chars,
    string_from_chars, u64_to_decimal,
};

#[test]
fn decimal_text() {
    assert_eq!(u64_to_decimal(0), "0");
    assert_eq!(u64_to_decimal(7100), "7100");
    assert_eq!(u64_to_decimal(u64::MAX), "18446744073709551615");
}

#[test]
fn character_helpers() {
    assert_eq!(string_from_chars(&chars_of("ação")), "ação");
    assert_eq!(f1rma::text::concat("a", "b"), "ab");
    assert_eq!(f1rma::text::concat3("a", "b", "c"), "abc");
    assert!(contains_chars(&chars_of("relatório"), &chars_of("tóri")));
    assert!(!contains_chars(&chars_of("abc"), &chars_of("abd")));
    assert!(contains_chars(&chars_of("abc"), &chars_of("")));
    assert!(has_prefix(&chars_of("abc"), &chars_of("ab")));
    assert!(has_suffix(&chars_of("abc"), &chars_of("bc")));
    assert!(!has_suffix(&chars_of("c"), &chars_of("bc")));
    assert_eq!(replace_char_exec("a\\b\\c", '\\', '/'), "a/b/c");
    assert_eq!(f1rma::text::trim_text("\u{3000}\t a b \u{a0}\n"), "a b");
    assert_eq!(f1rma::text::trim_text(" \u{200b}x "), "\u{200b}x");
    assert_eq!(f1rma::text::trim_text("   "), "");
    assert!(same_chars("x", "x"));
    assert!(!same_chars("x", "X"));
}

#[test]
fn paths_compare_by_components() {
    assert!(paths_equal("/a/b", "/a//b/"));
    assert!(paths_equal("/a/./b", "/a/b"));
    assert!(!paths_equal("/a/b", "/a/c"));
    assert!(starts_with("/a/b/c", "/a/b"));
    assert!(!starts_with("/a/bc", "/a/b"));
    assert!(starts_with("/a", "/"));
    let a = vec![String::from("/"), String::from("a")];
    let b = vec![String::from("/"), String::from("a")];
    assert!(same_components(&a, &b));
    assert!(components_start_with(&a, &vec![String::from("/")]));
}

#[test]
fn file_names_and_extensions() {
    assert_eq!(file_name_or_default("/a/b.txt"), "b.txt");
    assert_eq!(file_name_or_default("/a/b/"), "b");
    assert_eq!(file_name_or_default("/"), "");
    assert_eq!(file_name_or_default("/a/.."), "");
    assert_eq!(stem_and_extension("b.tar.gz"), (String::from("b.tar"), Some(String::from("gz"))));
    assert_eq!(stem_and_extension(".bashrc"), (String::from(".bashrc"), None));
    assert_eq!(stem_and_extension("sem"), (String::from("sem"), None));
    assert_eq!(stem_and_extension("x."), (String::from("x"), Some(String::new())));
    assert_eq!(stem_and_extension(".."), (String::from(".."), None));
}

#[test]
fn path_map_keys_by_components() {
    let mut m: PathMap<u32> = PathMap::new();
    m.insert(String::from("/a/b"), 1);
    m.insert(String::from("/a//b/"), 2);
    assert_eq!(m.len(), 1);
    assert_eq!(m.path_of(0), "/a/b");
    assert_eq!(*m.value_of(0), 2);
    let key = vec![String::from("/"), String::from("a"), String::from("b")];
    assert_eq!(m.get(&key), Some(&2));
    assert!(m.contains(&key));
    assert_eq!(m.remove_key(&key), Some(2));
    assert!(!m.contains(&key));
    m.insert(String::from("/x"), 3);
    m.clear();
    assert_eq!(m.len(), 0);
}

#[test]
fn text_map_keys_by_text() {
    let mut m: TextMap<&str> = TextMap::new();
    m.insert(String::from("m1"), "um");
    m.insert(String::from("m2"), "dois");
    m.insert(String::from("m1"), "outro");
    assert_eq!(m.len(), 2);
    assert_eq!(m.get(&String::from("m1")), Some(&"outro"));
    assert_eq!(m.key_of(1), "m2");
    assert_eq!(m.remove_key(&String::from("m2")), Some("dois"));
    assert!(!m.contains(&String::from("m2")));
}
