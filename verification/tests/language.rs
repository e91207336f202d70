use cfait::language::get_native_language_name;

#[test]
fn native_names() {
    assert_eq!(get_native_language_name("fr"), "Français");
    assert_eq!(get_native_language_name("pt-BR"), get_native_language_name("pt"));
    assert_eq!(get_native_language_name("de_AT"), "Deutsch");
    assert_eq!(get_native_language_name("zz"), "zz");
    assert_eq!(get_native_language_name("xyz-1"), "xyz-1");
}
