use translate_bot::lang::flag_for_lang;

#[test]
fn flags_of_known_languages() {
    let known = [
        ("en", "🇬🇧"),
        ("de", "🇩🇪"),
        ("uk", "🇺🇦"),
        ("fr", "🇫🇷"),
        ("es", "🇪🇸"),
        ("it", "🇮🇹"),
        ("pt", "🇵🇹"),
        ("pl", "🇵🇱"),
        ("nl", "🇳🇱"),
        ("ru", "🇷🇺"),
        ("zh", "🇨🇳"),
        ("ja", "🇯🇵"),
        ("ko", "🇰🇷"),
        ("ar", "🇸🇦"),
        ("tr", "🇹🇷"),
        ("sv", "🇸🇪"),
    ];
    for (lang, flag) in known {
        assert_eq!(flag_for_lang(lang), flag);
    }
}

#[test]
fn unknown_languages_get_the_globe() {
    assert_eq!(flag_for_lang("xx"), "🌐");
    assert_eq!(flag_for_lang(""), "🌐");
    assert_eq!(flag_for_lang("EN"), "🌐");
}
