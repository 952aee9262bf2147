//! Languages and the flags that mark them.
use vstd::prelude::*;

use crate::text::same_text;

verus! {

/// The flag that marks a translation into `lang`.
pub open spec fn flag(lang: Seq<char>) -> Seq<char> {
    if lang == "en"@ {
        "🇬🇧"@
    } else if lang == "de"@ {
        "🇩🇪"@
    } else if lang == "uk"@ {
        "🇺🇦"@
    } else if lang == "fr"@ {
        "🇫🇷"@
    } else if lang == "es"@ {
        "🇪🇸"@
    } else if lang == "it"@ {
        "🇮🇹"@
    } else if lang == "pt"@ {
        "🇵🇹"@
    } else if lang == "pl"@ {
        "🇵🇱"@
    } else if lang == "nl"@ {
        "🇳🇱"@
    } else if lang == "ru"@ {
        "🇷🇺"@
    } else if lang == "zh"@ {
        "🇨🇳"@
    } else if lang == "ja"@ {
        "🇯🇵"@
    } else if lang == "ko"@ {
        "🇰🇷"@
    } else if lang == "ar"@ {
        "🇸🇦"@
    } else if lang == "tr"@ {
        "🇹🇷"@
    } else if lang == "sv"@ {
        "🇸🇪"@
    } else {
        "🌐"@
    }
}

/// The flag that marks a translation into `lang`; a globe where the language
/// has none.
pub fn flag_for_lang(lang: &str) -> (r: &'static str)
    ensures
        r@ == flag(lang@),
{
    if same_text(lang, "en") {
        "🇬🇧"
    } else if same_text(lang, "de") {
        "🇩🇪"
    } else if same_text(lang, "uk") {
        "🇺🇦"
    } else if same_text(lang, "fr") {
        "🇫🇷"
    } else if same_text(lang, "es") {
        "🇪🇸"
    } else if same_text(lang, "it") {
        "🇮🇹"
    } else if same_text(lang, "pt") {
        "🇵🇹"
    } else if same_text(lang, "pl") {
        "🇵🇱"
    } else if same_text(lang, "nl") {
        "🇳🇱"
    } else if same_text(lang, "ru") {
        "🇷🇺"
    } else if same_text(lang, "zh") {
        "🇨🇳"
    } else if same_text(lang, "ja") {
        "🇯🇵"
    } else if same_text(lang, "ko") {
        "🇰🇷"
    } else if same_text(lang, "ar") {
        "🇸🇦"
    } else if same_text(lang, "tr") {
        "🇹🇷"
    } else if same_text(lang, "sv") {
        "🇸🇪"
    } else {
        "🌐"
    }
}

/// The regional indicator symbol of the letter `c`.
pub open spec fn indicator(c: char) -> char {
    ((c as u32 - 'a' as u32 + 0x1f1e6) as u32) as char
}

/// The country whose flag marks a language, as its two letters: mostly the
/// language's own letters, and for seven languages others.
pub open spec fn country(lang: Seq<char>) -> Option<Seq<char>> {
    if lang == seq!['d', 'e'] || lang == seq!['f', 'r'] || lang == seq!['e', 's'] || lang == seq![
        'i',
        't',
    ] || lang == seq!['p', 't'] || lang == seq!['p', 'l'] || lang == seq!['n', 'l'] || lang == seq![
        'r',
        'u',
    ] || lang == seq!['t', 'r'] {
        Some(lang)
    } else if lang == seq!['e', 'n'] {
        Some(seq!['g', 'b'])
    } else if lang == seq!['u', 'k'] {
        Some(seq!['u', 'a'])
    } else if lang == seq!['z', 'h'] {
        Some(seq!['c', 'n'])
    } else if lang == seq!['j', 'a'] {
        Some(seq!['j', 'p'])
    } else if lang == seq!['k', 'o'] {
        Some(seq!['k', 'r'])
    } else if lang == seq!['a', 'r'] {
        Some(seq!['s', 'a'])
    } else if lang == seq!['s', 'v'] {
        Some(seq!['s', 'e'])
    } else {
        None
    }
}

/// A flag is made of the regional indicator symbols of its country; a language
/// without a country is marked by the globe.
pub proof fn law_flags(lang: Seq<char>)
    ensures
        match country(lang) {
            Some(letters) => flag(lang) == seq![indicator(letters[0]), indicator(letters[1])],
            None => flag(lang) == seq!['\u{1f310}'],
        },
{
    reveal_strlit("en");
    reveal_strlit("🇬🇧");
    reveal_strlit("de");
    reveal_strlit("🇩🇪");
    reveal_strlit("uk");
    reveal_strlit("🇺🇦");
    reveal_strlit("fr");
    reveal_strlit("🇫🇷");
    reveal_strlit("es");
    reveal_strlit("🇪🇸");
    reveal_strlit("it");
    reveal_strlit("🇮🇹");
    reveal_strlit("pt");
    reveal_strlit("🇵🇹");
    reveal_strlit("pl");
    reveal_strlit("🇵🇱");
    reveal_strlit("nl");
    reveal_strlit("🇳🇱");
    reveal_strlit("ru");
    reveal_strlit("🇷🇺");
    reveal_strlit("zh");
    reveal_strlit("🇨🇳");
    reveal_strlit("ja");
    reveal_strlit("🇯🇵");
    reveal_strlit("ko");
    reveal_strlit("🇰🇷");
    reveal_strlit("ar");
    reveal_strlit("🇸🇦");
    reveal_strlit("tr");
    reveal_strlit("🇹🇷");
    reveal_strlit("sv");
    reveal_strlit("🇸🇪");
    reveal_strlit("🌐");
    assert("en"@ =~= seq!['e', 'n']);
    assert("de"@ =~= seq!['d', 'e']);
    assert("uk"@ =~= seq!['u', 'k']);
    assert("fr"@ =~= seq!['f', 'r']);
    assert("es"@ =~= seq!['e', 's']);
    assert("it"@ =~= seq!['i', 't']);
    assert("pt"@ =~= seq!['p', 't']);
    assert("pl"@ =~= seq!['p', 'l']);
    assert("nl"@ =~= seq!['n', 'l']);
    assert("ru"@ =~= seq!['r', 'u']);
    assert("zh"@ =~= seq!['z', 'h']);
    assert("ja"@ =~= seq!['j', 'a']);
    assert("ko"@ =~= seq!['k', 'o']);
    assert("ar"@ =~= seq!['a', 'r']);
    assert("tr"@ =~= seq!['t', 'r']);
    assert("sv"@ =~= seq!['s', 'v']);
}

} // verus!
