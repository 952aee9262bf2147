use translate_bot::guard::{
    contains_introduced_model_control_token, has_repeated_ngram_loop, rejection_given_loop,
    translation_rejection_reason,
};

#[test]
fn rejects_verbose_reasoning_translation() {
    let translated = r#"4. **Step 1: Identify the source language and target language.**
* Source: English
* Target: German
5. **Step 2: Analyze the source text.**
* Text: `hallo`
6. **Step 3: Translate the content.**
* "hallo" in English is "hallo" in German.
7. **Step 4: Re-insert HTML tags.**
8. **Step 5: Final Review.**"#;

    assert_eq!(
        translation_rejection_reason("hallo", translated),
        Some("translation expanded far beyond source length")
    );
}

#[test]
fn rejects_repeated_phrase_loop() {
    let translated = "name more chat more chat more chat more chat more chat more chat more chat";

    assert_eq!(
        translation_rejection_reason("mehfrach chat", translated),
        Some("translation contains repeated phrase loop")
    );
}

#[test]
fn accepts_reasonable_short_translation() {
    assert_eq!(translation_rejection_reason("hallo", "привіт"), None);
}

#[test]
fn accepts_normal_text_with_reasoning_words() {
    let source = "Step 1: choose the source language and target language.";
    let translated = "Schritt 1: Waehlen Sie die Ausgangssprache und die Zielsprache.";

    assert_eq!(translation_rejection_reason(source, translated), None);
}

#[test]
fn rejects_backend_introduced_model_control_token() {
    assert_eq!(
        translation_rejection_reason("Hoffausgang Garten.", "<|channel>Вихід у сад."),
        Some("translation contains backend control token")
    );
}

#[test]
fn accepts_model_control_token_when_it_was_in_source() {
    assert_eq!(
        translation_rejection_reason("literal <|channel> token", "literales <|channel> Token"),
        None
    );
}

#[test]
fn length_limit_is_exact() {
    // 5 * 6 + 80 characters are allowed for a source of five.
    let varied = |n: usize| -> String { (0..n).map(|i| (b'a' + (i % 26) as u8) as char).collect() };
    assert_eq!(translation_rejection_reason("hallo", &varied(110)), None);
    assert_eq!(
        translation_rejection_reason("hallo", &varied(111)),
        Some("translation expanded far beyond source length")
    );
    // An empty source counts as one character.
    assert_eq!(translation_rejection_reason("", &varied(86)), None);
    assert!(translation_rejection_reason("", &varied(87)).is_some());
    // The absolute limit applies to long sources.
    let long = varied(900);
    assert_eq!(translation_rejection_reason(&long, &varied(1000)), None);
    assert!(translation_rejection_reason(&long, &varied(1001)).is_some());
}

#[test]
fn control_tokens_need_the_shape() {
    assert!(contains_introduced_model_control_token("x", "a <|im_start|> b"));
    assert!(!contains_introduced_model_control_token("x", "a <|> b"));
    assert!(!contains_introduced_model_control_token("x", "a <|with space> b"));
    assert!(!contains_introduced_model_control_token("x", "a <|unclosed"));
    assert!(contains_introduced_model_control_token("<|a>", "<|a> <|b>"));
}

#[test]
fn ngram_loops_ignore_punctuation_at_word_edges() {
    assert!(has_repeated_ngram_loop("a b, a b. (a b) a b!", 2, 4));
    assert!(!has_repeated_ngram_loop("a b a b a b a", 2, 4));
    assert!(has_repeated_ngram_loop("one two three one two three one two three", 3, 3));
    assert!(!has_repeated_ngram_loop("", 2, 4));
}

#[test]
fn phrase_loops_are_found_whatever_the_case() {
    assert_eq!(
        translation_rejection_reason("ein ganz normaler satz", "Ja Nein ja nein JA NEIN ja NEIN"),
        Some("translation contains repeated phrase loop")
    );
}

#[test]
fn rejection_follows_the_loop_verdict() {
    assert_eq!(
        rejection_given_loop("a", "b", true),
        Some("translation contains repeated phrase loop")
    );
    assert_eq!(rejection_given_loop("a", "b", false), None);
}

#[test]
fn a_token_inside_another_opening_is_passed_over() {
    let introduced = contains_introduced_model_control_token;
    assert!(introduced("", "<|x>"));
    assert!(introduced("", "<|a b> <|x>"));
    assert!(!introduced("", "<|a b <|x>"));
    assert!(!introduced("", "<|x"));
    assert!(!introduced("", "<|>"));
    assert!(!introduced("<|x>", "<|x>"));
    assert!(introduced("<|x>", "<|x><|y>"));
}
