use wrd::assets::{
    DictionaryAsset, KeyboardLayoutAsset, LanguageAsset, LanguagesResource, WordListAsset,
};

fn s(x: &str) -> String {
    x.to_string()
}

#[test]
fn word_list_is_split_on_white_space() {
    let w = WordListAsset::from_text("  alpha beta\n\tgamma\u{3000}delta  \r\n");
    assert_eq!(w.words(), &vec![s("alpha"), s("beta"), s("gamma"), s("delta")]);
    let d = DictionaryAsset::from_text("один два");
    assert_eq!(d.words(), &vec![s("один"), s("два")]);
    assert!(d.contains(&s("два")));
    assert!(!d.contains(&s("три")));
}

#[test]
fn empty_text_has_no_words() {
    assert!(WordListAsset::from_text("").words().is_empty());
    assert!(DictionaryAsset::from_text(" \n\t ").words().is_empty());
}

#[test]
fn words_of_a_length() {
    let w = WordListAsset::new(vec![s("ab"), s("abc"), s("xy"), s("ёж")]);
    assert_eq!(w.with_length(2), vec![s("ab"), s("xy"), s("ёж")]);
    assert!(w.with_length(4).is_empty());
}

fn parts() -> (
    Vec<KeyboardLayoutAsset>,
    Vec<(String, WordListAsset)>,
    Vec<(String, DictionaryAsset)>,
) {
    let keyboards = vec![
        KeyboardLayoutAsset { name: s("qwerty"), layout: vec![vec!['q', 'w'], vec!['a']] },
        KeyboardLayoutAsset { name: s("azerty"), layout: vec![vec!['a', 'z']] },
    ];
    let lists = vec![
        (s("english-us-classic"), WordListAsset::from_text("HELLO WORLD")),
        (s("other"), WordListAsset::from_text("NOPE")),
    ];
    let dicts = vec![
        (s("english-us"), DictionaryAsset::from_text("HELLO WORLD HOLLY")),
        (s("english-us"), DictionaryAsset::from_text("SECOND")),
    ];
    (keyboards, lists, dicts)
}

#[test]
fn catalog_is_assembled_by_names() {
    let (keyboards, lists, dicts) = parts();
    let langs = vec![(
        s("english-us"),
        LanguageAsset {
            name: s("english-us"),
            keyboards: vec![s("qwerty")],
            wordlists: vec![s("english-us-classic")],
        },
    )];
    let c = LanguagesResource::assemble(&langs, &keyboards, &lists, &dicts).unwrap();
    assert_eq!(c.len(), 1);
    let l = c.get(0).unwrap();
    assert_eq!(l.name, "english-us");
    assert_eq!(l.keyboards.len(), 1);
    assert_eq!(l.keyboards[0].name, "qwerty");
    assert_eq!(l.keyboards[0].layout, vec![vec!['q', 'w'], vec!['a']]);
    assert_eq!(l.wordlists.len(), 1);
    assert_eq!(l.wordlists[0].words(), &vec![s("HELLO"), s("WORLD")]);
    assert!(l.is_in_dictionary(&s("HOLLY")));
    assert!(!l.is_in_dictionary(&s("SECOND")));
}

#[test]
fn catalog_needs_a_dictionary_per_language() {
    let (keyboards, lists, dicts) = parts();
    let langs = vec![(
        s("русский"),
        LanguageAsset { name: s("русский"), keyboards: vec![], wordlists: vec![] },
    )];
    assert!(LanguagesResource::assemble(&langs, &keyboards, &lists, &dicts).is_none());
}
