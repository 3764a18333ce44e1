use wrd::assets::{DictionaryAsset, Language, LanguagesResource, WordListAsset};
use wrd::game::{
    CurrentInputResource, Game, GameEvent, GameOptions, GameState, GuessOutcome, Key, Settings,
};
use wrd::ui::{MenuSettingsResource, Screen, UiPlugin};
use wrd::verdict::GuessState;

fn words(ws: &[&str]) -> Vec<String> {
    ws.iter().map(|w| w.to_string()).collect()
}

fn catalog() -> LanguagesResource {
    LanguagesResource::new(vec![Language {
        name: "english-us".to_string(),
        keyboards: vec![],
        wordlists: vec![WordListAsset::new(words(&["HELLO", "AB", "WORLD"]))],
        dictionary: DictionaryAsset::new(words(&["HELLO", "WORLD", "WORDS", "HOLLY"])),
    }])
}

fn playing(word: &str) -> Game {
    let mut g = Game::new();
    assert!(g.finish_loading(word.to_string(), 0));
    g
}

#[test]
fn win_on_exact_guess() {
    let langs = catalog();
    let mut g = playing("HELLO");
    let r = g.submit_guess(&"HELLO".to_string(), &langs);
    assert_eq!(r, GuessOutcome::Won);
    assert_eq!(g.history().len(), 1);
    assert!(g.history().get_guesses()[0].correct());
    assert!(*g.state() == GameState::win());
}

#[test]
fn loss_after_last_attempt() {
    let langs = catalog();
    let mut g = playing("HELLO");
    assert!(g.open_settings());
    assert!(g.start_game(Settings { word_length: 5, max_attempts: 2 }, "HELLO".to_string(), 0));
    assert_eq!(g.submit_guess(&"WORLD".to_string(), &langs), GuessOutcome::Accepted);
    assert!(*g.state() == GameState::main());
    assert_eq!(g.submit_guess(&"WORDS".to_string(), &langs), GuessOutcome::Lost);
    assert!(*g.state() == GameState::loss());
    assert_eq!(g.history().len(), 2);
}

#[test]
fn wrong_length_is_ignored() {
    let langs = catalog();
    let mut g = playing("HELLO");
    assert_eq!(g.submit_guess(&"HELL".to_string(), &langs), GuessOutcome::WrongLength);
    assert_eq!(g.history().len(), 0);
    assert!(*g.state() == GameState::main());
    assert_eq!(g.state().options().unwrap().word, "HELLO");
}

#[test]
fn unknown_word_is_ignored() {
    let langs = catalog();
    let mut g = playing("HELLO");
    assert_eq!(g.submit_guess(&"ABCDE".to_string(), &langs), GuessOutcome::UnknownWord);
    assert_eq!(g.history().len(), 0);
}

#[test]
fn unknown_language_accepts_nothing() {
    let langs = catalog();
    let mut g = Game::new();
    assert!(g.finish_loading("HELLO".to_string(), 3));
    assert_eq!(g.submit_guess(&"HELLO".to_string(), &langs), GuessOutcome::UnknownWord);
}

#[test]
fn guesses_are_ignored_while_loading() {
    let langs = catalog();
    let mut g = Game::new();
    assert_eq!(g.submit_guess(&"HELLO".to_string(), &langs), GuessOutcome::NotPlaying);
    assert!(*g.state() == GameState::load());
}

#[test]
fn typing_and_submitting_with_keys() {
    let langs = catalog();
    let mut g = playing("HELLO");
    for c in "WORLDX".chars() {
        assert_eq!(g.handle_key(c, &langs), None);
    }
    assert_eq!(g.input().to_string(), "WORLD");
    assert_eq!(g.handle_key('\u{8}', &langs), None);
    assert_eq!(g.input().to_string(), "WORL");
    assert_eq!(g.handle_key('1', &langs), None);
    assert_eq!(g.handle_key('D', &langs), None);
    assert_eq!(g.handle_key('\r', &langs), Some(GuessOutcome::Accepted));
    assert!(g.input().contents().is_empty());
    assert_eq!(g.history().verdict_for('L'), GuessState::Correct);
    assert_eq!(g.history().verdict_for('W'), GuessState::Missing);
    assert_eq!(g.history().verdict_for('O'), GuessState::Misplaced);
}

#[test]
fn enter_with_short_input_is_wrong_length() {
    let langs = catalog();
    let mut g = playing("HELLO");
    g.handle_key('H', &langs);
    assert_eq!(g.handle_key('\n', &langs), Some(GuessOutcome::WrongLength));
    assert_eq!(g.input().to_string(), "H");
}

#[test]
fn menu_go_back_restores_round() {
    let langs = catalog();
    let mut g = playing("HELLO");
    g.submit_guess(&"WORLD".to_string(), &langs);
    assert!(!g.go_back());
    assert!(g.open_settings());
    assert!(*g.state() == GameState::menu());
    assert_eq!(g.submit_guess(&"HELLO".to_string(), &langs), GuessOutcome::NotPlaying);
    assert!(g.go_back());
    assert!(*g.state() == GameState::main());
    assert_eq!(g.history().len(), 1);
    assert_eq!(g.state().options().unwrap().word, "HELLO");
}

#[test]
fn start_game_clears_history() {
    let langs = catalog();
    let mut g = playing("HELLO");
    g.submit_guess(&"WORLD".to_string(), &langs);
    assert!(!g.start_game(Settings::default(), "WORLD".to_string(), 0));
    assert!(g.open_settings());
    assert!(g.start_game(Settings { word_length: 5, max_attempts: 3 }, "WORLD".to_string(), 0));
    assert_eq!(g.history().len(), 0);
    let o = g.state().options().unwrap();
    assert_eq!(o.word, "WORLD");
    assert_eq!(o.settings.max_attempts, 3);
    assert!(!g.go_back());
}

#[test]
fn retry_and_new_game_after_end() {
    let langs = catalog();
    let mut g = playing("HELLO");
    assert!(!g.retry());
    g.submit_guess(&"HELLO".to_string(), &langs);
    assert!(g.retry());
    assert!(*g.state() == GameState::main());
    assert_eq!(g.state().options().unwrap().word, "HELLO");
    assert_eq!(g.history().len(), 0);
    g.submit_guess(&"HELLO".to_string(), &langs);
    assert!(g.new_game("WORLD".to_string()));
    assert_eq!(g.state().options().unwrap().word, "WORLD");
    assert_eq!(g.history().len(), 0);
}

#[test]
fn load_finished_picks_default_language_word() {
    let langs = catalog();
    let mut g = Game::new();
    assert!(g.load_finished(&langs));
    let o = g.state().options().unwrap();
    assert_eq!(o.language, 0);
    assert!(o.word == "HELLO" || o.word == "WORLD");
    assert_eq!(o.settings, Settings::default());
    assert!(!g.load_finished(&langs));
}

#[test]
fn load_finished_needs_default_language() {
    let langs = LanguagesResource::new(vec![]);
    let mut g = Game::new();
    assert!(!g.load_finished(&langs));
    assert!(*g.state() == GameState::load());
}

#[test]
fn random_word_has_requested_length() {
    let langs = catalog();
    let l = langs.get(0).unwrap();
    for _ in 0..20 {
        let w = l.get_random_word(2).unwrap();
        assert_eq!(w, "AB");
    }
    assert_eq!(l.get_random_word(7), None);
    assert!(l.is_in_dictionary(&"HOLLY".to_string()));
    assert!(!l.is_in_dictionary(&"AB".to_string()));
}

#[test]
fn find_language_by_name() {
    let langs = catalog();
    assert_eq!(langs.find(&"english-us".to_string()), Some(0));
    assert_eq!(langs.find(&"русский".to_string()), None);
    assert_eq!(langs.len(), 1);
    assert!(langs.get(1).is_none());
}

#[test]
fn state_equality_ignores_round() {
    let a = GameState::Main(GameOptions {
        settings: Settings { word_length: 2, max_attempts: 9 },
        word: "AB".to_string(),
        language: 4,
    });
    assert!(a == GameState::main());
    assert!(a != GameState::menu());
    assert!(GameState::win() != GameState::loss());
}

#[test]
fn default_settings() {
    let s = Settings::default();
    assert_eq!(s.word_length, 5);
    assert_eq!(s.max_attempts, 5);
}

#[test]
fn input_respects_its_limit() {
    let mut i = CurrentInputResource::new();
    i.push('a', 2);
    i.push('b', 2);
    i.push('c', 2);
    assert_eq!(i.to_string(), "ab");
    i.backspace();
    assert_eq!(i.contents(), &vec!['a']);
    i.reset();
    i.backspace();
    assert!(i.contents().is_empty());
}

#[test]
fn screens_and_colours() {
    assert_eq!(UiPlugin::screen(&GameState::load()), None);
    assert_eq!(UiPlugin::screen(&GameState::main()), Some(Screen::Board));
    assert_eq!(UiPlugin::screen(&GameState::loss()), Some(Screen::Loss));
    let (fill, stroke, text) = GuessState::Correct.colors();
    assert_eq!((fill.r, fill.g, fill.b, fill.a), (28, 142, 62, 255));
    assert_eq!(stroke.a, 0);
    assert_eq!(text.r, 255);
    let (fill, stroke) = GuessState::Missing.block_colors();
    assert_eq!(fill.a, 0);
    assert_eq!((stroke.r, stroke.g, stroke.b), (83, 96, 100));
}

#[test]
fn keys_of_characters() {
    assert_eq!(Key::of_char('a'), Key::Letter('a'));
    assert_eq!(Key::of_char('Ж'), Key::Letter('Ж'));
    assert_eq!(Key::of_char('\u{8}'), Key::Backspace);
    assert_eq!(Key::of_char('\r'), Key::Enter);
    assert_eq!(Key::of_char('\n'), Key::Enter);
    assert_eq!(Key::of_char('7'), Key::Other);
}

#[test]
fn pressing_keys_and_events() {
    let langs = catalog();
    let mut g = playing("HELLO");
    for c in "HOLLY".chars() {
        assert_eq!(g.press(Key::Letter(c), &langs), None);
    }
    assert_eq!(g.press(Key::Other, &langs), None);
    assert_eq!(g.press(Key::Enter, &langs), Some(GuessOutcome::Accepted));
    let r = g.process_event(&GameEvent::Guess("HELLO".to_string()), &langs);
    assert_eq!(r, GuessOutcome::Won);
    assert_eq!(g.press(Key::Letter('A'), &langs), None);
    assert!(g.input().contents().is_empty());
}

#[test]
fn menu_clamps_and_starts() {
    let langs = catalog();
    let mut m = MenuSettingsResource::default();
    assert_eq!((m.word_length, m.max_attempts, m.selected_language), (5, 5, 0));
    m.set_word_length(1);
    assert_eq!(m.word_length, 2);
    m.set_word_length(40);
    assert_eq!(m.word_length, 16);
    m.set_word_length(2);
    m.set_max_attempts(0);
    assert_eq!(m.max_attempts, 2);
    m.set_max_attempts(13);
    assert_eq!(m.max_attempts, 12);
    let mut g = playing("HELLO");
    assert!(!m.start(&mut g, &langs));
    g.open_settings();
    assert!(m.start(&mut g, &langs));
    let o = g.state().options().unwrap();
    assert_eq!(o.word, "AB");
    assert_eq!(o.settings, Settings { word_length: 2, max_attempts: 12 });
    g.open_settings();
    m.set_word_length(9);
    assert!(!m.start(&mut g, &langs));
    assert!(*g.state() == GameState::menu());
}
