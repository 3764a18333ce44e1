use std::collections::hash_map::DefaultHasher;
use std::hash::{Hash, Hasher};
use wrd::game::Settings;
use wrd::history::HistoryResource;
use wrd::verdict::{evaluate, Guess, GuessState};

fn chars(s: &str) -> Vec<char> {
    s.chars().collect()
}

#[test]
fn duplicate_letters_follow_the_pool() {
    let r = evaluate(&chars("ABCA"), &chars("AABB"));
    assert_eq!(
        r,
        vec![
            GuessState::Correct,
            GuessState::Misplaced,
            GuessState::Misplaced,
            GuessState::Missing
        ]
    );
}

#[test]
fn one_verdict_per_position_and_correct_count() {
    let secret = chars("CRANE");
    let guess = chars("CARES");
    let r = evaluate(&secret, &guess);
    assert_eq!(r.len(), 5);
    let correct = r.iter().filter(|v| **v == GuessState::Correct).count();
    let equal = secret.iter().zip(guess.iter()).filter(|(a, b)| a == b).count();
    assert_eq!(correct, equal);
    assert_eq!(
        r,
        vec![
            GuessState::Correct,
            GuessState::Misplaced,
            GuessState::Misplaced,
            GuessState::Misplaced,
            GuessState::Missing
        ]
    );
}

#[test]
fn repeated_guess_letter_with_single_secret_copy() {
    let r = evaluate(&chars("HOUSE"), &chars("OOZES"));
    assert_eq!(
        r,
        vec![
            GuessState::Missing,
            GuessState::Correct,
            GuessState::Missing,
            GuessState::Misplaced,
            GuessState::Misplaced
        ]
    );
}

#[test]
fn empty_guess_scores_nothing() {
    let r = evaluate(&Vec::new(), &Vec::new());
    assert!(r.is_empty());
}

#[test]
fn scored_guess_pairs_and_correctness() {
    let g = Guess::score(&chars("HELLO"), &chars("HELLO"));
    assert!(g.correct());
    assert_eq!(g.get_chars(), chars("HELLO"));
    let g = Guess::score(&chars("HELLO"), &chars("HOLLY"));
    assert!(!g.correct());
    assert_eq!(g.get()[1], ('O', GuessState::Misplaced));
    assert_eq!(g.get()[4], ('Y', GuessState::Missing));
}

#[test]
fn aggregate_upgrades_missing_to_correct() {
    let mut h = HistoryResource::new();
    h.guess(Guess::score(&chars("ab"), &chars("xb")));
    assert_eq!(h.verdict_for('x'), GuessState::Missing);
    h.guess(Guess::score(&chars("xb"), &chars("xb")));
    assert_eq!(h.verdict_for('x'), GuessState::Correct);
    assert_eq!(h.len(), 2);
}

#[test]
fn aggregate_never_downgrades_correct() {
    let mut h = HistoryResource::new();
    h.guess(Guess::score(&chars("xb"), &chars("xb")));
    h.guess(Guess::score(&chars("ab"), &chars("xb")));
    assert_eq!(h.verdict_for('x'), GuessState::Correct);
    assert_eq!(h.verdict_for('q'), GuessState::Unknown);
    assert_eq!(h.guessed_chars().len(), 2);
}

#[test]
fn aggregate_keeps_misplaced_over_missing() {
    let mut h = HistoryResource::new();
    h.guess(Guess::score(&chars("ax"), &chars("xb")));
    assert_eq!(h.verdict_for('x'), GuessState::Misplaced);
    h.guess(Guess::score(&chars("ab"), &chars("xb")));
    assert_eq!(h.verdict_for('x'), GuessState::Misplaced);
}

#[test]
fn clear_forgets_everything() {
    let mut h = HistoryResource::new();
    h.guess(Guess::score(&chars("ab"), &chars("ab")));
    h.clear();
    assert_eq!(h.len(), 0);
    assert!(h.get_guesses().is_empty());
    assert!(h.guessed_chars().is_empty());
}

#[test]
fn share_string_is_repeatable_and_exact() {
    let mut h = HistoryResource::new();
    h.guess(Guess::score(&chars("HELLO"), &chars("HOLLY")));
    h.guess(Guess::score(&chars("HELLO"), &chars("HELLO")));
    let settings = Settings { word_length: 5, max_attempts: 6 };
    let first = h.share_string("HELLO", &settings);
    let second = h.share_string("HELLO", &settings);
    assert_eq!(first, second);
    let mut hasher = DefaultHasher::new();
    "HELLO".hash(&mut hasher);
    let expected = format!(
        "wordlrs {} 2/6\n{}\n{}\n",
        hasher.finish(),
        "\u{1F7E9}\u{1F7E8}\u{1F7E9}\u{1F7E9}\u{2B1B}",
        "\u{1F7E9}\u{1F7E9}\u{1F7E9}\u{1F7E9}\u{1F7E9}"
    );
    assert_eq!(first, expected);
}

#[test]
fn share_string_of_empty_history() {
    let h = HistoryResource::new();
    let s = h.share_string("ab", &Settings { word_length: 2, max_attempts: 10 });
    assert!(s.starts_with("wordlrs "));
    assert!(s.ends_with(" 0/10\n"));
}
