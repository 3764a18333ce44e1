//! What the screen shows: which view each state brings up, and the colours
//! of keys and letter blocks.

use vstd::prelude::*;
use crate::assets::LanguagesResource;
use crate::game::{Game, GameState, Settings, DEFAULT_MAX_ATTEMPTS, DEFAULT_WORD_LENGTH};
use crate::verdict::GuessState;

verus! {

/// A colour: red, green, blue and opacity.
#[derive(Debug, Clone, Copy, PartialEq, Eq, Structural)]
pub struct Rgba {
    pub r: u8,
    pub g: u8,
    pub b: u8,
    pub a: u8,
}

/// The opaque colour of the given red, green and blue.
pub open spec fn rgb(r: u8, g: u8, b: u8) -> Rgba {
    Rgba { r, g, b, a: 255 }
}

/// An opaque colour.
pub fn from_rgb(r: u8, g: u8, b: u8) -> (c: Rgba)
    ensures
        c == (Rgba { r, g, b, a: 255 }),
{
    Rgba { r, g, b, a: 255 }
}

/// The green of correct letters.
pub fn green() -> (c: Rgba)
    ensures
        c == rgb(28, 142, 62),
{
    from_rgb(28, 142, 62)
}

/// The orange of misplaced letters.
pub fn orange() -> (c: Rgba)
    ensures
        c == rgb(170, 103, 13),
{
    from_rgb(170, 103, 13)
}

/// The gray of outlines and of letters known to be missing.
pub fn gray() -> (c: Rgba)
    ensures
        c == rgb(83, 96, 100),
{
    from_rgb(83, 96, 100)
}

/// The dark gray of keys that are not green or orange.
pub fn dark_gray() -> (c: Rgba)
    ensures
        c == rgb(10, 10, 15),
{
    from_rgb(10, 10, 15)
}

/// Opaque white.
pub fn white() -> (c: Rgba)
    ensures
        c == rgb(255, 255, 255),
{
    from_rgb(255, 255, 255)
}

/// Fully transparent.
pub fn transparent() -> (c: Rgba)
    ensures
        c == (Rgba { r: 0, g: 0, b: 0, a: 0 }),
{
    Rgba { r: 0, g: 0, b: 0, a: 0 }
}

impl GuessState {
    /// The fill, outline and text colours of a keyboard key with this verdict.
    pub fn colors(&self) -> (r: (Rgba, Rgba, Rgba))
        ensures
            r == (match *self {
                GuessState::Unknown => (rgb(10, 10, 15), rgb(83, 96, 100), rgb(255, 255, 255)),
                GuessState::Missing => (rgb(10, 10, 15), rgb(83, 96, 100), rgb(83, 96, 100)),
                GuessState::Misplaced => (rgb(170, 103, 13), (Rgba { r: 0, g: 0, b: 0, a: 0 }), rgb(255, 255, 255)),
                GuessState::Correct => (rgb(28, 142, 62), (Rgba { r: 0, g: 0, b: 0, a: 0 }), rgb(255, 255, 255)),
            }),
    {
        match self {
            GuessState::Unknown => (dark_gray(), gray(), white()),
            GuessState::Missing => (dark_gray(), gray(), gray()),
            GuessState::Misplaced => (orange(), transparent(), white()),
            GuessState::Correct => (green(), transparent(), white()),
        }
    }

    /// The fill and outline colours of a letter block with this verdict.
    pub fn block_colors(&self) -> (r: (Rgba, Rgba))
        ensures
            r == (match *self {
                GuessState::Misplaced => (rgb(170, 103, 13), (Rgba { r: 0, g: 0, b: 0, a: 0 })),
                GuessState::Correct => (rgb(28, 142, 62), (Rgba { r: 0, g: 0, b: 0, a: 0 })),
                _ => ((Rgba { r: 0, g: 0, b: 0, a: 0 }), rgb(83, 96, 100)),
            }),
    {
        match self {
            GuessState::Misplaced => (orange(), transparent()),
            GuessState::Correct => (green(), transparent()),
            _ => (transparent(), gray()),
        }
    }
}

/// A view of the game.
#[derive(Debug, Clone, Copy, PartialEq, Eq, Structural)]
pub enum Screen {
    /// The board: past guesses, the guess being typed, and the keyboard.
    Board,
    /// The settings menu.
    Menu,
    /// The end of a won round, with its share code.
    Win,
    /// The end of a lost round.
    Loss,
}

/// The presentation layer: it brings up one view per state of the game.
pub struct UiPlugin;

impl UiPlugin {
    /// The view a state brings up; none while loading.
    pub fn screen(state: &GameState) -> (r: Option<Screen>)
        ensures
            r == (match *state {
                GameState::Load => None,
                GameState::Main(_) => Some(Screen::Board),
                GameState::Menu(_) => Some(Screen::Menu),
                GameState::Win(_) => Some(Screen::Win),
                GameState::Loss(_) => Some(Screen::Loss),
            }),
    {
        match state {
            GameState::Load => None,
            GameState::Main(_) => Some(Screen::Board),
            GameState::Menu(_) => Some(Screen::Menu),
            GameState::Win(_) => Some(Screen::Win),
            GameState::Loss(_) => Some(Screen::Loss),
        }
    }
}

/// Shortest word the menu offers.
pub const MIN_WORD_LENGTH: usize = 2;

/// Longest word the menu offers.
pub const MAX_WORD_LENGTH: usize = 16;

/// Fewest guesses the menu offers.
pub const MIN_ATTEMPTS: usize = 2;

/// Most guesses the menu offers.
pub const MAX_ATTEMPTS: usize = 12;

/// `n` brought into `lo..=hi`.
pub open spec fn clamped(n: usize, lo: usize, hi: usize) -> usize {
    if n < lo {
        lo
    } else if n > hi {
        hi
    } else {
        n
    }
}

/// What the settings menu has selected for the next round.
pub struct MenuSettingsResource {
    pub word_length: usize,
    pub max_attempts: usize,
    /// Index of the selected language in the catalog.
    pub selected_language: usize,
}

impl Default for MenuSettingsResource {
    fn default() -> (r: MenuSettingsResource)
        ensures
            r.word_length == DEFAULT_WORD_LENGTH,
            r.max_attempts == DEFAULT_MAX_ATTEMPTS,
            r.selected_language == 0,
    {
        MenuSettingsResource {
            word_length: DEFAULT_WORD_LENGTH,
            max_attempts: DEFAULT_MAX_ATTEMPTS,
            selected_language: 0,
        }
    }
}

impl MenuSettingsResource {
    /// Selects a word length, kept within what the menu offers.
    pub fn set_word_length(&mut self, n: usize)
        ensures
            final(self).word_length == clamped(n, MIN_WORD_LENGTH, MAX_WORD_LENGTH),
            final(self).max_attempts == old(self).max_attempts,
            final(self).selected_language == old(self).selected_language,
    {
        self.word_length = if n < MIN_WORD_LENGTH {
            MIN_WORD_LENGTH
        } else if n > MAX_WORD_LENGTH {
            MAX_WORD_LENGTH
        } else {
            n
        };
    }

    /// Selects a number of guesses, kept within what the menu offers.
    pub fn set_max_attempts(&mut self, n: usize)
        ensures
            final(self).max_attempts == clamped(n, MIN_ATTEMPTS, MAX_ATTEMPTS),
            final(self).word_length == old(self).word_length,
            final(self).selected_language == old(self).selected_language,
    {
        self.max_attempts = if n < MIN_ATTEMPTS {
            MIN_ATTEMPTS
        } else if n > MAX_ATTEMPTS {
            MAX_ATTEMPTS
        } else {
            n
        };
    }

    /// The settings of the round the menu would start.
    pub fn settings(&self) -> (r: Settings)
        ensures
            r == (Settings { word_length: self.word_length, max_attempts: self.max_attempts }),
    {
        Settings { word_length: self.word_length, max_attempts: self.max_attempts }
    }

    /// Starts the round selected in the menu, on a random word of the
    /// selected length from the selected language. Nothing happens when the
    /// menu is not open, or there is no such language or word.
    pub fn start(&self, game: &mut Game, languages: &LanguagesResource) -> (r: bool)
        requires
            old(game).wf(),
        ensures
            final(game).wf(),
            r <==> old(game).current() is Menu && self.selected_language < languages@.len()
                && languages@[self.selected_language as int].candidates(
                self.word_length as nat,
            ).len() > 0,
            r ==> (final(game).current() matches GameState::Main(o) && o.settings == (Settings {
                word_length: self.word_length,
                max_attempts: self.max_attempts,
            }) && o.language == self.selected_language && self.selected_language
                < languages@.len() && languages@[self.selected_language as int].candidates(
                self.word_length as nat,
            ).contains(o.word@)),
            r ==> final(game).guesses().len() == 0,
            !r ==> *final(game) == *old(game),
    {
        if !matches!(game.state(), GameState::Menu(_)) {
            return false;
        }
        let word = match languages.get(self.selected_language) {
            Some(language) => match language.get_random_word(self.word_length) {
                Some(w) => w,
                None => {
                    return false;
                },
            },
            None => {
                return false;
            },
        };
        game.start_game(self.settings(), word, self.selected_language)
    }
}

} // verus!
