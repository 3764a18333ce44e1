//! The flow of the game: loading, the board, the settings menu, and the end
//! of a round, with the handling of a submitted guess.

use vstd::prelude::*;
use crate::assets::LanguagesResource;
use crate::history::HistoryResource;
use crate::text::{alphabetic, chars_of, is_alphabetic_char, string_of};
use crate::verdict::{all_correct, lemma_all_correct_iff_equal, scored, Guess, GuessState};

verus! {

/// Length of the secret word of the first round.
pub const DEFAULT_WORD_LENGTH: usize = 5;

/// Guesses allowed in the first round.
pub const DEFAULT_MAX_ATTEMPTS: usize = 5;

/// The shape of a round: how long the word is and how many guesses it allows.
#[derive(Debug, Clone, Copy, PartialEq, Eq, Structural)]
pub struct Settings {
    pub word_length: usize,
    pub max_attempts: usize,
}

impl Default for Settings {
    fn default() -> (r: Settings)
        ensures
            r.word_length == DEFAULT_WORD_LENGTH,
            r.max_attempts == DEFAULT_MAX_ATTEMPTS,
    {
        Settings { max_attempts: DEFAULT_MAX_ATTEMPTS, word_length: DEFAULT_WORD_LENGTH }
    }
}

/// Everything a round needs: its settings, its secret word, and the index
/// of its language in the catalog.
pub struct GameOptions {
    pub settings: Settings,
    pub word: String,
    pub language: usize,
}

impl GameOptions {
    /// An identical copy.
    pub fn copy(&self) -> (r: GameOptions)
        ensures
            r == *self,
    {
        GameOptions { settings: self.settings, word: self.word.clone(), language: self.language }
    }
}

impl Default for GameOptions {
    fn default() -> (r: GameOptions)
        ensures
            r.settings.word_length == DEFAULT_WORD_LENGTH,
            r.settings.max_attempts == DEFAULT_MAX_ATTEMPTS,
            r.word@.len() == 0,
            r.language == 0,
    {
        GameOptions { settings: Settings::default(), word: String::new(), language: 0 }
    }
}

/// Where the game stands. Every state but `Load` carries its round.
///
/// `==` compares the variants only and ignores the rounds they carry.
pub enum GameState {
    Load,
    Main(GameOptions),
    Menu(GameOptions),
    Win(GameOptions),
    Loss(GameOptions),
}

impl GameState {
    /// The variant, as a number.
    pub open spec fn tag(&self) -> nat {
        match self {
            GameState::Load => 0,
            GameState::Main(_) => 1,
            GameState::Menu(_) => 2,
            GameState::Win(_) => 3,
            GameState::Loss(_) => 4,
        }
    }

    /// The round a state carries.
    pub open spec fn round(&self) -> Option<GameOptions> {
        match self {
            GameState::Load => None,
            GameState::Main(o) => Some(*o),
            GameState::Menu(o) => Some(*o),
            GameState::Win(o) => Some(*o),
            GameState::Loss(o) => Some(*o),
        }
    }

    fn tag_of(&self) -> (r: u8)
        ensures
            r as nat == self.tag(),
    {
        match self {
            GameState::Load => 0,
            GameState::Main(_) => 1,
            GameState::Menu(_) => 2,
            GameState::Win(_) => 3,
            GameState::Loss(_) => 4,
        }
    }

    /// The loading state.
    pub fn load() -> (r: Self)
        ensures
            r is Load,
    {
        GameState::Load
    }

    /// The board, with a default round.
    pub fn main() -> (r: Self)
        ensures
            r is Main,
    {
        GameState::Main(GameOptions::default())
    }

    /// The settings menu, with a default round.
    pub fn menu() -> (r: Self)
        ensures
            r is Menu,
    {
        GameState::Menu(GameOptions::default())
    }

    /// The end of a won round, with a default round.
    pub fn win() -> (r: Self)
        ensures
            r is Win,
    {
        GameState::Win(GameOptions::default())
    }

    /// The end of a lost round, with a default round.
    pub fn loss() -> (r: Self)
        ensures
            r is Loss,
    {
        GameState::Loss(GameOptions::default())
    }

    /// The round this state carries, if any.
    pub fn options(&self) -> (r: Option<&GameOptions>)
        ensures
            r matches Some(o) ==> self.round() == Some(*o),
            r is None <==> self is Load,
    {
        match self {
            GameState::Load => None,
            GameState::Main(o) => Some(o),
            GameState::Menu(o) => Some(o),
            GameState::Win(o) => Some(o),
            GameState::Loss(o) => Some(o),
        }
    }
}

impl PartialEq for GameState {
    fn eq(&self, other: &GameState) -> (r: bool)
        ensures
            r == (self.tag() == other.tag()),
    {
        self.tag_of() == other.tag_of()
    }
}

impl vstd::std_specs::cmp::PartialEqSpecImpl for GameState {
    open spec fn obeys_eq_spec() -> bool {
        true
    }

    open spec fn eq_spec(&self, other: &GameState) -> bool {
        self.tag() == other.tag()
    }
}

/// The guess being typed.
pub struct CurrentInputResource(Vec<char>);

impl View for CurrentInputResource {
    type V = Seq<char>;

    closed spec fn view(&self) -> Seq<char> {
        self.0@
    }
}

impl CurrentInputResource {
    /// Nothing typed.
    pub fn new() -> (r: CurrentInputResource)
        ensures
            r@ == Seq::<char>::empty(),
    {
        CurrentInputResource(Vec::new())
    }

    /// The characters typed so far.
    pub fn contents(&self) -> (r: &Vec<char>)
        ensures
            r@ == self@,
    {
        &self.0
    }

    /// Types `character`, unless `max` characters are typed already.
    pub fn push(&mut self, character: char, max: usize)
        ensures
            final(self)@ == (if old(self)@.len() < max {
                old(self)@.push(character)
            } else {
                old(self)@
            }),
    {
        if self.0.len() < max {
            self.0.push(character);
        }
    }

    /// Removes the last character typed, if any.
    pub fn backspace(&mut self)
        ensures
            final(self)@ == (if old(self)@.len() == 0 {
                old(self)@
            } else {
                old(self)@.drop_last()
            }),
    {
        self.0.pop();
    }

    /// Removes everything typed.
    pub fn reset(&mut self)
        ensures
            final(self)@ == Seq::<char>::empty(),
    {
        self.0.truncate(0);
        assert(self@ =~= Seq::<char>::empty());
    }

    /// What is typed, as a string.
    pub fn to_string(&self) -> (r: String)
        ensures
            r@ == self@,
    {
        string_of(&self.0)
    }
}

impl Default for CurrentInputResource {
    fn default() -> (r: CurrentInputResource)
        ensures
            r@ == Seq::<char>::empty(),
    {
        CurrentInputResource::new()
    }
}

/// What the player does during a round.
pub enum GameEvent {
    /// Submits the given text as a guess.
    Guess(String),
}

/// A key of the keyboard, as the game sees it.
#[derive(Debug, Clone, Copy, PartialEq, Eq, Structural)]
pub enum Key {
    /// A letter to type.
    Letter(char),
    /// Erases the last letter typed.
    Backspace,
    /// Submits what is typed.
    Enter,
    /// Any other key, which does nothing.
    Other,
}

/// The key a typed character stands for: a letter when it is alphabetic,
/// then backspace, then enter for a carriage return or a line feed.
pub open spec fn key_of(c: char) -> Key {
    if is_alphabetic_char(c) {
        Key::Letter(c)
    } else if c == BACKSPACE {
        Key::Backspace
    } else if c == '\r' || c == '\n' {
        Key::Enter
    } else {
        Key::Other
    }
}

impl Key {
    /// The key a typed character stands for.
    pub fn of_char(c: char) -> (r: Key)
        ensures
            r == key_of(c),
    {
        if alphabetic(c) {
            Key::Letter(c)
        } else if c == BACKSPACE {
            Key::Backspace
        } else if c == '\r' || c == '\n' {
            Key::Enter
        } else {
            Key::Other
        }
    }
}

/// What became of a submitted guess.
#[derive(Debug, Clone, Copy, PartialEq, Eq, Structural)]
pub enum GuessOutcome {
    /// No round is being played: the guess is ignored.
    NotPlaying,
    /// The guess does not have as many characters as the secret word: it is ignored.
    WrongLength,
    /// The language's dictionary does not have the guess: it is ignored.
    UnknownWord,
    /// The guess is recorded and the round goes on.
    Accepted,
    /// The guess is recorded and is the secret word: the round is won.
    Won,
    /// The guess is recorded, is not the secret word, and was the last one allowed.
    Lost,
}

/// Name of the language of the first round.
pub const DEFAULT_LANGUAGE: &'static str = "english-us";

/// The character that erases the last one typed.
pub const BACKSPACE: char = '\u{8}';

/// What becomes of a guess of `guess` in a round `o` with `before` guesses
/// made so far, where `known` tells whether the dictionary has the guess.
pub open spec fn outcome_of(o: GameOptions, before: nat, guess: Seq<char>, known: bool) -> GuessOutcome {
    if guess.len() != o.word@.len() {
        GuessOutcome::WrongLength
    } else if !known {
        GuessOutcome::UnknownWord
    } else if guess == o.word@ {
        GuessOutcome::Won
    } else if before + 1 >= o.settings.max_attempts {
        GuessOutcome::Lost
    } else {
        GuessOutcome::Accepted
    }
}

/// The state a round `o` is in after a recorded guess with this outcome.
pub open spec fn state_after(o: GameOptions, outcome: GuessOutcome) -> GameState {
    match outcome {
        GuessOutcome::Won => GameState::Win(o),
        GuessOutcome::Lost => GameState::Loss(o),
        _ => GameState::Main(o),
    }
}

/// Whether the outcome records the guess.
pub open spec fn records(outcome: GuessOutcome) -> bool {
    outcome is Accepted || outcome is Won || outcome is Lost
}

/// A game, owned in one place: the current state with the state beneath
/// it (the board under an open menu), the history of the round, and the
/// guess being typed.
pub struct Game {
    state: GameState,
    beneath: Option<GameState>,
    history: HistoryResource,
    input: CurrentInputResource,
}

/// `after` is `before` once `guess` was submitted with the outcome `r`.
pub open spec fn submitted(
    before: Game,
    after: Game,
    guess: Seq<char>,
    languages: LanguagesResource,
    r: GuessOutcome,
) -> bool {
    match before.current() {
        GameState::Main(o) => {
            let outcome = outcome_of(
                o,
                before.guesses().len(),
                guess,
                languages.accepts(o.language as int, guess),
            );
            &&& r == outcome
            &&& if records(outcome) {
                &&& after.current() == state_after(o, outcome)
                &&& after.underneath() == before.underneath()
                &&& after.guesses() == before.guesses().push(scored(o.word@, guess))
                &&& after.typed() == Seq::<char>::empty()
            } else {
                after == before
            }
        },
        _ => r == GuessOutcome::NotPlaying && after == before,
    }
}

/// A guess whose length differs from the secret word's changes nothing:
/// the history keeps its length and the state stays as it was.
pub proof fn lemma_wrong_length_changes_nothing(
    before: Game,
    after: Game,
    guess: Seq<char>,
    languages: LanguagesResource,
    r: GuessOutcome,
)
    requires
        submitted(before, after, guess, languages, r),
        before.current() matches GameState::Main(o) && guess.len() != o.word@.len(),
    ensures
        r == GuessOutcome::WrongLength,
        after.guesses().len() == before.guesses().len(),
        after.current() == before.current(),
        after == before,
{
}

/// A round is won only by a guess whose every position is `Correct`, and
/// such a guess, once accepted, always wins.
pub proof fn lemma_win_only_by_all_correct(
    before: Game,
    after: Game,
    guess: Seq<char>,
    languages: LanguagesResource,
    r: GuessOutcome,
)
    requires
        submitted(before, after, guess, languages, r),
        before.current() is Main,
        records(r),
    ensures
        after.current() is Win <==> all_correct(
            scored(before.current()->Main_0.word@, guess),
        ),
        after.guesses().last() == scored(before.current()->Main_0.word@, guess),
{
    lemma_all_correct_iff_equal(before.current()->Main_0.word@, guess);
}

/// `after` is `before` once `key` was pressed, with the result `r`.
pub open spec fn pressed(
    before: Game,
    after: Game,
    key: Key,
    languages: LanguagesResource,
    r: Option<GuessOutcome>,
) -> bool {
    match before.current() {
        GameState::Main(o) => match key {
            Key::Letter(c) => {
                &&& r is None
                &&& after.current() == before.current()
                &&& after.underneath() == before.underneath()
                &&& after.guesses() == before.guesses()
                &&& after.typed() == (if before.typed().len() < o.word@.len() {
                    before.typed().push(c)
                } else {
                    before.typed()
                })
            },
            Key::Backspace => {
                &&& r is None
                &&& after.current() == before.current()
                &&& after.underneath() == before.underneath()
                &&& after.guesses() == before.guesses()
                &&& after.typed() == (if before.typed().len() == 0 {
                    before.typed()
                } else {
                    before.typed().drop_last()
                })
            },
            Key::Enter => r matches Some(x) && submitted(
                before,
                after,
                before.typed(),
                languages,
                x,
            ),
            Key::Other => r is None && after == before,
        },
        _ => r is None && after == before,
    }
}

impl Game {
    /// The current state.
    pub closed spec fn current(&self) -> GameState {
        self.state
    }

    /// The state beneath the current one, if any.
    pub closed spec fn underneath(&self) -> Option<GameState> {
        self.beneath
    }

    /// The guesses of the round, each scored.
    pub closed spec fn guesses(&self) -> Seq<Seq<(char, GuessState)>> {
        self.history@
    }

    /// The aggregate verdict of each character guessed in the round.
    pub closed spec fn aggregate(&self) -> Map<char, GuessState> {
        self.history.aggregate()
    }

    /// The guess being typed.
    pub closed spec fn typed(&self) -> Seq<char> {
        self.input@
    }

    /// The game is consistent: the history's aggregate matches its guesses,
    /// a round being played has not used more guesses than it allows,
    /// nothing is guessed while loading, and a state lies beneath exactly
    /// when the menu is open, and it is then the board.
    pub closed spec fn wf(&self) -> bool {
        &&& self.history.wf()
        &&& (self.state is Load ==> self.history@.len() == 0)
        &&& (self.state matches GameState::Main(o) ==> self.history@.len()
            <= o.settings.max_attempts)
        &&& (self.state is Menu <==> self.beneath is Some)
        &&& (self.beneath matches Some(b) ==> b matches GameState::Main(o)
            && self.history@.len() <= o.settings.max_attempts)
    }

    /// While a round is played it has not used more guesses than it
    /// allows; with the menu open, the same holds of the round beneath.
    pub proof fn lemma_within_attempts(&self)
        requires
            self.wf(),
        ensures
            self.current() matches GameState::Main(o) ==> self.guesses().len()
                <= o.settings.max_attempts,
            self.underneath() matches Some(b) ==> b matches GameState::Main(o)
                && self.guesses().len() <= o.settings.max_attempts,
    {
    }

    /// A game that is loading, with nothing guessed or typed.
    pub fn new() -> (r: Game)
        ensures
            r.wf(),
            r.current() is Load,
            r.underneath() is None,
            r.guesses() == Seq::<Seq<(char, GuessState)>>::empty(),
            r.typed() == Seq::<char>::empty(),
    {
        Game {
            state: GameState::Load,
            beneath: None,
            history: HistoryResource::new(),
            input: CurrentInputResource::new(),
        }
    }

    /// The current state.
    pub fn state(&self) -> (r: &GameState)
        ensures
            *r == self.current(),
    {
        &self.state
    }

    /// The history of the round.
    pub fn history(&self) -> (r: &HistoryResource)
        requires
            self.wf(),
        ensures
            r@ == self.guesses(),
            r.aggregate() == self.aggregate(),
            r.wf(),
    {
        &self.history
    }

    /// The guess being typed.
    pub fn input(&self) -> (r: &CurrentInputResource)
        ensures
            r@ == self.typed(),
    {
        &self.input
    }

    /// Submits `guess` in the round being played.
    ///
    /// A guess that does not have as many characters as the secret word, or
    /// that the round's language does not accept, changes nothing. Otherwise
    /// it is scored and recorded, the typed input is cleared, and the round
    /// is won when the guess is the secret word, lost when it used the last
    /// guess allowed, and goes on else.
    pub fn submit_guess(&mut self, guess: &String, languages: &LanguagesResource) -> (r: GuessOutcome)
        requires
            old(self).wf(),
        ensures
            final(self).wf(),
            submitted(*old(self), *final(self), guess@, *languages, r),
    {
        let o = match &self.state {
            GameState::Main(o) => o.copy(),
            _ => {
                return GuessOutcome::NotPlaying;
            },
        };
        let secret = chars_of(o.word.as_str());
        let typed = chars_of(guess.as_str());
        if typed.len() != secret.len() {
            return GuessOutcome::WrongLength;
        }
        if !languages.accepts_word(o.language, guess) {
            return GuessOutcome::UnknownWord;
        }
        let scored_guess = Guess::score(&secret, &typed);
        let won = scored_guess.correct();
        proof {
            lemma_all_correct_iff_equal(secret@, typed@);
        }
        self.history.guess(scored_guess);
        self.input.reset();
        if won {
            self.state = GameState::Win(o);
            GuessOutcome::Won
        } else if self.history.len() >= o.settings.max_attempts {
            self.state = GameState::Loss(o);
            GuessOutcome::Lost
        } else {
            GuessOutcome::Accepted
        }
    }

    /// Leaves loading for the board, with a round of the default settings
    /// on `word` in the language at `language`. Only while loading.
    pub fn finish_loading(&mut self, word: String, language: usize) -> (r: bool)
        requires
            old(self).wf(),
        ensures
            final(self).wf(),
            r == old(self).current() is Load,
            r ==> final(self).current() == GameState::Main(
                (GameOptions {
                    settings: (Settings {
                        word_length: DEFAULT_WORD_LENGTH,
                        max_attempts: DEFAULT_MAX_ATTEMPTS,
                    }),
                    word,
                    language,
                }),
            ) && final(self).underneath() is None && final(self).guesses() == old(self).guesses()
                && final(self).typed() == old(self).typed(),
            !r ==> *final(self) == *old(self),
    {
        if !matches!(self.state, GameState::Load) {
            return false;
        }
        self.state = GameState::Main(GameOptions { settings: Settings::default(), word, language });
        true
    }

    /// Leaves loading for the board once the catalog is there: the first
    /// round is in the language called [`DEFAULT_LANGUAGE`], on a random
    /// word of [`DEFAULT_WORD_LENGTH`] characters from its word list.
    /// Nothing happens when that language is missing or has no such word.
    pub fn load_finished(&mut self, languages: &LanguagesResource) -> (r: bool)
        requires
            old(self).wf(),
        ensures
            final(self).wf(),
            r <==> old(self).current() is Load && exists|i: int|
                0 <= i < languages@.len() && #[trigger] languages@[i].name@ == DEFAULT_LANGUAGE@
                    && (forall|j: int| 0 <= j < i ==> languages@[j].name@ != DEFAULT_LANGUAGE@)
                    && languages@[i].candidates(DEFAULT_WORD_LENGTH as nat).len() > 0,
            r ==> (final(self).current() matches GameState::Main(o) && o.settings == (Settings {
                word_length: DEFAULT_WORD_LENGTH,
                max_attempts: DEFAULT_MAX_ATTEMPTS,
            }) && o.language < languages@.len() && languages@[o.language as int].name@
                == DEFAULT_LANGUAGE@ && languages@[o.language as int].candidates(
                DEFAULT_WORD_LENGTH as nat,
            ).contains(o.word@)),
            r ==> final(self).guesses() == old(self).guesses(),
            !r ==> *final(self) == *old(self),
    {
        if !matches!(self.state, GameState::Load) {
            return false;
        }
        let name = DEFAULT_LANGUAGE.to_owned();
        let index = match languages.find(&name) {
            Some(i) => i,
            None => {
                return false;
            },
        };
        let word = match languages.get(index) {
            Some(language) => match language.get_random_word(DEFAULT_WORD_LENGTH) {
                Some(w) => w,
                None => {
                    return false;
                },
            },
            None => {
                return false;
            },
        };
        self.finish_loading(word, index)
    }

    /// Opens the settings menu over the board; the round is kept beneath
    /// it. Only from the board.
    pub fn open_settings(&mut self) -> (r: bool)
        requires
            old(self).wf(),
        ensures
            final(self).wf(),
            r == old(self).current() is Main,
            r ==> final(self).current() == GameState::Menu(old(self).current()->Main_0)
                && final(self).underneath() == Some(old(self).current()) && final(self).guesses()
                == old(self).guesses() && final(self).typed() == old(self).typed(),
            !r ==> *final(self) == *old(self),
    {
        let o = match &self.state {
            GameState::Main(o) => o.copy(),
            _ => {
                return false;
            },
        };
        self.beneath = Some(GameState::Main(o.copy()));
        self.state = GameState::Menu(o);
        true
    }

    /// Closes the settings menu and goes back to the round beneath it,
    /// unchanged. Only from the menu.
    pub fn go_back(&mut self) -> (r: bool)
        requires
            old(self).wf(),
        ensures
            final(self).wf(),
            r == old(self).current() is Menu,
            r ==> Some(final(self).current()) == old(self).underneath(),
            r ==> final(self).underneath() is None,
            r ==> final(self).guesses() == old(self).guesses(),
            r ==> final(self).typed() == old(self).typed(),
            !r ==> *final(self) == *old(self),
    {
        if !matches!(self.state, GameState::Menu(_)) {
            return false;
        }
        match self.beneath.take() {
            Some(board) => {
                self.state = board;
                true
            },
            None => false,
        }
    }

    /// Starts a new round from the settings menu, on `word` in the language
    /// at `language`, with an empty history. The round that was beneath the
    /// menu is dropped. Only from the menu.
    pub fn start_game(&mut self, settings: Settings, word: String, language: usize) -> (r: bool)
        requires
            old(self).wf(),
        ensures
            final(self).wf(),
            r == old(self).current() is Menu,
            r ==> final(self).current() == GameState::Main(
                (GameOptions { settings, word, language }),
            ) && final(self).underneath() is None && final(self).guesses() == Seq::<
                Seq<(char, GuessState)>,
            >::empty() && final(self).typed() == Seq::<char>::empty(),
            !r ==> *final(self) == *old(self),
    {
        if !matches!(self.state, GameState::Menu(_)) {
            return false;
        }
        self.history.clear();
        self.input.reset();
        self.beneath = None;
        self.state = GameState::Main(GameOptions { settings, word, language });
        true
    }

    /// Plays the round that just ended again, on the same word, with an
    /// empty history. Only after a win or a loss.
    pub fn retry(&mut self) -> (r: bool)
        requires
            old(self).wf(),
        ensures
            final(self).wf(),
            r == (old(self).current() is Win || old(self).current() is Loss),
            r ==> final(self).current() == GameState::Main(old(self).current().round()->0)
                && final(self).underneath() is None && final(self).guesses() == Seq::<
                Seq<(char, GuessState)>,
            >::empty() && final(self).typed() == Seq::<char>::empty(),
            !r ==> *final(self) == *old(self),
    {
        let o = match &self.state {
            GameState::Win(o) => o.copy(),
            GameState::Loss(o) => o.copy(),
            _ => {
                return false;
            },
        };
        self.history.clear();
        self.input.reset();
        self.state = GameState::Main(o);
        true
    }

    /// Plays a new round with the settings and language of the one that
    /// just ended, on `word`, with an empty history. Only after a win or a
    /// loss.
    pub fn new_game(&mut self, word: String) -> (r: bool)
        requires
            old(self).wf(),
        ensures
            final(self).wf(),
            r == (old(self).current() is Win || old(self).current() is Loss),
            r ==> final(self).current() == GameState::Main(
                (GameOptions {
                    settings: old(self).current().round()->0.settings,
                    word,
                    language: old(self).current().round()->0.language,
                }),
            ) && final(self).underneath() is None && final(self).guesses() == Seq::<
                Seq<(char, GuessState)>,
            >::empty() && final(self).typed() == Seq::<char>::empty(),
            !r ==> *final(self) == *old(self),
    {
        let (settings, language) = match &self.state {
            GameState::Win(o) => (o.settings, o.language),
            GameState::Loss(o) => (o.settings, o.language),
            _ => {
                return false;
            },
        };
        self.history.clear();
        self.input.reset();
        self.state = GameState::Main(GameOptions { settings, word, language });
        true
    }

    /// Submits the text an event carries, as [`Game::submit_guess`] does.
    pub fn process_event(&mut self, event: &GameEvent, languages: &LanguagesResource) -> (r: GuessOutcome)
        requires
            old(self).wf(),
        ensures
            final(self).wf(),
            event matches GameEvent::Guess(text) && submitted(
                *old(self),
                *final(self),
                text@,
                *languages,
                r,
            ),
    {
        match event {
            GameEvent::Guess(text) => self.submit_guess(text, languages),
        }
    }

    /// Handles one key while the board is shown: a letter is added to the
    /// input unless the input is as long as the secret word, a backspace
    /// erases the last character, and enter submits the input. Returns
    /// what became of a submitted guess.
    pub fn press(&mut self, key: Key, languages: &LanguagesResource) -> (r: Option<GuessOutcome>)
        requires
            old(self).wf(),
        ensures
            final(self).wf(),
            pressed(*old(self), *final(self), key, *languages, r),
    {
        let length = match &self.state {
            GameState::Main(o) => chars_of(o.word.as_str()).len(),
            _ => {
                return None;
            },
        };
        match key {
            Key::Letter(c) => {
                self.input.push(c, length);
                None
            },
            Key::Backspace => {
                self.input.backspace();
                None
            },
            Key::Enter => {
                let event = GameEvent::Guess(self.input.to_string());
                Some(self.process_event(&event, languages))
            },
            Key::Other => None,
        }
    }

    /// Handles one typed character while the board is shown, as the key
    /// it stands for (see [`Key::of_char`]).
    pub fn handle_key(&mut self, c: char, languages: &LanguagesResource) -> (r: Option<GuessOutcome>)
        requires
            old(self).wf(),
        ensures
            final(self).wf(),
            pressed(*old(self), *final(self), key_of(c), *languages, r),
    {
        let key = Key::of_char(c);
        self.press(key, languages)
    }
}

} // verus!
