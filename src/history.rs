//! The guesses of a round and the best verdict seen for each character.

use vstd::prelude::*;
use crate::game::Settings;
use crate::text::{decimal, push_char, push_decimal};
use crate::verdict::{Guess, GuessState};
use std::collections::hash_map::DefaultHasher;
use std::hash::Hasher;
use vstd::string::StringSliceAdditionalSpecFns;
use vstd::std_specs::hash::DefaultHasherAdditionalSpecFns;

verus! {

/// Merges one observed verdict into the aggregate: a character's verdict is
/// replaced only by a strictly more informative one.
pub open spec fn ratchet(m: Map<char, GuessState>, p: (char, GuessState)) -> Map<
    char,
    GuessState,
> {
    if m.contains_key(p.0) && m[p.0].rank() >= p.1.rank() {
        m
    } else {
        m.insert(p.0, p.1)
    }
}

/// Merges the pairs of one guess, left to right.
pub open spec fn fold_guess(m: Map<char, GuessState>, g: Seq<(char, GuessState)>) -> Map<
    char,
    GuessState,
>
    decreases g.len(),
{
    if g.len() == 0 {
        m
    } else {
        ratchet(fold_guess(m, g.drop_last()), g.last())
    }
}

/// The aggregate of a sequence of guesses, merged in order.
pub open spec fn aggregate(gs: Seq<Seq<(char, GuessState)>>) -> Map<char, GuessState>
    decreases gs.len(),
{
    if gs.len() == 0 {
        Map::empty()
    } else {
        fold_guess(aggregate(gs.drop_last()), gs.last())
    }
}

/// `v` lists the entries of `m`, each character once.
pub open spec fn represents(v: Seq<(char, GuessState)>, m: Map<char, GuessState>) -> bool {
    &&& forall|i: int, j: int| 0 <= i < j < v.len() ==> v[i].0 != v[j].0
    &&& forall|i: int| 0 <= i < v.len() ==> m.contains_key(#[trigger] v[i].0) && m[v[i].0] == v[i].1
    &&& forall|c: char| m.contains_key(c) ==> exists|i: int| 0 <= i < v.len() && v[i].0 == c
}

proof fn lemma_fold_monotone(m: Map<char, GuessState>, g: Seq<(char, GuessState)>)
    ensures
        forall|c: char|
            m.contains_key(c) ==> #[trigger] fold_guess(m, g).contains_key(c) && fold_guess(
                m,
                g,
            )[c].rank() >= m[c].rank(),
        forall|i: int|
            0 <= i < g.len() ==> fold_guess(m, g).contains_key(#[trigger] g[i].0) && fold_guess(
                m,
                g,
            )[g[i].0].rank() >= g[i].1.rank(),
    decreases g.len(),
{
    if g.len() > 0 {
        let h = g.drop_last();
        lemma_fold_monotone(m, h);
        let f = fold_guess(m, h);
        assert forall|c: char| m.contains_key(c) implies #[trigger] fold_guess(
            m,
            g,
        ).contains_key(c) && fold_guess(m, g)[c].rank() >= m[c].rank() by {
            assert(f.contains_key(c));
        }
        assert forall|i: int| 0 <= i < g.len() - 1 implies g[i] == h[i] by {}
    }
}

/// Recording a guess never downgrades what is known of a character: each
/// character that had an aggregate verdict keeps one at least as
/// informative, and each character of the new guess ends with an aggregate
/// verdict at least as informative as the one it had in that guess. In
/// particular a `Correct` character stays `Correct`.
pub proof fn lemma_record_never_downgrades(
    before: Seq<Seq<(char, GuessState)>>,
    g: Seq<(char, GuessState)>,
)
    ensures
        forall|c: char|
            aggregate(before).contains_key(c) ==> #[trigger] aggregate(
                before.push(g),
            ).contains_key(c) && aggregate(before.push(g))[c].rank() >= aggregate(
                before,
            )[c].rank(),
        forall|i: int|
            0 <= i < g.len() ==> aggregate(before.push(g)).contains_key(#[trigger] g[i].0)
                && aggregate(before.push(g))[g[i].0].rank() >= g[i].1.rank(),
{
    assert(before.push(g).drop_last() =~= before);
    lemma_fold_monotone(aggregate(before), g);
    assert forall|c: char| aggregate(before).contains_key(c) implies #[trigger] aggregate(
        before.push(g),
    ).contains_key(c) && aggregate(before.push(g))[c].rank() >= aggregate(before)[c].rank() by {
        assert(fold_guess(aggregate(before), g).contains_key(c));
    }
}

/// The guesses of the current round, in the order they were made, and for
/// each character guessed so far the best verdict it has had.
pub struct HistoryResource {
    guesses: Vec<Guess>,
    guessed_char: Vec<(char, GuessState)>,
}

impl View for HistoryResource {
    type V = Seq<Seq<(char, GuessState)>>;

    closed spec fn view(&self) -> Seq<Seq<(char, GuessState)>> {
        self.guesses@.map_values(|g: Guess| g@)
    }
}

impl HistoryResource {
    /// The aggregate verdict of each character guessed so far.
    pub open spec fn aggregate(&self) -> Map<char, GuessState> {
        aggregate(self@)
    }

    /// The stored aggregate matches the guesses.
    pub closed spec fn wf(&self) -> bool {
        represents(self.guessed_char@, aggregate(self@))
    }

    /// An empty history.
    pub fn new() -> (r: HistoryResource)
        ensures
            r.wf(),
            r@ == Seq::<Seq<(char, GuessState)>>::empty(),
    {
        let r = HistoryResource { guesses: Vec::new(), guessed_char: Vec::new() };
        assert(r@ =~= Seq::<Seq<(char, GuessState)>>::empty());
        r
    }

    /// Forgets every guess and the whole aggregate.
    pub fn clear(&mut self)
        ensures
            final(self).wf(),
            final(self)@ == Seq::<Seq<(char, GuessState)>>::empty(),
    {
        self.guesses = Vec::new();
        self.guessed_char = Vec::new();
        assert(self@ =~= Seq::<Seq<(char, GuessState)>>::empty());
    }

    /// The guesses, in the order they were made.
    pub fn get_guesses(&self) -> (r: &[Guess])
        ensures
            r@.map_values(|g: Guess| g@) == self@,
    {
        self.guesses.as_slice()
    }

    /// Number of guesses made.
    pub fn len(&self) -> (r: usize)
        ensures
            r == self@.len(),
    {
        self.guesses.len()
    }

    /// Adds a guess at the end and merges its verdicts into the aggregate.
    pub fn guess(&mut self, guess: Guess)
        requires
            old(self).wf(),
        ensures
            final(self).wf(),
            final(self)@ == old(self)@.push(guess@),
    {
        let ghost start = aggregate(self@);
        let pairs = guess.get();
        let mut k: usize = 0;
        while k < pairs.len()
            invariant
                pairs@ == guess@,
                k <= pairs@.len(),
                represents(self.guessed_char@, fold_guess(start, pairs@.take(k as int))),
                self@ == old(self)@,
                start == aggregate(old(self)@),
            decreases pairs@.len() - k,
        {
            let ghost m = fold_guess(start, pairs@.take(k as int));
            let ghost v0 = self.guessed_char@;
            let (ch, state) = pairs[k];
            let mut j: usize = 0;
            let mut found: bool = false;
            while j < self.guessed_char.len()
                invariant_except_break
                    !found,
                invariant
                    j <= self.guessed_char@.len(),
                    forall|i: int| 0 <= i < j ==> self.guessed_char@[i].0 != ch,
                ensures
                    found ==> j < self.guessed_char@.len() && self.guessed_char@[j as int].0
                        == ch,
                    !found ==> forall|i: int|
                        0 <= i < self.guessed_char@.len() ==> self.guessed_char@[i].0 != ch,
                decreases self.guessed_char@.len() - j,
            {
                if self.guessed_char[j].0 == ch {
                    found = true;
                    break;
                }
                j = j + 1;
            }
            assert(pairs@.take(k + 1).drop_last() =~= pairs@.take(k as int));
            if found {
                let current = self.guessed_char[j].1;
                if current.rank_of() < state.rank_of() {
                    self.guessed_char.set(j, (ch, state));
                }
            } else {
                self.guessed_char.push((ch, state));
            }
            k = k + 1;
            proof {
                let m2 = fold_guess(start, pairs@.take(k as int));
                assert(m2 == ratchet(m, (ch, state)));
                let v = self.guessed_char@;
                assert forall|c: char| m2.contains_key(c) implies exists|i: int|
                    0 <= i < v.len() && v[i].0 == c by {
                    if c != ch {
                        assert(m.contains_key(c));
                        let i = choose|i: int| 0 <= i < v0.len() && v0[i].0 == c;
                        assert(v[i].0 == c);
                    } else if found {
                        assert(v[j as int].0 == c);
                    } else {
                        assert(v[v.len() - 1].0 == c);
                    }
                }
            }
        }
        assert(pairs@.take(pairs@.len() as int) =~= pairs@);
        self.guesses.push(guess);
        proof {
            let gs = self@;
            assert(gs =~= old(self)@.push(guess@));
            assert(gs.drop_last() =~= old(self)@);
        }
    }

    /// The aggregate, one entry per character guessed so far.
    pub fn guessed_chars(&self) -> (r: &[(char, GuessState)])
        requires
            self.wf(),
        ensures
            represents(r@, self.aggregate()),
    {
        self.guessed_char.as_slice()
    }

    /// The aggregate verdict of `c`; `Unknown` for a character never guessed.
    pub fn verdict_for(&self, c: char) -> (r: GuessState)
        requires
            self.wf(),
        ensures
            r == (if self.aggregate().contains_key(c) {
                self.aggregate()[c]
            } else {
                GuessState::Unknown
            }),
    {
        let mut j: usize = 0;
        while j < self.guessed_char.len()
            invariant
                self.wf(),
                j <= self.guessed_char@.len(),
                forall|i: int| 0 <= i < j ==> self.guessed_char@[i].0 != c,
            decreases self.guessed_char@.len() - j,
        {
            if self.guessed_char[j].0 == c {
                return self.guessed_char[j].1;
            }
            j = j + 1;
        }
        GuessState::Unknown
    }
}

/// The square that stands for a verdict in a share code: black for nothing
/// learnt, yellow for misplaced, green for correct.
pub open spec fn block_char(v: GuessState) -> char {
    match v {
        GuessState::Unknown => '\u{2B1B}',
        GuessState::Missing => '\u{2B1B}',
        GuessState::Misplaced => '\u{1F7E8}',
        GuessState::Correct => '\u{1F7E9}',
    }
}

fn block(v: GuessState) -> (r: char)
    ensures
        r == block_char(v),
{
    match v {
        GuessState::Unknown => '\u{2B1B}',
        GuessState::Missing => '\u{2B1B}',
        GuessState::Misplaced => '\u{1F7E8}',
        GuessState::Correct => '\u{1F7E9}',
    }
}

/// One line of a share code: a square per position, then a line feed.
pub open spec fn guess_line(g: Seq<(char, GuessState)>) -> Seq<char> {
    g.map_values(|p: (char, GuessState)| block_char(p.1)).push('\n')
}

/// The lines of a share code, one per guess, in order.
pub open spec fn blocks(gs: Seq<Seq<(char, GuessState)>>) -> Seq<char>
    decreases gs.len(),
{
    if gs.len() == 0 {
        Seq::empty()
    } else {
        blocks(gs.drop_last()) + guess_line(gs.last())
    }
}

/// The fingerprint of a word's bytes: what a `DefaultHasher` returns after
/// the bytes and the end marker `0xff`, as `str`'s `Hash` writes them.
pub open spec fn fingerprint_of(bytes: Seq<u8>) -> u64 {
    DefaultHasher::spec_finish(seq![bytes, seq![0xffu8]])
}

/// The fingerprint of `word`: its hash under a fresh `DefaultHasher`, so
/// that a share code does not give the word away.
pub fn word_fingerprint(word: &str) -> (r: u64)
    ensures
        r == fingerprint_of(word.spec_bytes()),
{
    let mut hasher = DefaultHasher::new();
    hasher.write(word.as_bytes());
    let mut end: Vec<u8> = Vec::new();
    end.push(0xffu8);
    assert(end@ =~= seq![0xffu8]);
    hasher.write(end.as_slice());
    assert(hasher@ =~= seq![word.spec_bytes(), seq![0xffu8]]);
    hasher.finish()
}

/// A share code: a header with the word's fingerprint and the guesses used
/// out of those allowed, then one line of squares per guess.
pub open spec fn share_text(
    fingerprint: u64,
    attempts: nat,
    max_attempts: nat,
    gs: Seq<Seq<(char, GuessState)>>,
) -> Seq<char> {
    "wordlrs "@ + decimal(fingerprint as nat) + seq![' '] + decimal(attempts) + seq!['/'] + decimal(
        max_attempts,
    ) + seq!['\n'] + blocks(gs)
}

impl HistoryResource {
    /// The share code of the round on `word` under `settings`.
    pub fn share_string(&self, word: &str, settings: &Settings) -> (r: String)
        ensures
            r@ == share_text(
                fingerprint_of(word.spec_bytes()),
                self@.len(),
                settings.max_attempts as nat,
                self@,
            ),
    {
        let hash = word_fingerprint(word);
        let mut s = "wordlrs ".to_owned();
        push_decimal(&mut s, hash);
        push_char(&mut s, ' ');
        push_decimal(&mut s, self.guesses.len() as u64);
        push_char(&mut s, '/');
        push_decimal(&mut s, settings.max_attempts as u64);
        push_char(&mut s, '\n');
        let ghost head = s@;
        let mut i: usize = 0;
        while i < self.guesses.len()
            invariant
                i <= self@.len(),
                self@.len() == self.guesses@.len(),
                s@ == head + blocks(self@.take(i as int)),
            decreases self@.len() - i,
        {
            let pairs = self.guesses[i].get();
            let ghost g = self@[i as int];
            assert(g == pairs@);
            let mut k: usize = 0;
            while k < pairs.len()
                invariant
                    k <= pairs@.len(),
                    g == pairs@,
                    s@ == head + blocks(self@.take(i as int)) + g.take(k as int).map_values(
                        |p: (char, GuessState)| block_char(p.1),
                    ),
                decreases pairs@.len() - k,
            {
                push_char(&mut s, block(pairs[k].1));
                k = k + 1;
                assert(g.take(k as int).map_values(|p: (char, GuessState)| block_char(p.1))
                    =~= g.take(k - 1).map_values(|p: (char, GuessState)| block_char(p.1)).push(
                    block_char(g[k - 1].1),
                ));
            }
            push_char(&mut s, '\n');
            assert(g.take(k as int) =~= g);
            assert(self@.take(i + 1).drop_last() =~= self@.take(i as int));
            i = i + 1;
            assert(s@ =~= head + blocks(self@.take(i as int)));
        }
        assert(self@.take(i as int) =~= self@);
        s
    }
}

/// A share code is a function of the word, the guesses and the settings:
/// two made from the same ones, in particular twice from an unchanged
/// history, are identical.
pub proof fn lemma_share_code_deterministic(
    a: HistoryResource,
    b: HistoryResource,
    word: Seq<u8>,
    settings: Settings,
    first: String,
    second: String,
)
    requires
        a@ == b@,
        first@ == share_text(fingerprint_of(word), a@.len(), settings.max_attempts as nat, a@),
        second@ == share_text(fingerprint_of(word), b@.len(), settings.max_attempts as nat, b@),
    ensures
        first@ == second@,
{
}

impl Default for HistoryResource {
    fn default() -> (r: HistoryResource)
        ensures
            r.wf(),
            r@ == Seq::<Seq<(char, GuessState)>>::empty(),
    {
        HistoryResource::new()
    }
}

} // verus!
