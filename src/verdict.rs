//! Scoring one guess against the secret word.

use vstd::prelude::*;

verus! {

/// The verdict on one character of a guess.
///
/// Ordered by how much it tells: `Unknown < Missing < Misplaced < Correct`.
#[derive(Debug, Clone, Copy, PartialEq, Eq, Structural)]
pub enum GuessState {
    /// Nothing is known yet.
    Unknown,
    /// The character does not occur (any more) in the secret.
    Missing,
    /// The character occurs in the secret, at another position.
    Misplaced,
    /// The character stands at this position in the secret.
    Correct,
}

impl GuessState {
    /// How informative a verdict is.
    pub open spec fn rank(self) -> nat {
        match self {
            GuessState::Unknown => 0,
            GuessState::Missing => 1,
            GuessState::Misplaced => 2,
            GuessState::Correct => 3,
        }
    }

    /// How informative a verdict is, as a number.
    pub fn rank_of(&self) -> (r: u8)
        ensures
            r as nat == self.rank(),
    {
        match self {
            GuessState::Unknown => 0,
            GuessState::Missing => 1,
            GuessState::Misplaced => 2,
            GuessState::Correct => 3,
        }
    }
}

/// Number of positions below `k` where the secret holds `c` and the guess
/// does not match the secret.
pub open spec fn unmatched_in_secret(secret: Seq<char>, guess: Seq<char>, c: char, k: int) -> nat
    decreases k,
{
    if k <= 0 {
        0
    } else {
        unmatched_in_secret(secret, guess, c, k - 1) + if secret[k - 1] == c && guess[k - 1]
            != secret[k - 1] {
            1nat
        } else {
            0nat
        }
    }
}

/// Number of positions below `k` where the guess holds `c` and does not
/// match the secret.
pub open spec fn unmatched_in_guess(secret: Seq<char>, guess: Seq<char>, c: char, k: int) -> nat
    decreases k,
{
    if k <= 0 {
        0
    } else {
        unmatched_in_guess(secret, guess, c, k - 1) + if guess[k - 1] == c && guess[k - 1]
            != secret[k - 1] {
            1nat
        } else {
            0nat
        }
    }
}

/// The verdict at position `i`: `Correct` on an exact match; otherwise
/// `Misplaced` while the secret still has an unmatched copy of the character
/// that no earlier unmatched position of the guess has taken; else `Missing`.
pub open spec fn verdict_at(secret: Seq<char>, guess: Seq<char>, i: int) -> GuessState {
    if guess[i] == secret[i] {
        GuessState::Correct
    } else if unmatched_in_guess(secret, guess, guess[i], i) < unmatched_in_secret(
        secret,
        guess,
        guess[i],
        secret.len() as int,
    ) {
        GuessState::Misplaced
    } else {
        GuessState::Missing
    }
}

/// The verdicts of a whole guess, one per position.
pub open spec fn verdicts(secret: Seq<char>, guess: Seq<char>) -> Seq<GuessState> {
    Seq::new(guess.len(), |i: int| verdict_at(secret, guess, i))
}

/// Number of positions below `k` where guess and secret agree.
pub open spec fn count_equal(secret: Seq<char>, guess: Seq<char>, k: int) -> nat
    decreases k,
{
    if k <= 0 {
        0
    } else {
        count_equal(secret, guess, k - 1) + if guess[k - 1] == secret[k - 1] {
            1nat
        } else {
            0nat
        }
    }
}

/// Number of `Correct` verdicts below `k`.
pub open spec fn count_correct(vs: Seq<GuessState>, k: int) -> nat
    decreases k,
{
    if k <= 0 {
        0
    } else {
        count_correct(vs, k - 1) + if vs[k - 1] == GuessState::Correct {
            1nat
        } else {
            0nat
        }
    }
}

/// The slot of the secret's pool at position `j` once exact matches are taken out.
pub open spec fn pool_slot(secret: Seq<char>, guess: Seq<char>, j: int) -> Option<char> {
    if guess[j] == secret[j] {
        None
    } else {
        Some(secret[j])
    }
}

/// Number of slots below `k` of a pool that hold `c`.
pub open spec fn count_pool(pool: Seq<Option<char>>, c: char, k: int) -> nat
    decreases k,
{
    if k <= 0 {
        0
    } else {
        count_pool(pool, c, k - 1) + if pool[k - 1] == Some(c) {
            1nat
        } else {
            0nat
        }
    }
}

proof fn lemma_initial_pool(secret: Seq<char>, guess: Seq<char>, pool: Seq<Option<char>>, c: char, k: int)
    requires
        0 <= k <= pool.len(),
        pool.len() == secret.len(),
        secret.len() == guess.len(),
        forall|j: int| 0 <= j < pool.len() ==> pool[j] == pool_slot(secret, guess, j),
    ensures
        count_pool(pool, c, k) == unmatched_in_secret(secret, guess, c, k),
    decreases k,
{
    if k > 0 {
        lemma_initial_pool(secret, guess, pool, c, k - 1);
    }
}

proof fn lemma_pool_take(pool: Seq<Option<char>>, j: int, c: char, d: char, k: int)
    requires
        0 <= j < pool.len(),
        0 <= k <= pool.len(),
        pool[j] == Some(c),
    ensures
        count_pool(pool.update(j, None), d, k) + (if d == c && j < k {
            1nat
        } else {
            0nat
        }) == count_pool(pool, d, k),
    decreases k,
{
    if k > 0 {
        lemma_pool_take(pool, j, c, d, k - 1);
    }
}

proof fn lemma_pool_absent(pool: Seq<Option<char>>, c: char, k: int)
    requires
        0 <= k <= pool.len(),
        forall|j: int| 0 <= j < k ==> pool[j] != Some(c),
    ensures
        count_pool(pool, c, k) == 0,
    decreases k,
{
    if k > 0 {
        lemma_pool_absent(pool, c, k - 1);
    }
}

proof fn lemma_count_correct(secret: Seq<char>, guess: Seq<char>, vs: Seq<GuessState>, k: int)
    requires
        0 <= k <= vs.len(),
        vs == verdicts(secret, guess),
        secret.len() == guess.len(),
    ensures
        count_correct(vs, k) == count_equal(secret, guess, k),
    decreases k,
{
    if k > 0 {
        lemma_count_correct(secret, guess, vs, k - 1);
    }
}

/// What is left in the pool for `c` after the misplaced pass has gone
/// through the positions below `i`.
pub open spec fn pool_left(secret: Seq<char>, guess: Seq<char>, c: char, i: int) -> nat {
    let s = unmatched_in_secret(secret, guess, c, secret.len() as int);
    let g = unmatched_in_guess(secret, guess, c, i);
    if g <= s {
        (s - g) as nat
    } else {
        0
    }
}

/// Scores `guess` against `secret`, position by position.
///
/// A first pass marks exact matches and takes them out of the secret's pool
/// of characters; a second pass, left to right, marks a character
/// `Misplaced` when the pool still holds it (taking that copy out) and
/// `Missing` when it does not.
pub fn evaluate(secret: &Vec<char>, guess: &Vec<char>) -> (r: Vec<GuessState>)
    requires
        secret@.len() == guess@.len(),
    ensures
        r@ == verdicts(secret@, guess@),
        r@.len() == guess@.len(),
        count_correct(r@, r@.len() as int) == count_equal(secret@, guess@, guess@.len() as int),
{
    let n = secret.len();
    let ghost s = secret@;
    let ghost g = guess@;
    let mut pool: Vec<Option<char>> = Vec::new();
    let mut r: Vec<GuessState> = Vec::new();
    let mut i: usize = 0;
    while i < n
        invariant
            n == s.len(),
            s == secret@,
            g == guess@,
            s.len() == g.len(),
            i <= n,
            pool@.len() == i,
            r@.len() == i,
            forall|j: int| 0 <= j < i ==> pool@[j] == pool_slot(s, g, j),
            forall|j: int|
                0 <= j < i ==> r@[j] == (if g[j] == s[j] {
                    GuessState::Correct
                } else {
                    GuessState::Unknown
                }),
        decreases n - i,
    {
        if guess[i] == secret[i] {
            pool.push(None);
            r.push(GuessState::Correct);
        } else {
            pool.push(Some(secret[i]));
            r.push(GuessState::Unknown);
        }
        i = i + 1;
    }
    assert forall|c: char| count_pool(pool@, c, n as int) == pool_left(s, g, c, 0) by {
        lemma_initial_pool(s, g, pool@, c, n as int);
    }
    i = 0;
    while i < n
        invariant
            n == s.len(),
            s == secret@,
            g == guess@,
            s.len() == g.len(),
            i <= n,
            pool@.len() == n,
            r@.len() == n,
            forall|j: int| 0 <= j < i ==> r@[j] == verdict_at(s, g, j),
            forall|j: int|
                i <= j < n ==> r@[j] == (if g[j] == s[j] {
                    GuessState::Correct
                } else {
                    GuessState::Unknown
                }),
            forall|c: char| count_pool(pool@, c, n as int) == pool_left(s, g, c, i as int),
        decreases n - i,
    {
        let ghost old_pool = pool@;
        let c = guess[i];
        if c != secret[i] {
            let mut found: bool = false;
            let mut j: usize = 0;
            while j < n
                invariant_except_break
                    !found,
                invariant
                    n == pool@.len(),
                    pool@ == old_pool,
                    j <= n,
                    forall|k: int| 0 <= k < j ==> pool@[k] != Some(c),
                ensures
                    found ==> j < n && pool@[j as int] == Some(c),
                    !found ==> forall|k: int| 0 <= k < n ==> pool@[k] != Some(c),
                decreases n - j,
            {
                if pool[j] == Some(c) {
                    found = true;
                    break;
                }
                j = j + 1;
            }
            if found {
                proof {
                    lemma_pool_take(pool@, j as int, c, c, n as int);
                    assert(pool_left(s, g, c, i as int) > 0);
                    assert(verdict_at(s, g, i as int) == GuessState::Misplaced);
                    assert forall|d: char|
                        count_pool(pool@.update(j as int, None), d, n as int) == pool_left(
                            s,
                            g,
                            d,
                            i + 1,
                        ) by {
                        lemma_pool_take(pool@, j as int, c, d, n as int);
                        if d == c {
                            assert(count_pool(pool@, c, n as int) > 0);
                        }
                    }
                }
                pool.set(j, None);
                r.set(i, GuessState::Misplaced);
            } else {
                proof {
                    lemma_pool_absent(pool@, c, n as int);
                    assert(pool_left(s, g, c, i as int) == 0);
                    assert(verdict_at(s, g, i as int) == GuessState::Missing);
                    assert forall|d: char|
                        count_pool(pool@, d, n as int) == pool_left(s, g, d, i + 1) by {}
                }
                r.set(i, GuessState::Missing);
            }
        } else {
            assert forall|d: char| count_pool(pool@, d, n as int) == pool_left(s, g, d, i + 1) by {}
        }
        i = i + 1;
    }
    proof {
        assert(r@ =~= verdicts(s, g));
        lemma_count_correct(s, g, r@, n as int);
    }
    r
}

/// One scored guess: each character of the guess with its verdict, in order.
pub struct Guess(Vec<(char, GuessState)>);

impl View for Guess {
    type V = Seq<(char, GuessState)>;

    closed spec fn view(&self) -> Seq<(char, GuessState)> {
        self.0@
    }
}

/// The pairs of a guess scored against a secret.
pub open spec fn scored(secret: Seq<char>, guess: Seq<char>) -> Seq<(char, GuessState)> {
    Seq::new(guess.len(), |i: int| (guess[i], verdict_at(secret, guess, i)))
}

/// Whether every verdict of a scored guess is `Correct`.
pub open spec fn all_correct(g: Seq<(char, GuessState)>) -> bool {
    forall|i: int| 0 <= i < g.len() ==> g[i].1 == GuessState::Correct
}

impl Guess {
    /// Scores `guess` against `secret` and pairs each character with its verdict.
    pub fn score(secret: &Vec<char>, guess: &Vec<char>) -> (r: Guess)
        requires
            secret@.len() == guess@.len(),
        ensures
            r@ == scored(secret@, guess@),
    {
        let vs = evaluate(secret, guess);
        let mut pairs: Vec<(char, GuessState)> = Vec::new();
        let mut i: usize = 0;
        while i < guess.len()
            invariant
                vs@ == verdicts(secret@, guess@),
                i <= guess@.len(),
                pairs@.len() == i,
                forall|j: int| 0 <= j < i ==> pairs@[j] == scored(secret@, guess@)[j],
            decreases guess@.len() - i,
        {
            pairs.push((guess[i], vs[i]));
            i = i + 1;
        }
        assert(pairs@ =~= scored(secret@, guess@));
        Guess(pairs)
    }

    /// The characters of the guess, in order.
    pub fn get_chars(&self) -> (r: Vec<char>)
        ensures
            r@ == self@.map_values(|p: (char, GuessState)| p.0),
    {
        let mut r: Vec<char> = Vec::new();
        let mut i: usize = 0;
        while i < self.0.len()
            invariant
                i <= self@.len(),
                r@ == self@.take(i as int).map_values(|p: (char, GuessState)| p.0),
            decreases self@.len() - i,
        {
            r.push(self.0[i].0);
            i = i + 1;
            assert(r@ =~= self@.take(i as int).map_values(|p: (char, GuessState)| p.0));
        }
        assert(self@.take(i as int) =~= self@);
        r
    }

    /// Each character with its verdict, in order.
    pub fn get(&self) -> (r: &[(char, GuessState)])
        ensures
            r@ == self@,
    {
        self.0.as_slice()
    }

    /// Whether every position of the guess is `Correct`.
    pub fn correct(&self) -> (r: bool)
        ensures
            r == all_correct(self@),
    {
        let mut i: usize = 0;
        while i < self.0.len()
            invariant
                i <= self@.len(),
                forall|j: int| 0 <= j < i ==> self@[j].1 == GuessState::Correct,
            decreases self@.len() - i,
        {
            if self.0[i].1 != GuessState::Correct {
                return false;
            }
            i = i + 1;
        }
        true
    }
}

/// A guess equal to the secret is all `Correct`; a guess with every
/// position `Correct` equals the secret.
pub proof fn lemma_all_correct_iff_equal(secret: Seq<char>, guess: Seq<char>)
    requires
        secret.len() == guess.len(),
    ensures
        all_correct(scored(secret, guess)) <==> secret == guess,
{
    if all_correct(scored(secret, guess)) {
        assert forall|i: int| 0 <= i < guess.len() implies guess[i] == secret[i] by {
            assert(scored(secret, guess)[i].1 == GuessState::Correct);
        }
        assert(secret =~= guess);
    }
}

} // verus!
