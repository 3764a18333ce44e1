//! The data a language brings: its word list, its dictionary and its
//! keyboard layouts, and the catalog of languages.

use vstd::prelude::*;
use crate::text::{chars_of, split_words, words_of};
use rand::seq::SliceRandom;

verus! {

/// Relies on rand's `SliceRandom::choose` with the thread-local generator:
/// `None` exactly when the slice is empty, else a copy of one of its elements.
#[verifier::external_body]
fn choose_word(words: &Vec<String>) -> (r: Option<String>)
    ensures
        r is None <==> words@.len() == 0,
        r matches Some(w) ==> exists|i: int| 0 <= i < words@.len() && words@[i]@ == w@,
{
    words.choose(&mut rand::thread_rng()).cloned()
}

/// The words of a list, as character sequences.
pub open spec fn words_view(v: Seq<String>) -> Seq<Seq<char>> {
    v.map_values(|w: String| w@)
}

/// Position of the first word of `v` equal to `word`.
fn position_of(v: &Vec<String>, word: &String) -> (r: Option<usize>)
    ensures
        r matches Some(i) ==> i < v@.len() && v@[i as int]@ == word@,
        r is None <==> !words_view(v@).contains(word@),
{
    let mut i: usize = 0;
    while i < v.len()
        invariant
            i <= v@.len(),
            forall|j: int| 0 <= j < i ==> v@[j]@ != word@,
        decreases v@.len() - i,
    {
        if v[i] == *word {
            assert(words_view(v@)[i as int] == word@);
            return Some(i);
        }
        i = i + 1;
    }
    proof {
        if words_view(v@).contains(word@) {
            let ws = words_view(v@);
            let k = choose|k: int| 0 <= k < ws.len() && ws[k] == word@;
            assert(v@[k]@ == word@);
        }
    }
    None
}

/// Copies of the words of a list, in order.
fn copy_words(v: &Vec<String>) -> (r: Vec<String>)
    ensures
        words_view(r@) == words_view(v@),
{
    let mut r: Vec<String> = Vec::new();
    let mut i: usize = 0;
    while i < v.len()
        invariant
            i <= v@.len(),
            words_view(r@) == words_view(v@).take(i as int),
        decreases v@.len() - i,
    {
        let w = v[i].clone();
        assert(w@ == v@[i as int]@);
        let ghost before = r@;
        r.push(w);
        assert(words_view(r@) =~= words_view(before).push(w@));
        i = i + 1;
        assert(words_view(r@) =~= words_view(v@).take(i as int));
    }
    assert(words_view(v@).take(i as int) =~= words_view(v@));
    r
}

/// A copy of a sequence of characters.
fn copy_chars(v: &Vec<char>) -> (r: Vec<char>)
    ensures
        r@ == v@,
{
    let mut r: Vec<char> = Vec::new();
    let mut i: usize = 0;
    while i < v.len()
        invariant
            i <= v@.len(),
            r@ == v@.take(i as int),
        decreases v@.len() - i,
    {
        r.push(v[i]);
        i = i + 1;
        assert(r@ =~= v@.take(i as int));
    }
    assert(v@.take(i as int) =~= v@);
    r
}

/// The words a language accepts as guesses.
pub struct DictionaryAsset(Vec<String>);

impl View for DictionaryAsset {
    type V = Seq<Seq<char>>;

    closed spec fn view(&self) -> Seq<Seq<char>> {
        words_view(self.0@)
    }
}

impl DictionaryAsset {
    /// The words of `text`, separated by white space.
    pub fn from_text(text: &str) -> (r: DictionaryAsset)
        ensures
            r@ == split_words(text@),
    {
        DictionaryAsset(words_of(text))
    }

    /// A dictionary of the given words.
    pub fn new(words: Vec<String>) -> (r: DictionaryAsset)
        ensures
            r@ == words_view(words@),
    {
        DictionaryAsset(words)
    }

    /// The words, in order.
    pub fn words(&self) -> (r: &Vec<String>)
        ensures
            words_view(r@) == self@,
    {
        &self.0
    }

    /// An identical copy.
    pub fn copy(&self) -> (r: DictionaryAsset)
        ensures
            r@ == self@,
    {
        DictionaryAsset(copy_words(&self.0))
    }

    /// Whether `word` is one of the dictionary's words.
    pub fn contains(&self, word: &String) -> (r: bool)
        ensures
            r == self@.contains(word@),
    {
        position_of(&self.0, word).is_some()
    }
}

/// The words a language draws secret words from.
pub struct WordListAsset(Vec<String>);

impl View for WordListAsset {
    type V = Seq<Seq<char>>;

    closed spec fn view(&self) -> Seq<Seq<char>> {
        words_view(self.0@)
    }
}

/// The words of `ws` that have `length` characters, in order.
pub open spec fn words_of_length(ws: Seq<Seq<char>>, length: nat) -> Seq<Seq<char>> {
    ws.filter(|w: Seq<char>| w.len() == length)
}

impl WordListAsset {
    /// The words of `text`, separated by white space.
    pub fn from_text(text: &str) -> (r: WordListAsset)
        ensures
            r@ == split_words(text@),
    {
        WordListAsset(words_of(text))
    }

    /// A word list of the given words.
    pub fn new(words: Vec<String>) -> (r: WordListAsset)
        ensures
            r@ == words_view(words@),
    {
        WordListAsset(words)
    }

    /// The words, in order.
    pub fn words(&self) -> (r: &Vec<String>)
        ensures
            words_view(r@) == self@,
    {
        &self.0
    }

    /// An identical copy.
    pub fn copy(&self) -> (r: WordListAsset)
        ensures
            r@ == self@,
    {
        WordListAsset(copy_words(&self.0))
    }

    /// Copies of the words that have `length` characters, in order.
    pub fn with_length(&self, length: usize) -> (r: Vec<String>)
        ensures
            words_view(r@) == words_of_length(self@, length as nat),
    {
        let mut r: Vec<String> = Vec::new();
        let mut i: usize = 0;
        while i < self.0.len()
            invariant
                i <= self.0@.len(),
                words_view(r@) == words_of_length(words_view(self.0@).take(i as int), length as nat),
            decreases self.0@.len() - i,
        {
            let ghost before = words_view(self.0@).take(i as int);
            let w = &self.0[i];
            assert(words_view(self.0@).take(i + 1) =~= before.push(w@));
            proof {
                before.lemma_filter_push(w@, |w: Seq<char>| w.len() == length);
            }
            if chars_of(w.as_str()).len() == length {
                r.push(w.clone());
                assert(words_view(r@) =~= words_of_length(before, length as nat).push(w@));
            } else {
                assert(words_view(r@) =~= words_of_length(before, length as nat));
            }
            i = i + 1;
        }
        assert(words_view(self.0@).take(i as int) =~= words_view(self.0@));
        r
    }
}

/// A keyboard layout: its name and its rows of keys.
pub struct KeyboardLayoutAsset {
    pub name: String,
    pub layout: Vec<Vec<char>>,
}

/// What a keyboard layout shows: its name and its rows.
pub open spec fn keyboard_view(k: KeyboardLayoutAsset) -> (Seq<char>, Seq<Seq<char>>) {
    (k.name@, k.layout@.map_values(|row: Vec<char>| row@))
}

impl KeyboardLayoutAsset {
    /// An identical copy.
    pub fn copy(&self) -> (r: KeyboardLayoutAsset)
        ensures
            keyboard_view(r) == keyboard_view(*self),
    {
        let mut layout: Vec<Vec<char>> = Vec::new();
        let mut i: usize = 0;
        while i < self.layout.len()
            invariant
                i <= self.layout@.len(),
                layout@.map_values(|row: Vec<char>| row@) == self.layout@.map_values(
                    |row: Vec<char>| row@,
                ).take(i as int),
            decreases self.layout@.len() - i,
        {
            let row = copy_chars(&self.layout[i]);
            let ghost before = layout@;
            layout.push(row);
            assert(layout@.map_values(|row: Vec<char>| row@) =~= before.map_values(
                |row: Vec<char>| row@,
            ).push(self.layout@[i as int]@));
            i = i + 1;
            assert(layout@.map_values(|row: Vec<char>| row@) =~= self.layout@.map_values(
                |row: Vec<char>| row@,
            ).take(i as int));
        }
        assert(self.layout@.map_values(|row: Vec<char>| row@).take(i as int) =~= self.layout@.map_values(
            |row: Vec<char>| row@,
        ));
        KeyboardLayoutAsset { name: self.name.clone(), layout }
    }
}

/// A language as described before its parts are resolved: its name and the
/// names of its keyboards and word lists.
pub struct LanguageAsset {
    pub name: String,
    pub keyboards: Vec<String>,
    pub wordlists: Vec<String>,
}

/// A language with its parts: keyboards, word lists and dictionary.
pub struct Language {
    pub name: String,
    pub keyboards: Vec<KeyboardLayoutAsset>,
    pub wordlists: Vec<WordListAsset>,
    pub dictionary: DictionaryAsset,
}

impl Language {
    /// The words that secret words of `length` characters are drawn from:
    /// those of the first word list.
    pub open spec fn candidates(&self, length: nat) -> Seq<Seq<char>> {
        if self.wordlists@.len() == 0 {
            Seq::empty()
        } else {
            words_of_length(self.wordlists@[0]@, length)
        }
    }

    /// A random word of `length` characters from the first word list;
    /// `None` when that list has no such word, or there is no list.
    pub fn get_random_word(&self, length: usize) -> (r: Option<String>)
        ensures
            r is None <==> self.candidates(length as nat).len() == 0,
            r matches Some(w) ==> self.candidates(length as nat).contains(w@),
            r matches Some(w) ==> w@.len() == length,
    {
        if self.wordlists.len() == 0 {
            return None;
        }
        let pool = self.wordlists[0].with_length(length);
        let r = choose_word(&pool);
        proof {
            broadcast use vstd::seq_lib::group_filter_ensures;

            if r is Some {
                let w = r->0;
                let i = choose|i: int| 0 <= i < pool@.len() && pool@[i]@ == w@;
                assert(words_view(pool@)[i] == w@);
                assert(words_of_length(self.wordlists@[0]@, length as nat)[i] == w@);
            }
        }
        r
    }

    /// Whether `word` is in the language's dictionary.
    pub fn is_in_dictionary(&self, word: &String) -> (r: bool)
        ensures
            r == self.dictionary@.contains(word@),
    {
        self.dictionary.contains(word)
    }
}

/// A keyboard layout, a word list or a dictionary seen with its name.
pub type NamedWords = (Seq<char>, Seq<Seq<char>>);

/// The keyboards of `all` whose names are among `names`, in order.
pub open spec fn keyboards_for(
    names: Seq<Seq<char>>,
    all: Seq<(Seq<char>, Seq<Seq<char>>)>,
) -> Seq<(Seq<char>, Seq<Seq<char>>)> {
    all.filter(|k: (Seq<char>, Seq<Seq<char>>)| names.contains(k.0))
}

/// The word lists of `all` whose file names are among `names`, in order.
pub open spec fn lists_for(names: Seq<Seq<char>>, all: Seq<NamedWords>) -> Seq<Seq<Seq<char>>> {
    all.filter(|p: NamedWords| names.contains(p.0)).map_values(|p: NamedWords| p.1)
}

/// The word lists with their file names, as seen.
pub open spec fn named_lists(all: Seq<(String, WordListAsset)>) -> Seq<NamedWords> {
    all.map_values(|p: (String, WordListAsset)| (p.0@, p.1@))
}

/// The dictionaries with their file names, as seen.
pub open spec fn named_dictionaries(all: Seq<(String, DictionaryAsset)>) -> Seq<NamedWords> {
    all.map_values(|p: (String, DictionaryAsset)| (p.0@, p.1@))
}

/// The keyboards, as seen.
pub open spec fn keyboards_view(all: Seq<KeyboardLayoutAsset>) -> Seq<(Seq<char>, Seq<Seq<char>>)> {
    all.map_values(|k: KeyboardLayoutAsset| keyboard_view(k))
}

/// `d` is the first dictionary of `all` whose file name is `stem`.
pub open spec fn first_dictionary(stem: Seq<char>, all: Seq<NamedWords>, d: Seq<Seq<char>>) -> bool {
    exists|k: int|
        0 <= k < all.len() && all[k].0 == stem && all[k].1 == d && forall|j: int|
            0 <= j < k ==> all[j].0 != stem
}

/// A dictionary was loaded from a file named `stem`.
pub open spec fn has_dictionary(stem: Seq<char>, all: Seq<(String, DictionaryAsset)>) -> bool {
    exists|k: int| 0 <= k < all.len() && all[k].0@ == stem
}

/// `l` is the language described by `asset`, loaded from the file named
/// `stem`: its name, the keyboards and word lists it names, and the
/// dictionary of the same file name.
pub open spec fn assembled(
    l: Language,
    stem: Seq<char>,
    asset: LanguageAsset,
    keyboards: Seq<KeyboardLayoutAsset>,
    wordlists: Seq<(String, WordListAsset)>,
    dictionaries: Seq<(String, DictionaryAsset)>,
) -> bool {
    &&& l.name@ == asset.name@
    &&& keyboards_view(l.keyboards@) == keyboards_for(
        words_view(asset.keyboards@),
        keyboards_view(keyboards),
    )
    &&& l.wordlists@.map_values(|w: WordListAsset| w@) == lists_for(
        words_view(asset.wordlists@),
        named_lists(wordlists),
    )
    &&& first_dictionary(stem, named_dictionaries(dictionaries), l.dictionary@)
}

fn select_keyboards(names: &Vec<String>, all: &Vec<KeyboardLayoutAsset>) -> (r: Vec<
    KeyboardLayoutAsset,
>)
    ensures
        keyboards_view(r@) == keyboards_for(words_view(names@), keyboards_view(all@)),
{
    let ghost pred = |k: (Seq<char>, Seq<Seq<char>>)| words_view(names@).contains(k.0);
    let mut r: Vec<KeyboardLayoutAsset> = Vec::new();
    let mut i: usize = 0;
    while i < all.len()
        invariant
            i <= all@.len(),
            pred == (|k: (Seq<char>, Seq<Seq<char>>)| words_view(names@).contains(k.0)),
            keyboards_view(r@) == keyboards_view(all@).take(i as int).filter(pred),
        decreases all@.len() - i,
    {
        let ghost before = keyboards_view(all@).take(i as int);
        assert(keyboards_view(all@).take(i + 1) =~= before.push(keyboard_view(all@[i as int])));
        proof {
            before.lemma_filter_push(keyboard_view(all@[i as int]), pred);
        }
        let ghost r0 = r@;
        if position_of(names, &all[i].name).is_some() {
            let k = all[i].copy();
            r.push(k);
            assert(keyboards_view(r@) =~= keyboards_view(r0).push(keyboard_view(all@[i as int])));
        }
        i = i + 1;
    }
    assert(keyboards_view(all@).take(i as int) =~= keyboards_view(all@));
    r
}

fn select_wordlists(names: &Vec<String>, all: &Vec<(String, WordListAsset)>) -> (r: Vec<
    WordListAsset,
>)
    ensures
        r@.map_values(|w: WordListAsset| w@) == lists_for(words_view(names@), named_lists(all@)),
{
    let ghost pred = |p: NamedWords| words_view(names@).contains(p.0);
    let mut r: Vec<WordListAsset> = Vec::new();
    let mut i: usize = 0;
    while i < all.len()
        invariant
            i <= all@.len(),
            pred == (|p: NamedWords| words_view(names@).contains(p.0)),
            r@.map_values(|w: WordListAsset| w@) == named_lists(all@).take(i as int).filter(
                pred,
            ).map_values(|p: NamedWords| p.1),
        decreases all@.len() - i,
    {
        let ghost before = named_lists(all@).take(i as int);
        let ghost item = (all@[i as int].0@, all@[i as int].1@);
        assert(named_lists(all@).take(i + 1) =~= before.push(item));
        proof {
            before.lemma_filter_push(item, pred);
        }
        let ghost r0 = r@;
        if position_of(names, &all[i].0).is_some() {
            let w = all[i].1.copy();
            r.push(w);
            assert(r@.map_values(|w: WordListAsset| w@) =~= r0.map_values(|w: WordListAsset| w@).push(
                item.1,
            ));
            assert(before.filter(pred).push(item).map_values(|p: NamedWords| p.1) =~= before.filter(
                pred,
            ).map_values(|p: NamedWords| p.1).push(item.1));
        }
        i = i + 1;
    }
    assert(named_lists(all@).take(i as int) =~= named_lists(all@));
    r
}

fn find_dictionary(stem: &String, all: &Vec<(String, DictionaryAsset)>) -> (r: Option<
    DictionaryAsset,
>)
    ensures
        r matches Some(d) ==> first_dictionary(stem@, named_dictionaries(all@), d@),
        r is None ==> !has_dictionary(stem@, all@),
{
    let mut i: usize = 0;
    while i < all.len()
        invariant
            i <= all@.len(),
            forall|j: int| 0 <= j < i ==> all@[j].0@ != stem@,
        decreases all@.len() - i,
    {
        if all[i].0 == *stem {
            let d = all[i].1.copy();
            assert(named_dictionaries(all@)[i as int] == (all@[i as int].0@, all@[i as int].1@));
            return Some(d);
        }
        i = i + 1;
    }
    None
}

/// The catalog of the languages that were loaded.
pub struct LanguagesResource(Vec<Language>);

impl View for LanguagesResource {
    type V = Seq<Language>;

    closed spec fn view(&self) -> Seq<Language> {
        self.0@
    }
}

impl LanguagesResource {
    /// A catalog of the given languages.
    pub fn new(languages: Vec<Language>) -> (r: LanguagesResource)
        ensures
            r@ == languages@,
    {
        LanguagesResource(languages)
    }

    /// Builds the catalog from what was loaded: for each language, with
    /// the name of the file it came from, its keyboards and word lists are
    /// those it names, and its dictionary is the first one loaded from a
    /// file of the same name. `None` when a language has no such
    /// dictionary.
    pub fn assemble(
        languages: &Vec<(String, LanguageAsset)>,
        keyboards: &Vec<KeyboardLayoutAsset>,
        wordlists: &Vec<(String, WordListAsset)>,
        dictionaries: &Vec<(String, DictionaryAsset)>,
    ) -> (r: Option<LanguagesResource>)
        ensures
            r is None <==> exists|i: int|
                0 <= i < languages@.len() && !has_dictionary(
                    #[trigger] languages@[i].0@,
                    dictionaries@,
                ),
            r matches Some(c) ==> c@.len() == languages@.len() && forall|i: int|
                0 <= i < languages@.len() ==> assembled(
                    #[trigger] c@[i],
                    languages@[i].0@,
                    languages@[i].1,
                    keyboards@,
                    wordlists@,
                    dictionaries@,
                ),
    {
        let mut out: Vec<Language> = Vec::new();
        let mut i: usize = 0;
        while i < languages.len()
            invariant
                i <= languages@.len(),
                out@.len() == i,
                forall|j: int|
                    0 <= j < i ==> has_dictionary(#[trigger] languages@[j].0@, dictionaries@),
                forall|j: int|
                    0 <= j < i ==> assembled(
                        #[trigger] out@[j],
                        languages@[j].0@,
                        languages@[j].1,
                        keyboards@,
                        wordlists@,
                        dictionaries@,
                    ),
            decreases languages@.len() - i,
        {
            let (stem, asset) = (&languages[i].0, &languages[i].1);
            let dictionary = match find_dictionary(stem, dictionaries) {
                Some(d) => d,
                None => {
                    assert(!has_dictionary(languages@[i as int].0@, dictionaries@));
                    return None;
                },
            };
            proof {
                let nd = named_dictionaries(dictionaries@);
                let k = choose|k: int|
                    0 <= k < nd.len() && nd[k].0 == stem@ && nd[k].1 == dictionary@ && forall|j: int|
                        0 <= j < k ==> nd[j].0 != stem@;
                assert(dictionaries@[k].0@ == stem@);
            }
            let language = Language {
                name: asset.name.clone(),
                keyboards: select_keyboards(&asset.keyboards, keyboards),
                wordlists: select_wordlists(&asset.wordlists, wordlists),
                dictionary,
            };
            out.push(language);
            i = i + 1;
        }
        Some(LanguagesResource(out))
    }

    /// Whether the language at `index` accepts `word` as a guess.
    pub open spec fn accepts(&self, index: int, word: Seq<char>) -> bool {
        0 <= index < self@.len() && self@[index].dictionary@.contains(word)
    }

    /// Number of languages.
    pub fn len(&self) -> (r: usize)
        ensures
            r == self@.len(),
    {
        self.0.len()
    }

    /// The language at `index`, if there is one.
    pub fn get(&self, index: usize) -> (r: Option<&Language>)
        ensures
            r is Some <==> index < self@.len(),
            r matches Some(l) ==> *l == self@[index as int],
    {
        if index < self.0.len() {
            Some(&self.0[index])
        } else {
            None
        }
    }

    /// Whether the language at `index` accepts `word` as a guess; `false`
    /// when there is no language at `index`.
    pub fn accepts_word(&self, index: usize, word: &String) -> (r: bool)
        ensures
            r == self.accepts(index as int, word@),
    {
        index < self.0.len() && self.0[index].is_in_dictionary(word)
    }

    /// Index of the first language called `name`.
    pub fn find(&self, name: &String) -> (r: Option<usize>)
        ensures
            r matches Some(i) ==> i < self@.len() && self@[i as int].name@ == name@ && forall|j: int|
                0 <= j < i ==> self@[j].name@ != name@,
            r is None ==> forall|i: int| 0 <= i < self@.len() ==> self@[i].name@ != name@,
    {
        let mut i: usize = 0;
        while i < self.0.len()
            invariant
                i <= self@.len(),
                forall|j: int| 0 <= j < i ==> self@[j].name@ != name@,
            decreases self@.len() - i,
        {
            if self.0[i].name == *name {
                return Some(i);
            }
            i = i + 1;
        }
        None
    }
}

} // verus!
