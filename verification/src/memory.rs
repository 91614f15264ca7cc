//! Settings kept in memory, for a bot that runs without a backend.
//!
//! The rules are those of the stored settings: a room that has settings of
//! its own reads them, any other room reads the community's default, and a
//! change for the whole community reaches every room and the default.

pub mod message;

use crate::code_input::{chars_of, occurs_at, stands_at};
use crate::model::compiler_options::{reverse, string_views};
use vstd::prelude::*;

verus! {

/// The name of a compiler, as the compile service knows it.
#[derive(Debug)]
pub struct CompilerId {
    pub compiler_name: String,
}

impl CompilerId {
    pub fn new(s: &str) -> (r: CompilerId)
        ensures
            r.compiler_name@ == s@,
    {
        CompilerId { compiler_name: String::from_str(s) }
    }
}

impl Clone for CompilerId {
    fn clone(&self) -> (r: CompilerId)
        ensures
            r.compiler_name@ == self.compiler_name@,
    {
        CompilerId { compiler_name: self.compiler_name.clone() }
    }
}

/// A way to pick compilers.
#[derive(Debug)]
pub enum CompilerPredicate {
    /// Those whose name holds the text.
    NameSubstring(String),
}

/// Whether `part` stands somewhere in `text`.
pub open spec fn holds_text(text: Seq<char>, part: Seq<char>) -> bool {
    exists|i: int| occurs_at(text, part, i)
}

impl CompilerPredicate {
    /// The text that picks the compilers.
    pub open spec fn spec_text(self) -> Seq<char> {
        match self {
            CompilerPredicate::NameSubstring(s) => s@,
        }
    }

    /// Whether the predicate picks the compiler of the name `input`.
    pub fn match_with(&self, input: &str) -> (r: bool)
        ensures
            r == holds_text(input@, self.spec_text()),
    {
        match self {
            CompilerPredicate::NameSubstring(s) => {
                let text = chars_of(input);
                let part = chars_of(s.as_str());
                if part.len() > text.len() {
                    return false;
                }
                let last = text.len() - part.len();
                let mut i: usize = 0;
                loop
                    invariant
                        text@ == input@,
                        part@ == self.spec_text(),
                        last == text.len() - part.len(),
                        0 <= i <= last,
                        forall|j: int| 0 <= j < i ==> !occurs_at(text@, part@, j),
                    decreases last - i,
                {
                    if stands_at(&text, &part, i) {
                        return true;
                    }
                    if i == last {
                        return false;
                    }
                    i = i + 1;
                }
            },
        }
    }
}

impl Clone for CompilerPredicate {
    fn clone(&self) -> (r: CompilerPredicate)
        ensures
            r.spec_text() == self.spec_text(),
    {
        match self {
            CompilerPredicate::NameSubstring(s) => CompilerPredicate::NameSubstring(s.clone()),
        }
    }
}

/// The value that a list of pairs gives for a key: that of the first pair
/// with the key.
pub open spec fn lookup<V>(entries: Seq<(Seq<char>, V)>, key: Seq<char>) -> Option<V>
    decreases entries.len(),
{
    if entries.len() == 0 {
        None
    } else if entries[0].0 == key {
        Some(entries[0].1)
    } else {
        lookup(entries.skip(1), key)
    }
}

/// The place of the first pair with the key, if there is one.
pub open spec fn place<V>(entries: Seq<(Seq<char>, V)>, key: Seq<char>, i: int) -> bool {
    &&& 0 <= i < entries.len()
    &&& entries[i].0 == key
    &&& forall|j: int| 0 <= j < i ==> (#[trigger] entries[j]).0 != key
}

/// A list of pairs with the value for a key set: in place where the key is
/// there, at the end where it is not.
pub open spec fn upserted<V>(entries: Seq<(Seq<char>, V)>, key: Seq<char>, value: V) -> Seq<
    (Seq<char>, V),
> {
    if exists|i: int| place(entries, key, i) {
        entries.update(choose|i: int| place(entries, key, i), (key, value))
    } else {
        entries.push((key, value))
    }
}

/// A list of pairs with every pair of another list set in it, one after the
/// other.
pub open spec fn merged<V>(entries: Seq<(Seq<char>, V)>, more: Seq<(Seq<char>, V)>) -> Seq<
    (Seq<char>, V),
>
    decreases more.len(),
{
    if more.len() == 0 {
        entries
    } else {
        merged(upserted(entries, more[0].0, more[0].1), more.skip(1))
    }
}

/// The first pair with a key is where the key's value is looked up.
pub proof fn lemma_lookup_place<V>(entries: Seq<(Seq<char>, V)>, key: Seq<char>)
    ensures
        match lookup(entries, key) {
            Some(v) => exists|i: int| place(entries, key, i) && entries[i].1 == v,
            None => forall|i: int| 0 <= i < entries.len() ==> (#[trigger] entries[i]).0 != key,
        },
    decreases entries.len(),
{
    if entries.len() > 0 {
        if entries[0].0 == key {
            assert(place(entries, key, 0));
        } else {
            let rest = entries.skip(1);
            lemma_lookup_place(rest, key);
            match lookup(rest, key) {
                Some(v) => {
                    let i = choose|i: int| place(rest, key, i) && rest[i].1 == v;
                    assert forall|j: int| 0 <= j < i + 1 implies (#[trigger] entries[j]).0
                        != key by {
                        if j > 0 {
                            assert(rest[j - 1] == entries[j]);
                        }
                    }
                    assert(place(entries, key, i + 1));
                },
                None => {
                    assert forall|i: int| 0 <= i < entries.len() implies (#[trigger] entries[i]).0
                        != key by {
                        if i > 0 {
                            assert(rest[i - 1] == entries[i]);
                        }
                    }
                },
            }
        }
    }
}

/// Setting the value for a key changes what is looked up for that key, and
/// for no other.
pub proof fn lemma_lookup_upserted<V>(
    entries: Seq<(Seq<char>, V)>,
    key: Seq<char>,
    value: V,
    other: Seq<char>,
)
    ensures
        lookup(upserted(entries, key, value), other) == if other == key {
            Some(value)
        } else {
            lookup(entries, other)
        },
    decreases entries.len(),
{
    let after = upserted(entries, key, value);
    if entries.len() == 0 {
        assert(!exists|i: int| place(entries, key, i));
        assert(after.skip(1) =~= Seq::<(Seq<char>, V)>::empty());
        reveal_with_fuel(lookup, 2);
    } else if entries[0].0 == key {
        assert(place(entries, key, 0));
        let i = choose|i: int| place(entries, key, i);
        assert(i == 0) by {
            if i > 0 {
                assert(entries[0].0 != key);
            }
        }
        assert(after.skip(1) =~= entries.skip(1));
    } else {
        let rest = entries.skip(1);
        lemma_lookup_upserted(rest, key, value, other);
        if exists|i: int| place(entries, key, i) {
            let i = choose|i: int| place(entries, key, i);
            assert(place(rest, key, i - 1)) by {
                assert forall|j: int| 0 <= j < i - 1 implies (#[trigger] rest[j]).0 != key by {
                    assert(rest[j] == entries[j + 1]);
                }
            }
            let k = choose|k: int| place(rest, key, k);
            assert(k == i - 1) by {
                if k < i - 1 {
                    assert(rest[k] == entries[k + 1]);
                    assert(entries[k + 1].0 != key);
                } else if k > i - 1 {
                    assert(rest[i - 1].0 != key);
                }
            }
            assert(after.skip(1) =~= upserted(rest, key, value));
        } else {
            assert(!exists|k: int| place(rest, key, k)) by {
                if exists|k: int| place(rest, key, k) {
                    let k = choose|k: int| place(rest, key, k);
                    assert forall|j: int| 0 <= j < k + 1 implies (#[trigger] entries[j]).0
                        != key by {
                        if j > 0 {
                            assert(rest[j - 1] == entries[j]);
                        }
                    }
                    assert(place(entries, key, k + 1));
                }
            }
            assert(after.skip(1) =~= upserted(rest, key, value));
        }
    }
}

/// The place of the first pair with the key.
fn position<V>(entries: &Vec<(String, V)>, key: &String) -> (r: Option<usize>)
    ensures
        match r {
            Some(i) => i < entries.len() && entries[i as int].0@ == key@ && forall|j: int|
                0 <= j < i ==> (#[trigger] entries[j]).0@ != key@,
            None => forall|j: int| 0 <= j < entries.len() ==> (#[trigger] entries[j]).0@ != key@,
        },
{
    let mut i: usize = 0;
    while i < entries.len()
        invariant
            0 <= i <= entries.len(),
            forall|j: int| 0 <= j < i ==> (#[trigger] entries[j]).0@ != key@,
        decreases entries.len() - i,
    {
        if entries[i].0 == *key {
            return Some(i);
        }
        i = i + 1;
    }
    None
}

/// Sets the value for a key: in place where the key is there, at the end
/// where it is not.
fn upsert<V>(entries: &mut Vec<(String, V)>, key: String, value: V)
    ensures
        match position_of(old(entries)@, key@) {
            Some(i) => final(entries)@ == old(entries)@.update(i, (key, value)),
            None => final(entries)@ == old(entries)@.push((key, value)),
        },
{
    match position(entries, &key) {
        Some(i) => {
            proof {
                lemma_position_of(entries@, key@, i as int);
            }
            entries.set(i, (key, value));
        },
        None => {
            proof {
                lemma_no_position(entries@, key@);
            }
            entries.push((key, value));
        },
    }
}

/// The place of the first pair whose key spells `key`.
pub open spec fn position_of<V>(entries: Seq<(String, V)>, key: Seq<char>) -> Option<int> {
    if exists|i: int| first_with_key(entries, key, i) {
        Some(choose|i: int| first_with_key(entries, key, i))
    } else {
        None
    }
}

/// `i` is the place of the first pair whose key spells `key`.
pub open spec fn first_with_key<V>(entries: Seq<(String, V)>, key: Seq<char>, i: int) -> bool {
    &&& 0 <= i < entries.len()
    &&& entries[i].0@ == key
    &&& forall|j: int| 0 <= j < i ==> (#[trigger] entries[j]).0@ != key
}

proof fn lemma_position_of<V>(entries: Seq<(String, V)>, key: Seq<char>, i: int)
    requires
        first_with_key(entries, key, i),
    ensures
        position_of(entries, key) == Some(i),
{
    let w = choose|w: int| first_with_key(entries, key, w);
    if w < i {
        assert(entries[w].0@ != key);
    } else if i < w {
        assert(entries[i].0@ != key);
    }
}

proof fn lemma_no_position<V>(entries: Seq<(String, V)>, key: Seq<char>)
    requires
        forall|j: int| 0 <= j < entries.len() ==> (#[trigger] entries[j]).0@ != key,
    ensures
        position_of(entries, key) is None,
{
    if exists|i: int| first_with_key(entries, key, i) {
        let i = choose|i: int| first_with_key(entries, key, i);
        assert(entries[i].0@ != key);
    }
}

/// The languages with their compilers, as plain values.
pub open spec fn language_pairs(entries: Seq<(String, CompilerId)>) -> Seq<(Seq<char>, Seq<char>)> {
    entries.map_values(|e: (String, CompilerId)| (e.0@, e.1.compiler_name@))
}

/// The predicates with their options, as plain values.
pub open spec fn option_pairs(entries: Seq<(String, Vec<String>)>) -> Seq<
    (Seq<char>, Seq<Seq<char>>),
> {
    entries.map_values(|e: (String, Vec<String>)| (e.0@, string_views(e.1@)))
}

/// The settings of a room, or a change to them: each part may be missing.
#[derive(Debug)]
pub struct Setting {
    auto: Option<bool>,
    auto_save: Option<bool>,
    language_map: Vec<(String, CompilerId)>,
    default_compiler_options: Vec<(String, Vec<String>)>,
}

/// What `Setting` holds, as plain values. The two lists stand for maps: the
/// first pair with a key is the one that counts.
pub struct SettingView {
    pub auto: Option<bool>,
    pub auto_save: Option<bool>,
    pub language_map: Seq<(Seq<char>, Seq<char>)>,
    pub default_compiler_options: Seq<(Seq<char>, Seq<Seq<char>>)>,
}

impl SettingView {
    /// The settings with a change laid over them: a flag of the change
    /// wins where the change has one, and so does each pair of the change.
    pub open spec fn extended(self, change: SettingView) -> SettingView {
        SettingView {
            auto: match change.auto {
                Some(a) => Some(a),
                None => self.auto,
            },
            auto_save: match change.auto_save {
                Some(a) => Some(a),
                None => self.auto_save,
            },
            language_map: merged(self.language_map, change.language_map),
            default_compiler_options: merged(
                self.default_compiler_options,
                change.default_compiler_options,
            ),
        }
    }

    /// Whether code posted without a command is run: it is, unless the
    /// settings say otherwise.
    pub open spec fn auto(self) -> bool {
        match self.auto {
            Some(a) => a,
            None => true,
        }
    }

    /// Whether such runs are saved: they are not, unless the settings say
    /// otherwise.
    pub open spec fn auto_save(self) -> bool {
        match self.auto_save {
            Some(a) => a,
            None => false,
        }
    }
}

impl View for Setting {
    type V = SettingView;

    closed spec fn view(&self) -> SettingView {
        SettingView {
            auto: self.auto,
            auto_save: self.auto_save,
            language_map: language_pairs(self.language_map@),
            default_compiler_options: option_pairs(self.default_compiler_options@),
        }
    }
}

proof fn lemma_language_upsert(
    entries: Seq<(String, CompilerId)>,
    key: String,
    value: CompilerId,
    after: Seq<(String, CompilerId)>,
)
    requires
        match position_of(entries, key@) {
            Some(i) => after == entries.update(i, (key, value)),
            None => after == entries.push((key, value)),
        },
    ensures
        language_pairs(after) == upserted(language_pairs(entries), key@, value.compiler_name@),
{
    let pairs = language_pairs(entries);
    if exists|i: int| first_with_key(entries, key@, i) {
        let i = choose|i: int| first_with_key(entries, key@, i);
        assert(place(pairs, key@, i)) by {
            assert forall|j: int| 0 <= j < i implies (#[trigger] pairs[j]).0 != key@ by {
                assert(entries[j].0@ != key@);
            }
        }
        let w = choose|w: int| place(pairs, key@, w);
        assert(w == i) by {
            if w < i {
                assert(pairs[w].0 != key@);
            } else if i < w {
                assert(pairs[i].0 != key@);
            }
        }
        assert(language_pairs(after) =~= pairs.update(i, (key@, value.compiler_name@)));
    } else {
        assert(!exists|w: int| place(pairs, key@, w)) by {
            if exists|w: int| place(pairs, key@, w) {
                let w = choose|w: int| place(pairs, key@, w);
                assert forall|j: int| 0 <= j < w implies (#[trigger] entries[j]).0@ != key@ by {
                    assert(pairs[j].0 != key@);
                }
                assert(first_with_key(entries, key@, w));
            }
        }
        assert(language_pairs(after) =~= pairs.push((key@, value.compiler_name@)));
    }
}

proof fn lemma_option_upsert(
    entries: Seq<(String, Vec<String>)>,
    key: String,
    value: Vec<String>,
    after: Seq<(String, Vec<String>)>,
)
    requires
        match position_of(entries, key@) {
            Some(i) => after == entries.update(i, (key, value)),
            None => after == entries.push((key, value)),
        },
    ensures
        option_pairs(after) == upserted(option_pairs(entries), key@, string_views(value@)),
{
    let pairs = option_pairs(entries);
    if exists|i: int| first_with_key(entries, key@, i) {
        let i = choose|i: int| first_with_key(entries, key@, i);
        assert(place(pairs, key@, i)) by {
            assert forall|j: int| 0 <= j < i implies (#[trigger] pairs[j]).0 != key@ by {
                assert(entries[j].0@ != key@);
            }
        }
        let w = choose|w: int| place(pairs, key@, w);
        assert(w == i) by {
            if w < i {
                assert(pairs[w].0 != key@);
            } else if i < w {
                assert(pairs[i].0 != key@);
            }
        }
        assert(option_pairs(after) =~= pairs.update(i, (key@, string_views(value@))));
    } else {
        assert(!exists|w: int| place(pairs, key@, w)) by {
            if exists|w: int| place(pairs, key@, w) {
                let w = choose|w: int| place(pairs, key@, w);
                assert forall|j: int| 0 <= j < w implies (#[trigger] entries[j]).0@ != key@ by {
                    assert(pairs[j].0 != key@);
                }
                assert(first_with_key(entries, key@, w));
            }
        }
        assert(option_pairs(after) =~= pairs.push((key@, string_views(value@))));
    }
}

impl Setting {
    /// Settings that say nothing.
    pub fn new() -> (r: Setting)
        ensures
            r@ == (SettingView {
                auto: None,
                auto_save: None,
                language_map: Seq::empty(),
                default_compiler_options: Seq::empty(),
            }),
    {
        let setting = Setting {
            auto: None,
            auto_save: None,
            language_map: Vec::new(),
            default_compiler_options: Vec::new(),
        };
        assert(setting@.language_map =~= Seq::empty());
        assert(setting@.default_compiler_options =~= Seq::empty());
        setting
    }

    /// A change of `Auto` and of nothing else.
    pub fn with_auto(state: bool) -> (r: Setting)
        ensures
            r@ == (SettingView {
                auto: Some(state),
                auto_save: None,
                language_map: Seq::empty(),
                default_compiler_options: Seq::empty(),
            }),
    {
        let mut setting = Setting::new();
        setting.auto = Some(state);
        setting
    }

    /// A change of `AutoSave` and of nothing else.
    pub fn with_auto_save(state: bool) -> (r: Setting)
        ensures
            r@ == (SettingView {
                auto: None,
                auto_save: Some(state),
                language_map: Seq::empty(),
                default_compiler_options: Seq::empty(),
            }),
    {
        let mut setting = Setting::new();
        setting.auto_save = Some(state);
        setting
    }

    /// A change of the compiler of one language and of nothing else.
    pub fn with_language(language: String, compiler: CompilerId) -> (r: Setting)
        ensures
            r@ == (SettingView {
                auto: None,
                auto_save: None,
                language_map: seq![(language@, compiler.compiler_name@)],
                default_compiler_options: Seq::empty(),
            }),
    {
        let mut setting = Setting::new();
        setting.language_map.push((language, compiler));
        assert(setting@.language_map =~= seq![(language@, compiler.compiler_name@)]);
        setting
    }

    /// A change of the options for the compilers that a predicate picks,
    /// and of nothing else.
    pub fn with_default_options(predicate: CompilerPredicate, options: Vec<String>) -> (r: Setting)
        ensures
            r@ == (SettingView {
                auto: None,
                auto_save: None,
                language_map: Seq::empty(),
                default_compiler_options: seq![(predicate.spec_text(), string_views(options@))],
            }),
    {
        let mut setting = Setting::new();
        let CompilerPredicate::NameSubstring(text) = predicate;
        setting.default_compiler_options.push((text, options));
        assert(setting@.default_compiler_options =~= seq![(text@, string_views(options@))]);
        setting
    }

    /// Whether code posted without a command is run.
    pub fn auto(&self) -> (r: bool)
        ensures
            r == self@.auto(),
    {
        match self.auto {
            Some(a) => a,
            None => true,
        }
    }

    /// Whether such runs are saved.
    pub fn auto_save(&self) -> (r: bool)
        ensures
            r == self@.auto_save(),
    {
        match self.auto_save {
            Some(a) => a,
            None => false,
        }
    }

    /// Lays a change over the settings.
    pub fn extend(&mut self, s: Setting)
        ensures
            final(self)@ == old(self)@.extended(s@),
    {
        let ghost before = self@;
        let ghost change = s@;
        let Setting { auto, auto_save, language_map, default_compiler_options } = s;
        self.auto = match auto {
            Some(a) => Some(a),
            None => self.auto,
        };
        self.auto_save = match auto_save {
            Some(a) => Some(a),
            None => self.auto_save,
        };
        let ghost flags = (self.auto, self.auto_save);
        let ghost languages = language_map@;
        let mut rest = reverse(language_map);
        let mut i: usize = 0;
        let total = rest.len();
        assert(language_pairs(languages).skip(0) == language_pairs(languages));
        while i < total
            invariant
                (self.auto, self.auto_save) == flags,
                option_pairs(self.default_compiler_options@) == before.default_compiler_options,
                total == languages.len(),
                0 <= i <= total,
                rest.len() == total - i,
                forall|j: int| 0 <= j < rest.len() ==> rest[j] == languages[languages.len() - 1 - j],
                merged(before.language_map, language_pairs(languages)) == merged(
                    language_pairs(self.language_map@),
                    language_pairs(languages).skip(i as int),
                ),
            decreases total - i,
        {
            let (key, value) = rest.pop().unwrap();
            let ghost old_entries = self.language_map@;
            assert((key, value) == languages[i as int]);
            upsert(&mut self.language_map, key, value);
            proof {
                lemma_language_upsert(old_entries, key, value, self.language_map@);
                let more = language_pairs(languages).skip(i as int);
                assert(more[0] == (key@, value.compiler_name@));
                assert(more.skip(1) =~= language_pairs(languages).skip(i + 1));
            }
            i = i + 1;
        }
        assert(language_pairs(languages).skip(total as int) =~= Seq::empty());
        let ghost merged_languages = language_pairs(self.language_map@);
        let ghost options = default_compiler_options@;
        let mut rest = reverse(default_compiler_options);
        let mut i: usize = 0;
        let total = rest.len();
        assert(option_pairs(options).skip(0) == option_pairs(options));
        while i < total
            invariant
                (self.auto, self.auto_save) == flags,
                language_pairs(self.language_map@) == merged_languages,
                total == options.len(),
                0 <= i <= total,
                rest.len() == total - i,
                forall|j: int| 0 <= j < rest.len() ==> rest[j] == options[options.len() - 1 - j],
                merged(before.default_compiler_options, option_pairs(options)) == merged(
                    option_pairs(self.default_compiler_options@),
                    option_pairs(options).skip(i as int),
                ),
            decreases total - i,
        {
            let (key, value) = rest.pop().unwrap();
            let ghost old_entries = self.default_compiler_options@;
            assert((key, value) == options[i as int]);
            upsert(&mut self.default_compiler_options, key, value);
            proof {
                lemma_option_upsert(old_entries, key, value, self.default_compiler_options@);
                let more = option_pairs(options).skip(i as int);
                assert(more[0] == (key@, string_views(value@)));
                assert(more.skip(1) =~= option_pairs(options).skip(i + 1));
            }
            i = i + 1;
        }
        assert(option_pairs(options).skip(total as int) =~= Seq::empty());
    }
}

/// The value of the first pair with a key is what is looked up for the key.
pub proof fn lemma_place_lookup<V>(entries: Seq<(Seq<char>, V)>, key: Seq<char>, i: int)
    requires
        place(entries, key, i),
    ensures
        lookup(entries, key) == Some(entries[i].1),
    decreases entries.len(),
{
    if i > 0 {
        assert(entries[0].0 != key);
        let rest = entries.skip(1);
        assert(place(rest, key, i - 1)) by {
            assert forall|j: int| 0 <= j < i - 1 implies (#[trigger] rest[j]).0 != key by {
                assert(rest[j] == entries[j + 1]);
            }
        }
        lemma_place_lookup(rest, key, i - 1);
    }
}

/// The languages that a community starts with, each with its compiler.
pub open spec fn nice_languages() -> Seq<(Seq<char>, Seq<char>)> {
    seq![
        ("c"@, "gcc-9.3.0-c"@),
        ("cpp"@, "gcc-9.3.0"@),
        ("c++"@, "gcc-9.3.0"@),
        ("cs"@, "mono-5.8.0.108"@),
        ("python"@, "cpython-3.8.0"@),
        ("rust"@, "rust-1.18.0"@),
        ("js"@, "nodejs-14.0.0"@),
        ("javascript"@, "nodejs-14.0.0"@),
        ("d"@, "dmd-2.076.0"@),
        ("go"@, "go-1.14.2"@),
        ("haskell"@, "ghc-8.4.2"@),
        ("bash"@, "bash"@),
    ]
}

/// `i` is the place of the first predicate that picks the compiler `name`.
pub open spec fn first_pick(
    options: Seq<(Seq<char>, Seq<Seq<char>>)>,
    name: Seq<char>,
    i: int,
) -> bool {
    &&& 0 <= i < options.len()
    &&& holds_text(name, options[i].0)
    &&& forall|j: int| 0 <= j < i ==> !holds_text(name, (#[trigger] options[j]).0)
}

impl Clone for Setting {
    fn clone(&self) -> (r: Setting)
        ensures
            r@ == self@,
    {
        let mut language_map: Vec<(String, CompilerId)> = Vec::new();
        let mut i: usize = 0;
        while i < self.language_map.len()
            invariant
                0 <= i <= self.language_map.len(),
                language_map.len() == i,
                forall|j: int|
                    0 <= j < i ==> (#[trigger] language_map[j]).0@ == self.language_map[j].0@
                        && language_map[j].1.compiler_name@
                        == self.language_map[j].1.compiler_name@,
            decreases self.language_map.len() - i,
        {
            let entry = &self.language_map[i];
            language_map.push((entry.0.clone(), entry.1.clone()));
            i = i + 1;
        }
        let mut default_compiler_options: Vec<(String, Vec<String>)> = Vec::new();
        let mut k: usize = 0;
        while k < self.default_compiler_options.len()
            invariant
                0 <= k <= self.default_compiler_options.len(),
                default_compiler_options.len() == k,
                forall|j: int|
                    0 <= j < k ==> (#[trigger] default_compiler_options[j]).0@
                        == self.default_compiler_options[j].0@ && string_views(
                        default_compiler_options[j].1@,
                    ) == string_views(self.default_compiler_options[j].1@),
            decreases self.default_compiler_options.len() - k,
        {
            let entry = &self.default_compiler_options[k];
            default_compiler_options.push((entry.0.clone(), clone_texts(&entry.1)));
            k = k + 1;
        }
        let copy = Setting {
            auto: self.auto,
            auto_save: self.auto_save,
            language_map,
            default_compiler_options,
        };
        assert(copy@.language_map =~= self@.language_map);
        assert(copy@.default_compiler_options =~= self@.default_compiler_options);
        copy
    }
}

/// A copy of each text.
fn clone_texts(texts: &Vec<String>) -> (r: Vec<String>)
    ensures
        string_views(r@) == string_views(texts@),
{
    let mut copies: Vec<String> = Vec::new();
    let mut i: usize = 0;
    while i < texts.len()
        invariant
            0 <= i <= texts.len(),
            copies.len() == i,
            forall|j: int| 0 <= j < i ==> (#[trigger] copies[j])@ == texts[j]@,
        decreases texts.len() - i,
    {
        copies.push(texts[i].clone());
        i = i + 1;
    }
    assert(string_views(copies@) =~= string_views(texts@));
    copies
}

impl Setting {
    /// The settings that a community starts with: nothing but a compiler
    /// for each of a dozen languages.
    pub fn nice_language_map() -> (r: Setting)
        ensures
            r@ == (SettingView {
                auto: None,
                auto_save: None,
                language_map: nice_languages(),
                default_compiler_options: Seq::empty(),
            }),
    {
        let mut map: Vec<(String, CompilerId)> = Vec::new();
        map.push((String::from_str("c"), CompilerId::new("gcc-9.3.0-c")));
        map.push((String::from_str("cpp"), CompilerId::new("gcc-9.3.0")));
        map.push((String::from_str("c++"), CompilerId::new("gcc-9.3.0")));
        map.push((String::from_str("cs"), CompilerId::new("mono-5.8.0.108")));
        map.push((String::from_str("python"), CompilerId::new("cpython-3.8.0")));
        map.push((String::from_str("rust"), CompilerId::new("rust-1.18.0")));
        map.push((String::from_str("js"), CompilerId::new("nodejs-14.0.0")));
        map.push((String::from_str("javascript"), CompilerId::new("nodejs-14.0.0")));
        map.push((String::from_str("d"), CompilerId::new("dmd-2.076.0")));
        map.push((String::from_str("go"), CompilerId::new("go-1.14.2")));
        map.push((String::from_str("haskell"), CompilerId::new("ghc-8.4.2")));
        map.push((String::from_str("bash"), CompilerId::new("bash")));
        proof {
            let pairs = language_pairs(map@);
            let nice = nice_languages();
            assert(map@.len() == 12);
            assert(pairs.len() == 12);
            assert(nice.len() == 12);
            assert(pairs[0] == nice[0]);
            assert(pairs[1] == nice[1]);
            assert(pairs[2] == nice[2]);
            assert(pairs[3] == nice[3]);
            assert(pairs[4] == nice[4]);
            assert(pairs[5] == nice[5]);
            assert(pairs[6] == nice[6]);
            assert(pairs[7] == nice[7]);
            assert(pairs[8] == nice[8]);
            assert(pairs[9] == nice[9]);
            assert(pairs[10] == nice[10]);
            assert(pairs[11] == nice[11]);
            assert(pairs =~= nice);
        }
        let setting = Setting {
            auto: None,
            auto_save: None,
            language_map: map,
            default_compiler_options: Vec::new(),
        };
        assert(setting@.default_compiler_options =~= Seq::empty());
        setting
    }

    /// The compiler that the settings give for a language, if they give
    /// one. The language is taken letter for letter.
    pub fn compiler_for(&self, language: &String) -> (r: Option<&String>)
        ensures
            match r {
                Some(name) => lookup(self@.language_map, language@) == Some(name@),
                None => lookup(self@.language_map, language@) is None,
            },
    {
        let ghost pairs = language_pairs(self.language_map@);
        match position(&self.language_map, language) {
            Some(i) => {
                proof {
                    assert(place(pairs, language@, i as int)) by {
                        assert forall|j: int| 0 <= j < i implies (#[trigger] pairs[j]).0
                            != language@ by {
                            assert(self.language_map[j].0@ != language@);
                        }
                    }
                    lemma_place_lookup(pairs, language@, i as int);
                }
                Some(&self.language_map[i].1.compiler_name)
            },
            None => {
                proof {
                    lemma_lookup_place(pairs, language@);
                    if lookup(pairs, language@) is Some {
                        let i = choose|i: int| place(pairs, language@, i);
                        assert(self.language_map[i].0@ != language@);
                    }
                }
                None
            },
        }
    }

    /// The options of the first predicate that picks the compiler, if one
    /// does.
    pub fn default_options(&self, compiler_name: &str) -> (r: Option<&Vec<String>>)
        ensures
            match r {
                Some(options) => exists|i: int|
                    first_pick(self@.default_compiler_options, compiler_name@, i)
                        && self@.default_compiler_options[i].1 == string_views(options@),
                None => forall|i: int|
                    0 <= i < self@.default_compiler_options.len() ==> !holds_text(
                        compiler_name@,
                        (#[trigger] self@.default_compiler_options[i]).0,
                    ),
            },
    {
        let ghost pairs = option_pairs(self.default_compiler_options@);
        let mut i: usize = 0;
        while i < self.default_compiler_options.len()
            invariant
                0 <= i <= self.default_compiler_options.len(),
                pairs == option_pairs(self.default_compiler_options@),
                forall|j: int| 0 <= j < i ==> !holds_text(compiler_name@, (#[trigger] pairs[j]).0),
            decreases self.default_compiler_options.len() - i,
        {
            let entry = &self.default_compiler_options[i];
            let predicate = CompilerPredicate::NameSubstring(entry.0.clone());
            if predicate.match_with(compiler_name) {
                assert(pairs[i as int] == (entry.0@, string_views(entry.1@)));
                assert(first_pick(pairs, compiler_name@, i as int));
                assert(self@.default_compiler_options == pairs);
                return Some(&entry.1);
            }
            assert(pairs[i as int].0 == entry.0@);
            i = i + 1;
        }
        None
    }
}

/// Whether no two pairs have the same number.
pub open spec fn numbers_distinct<V>(entries: Seq<(u64, V)>) -> bool {
    forall|i: int, j: int|
        0 <= i < j < entries.len() ==> (#[trigger] entries[i]).0 != (#[trigger] entries[j]).0
}

/// Whether a pair has the number.
pub open spec fn has_number<V>(entries: Seq<(u64, V)>, number: u64) -> bool {
    exists|i: int| 0 <= i < entries.len() && (#[trigger] entries[i]).0 == number
}

/// The value that stands with the number, or `otherwise` where none does.
pub open spec fn numbered<V>(entries: Seq<(u64, V)>, number: u64, otherwise: V) -> V {
    if has_number(entries, number) {
        entries[choose|i: int| 0 <= i < entries.len() && (#[trigger] entries[i]).0 == number].1
    } else {
        otherwise
    }
}

/// Where no number stands twice, the value with a number is the value of
/// the pair that has it.
proof fn lemma_numbered<V>(entries: Seq<(u64, V)>, i: int, otherwise: V)
    requires
        numbers_distinct(entries),
        0 <= i < entries.len(),
    ensures
        has_number(entries, entries[i].0),
        numbered(entries, entries[i].0, otherwise) == entries[i].1,
{
    let number = entries[i].0;
    let w = choose|w: int| 0 <= w < entries.len() && (#[trigger] entries[w]).0 == number;
    if w < i {
        assert(entries[w].0 != entries[i].0);
    } else if i < w {
        assert(entries[i].0 != entries[w].0);
    }
}

/// The place of the pair with the number.
fn number_position<V>(entries: &Vec<(u64, V)>, number: u64) -> (r: Option<usize>)
    ensures
        match r {
            Some(i) => i < entries.len() && entries[i as int].0 == number,
            None => !has_number(entries@, number),
        },
{
    let mut i: usize = 0;
    while i < entries.len()
        invariant
            0 <= i <= entries.len(),
            forall|j: int| 0 <= j < i ==> (#[trigger] entries[j]).0 != number,
        decreases entries.len() - i,
    {
        if entries[i].0 == number {
            return Some(i);
        }
        i = i + 1;
    }
    None
}

/// The settings of the rooms of one community, with the default for the
/// rooms that have none of their own.
#[derive(Debug)]
pub struct GuildSetting {
    inner: Vec<(u64, Setting)>,
    current_default: Setting,
}

/// What `GuildSetting` holds, as plain values.
pub struct GuildSettingView {
    pub rooms: Seq<(u64, SettingView)>,
    pub current_default: SettingView,
}

impl GuildSettingView {
    /// The settings that a room reads: its own where it has some, else the
    /// community's default.
    pub open spec fn room(self, channel_id: u64) -> SettingView {
        numbered(self.rooms, channel_id, self.current_default)
    }

    /// Whether the room has settings of its own.
    pub open spec fn has_room(self, channel_id: u64) -> bool {
        has_number(self.rooms, channel_id)
    }
}

/// The settings of rooms as plain values.
pub open spec fn room_views(rooms: Seq<(u64, Setting)>) -> Seq<(u64, SettingView)> {
    rooms.map_values(|r: (u64, Setting)| (r.0, r.1@))
}

impl View for GuildSetting {
    type V = GuildSettingView;

    closed spec fn view(&self) -> GuildSettingView {
        GuildSettingView { rooms: room_views(self.inner@), current_default: self.current_default@ }
    }
}

impl Clone for GuildSetting {
    fn clone(&self) -> (r: GuildSetting)
        ensures
            r@ == self@,
    {
        proof {
            use_type_invariant(self);
        }
        let mut inner: Vec<(u64, Setting)> = Vec::new();
        let mut i: usize = 0;
        while i < self.inner.len()
            invariant
                0 <= i <= self.inner.len(),
                inner.len() == i,
                forall|j: int|
                    0 <= j < i ==> (#[trigger] inner[j]).0 == self.inner[j].0 && inner[j].1@
                        == self.inner[j].1@,
            decreases self.inner.len() - i,
        {
            inner.push((self.inner[i].0, self.inner[i].1.clone()));
            i = i + 1;
        }
        assert(room_views(inner@) =~= room_views(self.inner@));
        assert(numbers_distinct(inner@)) by {
            assert forall|a: int, b: int| 0 <= a < b < inner.len() implies (#[trigger] inner[a]).0
                != (#[trigger] inner[b]).0 by {
                assert(self.inner[a].0 != self.inner[b].0);
            }
        }
        GuildSetting { inner, current_default: self.current_default.clone() }
    }
}

impl GuildSetting {
    /// No room stands in the list twice.
    #[verifier::type_invariant]
    spec fn inv(self) -> bool {
        numbers_distinct(self.inner@)
    }

    /// The settings of a community that nobody has changed yet: no room has
    /// settings of its own, and the default is the starting one.
    pub fn new() -> (r: GuildSetting)
        ensures
            r@.rooms == Seq::<(u64, SettingView)>::empty(),
            r@.current_default == (SettingView {
                auto: None,
                auto_save: None,
                language_map: nice_languages(),
                default_compiler_options: Seq::empty(),
            }),
    {
        let guild = GuildSetting {
            inner: Vec::new(),
            current_default: Setting::nice_language_map(),
        };
        assert(guild@.rooms =~= Seq::<(u64, SettingView)>::empty());
        guild
    }

    /// The settings that a room reads.
    pub fn get_channel(&self, channel_id: u64) -> (r: &Setting)
        ensures
            r@ == self@.room(channel_id),
    {
        proof {
            use_type_invariant(self);
        }
        match number_position(&self.inner, channel_id) {
            Some(i) => {
                proof {
                    lemma_room_views_distinct(self.inner@);
                    lemma_numbered(room_views(self.inner@), i as int, self.current_default@);
                }
                &self.inner[i].1
            },
            None => {
                proof {
                    lemma_room_views_numbers(self.inner@, channel_id);
                }
                &self.current_default
            },
        }
    }

    /// Changes the settings of one room: the change is laid over what the
    /// room read so far, and the room has settings of its own from then on.
    /// No other room is touched, nor the default.
    pub fn set_channel(&mut self, channel_id: u64, setting: Setting)
        ensures
            final(self)@.room(channel_id) == old(self)@.room(channel_id).extended(setting@),
            final(self)@.has_room(channel_id),
            forall|other: u64|
                other != channel_id ==> #[trigger] final(self)@.room(other) == old(self)@.room(
                    other,
                ) && final(self)@.has_room(other) == old(self)@.has_room(other),
            final(self)@.current_default == old(self)@.current_default,
    {
        proof {
            use_type_invariant(&*self);
        }
        let ghost before = self.inner@;
        let ghost default = self.current_default@;
        let mut changed = self.get_channel(channel_id).clone();
        changed.extend(setting);
        let mut inner: Vec<(u64, Setting)> = Vec::new();
        std::mem::swap(&mut inner, &mut self.inner);
        match number_position(&inner, channel_id) {
            Some(i) => {
                inner.set(i, (channel_id, changed));
                proof {
                    let after = inner@;
                    assert(numbers_distinct(after)) by {
                        assert forall|a: int, b: int| 0 <= a < b < after.len() implies (
                        #[trigger] after[a]).0 != (#[trigger] after[b]).0 by {
                            assert(before[a].0 != before[b].0);
                        }
                    }
                    lemma_room_views_distinct(after);
                    lemma_room_views_distinct(before);
                    lemma_numbered(room_views(after), i as int, default);
                    assert forall|other: u64| other != channel_id implies numbered(
                        room_views(after),
                        other,
                        default,
                    ) == numbered(room_views(before), other, default) && has_number(
                        room_views(after),
                        other,
                    ) == has_number(room_views(before), other) by {
                        lemma_room_views_numbers(after, other);
                        lemma_room_views_numbers(before, other);
                        if has_number(before, other) {
                            let k = choose|k: int|
                                0 <= k < before.len() && (#[trigger] before[k]).0 == other;
                            assert(after[k] == before[k]);
                            lemma_numbered(room_views(after), k, default);
                            lemma_numbered(room_views(before), k, default);
                        } else if has_number(after, other) {
                            let k = choose|k: int|
                                0 <= k < after.len() && (#[trigger] after[k]).0 == other;
                            assert(before[k].0 == other);
                        }
                    }
                }
            },
            None => {
                inner.push((channel_id, changed));
                proof {
                    let after = inner@;
                    let last = before.len() as int;
                    assert(numbers_distinct(after)) by {
                        assert forall|a: int, b: int| 0 <= a < b < after.len() implies (
                        #[trigger] after[a]).0 != (#[trigger] after[b]).0 by {
                            if b < last {
                                assert(before[a].0 != before[b].0);
                            } else {
                                assert(before[a].0 != channel_id);
                            }
                        }
                    }
                    lemma_room_views_distinct(after);
                    lemma_room_views_distinct(before);
                    lemma_numbered(room_views(after), last, default);
                    assert forall|other: u64| other != channel_id implies numbered(
                        room_views(after),
                        other,
                        default,
                    ) == numbered(room_views(before), other, default) && has_number(
                        room_views(after),
                        other,
                    ) == has_number(room_views(before), other) by {
                        lemma_room_views_numbers(after, other);
                        lemma_room_views_numbers(before, other);
                        if has_number(before, other) {
                            let k = choose|k: int|
                                0 <= k < before.len() && (#[trigger] before[k]).0 == other;
                            assert(after[k] == before[k]);
                            lemma_numbered(room_views(after), k, default);
                            lemma_numbered(room_views(before), k, default);
                        } else if has_number(after, other) {
                            let k = choose|k: int|
                                0 <= k < after.len() && (#[trigger] after[k]).0 == other;
                            assert(before[k].0 == other);
                        }
                    }
                }
            },
        }
        self.inner = inner;
    }

    /// Changes the settings of the whole community: the change is laid
    /// over the settings of every room that has some, and over the default.
    /// Every room then reads what it read before with the change laid over
    /// it, the rooms that have no settings of their own included.
    pub fn set_all(&mut self, s: Setting)
        ensures
            forall|channel_id: u64| #[trigger]
                final(self)@.room(channel_id) == old(self)@.room(channel_id).extended(s@),
            forall|channel_id: u64| #[trigger]
                final(self)@.has_room(channel_id) == old(self)@.has_room(channel_id),
            final(self)@.current_default == old(self)@.current_default.extended(s@),
    {
        proof {
            use_type_invariant(&*self);
        }
        let ghost before = self.inner@;
        let ghost default = self.current_default@;
        let mut inner: Vec<(u64, Setting)> = Vec::new();
        std::mem::swap(&mut inner, &mut self.inner);
        let mut i: usize = 0;
        while i < inner.len()
            invariant
                0 <= i <= inner.len(),
                inner.len() == before.len(),
                numbers_distinct(before),
                forall|j: int| 0 <= j < before.len() ==> (#[trigger] inner[j]).0 == before[j].0,
                forall|j: int| 0 <= j < i ==> (#[trigger] inner[j]).1@ == before[j].1@.extended(s@),
                forall|j: int| i <= j < before.len() ==> (#[trigger] inner[j]).1@ == before[j].1@,
            decreases inner.len() - i,
        {
            let channel_id = inner[i].0;
            let mut changed = inner[i].1.clone();
            changed.extend(s.clone());
            let ghost previous = inner@;
            inner.set(i, (channel_id, changed));
            proof {
                let after = inner@;
                assert(numbers_distinct(after)) by {
                    assert forall|a: int, b: int| 0 <= a < b < after.len() implies (
                    #[trigger] after[a]).0 != (#[trigger] after[b]).0 by {
                        assert(previous[a].0 == before[a].0);
                        assert(previous[b].0 == before[b].0);
                        assert(before[a].0 != before[b].0);
                    }
                }
                assert forall|j: int| 0 <= j < before.len() implies (#[trigger] inner[j]).0
                    == before[j].0 by {
                    assert(previous[j].0 == before[j].0);
                }
                assert forall|j: int| 0 <= j < i + 1 implies (#[trigger] inner[j]).1@
                    == before[j].1@.extended(s@) by {
                    if j < i {
                        assert(previous[j].1@ == before[j].1@.extended(s@));
                    } else {
                        assert(previous[j].1@ == before[j].1@);
                    }
                }
                assert forall|j: int| i + 1 <= j < before.len() implies (#[trigger] inner[j]).1@
                    == before[j].1@ by {
                    assert(previous[j].1@ == before[j].1@);
                }
            }
            i = i + 1;
        }
        let ghost after = inner@;
        let mut current_default = Setting::new();
        std::mem::swap(&mut current_default, &mut self.current_default);
        current_default.extend(s);
        proof {
            assert(numbers_distinct(after)) by {
                assert forall|a: int, b: int| 0 <= a < b < after.len() implies (#[trigger] after[a]).0
                    != (#[trigger] after[b]).0 by {
                    assert(before[a].0 != before[b].0);
                }
            }
            lemma_room_views_distinct(after);
            lemma_room_views_distinct(before);
            assert forall|channel_id: u64|
                numbered(room_views(after), channel_id, default.extended(s@)) == numbered(
                    room_views(before),
                    channel_id,
                    default,
                ).extended(s@) && has_number(room_views(after), channel_id) == has_number(
                    room_views(before),
                    channel_id,
                ) by {
                lemma_room_views_numbers(after, channel_id);
                lemma_room_views_numbers(before, channel_id);
                if has_number(before, channel_id) {
                    let k = choose|k: int|
                        0 <= k < before.len() && (#[trigger] before[k]).0 == channel_id;
                    assert(after[k].0 == before[k].0);
                    lemma_numbered(room_views(after), k, default.extended(s@));
                    lemma_numbered(room_views(before), k, default);
                } else if has_number(after, channel_id) {
                    let k = choose|k: int|
                        0 <= k < after.len() && (#[trigger] after[k]).0 == channel_id;
                    assert(before[k].0 == channel_id);
                }
            }
        }
        self.inner = inner;
        self.current_default = current_default;
    }
}

/// The rooms as plain values have the numbers of the rooms.
proof fn lemma_room_views_numbers(rooms: Seq<(u64, Setting)>, number: u64)
    ensures
        has_number(room_views(rooms), number) == has_number(rooms, number),
{
    let views = room_views(rooms);
    if has_number(rooms, number) {
        let i = choose|i: int| 0 <= i < rooms.len() && (#[trigger] rooms[i]).0 == number;
        assert(views[i].0 == number);
    }
    if has_number(views, number) {
        let i = choose|i: int| 0 <= i < views.len() && (#[trigger] views[i]).0 == number;
        assert(rooms[i].0 == number);
    }
}

proof fn lemma_room_views_distinct(rooms: Seq<(u64, Setting)>)
    requires
        numbers_distinct(rooms),
    ensures
        numbers_distinct(room_views(rooms)),
{
    let views = room_views(rooms);
    assert forall|i: int, j: int| 0 <= i < j < views.len() implies (#[trigger] views[i]).0 != (
    #[trigger] views[j]).0 by {
        assert(rooms[i].0 != rooms[j].0);
    }
}

/// The settings of every community.
#[derive(Debug)]
pub struct GlobalSetting {
    inner: Vec<(u64, GuildSetting)>,
}

/// The settings of communities as plain values.
pub open spec fn guild_views(guilds: Seq<(u64, GuildSetting)>) -> Seq<(u64, GuildSettingView)> {
    guilds.map_values(|g: (u64, GuildSetting)| (g.0, g.1@))
}

/// The settings of a community that nobody has changed yet.
pub open spec fn fresh() -> GuildSettingView {
    GuildSettingView {
        rooms: Seq::empty(),
        current_default: SettingView {
            auto: None,
            auto_save: None,
            language_map: nice_languages(),
            default_compiler_options: Seq::empty(),
        },
    }
}

impl View for GlobalSetting {
    type V = Seq<(u64, GuildSettingView)>;

    closed spec fn view(&self) -> Seq<(u64, GuildSettingView)> {
        guild_views(self.inner@)
    }
}

/// The settings that a room of a community reads.
pub open spec fn read(
    guilds: Seq<(u64, GuildSettingView)>,
    guild_id: u64,
    channel_id: u64,
) -> SettingView {
    numbered(guilds, guild_id, fresh()).room(channel_id)
}

proof fn lemma_guild_views_numbers(guilds: Seq<(u64, GuildSetting)>, number: u64)
    ensures
        has_number(guild_views(guilds), number) == has_number(guilds, number),
{
    let views = guild_views(guilds);
    if has_number(guilds, number) {
        let i = choose|i: int| 0 <= i < guilds.len() && (#[trigger] guilds[i]).0 == number;
        assert(views[i].0 == number);
    }
    if has_number(views, number) {
        let i = choose|i: int| 0 <= i < views.len() && (#[trigger] views[i]).0 == number;
        assert(guilds[i].0 == number);
    }
}

proof fn lemma_guild_views_distinct(guilds: Seq<(u64, GuildSetting)>)
    requires
        numbers_distinct(guilds),
    ensures
        numbers_distinct(guild_views(guilds)),
{
    let views = guild_views(guilds);
    assert forall|i: int, j: int| 0 <= i < j < views.len() implies (#[trigger] views[i]).0 != (
    #[trigger] views[j]).0 by {
        assert(guilds[i].0 != guilds[j].0);
    }
}

/// Changing the settings of one community leaves what every other
/// community reads.
proof fn lemma_other_guilds(
    before: Seq<(u64, GuildSetting)>,
    after: Seq<(u64, GuildSetting)>,
    guild_id: u64,
    other: u64,
)
    requires
        numbers_distinct(before),
        numbers_distinct(after),
        other != guild_id,
        before.len() <= after.len() <= before.len() + 1,
        forall|k: int| 0 <= k < after.len() ==> (#[trigger] after[k]).0 == guild_id || (k
            < before.len() && after[k].0 == before[k].0 && after[k].1@ == before[k].1@),
        forall|k: int| 0 <= k < before.len() ==> (#[trigger] before[k]).0 == after[k].0,
    ensures
        numbered(guild_views(after), other, fresh()) == numbered(
            guild_views(before),
            other,
            fresh(),
        ),
{
    lemma_guild_views_numbers(after, other);
    lemma_guild_views_numbers(before, other);
    lemma_guild_views_distinct(after);
    lemma_guild_views_distinct(before);
    if has_number(before, other) {
        let k = choose|k: int| 0 <= k < before.len() && (#[trigger] before[k]).0 == other;
        assert(after[k].0 == other);
        lemma_numbered(guild_views(after), k, fresh());
        lemma_numbered(guild_views(before), k, fresh());
    } else if has_number(after, other) {
        let k = choose|k: int| 0 <= k < after.len() && (#[trigger] after[k]).0 == other;
        assert(before[k].0 == other);
    }
}

impl GlobalSetting {
    /// No community stands in the list twice.
    #[verifier::type_invariant]
    spec fn inv(self) -> bool {
        numbers_distinct(self.inner@)
    }

    /// No community has any settings yet.
    pub fn new() -> (r: GlobalSetting)
        ensures
            r@ == Seq::<(u64, GuildSettingView)>::empty(),
    {
        let global = GlobalSetting { inner: Vec::new() };
        assert(global@ =~= Seq::<(u64, GuildSettingView)>::empty());
        global
    }

    /// The settings of a community: those that were made, or, where none
    /// were, the starting ones.
    pub fn get_guild_setting(&self, guild_id: u64) -> (r: GuildSetting)
        ensures
            r@ == numbered(self@, guild_id, fresh()),
    {
        proof {
            use_type_invariant(self);
        }
        match number_position(&self.inner, guild_id) {
            Some(i) => {
                proof {
                    lemma_guild_views_distinct(self.inner@);
                    lemma_numbered(guild_views(self.inner@), i as int, fresh());
                }
                self.inner[i].1.clone()
            },
            None => {
                proof {
                    lemma_guild_views_numbers(self.inner@, guild_id);
                }
                GuildSetting::new()
            },
        }
    }

    /// The settings that a room of a community reads.
    pub fn get_channel_setting(&self, guild_id: u64, channel_id: u64) -> (r: Setting)
        ensures
            r@ == read(self@, guild_id, channel_id),
    {
        proof {
            use_type_invariant(self);
        }
        match number_position(&self.inner, guild_id) {
            Some(i) => {
                proof {
                    lemma_guild_views_distinct(self.inner@);
                    lemma_numbered(guild_views(self.inner@), i as int, fresh());
                }
                self.inner[i].1.get_channel(channel_id).clone()
            },
            None => {
                proof {
                    lemma_guild_views_numbers(self.inner@, guild_id);
                }
                let guild = GuildSetting::new();
                assert(!has_number(guild@.rooms, channel_id));
                guild.get_channel(channel_id).clone()
            },
        }
    }

    /// Changes the settings of a community: of all its rooms and its
    /// default where `is_global` is set, else of the one room. A community
    /// that is changed for the first time starts from the starting settings.
    /// What other communities read is not touched.
    pub fn set_setting(&mut self, guild_id: u64, channel_id: u64, is_global: bool, setting: Setting)
        ensures
            is_global ==> forall|c: u64| #[trigger]
                read(final(self)@, guild_id, c) == read(old(self)@, guild_id, c).extended(
                    setting@,
                ),
            !is_global ==> read(final(self)@, guild_id, channel_id) == read(
                old(self)@,
                guild_id,
                channel_id,
            ).extended(setting@),
            !is_global ==> forall|c: u64|
                c != channel_id ==> #[trigger] read(final(self)@, guild_id, c) == read(
                    old(self)@,
                    guild_id,
                    c,
                ),
            forall|g: u64, c: u64|
                g != guild_id ==> #[trigger] read(final(self)@, g, c) == read(old(self)@, g, c),
    {
        proof {
            use_type_invariant(&*self);
        }
        let ghost before = self.inner@;
        let (place, mut guild) = match number_position(&self.inner, guild_id) {
            Some(i) => {
                proof {
                    lemma_guild_views_distinct(before);
                    lemma_numbered(guild_views(before), i as int, fresh());
                }
                (Some(i), self.inner[i].1.clone())
            },
            None => {
                proof {
                    lemma_guild_views_numbers(before, guild_id);
                }
                (None, GuildSetting::new())
            },
        };
        let ghost started = guild@;
        assert(started.rooms == numbered(guild_views(before), guild_id, fresh()).rooms);
        assert(started.current_default == numbered(
            guild_views(before),
            guild_id,
            fresh(),
        ).current_default);
        if is_global {
            guild.set_all(setting);
        } else {
            guild.set_channel(channel_id, setting);
        }
        let ghost changed = guild@;
        let ghost at: int = match place {
            Some(i) => i as int,
            None => before.len() as int,
        };
        let mut inner: Vec<(u64, GuildSetting)> = Vec::new();
        std::mem::swap(&mut inner, &mut self.inner);
        match place {
            Some(i) => {
                inner.set(i, (guild_id, guild));
            },
            None => {
                inner.push((guild_id, guild));
            },
        }
        proof {
            let after = inner@;
            assert(numbers_distinct(after)) by {
                assert forall|a: int, b: int| 0 <= a < b < after.len() implies (#[trigger] after[a]).0
                    != (#[trigger] after[b]).0 by {
                    if place is Some {
                        assert(before[a].0 != before[b].0);
                    } else if b < before.len() {
                        assert(before[a].0 != before[b].0);
                    } else {
                        assert(before[a].0 != guild_id);
                    }
                }
            }
            lemma_guild_views_distinct(after);
            lemma_numbered(guild_views(after), at, fresh());
            assert(numbered(guild_views(after), guild_id, fresh()) == changed);
            assert forall|g: u64, c: u64| g != guild_id implies #[trigger] read(
                guild_views(after),
                g,
                c,
            ) == read(guild_views(before), g, c) by {
                lemma_other_guilds(before, after, guild_id, g);
            }
        }
        self.inner = inner;
    }
}

} // verus!
