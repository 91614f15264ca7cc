//! The key-value backend, seen from the library: the commands it is asked to
//! carry out, the replies it gives, and a model of what a backend that works
//! holds and answers. The library never talks to a backend itself. It names
//! a command and is handed the reply.

use crate::model::compiler_options::string_views;
use vstd::prelude::*;

verus! {

/// One round-trip to the backend.
#[derive(Debug)]
#[allow(inconsistent_fields)]
pub enum Command {
    /// Is there a value under `key`?
    Exists { key: String },
    /// Read the number under `key`.
    Get { key: String },
    /// Read one field of the hash under `key`.
    HashGet { key: String, field: u64 },
    /// Read every field of the hash under `key`.
    HashGetAll { key: String },
    /// Put a number under `key`, whatever was there.
    Put { key: String, value: u32 },
    /// Put one field into the hash under `key`.
    HashPut { key: String, field: u64, value: u64 },
    /// List the keys that match `pattern`, in which `*` stands for any text.
    Scan { pattern: String },
}

/// A command with its texts as sequences of characters.
#[allow(inconsistent_fields)]
pub enum CommandView {
    Exists { key: Seq<char> },
    Get { key: Seq<char> },
    HashGet { key: Seq<char>, field: u64 },
    HashGetAll { key: Seq<char> },
    Put { key: Seq<char>, value: u32 },
    HashPut { key: Seq<char>, field: u64, value: u64 },
    Scan { pattern: Seq<char> },
}

impl View for Command {
    type V = CommandView;

    open spec fn view(&self) -> CommandView {
        match self {
            Command::Exists { key } => CommandView::Exists { key: key@ },
            Command::Get { key } => CommandView::Get { key: key@ },
            Command::HashGet { key, field } => CommandView::HashGet { key: key@, field: *field },
            Command::HashGetAll { key } => CommandView::HashGetAll { key: key@ },
            Command::Put { key, value } => CommandView::Put { key: key@, value: *value },
            Command::HashPut { key, field, value } => CommandView::HashPut {
                key: key@,
                field: *field,
                value: *value,
            },
            Command::Scan { pattern } => CommandView::Scan { pattern: pattern@ },
        }
    }
}

/// What came back from one round-trip.
#[derive(Debug)]
pub enum Reply {
    /// To `Exists`.
    Exists(bool),
    /// To `Get`: the number that was read.
    Value(u32),
    /// To `HashGet`: the field's value, if the hash has the field.
    HashValue(Option<u64>),
    /// To `HashGetAll`: every field with its value, in no particular order.
    HashEntries(Vec<(u64, u64)>),
    /// To `Scan`: the keys that match, in no particular order.
    Keys(Vec<String>),
    /// To `Put` and `HashPut`: it is written.
    Done,
    /// To any command: the backend could not be reached, or refused, and
    /// says why.
    Failed(String),
}

/// A reply with its texts as sequences of characters.
pub enum ReplyView {
    Exists(bool),
    Value(u32),
    HashValue(Option<u64>),
    HashEntries(Seq<(u64, u64)>),
    Keys(Seq<Seq<char>>),
    Done,
    Failed(Seq<char>),
}

impl View for Reply {
    type V = ReplyView;

    open spec fn view(&self) -> ReplyView {
        match self {
            Reply::Exists(b) => ReplyView::Exists(*b),
            Reply::Value(v) => ReplyView::Value(*v),
            Reply::HashValue(v) => ReplyView::HashValue(*v),
            Reply::HashEntries(entries) => ReplyView::HashEntries(entries@),
            Reply::Keys(keys) => ReplyView::Keys(string_views(keys@)),
            Reply::Done => ReplyView::Done,
            Reply::Failed(why) => ReplyView::Failed(why@),
        }
    }
}

/// What the library hands back after a step of an operation: the next
/// command for the backend, with the state in which to take its reply, or the
/// operation's result.
#[derive(Debug)]
pub enum Step<M, T> {
    Perform(M, Command),
    Finish(T),
}

/// A step with its command as plain values.
pub enum StepView<M, T> {
    Perform(M, CommandView),
    Finish(T),
}

/// What the backend holds under one key.
pub enum Entry {
    /// A number.
    Scalar(u32),
    /// A hash: fields with their values. A hash under a key has at least one
    /// field.
    Hash(Map<u64, u64>),
}

/// Whether `key` matches `pattern`, in which every `*` stands for any text,
/// the empty one too, and every other character for itself.
pub open spec fn wildcard_match(pattern: Seq<char>, key: Seq<char>) -> bool
    decreases pattern.len(), key.len(),
{
    if pattern.len() == 0 {
        key.len() == 0
    } else if pattern[0] == '*' {
        wildcard_match(pattern.skip(1), key) || (key.len() > 0 && wildcard_match(
            pattern,
            key.skip(1),
        ))
    } else {
        key.len() > 0 && key[0] == pattern[0] && wildcard_match(pattern.skip(1), key.skip(1))
    }
}

/// Whether `text` holds no `*`.
pub open spec fn plain(text: Seq<char>) -> bool {
    forall|i: int| 0 <= i < text.len() ==> #[trigger] text[i] != '*'
}

/// A text without `*` matches itself and nothing else.
pub proof fn lemma_plain_matches_itself(text: Seq<char>, key: Seq<char>)
    requires
        plain(text),
    ensures
        wildcard_match(text, key) <==> key == text,
    decreases text.len(),
{
    if text.len() > 0 {
        assert(text[0] != '*');
        if key.len() > 0 {
            assert forall|i: int| 0 <= i < text.skip(1).len() implies #[trigger] text.skip(1)[i]
                != '*' by {
                assert(text.skip(1)[i] == text[i + 1]);
            }
            lemma_plain_matches_itself(text.skip(1), key.skip(1));
            if key[0] == text[0] && key.skip(1) == text.skip(1) {
                assert(key.skip(1).len() == text.skip(1).len());
                assert forall|i: int| 0 <= i < key.len() implies key[i] == text[i] by {
                    if i > 0 {
                        assert(key.skip(1)[i - 1] == text.skip(1)[i - 1]);
                    }
                }
                assert(key =~= text);
            }
        }
    } else {
        assert(key.len() == 0 <==> key =~= text);
    }
}

/// A pattern that begins with a text without `*` matches a key exactly when
/// the key begins with that text and the rest of the pattern matches the rest
/// of the key.
pub proof fn lemma_match_after_prefix(prefix: Seq<char>, pattern: Seq<char>, key: Seq<char>)
    requires
        plain(prefix),
    ensures
        wildcard_match(prefix + pattern, prefix + key) == wildcard_match(pattern, key),
    decreases prefix.len(),
{
    if prefix.len() == 0 {
        assert(prefix + pattern =~= pattern);
        assert(prefix + key =~= key);
    } else {
        let shorter = prefix.skip(1);
        assert(prefix[0] != '*');
        assert forall|i: int| 0 <= i < shorter.len() implies #[trigger] shorter[i] != '*' by {
            assert(shorter[i] == prefix[i + 1]);
        }
        assert((prefix + pattern).skip(1) =~= shorter + pattern);
        assert((prefix + key).skip(1) =~= shorter + key);
        assert((prefix + pattern)[0] == prefix[0]);
        assert((prefix + key)[0] == prefix[0]);
        lemma_match_after_prefix(shorter, pattern, key);
    }
}

/// A `*` takes up whatever text stands before a match of the rest.
pub proof fn lemma_match_star(pattern: Seq<char>, middle: Seq<char>, key: Seq<char>)
    requires
        wildcard_match(pattern, key),
    ensures
        wildcard_match(seq!['*'] + pattern, middle + key),
    decreases middle.len(),
{
    let starred = seq!['*'] + pattern;
    assert(starred[0] == '*');
    assert(starred.skip(1) =~= pattern);
    if middle.len() == 0 {
        assert(middle + key =~= key);
    } else {
        lemma_match_star(pattern, middle.skip(1), key);
        assert((middle + key).skip(1) =~= middle.skip(1) + key);
    }
}

/// What a `*` and a text without `*` behind it match ends with that text.
pub proof fn lemma_star_match_ends(suffix: Seq<char>, key: Seq<char>)
    requires
        plain(suffix),
        wildcard_match(seq!['*'] + suffix, key),
    ensures
        key.len() >= suffix.len(),
        key.skip(key.len() - suffix.len()) == suffix,
    decreases key.len(),
{
    let starred = seq!['*'] + suffix;
    assert(starred[0] == '*');
    assert(starred.skip(1) =~= suffix);
    if wildcard_match(suffix, key) {
        lemma_plain_matches_itself(suffix, key);
        assert(key.skip(0) =~= key);
    } else {
        lemma_star_match_ends(suffix, key.skip(1));
        assert(key.skip(1).skip(key.skip(1).len() - suffix.len()) =~= key.skip(
            key.len() - suffix.len(),
        ));
    }
}

/// What a pattern of a text, a `*` and another text matches begins with
/// the first text and ends with the second, where neither holds a `*`.
pub proof fn lemma_star_match_shape(prefix: Seq<char>, suffix: Seq<char>, key: Seq<char>)
    requires
        plain(prefix),
        plain(suffix),
        wildcard_match(prefix + (seq!['*'] + suffix), key),
    ensures
        key.len() >= prefix.len() + suffix.len(),
        key.take(prefix.len() as int) == prefix,
        key.skip(key.len() - suffix.len()) == suffix,
    decreases prefix.len(),
{
    let rest = seq!['*'] + suffix;
    if prefix.len() == 0 {
        assert(prefix + rest =~= rest);
        lemma_star_match_ends(suffix, key);
        assert(key.take(0) =~= prefix);
    } else {
        let shorter = prefix.skip(1);
        assert(prefix[0] != '*');
        assert((prefix + rest)[0] == prefix[0]);
        assert((prefix + rest).skip(1) =~= shorter + rest);
        assert forall|i: int| 0 <= i < shorter.len() implies #[trigger] shorter[i] != '*' by {
            assert(shorter[i] == prefix[i + 1]);
        }
        lemma_star_match_shape(shorter, suffix, key.skip(1));
        assert(key.take(prefix.len() as int) =~= prefix) by {
            assert forall|i: int| 0 <= i < prefix.len() implies key[i] == prefix[i] by {
                if i > 0 {
                    assert(key.skip(1).take(shorter.len() as int)[i - 1] == shorter[i - 1]);
                }
            }
        }
        assert(key.skip(1).skip(key.skip(1).len() - suffix.len()) =~= key.skip(
            key.len() - suffix.len(),
        ));
    }
}

/// The hash under `key`: empty where the key holds none.
pub open spec fn hash_at(store: Map<Seq<char>, Entry>, key: Seq<char>) -> Map<u64, u64> {
    if store.dom().contains(key) {
        match store[key] {
            Entry::Hash(h) => h,
            Entry::Scalar(_) => Map::empty(),
        }
    } else {
        Map::empty()
    }
}

/// Whether the backend refuses `command` for what `store` holds: a number is
/// read where there is none, or a hash is read or written where a number is.
pub open spec fn refused(store: Map<Seq<char>, Entry>, command: CommandView) -> bool {
    match command {
        CommandView::Get { key } => !(store.dom().contains(key) && store[key] is Scalar),
        CommandView::HashGet { key, .. } => store.dom().contains(key) && store[key] is Scalar,
        CommandView::HashGetAll { key } => store.dom().contains(key) && store[key] is Scalar,
        CommandView::HashPut { key, .. } => store.dom().contains(key) && store[key] is Scalar,
        _ => false,
    }
}

/// Whether `entries` lists the fields of `hash`, each once.
pub open spec fn lists_hash(entries: Seq<(u64, u64)>, hash: Map<u64, u64>) -> bool {
    &&& forall|i: int|
        0 <= i < entries.len() ==> hash.contains_pair((#[trigger] entries[i]).0, entries[i].1)
    &&& forall|f: u64| #[trigger]
        hash.dom().contains(f) ==> exists|i: int|
            0 <= i < entries.len() && (#[trigger] entries[i]).0 == f
    &&& forall|i: int, j: int|
        0 <= i < j < entries.len() ==> (#[trigger] entries[i]).0 != (#[trigger] entries[j]).0
}

/// Whether `keys` lists the keys of `store` that match `pattern`. A key may
/// be listed more than once.
pub open spec fn lists_matches(
    keys: Seq<Seq<char>>,
    store: Map<Seq<char>, Entry>,
    pattern: Seq<char>,
) -> bool {
    &&& forall|i: int|
        0 <= i < keys.len() ==> store.dom().contains(#[trigger] keys[i]) && wildcard_match(
            pattern,
            keys[i],
        )
    &&& forall|k: Seq<char>| #[trigger]
        store.dom().contains(k) && wildcard_match(pattern, k) ==> keys.contains(k)
}

/// Whether `reply` is what a backend that works and holds `store` may give to
/// `command`.
pub open spec fn answers(
    store: Map<Seq<char>, Entry>,
    command: CommandView,
    reply: ReplyView,
) -> bool {
    if refused(store, command) {
        reply is Failed
    } else {
        match command {
            CommandView::Exists { key } => reply == ReplyView::Exists(store.dom().contains(key)),
            CommandView::Get { key } => store[key] matches Entry::Scalar(v) && reply
                == ReplyView::Value(v),
            CommandView::HashGet { key, field } => reply == ReplyView::HashValue(
                if hash_at(store, key).dom().contains(field) {
                    Some(hash_at(store, key)[field])
                } else {
                    None
                },
            ),
            CommandView::HashGetAll { key } => reply matches ReplyView::HashEntries(entries)
                && lists_hash(entries, hash_at(store, key)),
            CommandView::Put { .. } => reply == ReplyView::Done,
            CommandView::HashPut { .. } => reply == ReplyView::Done,
            CommandView::Scan { pattern } => reply matches ReplyView::Keys(keys) && lists_matches(
                keys,
                store,
                pattern,
            ),
        }
    }
}

/// What the backend holds once it has carried out `command` on `store`.
pub open spec fn after(store: Map<Seq<char>, Entry>, command: CommandView) -> Map<
    Seq<char>,
    Entry,
> {
    if refused(store, command) {
        store
    } else {
        match command {
            CommandView::Put { key, value } => store.insert(key, Entry::Scalar(value)),
            CommandView::HashPut { key, field, value } => store.insert(
                key,
                Entry::Hash(hash_at(store, key).insert(field, value)),
            ),
            _ => store,
        }
    }
}

/// A backend that works: to every command it gives a reply that `answers`
/// allows, whatever it holds. A backend holds finitely many keys, and
/// nothing is asked of the answers for any other store.
pub open spec fn works(backend: spec_fn(Map<Seq<char>, Entry>, CommandView) -> ReplyView) -> bool {
    forall|store: Map<Seq<char>, Entry>, command: CommandView|
        store.dom().finite() ==> #[trigger] answers(store, command, backend(store, command))
}

/// The members of a finite set, each once, in some order.
proof fn lemma_list_of_set<A>(s: Set<A>) -> (list: Seq<A>)
    requires
        s.finite(),
    ensures
        forall|a: A| list.contains(a) <==> s.contains(a),
        forall|i: int, j: int| 0 <= i < j < list.len() ==> list[i] != list[j],
    decreases s.len(),
{
    if s.len() == 0 {
        assert(forall|a: A| !s.contains(a)) by {
            broadcast use vstd::set_lib::lemma_set_empty_equivalency_len;

        }
        Seq::empty()
    } else {
        let x = s.choose();
        let rest = lemma_list_of_set(s.remove(x));
        let list = rest.push(x);
        assert forall|a: A| list.contains(a) <==> s.contains(a) by {
            if list.contains(a) {
                let i = choose|i: int| 0 <= i < list.len() && list[i] == a;
                if i < rest.len() {
                    assert(rest.contains(a));
                }
            }
            if s.contains(a) {
                if a == x {
                    assert(list[rest.len() as int] == a);
                } else {
                    assert(s.remove(x).contains(a));
                    let i = choose|i: int| 0 <= i < rest.len() && rest[i] == a;
                    assert(list[i] == a);
                }
            }
        }
        assert forall|i: int, j: int| 0 <= i < j < list.len() implies list[i] != list[j] by {
            if j == rest.len() {
                assert(rest.contains(rest[i]));
            }
        }
        list
    }
}

/// There are finitely many numbers of 64 bits, so every set of them is
/// finite.
proof fn lemma_numbers_finite(s: Set<u64>)
    ensures
        s.finite(),
{
    let range = vstd::set_lib::set_int_range(0, 0x1_0000_0000_0000_0000);
    vstd::set_lib::lemma_int_range(0, 0x1_0000_0000_0000_0000);
    let wide = s.map(|n: u64| n as int);
    assert(wide.subset_of(range));
    vstd::set_lib::lemma_set_subset_finite(range, wide);
    wide.lemma_map_finite(|i: int| i as u64);
    let back = wide.map(|i: int| i as u64);
    assert(back =~= s) by {
        assert forall|n: u64| back.contains(n) == s.contains(n) by {
            if s.contains(n) {
                assert(wide.contains(n as int));
                assert((n as int) as u64 == n);
            }
        }
    }
}

/// To every command there is a reply that a backend which holds finitely
/// many keys may give.
proof fn lemma_answer_exists(store: Map<Seq<char>, Entry>, command: CommandView)
    requires
        store.dom().finite(),
    ensures
        exists|reply: ReplyView| answers(store, command, reply),
{
    if refused(store, command) {
        assert(answers(store, command, ReplyView::Failed(Seq::empty())));
    } else {
        match command {
            CommandView::Exists { key } => {
                assert(answers(store, command, ReplyView::Exists(store.dom().contains(key))));
            },
            CommandView::Get { key } => {
                assert(answers(store, command, ReplyView::Value(store[key]->Scalar_0)));
            },
            CommandView::HashGet { key, field } => {
                let hash = hash_at(store, key);
                let found = if hash.dom().contains(field) {
                    Some(hash[field])
                } else {
                    None
                };
                assert(answers(store, command, ReplyView::HashValue(found)));
            },
            CommandView::HashGetAll { key } => {
                let hash = hash_at(store, key);
                lemma_numbers_finite(hash.dom());
                let fields = lemma_list_of_set(hash.dom());
                let entries = fields.map_values(|f: u64| (f, hash[f]));
                assert(lists_hash(entries, hash)) by {
                    assert forall|i: int| 0 <= i < entries.len() implies hash.contains_pair(
                        (#[trigger] entries[i]).0,
                        entries[i].1,
                    ) by {
                        assert(fields.contains(fields[i]));
                    }
                    assert forall|f: u64| #[trigger] hash.dom().contains(f) implies exists|i: int|
                        0 <= i < entries.len() && (#[trigger] entries[i]).0 == f by {
                        assert(fields.contains(f));
                        let i = choose|i: int| 0 <= i < fields.len() && fields[i] == f;
                        assert(entries[i].0 == f);
                    }
                    assert forall|i: int, j: int| 0 <= i < j < entries.len() implies (
                    #[trigger] entries[i]).0 != (#[trigger] entries[j]).0 by {
                        assert(fields[i] != fields[j]);
                    }
                }
                assert(answers(store, command, ReplyView::HashEntries(entries)));
            },
            CommandView::Put { .. } => {
                assert(answers(store, command, ReplyView::Done));
            },
            CommandView::HashPut { .. } => {
                assert(answers(store, command, ReplyView::Done));
            },
            CommandView::Scan { pattern } => {
                let matching = store.dom().filter(|k: Seq<char>| wildcard_match(pattern, k));
                assert(matching.subset_of(store.dom()));
                vstd::set_lib::lemma_set_subset_finite(store.dom(), matching);
                let keys = lemma_list_of_set(matching);
                assert(lists_matches(keys, store, pattern)) by {
                    assert forall|i: int| 0 <= i < keys.len() implies store.dom().contains(
                        #[trigger] keys[i],
                    ) && wildcard_match(pattern, keys[i]) by {
                        assert(keys.contains(keys[i]));
                    }
                    assert forall|k: Seq<char>| #[trigger]
                        store.dom().contains(k) && wildcard_match(pattern, k) implies keys.contains(
                        k,
                    ) by {
                        assert(matching.contains(k));
                    }
                }
                assert(answers(store, command, ReplyView::Keys(keys)));
            },
        }
    }
}

/// There is a backend that works: what is proved of the backends that work
/// is proved of something.
pub proof fn lemma_a_backend_works()
    ensures
        exists|backend: spec_fn(Map<Seq<char>, Entry>, CommandView) -> ReplyView| works(backend),
{
    let backend = |store: Map<Seq<char>, Entry>, command: CommandView|
        choose|reply: ReplyView| answers(store, command, reply);
    assert forall|store: Map<Seq<char>, Entry>, command: CommandView|
        store.dom().finite() implies #[trigger] answers(
        store,
        command,
        backend(store, command),
    ) by {
        lemma_answer_exists(store, command);
    }
    assert(works(backend));
}

/// A backend that holds finitely many keys holds finitely many after a
/// command.
pub proof fn lemma_after_finite(store: Map<Seq<char>, Entry>, command: CommandView)
    requires
        store.dom().finite(),
    ensures
        after(store, command).dom().finite(),
{
}

} // verus!
