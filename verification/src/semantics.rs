//! What the operations on settings come to when the backend works.
//!
//! An operation is run against a model of the backend: each command it names
//! is answered as the model allows, and changes what the model holds. The
//! theorems here say what a read then finds and what a write leaves behind.

use crate::error::ErrorView;
use crate::model::channel_id::ChannelID;
use crate::model::compiler::CompilerID;
use crate::model::guild_id::GuildID;
use crate::model::language::LanguageID;
use crate::setting::{
    flag_value, lemma_key_names_differ, lemma_scan_finds_only, lemma_scan_finds_room,
    overwrite_from, remap_pairs, start_read, start_write,
    AnswerView, Datum, Field, Finished, Key, Query, ScanPattern, Scope, SettingView,
};
use crate::store::{
    after, answers, hash_at, lemma_after_finite, lists_hash, lists_matches, refused,
    wildcard_match, works, CommandView, Entry, ReplyView, StepView,
};
use vstd::prelude::*;

verus! {

/// How a run ended: with the operation's result, unless it was cut short, and
/// with what the backend then holds.
pub struct Run {
    pub result: Option<Finished>,
    pub store: Map<Seq<char>, Entry>,
}

/// Runs an operation from `step` on, for at most `fuel` round-trips.
pub open spec fn run(
    step: StepView<SettingView, Finished>,
    store: Map<Seq<char>, Entry>,
    backend: spec_fn(Map<Seq<char>, Entry>, CommandView) -> ReplyView,
    fuel: nat,
) -> Run
    decreases fuel,
{
    match step {
        StepView::Finish(result) => Run { result: Some(result), store },
        StepView::Perform(setting, command) => if fuel == 0 {
            Run { result: None, store }
        } else {
            run(
                setting.resume(backend(store, command)),
                after(store, command),
                backend,
                (fuel - 1) as nat,
            )
        },
    }
}

/// A run on a backend that holds finitely many keys leaves it holding
/// finitely many.
pub proof fn lemma_run_finite(
    step: StepView<SettingView, Finished>,
    store: Map<Seq<char>, Entry>,
    backend: spec_fn(Map<Seq<char>, Entry>, CommandView) -> ReplyView,
    fuel: nat,
)
    requires
        store.dom().finite(),
    ensures
        run(step, store, backend, fuel).store.dom().finite(),
    decreases fuel,
{
    match step {
        StepView::Finish(_) => {},
        StepView::Perform(setting, command) => {
            if fuel > 0 {
                lemma_after_finite(store, command);
                lemma_run_finite(
                    setting.resume(backend(store, command)),
                    after(store, command),
                    backend,
                    (fuel - 1) as nat,
                );
            }
        },
    }
}

/// The name of the key of one room.
pub open spec fn channel_key(guild_id: GuildID, channel_id: ChannelID, field: Field) -> Seq<char> {
    (Key::ChannelKey { guild_id, channel_id, field }).spec_name()
}

/// The name of the key of a community's default.
pub open spec fn default_key(guild_id: GuildID, field: Field) -> Seq<char> {
    (Key::DefaultKey { guild_id, field }).spec_name()
}

/// What is in effect for a room: what the room's own key holds, else what
/// the community's default key holds, else nothing.
pub open spec fn effective(
    store: Map<Seq<char>, Entry>,
    guild_id: GuildID,
    channel_id: ChannelID,
    field: Field,
) -> Option<Entry> {
    if store.dom().contains(channel_key(guild_id, channel_id, field)) {
        Some(store[channel_key(guild_id, channel_id, field)])
    } else if store.dom().contains(default_key(guild_id, field)) {
        Some(store[default_key(guild_id, field)])
    } else {
        None
    }
}

/// The pairs of a language and its compiler as raw ids.
pub open spec fn raw_pairs(pairs: Seq<(LanguageID, CompilerID)>) -> Seq<(u64, u64)> {
    pairs.map_values(|p: (LanguageID, CompilerID)| (p.0.0, p.1.0))
}

/// Whether `finished` is what a query comes to when `entry` is in effect:
/// the built-in default where nothing is, the stored flag or mapping where
/// one is, and a failure where what is stored is of the wrong kind.
pub open spec fn reads(query: Query, entry: Option<Entry>, finished: Finished) -> bool {
    match entry {
        None => finished == Ok::<AnswerView, ErrorView>(query.missing()),
        Some(Entry::Scalar(v)) => match query {
            Query::Auto => finished == Ok::<AnswerView, ErrorView>(AnswerView::Flag(v != 0)),
            Query::AutoSave => finished == Ok::<AnswerView, ErrorView>(AnswerView::Flag(v != 0)),
            _ => finished is Err,
        },
        Some(Entry::Hash(h)) => match query {
            Query::Remap(language_id) => finished == Ok::<AnswerView, ErrorView>(
                AnswerView::Remap(
                    if h.dom().contains(language_id.0) {
                        Some(CompilerID(h[language_id.0]))
                    } else {
                        None
                    },
                ),
            ),
            Query::RemapAll => finished matches Ok(AnswerView::Remaps(pairs)) && lists_hash(
                raw_pairs(pairs),
                h,
            ),
            _ => finished is Err,
        },
    }
}

/// A read finds what is in effect for the room, in at most three round-trips,
/// and leaves the backend as it was.
pub proof fn lemma_read(
    store: Map<Seq<char>, Entry>,
    backend: spec_fn(Map<Seq<char>, Entry>, CommandView) -> ReplyView,
    guild_id: GuildID,
    channel_id: ChannelID,
    query: Query,
    fuel: nat,
)
    requires
        works(backend),
        store.dom().finite(),
        fuel >= 3,
    ensures
        run(start_read(guild_id, channel_id, query), store, backend, fuel).store == store,
        run(start_read(guild_id, channel_id, query), store, backend, fuel).result matches Some(
            finished,
        ) && reads(query, effective(store, guild_id, channel_id, query.field()), finished),
{
    let field = query.field();
    let own = channel_key(guild_id, channel_id, field);
    let shared = default_key(guild_id, field);
    let ask_own = CommandView::Exists { key: own };
    let ask_shared = CommandView::Exists { key: shared };
    assert(answers(store, ask_own, backend(store, ask_own)));
    assert(answers(store, ask_shared, backend(store, ask_shared)));
    reveal_with_fuel(run, 4);
    if store.dom().contains(own) {
        lemma_fetch(store, backend, query, own);
    } else if store.dom().contains(shared) {
        lemma_fetch(store, backend, query, shared);
    }
}

/// What the reply to a query's command comes to, for a key that is there.
proof fn lemma_fetch(
    store: Map<Seq<char>, Entry>,
    backend: spec_fn(Map<Seq<char>, Entry>, CommandView) -> ReplyView,
    query: Query,
    key: Seq<char>,
)
    requires
        works(backend),
        store.dom().finite(),
        store.dom().contains(key),
    ensures
        after(store, query.fetch(key)) == store,
        backend(store, query.fetch(key)) is Failed ==> reads(
            query,
            Some(store[key]),
            Err::<AnswerView, ErrorView>(
                ErrorView::Database(backend(store, query.fetch(key))->Failed_0),
            ),
        ),
        !(backend(store, query.fetch(key)) is Failed) ==> (query.fetched(
            backend(store, query.fetch(key)),
        ) matches Some(answer) && reads(
            query,
            Some(store[key]),
            Ok::<AnswerView, ErrorView>(answer),
        )),
{
    let command = query.fetch(key);
    let reply = backend(store, command);
    assert(answers(store, command, reply));
    match query {
        Query::RemapAll => {
            if let ReplyView::HashEntries(entries) = reply {
                assert(raw_pairs(remap_pairs(entries)) =~= entries);
            }
        },
        _ => {},
    }
}

/// Whether an entry carries what a write put down: the flag itself, or a
/// hash in which the language has the compiler.
pub open spec fn holds(entry: Entry, datum: Datum) -> bool {
    match datum {
        Datum::Auto(set) => entry == Entry::Scalar(flag_value(set)),
        Datum::AutoSave(set) => entry == Entry::Scalar(flag_value(set)),
        Datum::Remap(language_id, compiler_id) => entry matches Entry::Hash(h) && h.contains_pair(
            language_id.0,
            compiler_id.0,
        ),
    }
}

/// Whether `finished` tells what `datum` says, as far as `query` asks for it:
/// the flag, the compiler of the language, or a list with the pair in it.
pub open spec fn tells(query: Query, datum: Datum, finished: Finished) -> bool {
    match (query, datum) {
        (Query::Auto, Datum::Auto(set)) => finished == Ok::<AnswerView, ErrorView>(
            AnswerView::Flag(set),
        ),
        (Query::AutoSave, Datum::AutoSave(set)) => finished == Ok::<AnswerView, ErrorView>(
            AnswerView::Flag(set),
        ),
        (Query::Remap(asked), Datum::Remap(language_id, compiler_id)) => asked == language_id
            ==> finished == Ok::<AnswerView, ErrorView>(AnswerView::Remap(Some(compiler_id))),
        (Query::RemapAll, Datum::Remap(language_id, compiler_id)) => finished matches Ok(
            AnswerView::Remaps(pairs),
        ) && pairs.contains((language_id, compiler_id)),
        _ => true,
    }
}

/// A read of the field of a datum tells the datum wherever an entry that
/// carries it is in effect.
pub proof fn lemma_reads_what_holds(query: Query, datum: Datum, entry: Entry, finished: Finished)
    requires
        query.field() == datum.field(),
        holds(entry, datum),
        reads(query, Some(entry), finished),
    ensures
        tells(query, datum, finished),
{
    match (query, datum, finished) {
        (Query::RemapAll, Datum::Remap(language_id, compiler_id), Ok(AnswerView::Remaps(pairs))) => {
            let h = entry->Hash_0;
            let raw = raw_pairs(pairs);
            assert(h.dom().contains(language_id.0));
            let i = choose|i: int| 0 <= i < raw.len() && (#[trigger] raw[i]).0 == language_id.0;
            assert(h.contains_pair(raw[i].0, raw[i].1));
            assert(pairs[i] == (language_id, compiler_id));
        },
        _ => {},
    }
}

/// A write to one room takes one round-trip. It puts the datum under the
/// room's own key and touches nothing else, so that the datum is then in
/// effect for the room, whatever the community's default is. It fails, and
/// changes nothing, only where a mapping is put onto a number.
pub proof fn lemma_room_write(
    store: Map<Seq<char>, Entry>,
    backend: spec_fn(Map<Seq<char>, Entry>, CommandView) -> ReplyView,
    guild_id: GuildID,
    channel_id: ChannelID,
    datum: Datum,
    fuel: nat,
)
    requires
        works(backend),
        store.dom().finite(),
        fuel >= 1,
    ensures
        ({
            let key = channel_key(guild_id, channel_id, datum.field());
            let done = run(
                start_write(guild_id, Scope::Channel(channel_id), datum),
                store,
                backend,
                fuel,
            );
            if refused(store, datum.write(key)) {
                done.result matches Some(Err(_)) && done.store == store
            } else {
                &&& done.result == Some(Ok::<AnswerView, ErrorView>(AnswerView::Written))
                &&& done.store == after(store, datum.write(key))
                &&& done.store.remove(key) == store.remove(key)
                &&& effective(done.store, guild_id, channel_id, datum.field()) == Some(
                    done.store[key],
                )
                &&& holds(done.store[key], datum)
            }
        }),
{
    let key = channel_key(guild_id, channel_id, datum.field());
    let command = datum.write(key);
    assert(answers(store, command, backend(store, command)));
    reveal_with_fuel(run, 2);
    if !refused(store, command) {
        assert(after(store, command).remove(key) =~= store.remove(key));
    }
}

/// What a key holds once a datum is put under it: the flag, or the hash
/// that was there, or an empty one, with the language set to the compiler
/// and every other language as it was.
pub open spec fn put(store: Map<Seq<char>, Entry>, key: Seq<char>, datum: Datum) -> Entry {
    match datum {
        Datum::Auto(set) => Entry::Scalar(flag_value(set)),
        Datum::AutoSave(set) => Entry::Scalar(flag_value(set)),
        Datum::Remap(language_id, compiler_id) => Entry::Hash(
            hash_at(store, key).insert(language_id.0, compiler_id.0),
        ),
    }
}

/// Whether `key` is among the first `next` of `keys`.
pub open spec fn written(keys: Seq<Seq<char>>, next: nat, key: Seq<char>) -> bool {
    exists|i: int| 0 <= i < next && i < keys.len() && #[trigger] keys[i] == key
}

/// What a community-wide write has reached once the first `next` of `keys`
/// are written: the backend holds what it held and the keys that were
/// written; each key that was written holds the datum put over what it
/// held at first; every other key holds what it held.
pub open spec fn overwritten(
    before: Map<Seq<char>, Entry>,
    store: Map<Seq<char>, Entry>,
    datum: Datum,
    keys: Seq<Seq<char>>,
    next: nat,
) -> bool {
    &&& forall|k: Seq<char>| #[trigger]
        store.dom().contains(k) <==> before.dom().contains(k) || written(keys, next, k)
    &&& forall|k: Seq<char>| #[trigger] written(keys, next, k) ==> store[k] == put(before, k, datum)
    &&& forall|k: Seq<char>|
        before.dom().contains(k) && !written(keys, next, k) ==> #[trigger] store[k] == before[k]
}

/// The keys that a community-wide write writes, in their order: those that
/// the backend listed, then the default.
pub open spec fn targets(guild_id: GuildID, datum: Datum, keys: Seq<Seq<char>>) -> Seq<Seq<char>> {
    keys.push(default_key(guild_id, datum.field()))
}

/// Putting a datum where it was put before changes nothing.
proof fn lemma_put_again(
    before: Map<Seq<char>, Entry>,
    store: Map<Seq<char>, Entry>,
    key: Seq<char>,
    datum: Datum,
)
    requires
        store.dom().contains(key),
        store[key] == put(before, key, datum),
    ensures
        put(store, key, datum) == put(before, key, datum),
{
    match datum {
        Datum::Remap(language_id, compiler_id) => {
            let first = hash_at(before, key).insert(language_id.0, compiler_id.0);
            assert(hash_at(store, key) == first);
            assert(first.insert(language_id.0, compiler_id.0) =~= first);
        },
        _ => {},
    }
}

proof fn lemma_overwrite(
    before: Map<Seq<char>, Entry>,
    store: Map<Seq<char>, Entry>,
    backend: spec_fn(Map<Seq<char>, Entry>, CommandView) -> ReplyView,
    guild_id: GuildID,
    datum: Datum,
    keys: Seq<Seq<char>>,
    next: nat,
    fuel: nat,
)
    requires
        works(backend),
        store.dom().finite(),
        next <= keys.len(),
        overwritten(before, store, datum, targets(guild_id, datum, keys), next),
    ensures
        ({
            let done = run(overwrite_from(guild_id, datum, keys, next), store, backend, fuel);
            done.result == Some(Ok::<AnswerView, ErrorView>(AnswerView::Written)) ==> overwritten(
                before,
                done.store,
                datum,
                targets(guild_id, datum, keys),
                keys.len() + 1,
            )
        }),
        (datum is Auto || datum is AutoSave) && fuel >= keys.len() - next + 1 ==> run(
            overwrite_from(guild_id, datum, keys, next),
            store,
            backend,
            fuel,
        ).result == Some(Ok::<AnswerView, ErrorView>(AnswerView::Written)),
    decreases keys.len() - next,
{
    let all = targets(guild_id, datum, keys);
    reveal_with_fuel(run, 2);
    if fuel > 0 {
        let target = all[next as int];
        let command = datum.write(target);
        let reply = backend(store, command);
        let then = after(store, command);
        assert(answers(store, command, reply));
        if !refused(store, command) {
            assert forall|k: Seq<char>| written(all, next + 1, k) == (written(all, next, k) || k
                == target) by {
                if written(all, next + 1, k) {
                    let i = choose|i: int| 0 <= i < next + 1 && i < all.len() && all[i] == k;
                    if i < next {
                        assert(written(all, next, k));
                    }
                }
                if written(all, next, k) {
                    let i = choose|i: int| 0 <= i < next && i < all.len() && all[i] == k;
                    assert(all[i] == k);
                }
                if k == target {
                    assert(all[next as int] == k);
                }
            }
            assert(then[target] == put(before, target, datum)) by {
                assert(then[target] == put(store, target, datum));
                if written(all, next, target) {
                    lemma_put_again(before, store, target, datum);
                } else {
                    assert(store.dom().contains(target) == before.dom().contains(target));
                    if before.dom().contains(target) {
                        assert(store[target] == before[target]);
                    }
                }
            }
            assert(overwritten(before, then, datum, all, next + 1)) by {
                assert forall|k: Seq<char>| #[trigger]
                    then.dom().contains(k) <==> before.dom().contains(k) || written(
                        all,
                        next + 1,
                        k,
                    ) by {
                    assert(then.dom().contains(k) == (store.dom().contains(k) || k == target));
                }
                assert forall|k: Seq<char>| #[trigger] written(all, next + 1, k) implies then[k]
                    == put(before, k, datum) by {
                    if k != target {
                        assert(written(all, next, k));
                        assert(then[k] == store[k]);
                    }
                }
                assert forall|k: Seq<char>|
                    before.dom().contains(k) && !written(all, next + 1, k) implies #[trigger] then[k]
                        == before[k] by {
                    assert(!written(all, next, k));
                    assert(then[k] == store[k]);
                    assert(store[k] == before[k]);
                }
            }
            if next < keys.len() {
                lemma_after_finite(store, command);
                lemma_overwrite(
                    before,
                    then,
                    backend,
                    guild_id,
                    datum,
                    keys,
                    next + 1,
                    (fuel - 1) as nat,
                );
            }
        }
    }
}

/// Which keys a community-wide write writes: those that the backend
/// listed, which are the keys that it held and that match the pattern, and
/// the default.
proof fn lemma_targets(
    store: Map<Seq<char>, Entry>,
    guild_id: GuildID,
    datum: Datum,
    keys: Seq<Seq<char>>,
    key: Seq<char>,
)
    requires
        lists_matches(
            keys,
            store,
            ScanPattern::AllChannels(guild_id, datum.field()).spec_pattern(),
        ),
    ensures
        written(targets(guild_id, datum, keys), keys.len() + 1, key) == ((store.dom().contains(
            key,
        ) && wildcard_match(
            ScanPattern::AllChannels(guild_id, datum.field()).spec_pattern(),
            key,
        )) || key == default_key(guild_id, datum.field())),
{
    let all = targets(guild_id, datum, keys);
    let pattern = ScanPattern::AllChannels(guild_id, datum.field()).spec_pattern();
    if written(all, keys.len() + 1, key) {
        let i = choose|i: int| 0 <= i < keys.len() + 1 && i < all.len() && all[i] == key;
        if i < keys.len() {
            assert(keys[i] == key);
        }
    }
    if store.dom().contains(key) && wildcard_match(pattern, key) {
        assert(keys.contains(key));
        let i = choose|i: int| 0 <= i < keys.len() && keys[i] == key;
        assert(all[i] == key);
    }
    if key == default_key(guild_id, datum.field()) {
        assert(all[keys.len() as int] == key);
    }
}

/// What a write to the whole community leaves behind, key by key, once it
/// has gone through. The backend holds no key that it did not hold, but
/// for the default. Each key that it held and that matches the pattern of
/// the community's room keys, and the default, holds the datum: the flag,
/// or its hash with the one language set and every other as it was. Every
/// other key holds what it held.
pub proof fn lemma_community_write_key_by_key(
    store: Map<Seq<char>, Entry>,
    backend: spec_fn(Map<Seq<char>, Entry>, CommandView) -> ReplyView,
    guild_id: GuildID,
    datum: Datum,
    fuel: nat,
)
    requires
        works(backend),
        store.dom().finite(),
    ensures
        ({
            let done = run(start_write(guild_id, Scope::Guild, datum), store, backend, fuel);
            let pattern = ScanPattern::AllChannels(guild_id, datum.field()).spec_pattern();
            let shared = default_key(guild_id, datum.field());
            done.result == Some(Ok::<AnswerView, ErrorView>(AnswerView::Written)) ==> {
                &&& forall|k: Seq<char>| #[trigger]
                    done.store.dom().contains(k) <==> store.dom().contains(k) || k == shared
                &&& forall|k: Seq<char>|
                    (store.dom().contains(k) && wildcard_match(pattern, k)) || k == shared
                        ==> #[trigger] done.store[k] == put(store, k, datum)
                &&& forall|k: Seq<char>|
                    store.dom().contains(k) && !wildcard_match(pattern, k) && k != shared
                        ==> #[trigger] done.store[k] == store[k]
            }
        }),
{
    let field = datum.field();
    let pattern = ScanPattern::AllChannels(guild_id, field).spec_pattern();
    let scan = CommandView::Scan { pattern };
    let reply = backend(store, scan);
    let shared = default_key(guild_id, field);
    assert(answers(store, scan, reply));
    reveal_with_fuel(run, 2);
    if fuel > 0 {
        let keys = reply->Keys_0;
        let all = targets(guild_id, datum, keys);
        assert(lists_matches(keys, store, pattern));
        assert(overwritten(store, store, datum, all, 0));
        lemma_overwrite(store, store, backend, guild_id, datum, keys, 0, (fuel - 1) as nat);
        let done = run(start_write(guild_id, Scope::Guild, datum), store, backend, fuel);
        if done.result == Some(Ok::<AnswerView, ErrorView>(AnswerView::Written)) {
            assert forall|k: Seq<char>|
                written(all, keys.len() + 1, k) == ((store.dom().contains(k) && wildcard_match(
                    pattern,
                    k,
                )) || k == shared) by {
                lemma_targets(store, guild_id, datum, keys, k);
            }
            assert forall|k: Seq<char>| #[trigger]
                done.store.dom().contains(k) <==> store.dom().contains(k) || k == shared by {
                lemma_targets(store, guild_id, datum, keys, k);
            }
            assert forall|k: Seq<char>|
                (store.dom().contains(k) && wildcard_match(pattern, k)) || k == shared
                    implies #[trigger] done.store[k] == put(store, k, datum) by {
                lemma_targets(store, guild_id, datum, keys, k);
                assert(written(all, keys.len() + 1, k));
            }
            assert forall|k: Seq<char>|
                store.dom().contains(k) && !wildcard_match(pattern, k) && k != shared
                    implies #[trigger] done.store[k] == store[k] by {
                lemma_targets(store, guild_id, datum, keys, k);
                assert(!written(all, keys.len() + 1, k));
            }
        }
    }
}

/// A write to the whole community, once it has gone through, has put the
/// datum in effect for every room of the community: for the rooms that had a
/// value of their own, for those that had none, and for rooms not yet seen.
pub proof fn lemma_community_write(
    store: Map<Seq<char>, Entry>,
    backend: spec_fn(Map<Seq<char>, Entry>, CommandView) -> ReplyView,
    guild_id: GuildID,
    datum: Datum,
    fuel: nat,
)
    requires
        works(backend),
        store.dom().finite(),
    ensures
        ({
            let done = run(start_write(guild_id, Scope::Guild, datum), store, backend, fuel);
            done.result == Some(Ok::<AnswerView, ErrorView>(AnswerView::Written)) ==> forall|
                channel_id: ChannelID,
            |
                (#[trigger] effective(done.store, guild_id, channel_id, datum.field())) matches Some(
                    entry,
                ) && holds(entry, datum)
        }),
{
    let field = datum.field();
    let pattern = ScanPattern::AllChannels(guild_id, field).spec_pattern();
    let shared = default_key(guild_id, field);
    lemma_community_write_key_by_key(store, backend, guild_id, datum, fuel);
    let done = run(start_write(guild_id, Scope::Guild, datum), store, backend, fuel);
    if done.result == Some(Ok::<AnswerView, ErrorView>(AnswerView::Written)) {
        assert(done.store.dom().contains(shared));
        assert(done.store[shared] == put(store, shared, datum));
        assert forall|channel_id: ChannelID|
            (#[trigger] effective(done.store, guild_id, channel_id, field)) matches Some(entry)
                && holds(entry, datum) by {
            let own = channel_key(guild_id, channel_id, field);
            if done.store.dom().contains(own) {
                if own != shared {
                    assert(store.dom().contains(own));
                    lemma_scan_finds_room(guild_id, channel_id, field);
                }
                assert(done.store[own] == put(store, own, datum));
            }
        }
    }
}

/// A write to the whole community leaves every other community and every
/// other field as it was: what was in effect there is in effect there.
pub proof fn lemma_community_write_leaves_others(
    store: Map<Seq<char>, Entry>,
    backend: spec_fn(Map<Seq<char>, Entry>, CommandView) -> ReplyView,
    guild_id: GuildID,
    datum: Datum,
    other_guild: GuildID,
    other_channel: ChannelID,
    other_field: Field,
    fuel: nat,
)
    requires
        works(backend),
        store.dom().finite(),
        other_guild != guild_id || other_field != datum.field(),
    ensures
        ({
            let done = run(start_write(guild_id, Scope::Guild, datum), store, backend, fuel);
            done.result == Some(Ok::<AnswerView, ErrorView>(AnswerView::Written)) ==> effective(
                done.store,
                other_guild,
                other_channel,
                other_field,
            ) == effective(store, other_guild, other_channel, other_field)
        }),
{
    let field = datum.field();
    let pattern = ScanPattern::AllChannels(guild_id, field).spec_pattern();
    let shared = Key::DefaultKey { guild_id, field };
    lemma_community_write_key_by_key(store, backend, guild_id, datum, fuel);
    let done = run(start_write(guild_id, Scope::Guild, datum), store, backend, fuel);
    if done.result == Some(Ok::<AnswerView, ErrorView>(AnswerView::Written)) {
        let own = Key::ChannelKey {
            guild_id: other_guild,
            channel_id: other_channel,
            field: other_field,
        };
        let default = Key::DefaultKey { guild_id: other_guild, field: other_field };
        if wildcard_match(pattern, own.spec_name()) {
            lemma_scan_finds_only(guild_id, field, own);
        }
        if wildcard_match(pattern, default.spec_name()) {
            lemma_scan_finds_only(guild_id, field, default);
        }
        if own.spec_name() == shared.spec_name() {
            lemma_key_names_differ(own, shared);
        }
        if default.spec_name() == shared.spec_name() {
            lemma_key_names_differ(default, shared);
        }
        assert(done.store.dom().contains(own.spec_name()) == store.dom().contains(
            own.spec_name(),
        ));
        assert(done.store.dom().contains(default.spec_name()) == store.dom().contains(
            default.spec_name(),
        ));
        if store.dom().contains(own.spec_name()) {
            assert(done.store[own.spec_name()] == store[own.spec_name()]);
        }
        if store.dom().contains(default.spec_name()) {
            assert(done.store[default.spec_name()] == store[default.spec_name()]);
        }
    }
}

/// The keys that the backend lists for the rooms of a community.
pub open spec fn listed(
    store: Map<Seq<char>, Entry>,
    backend: spec_fn(Map<Seq<char>, Entry>, CommandView) -> ReplyView,
    guild_id: GuildID,
    field: Field,
) -> Seq<Seq<char>> {
    match backend(
        store,
        CommandView::Scan { pattern: ScanPattern::AllChannels(guild_id, field).spec_pattern() },
    ) {
        ReplyView::Keys(keys) => keys,
        _ => Seq::empty(),
    }
}

/// A write of a flag to the whole community goes through: it takes one
/// round-trip for the list of keys, one for each key listed, and one for the
/// default.
pub proof fn lemma_community_flag_write_completes(
    store: Map<Seq<char>, Entry>,
    backend: spec_fn(Map<Seq<char>, Entry>, CommandView) -> ReplyView,
    guild_id: GuildID,
    datum: Datum,
    fuel: nat,
)
    requires
        works(backend),
        store.dom().finite(),
        datum is Auto || datum is AutoSave,
        fuel >= listed(store, backend, guild_id, datum.field()).len() + 2,
    ensures
        run(start_write(guild_id, Scope::Guild, datum), store, backend, fuel).result == Some(
            Ok::<AnswerView, ErrorView>(AnswerView::Written),
        ),
{
    let field = datum.field();
    let pattern = ScanPattern::AllChannels(guild_id, field).spec_pattern();
    let scan = CommandView::Scan { pattern };
    let reply = backend(store, scan);
    assert(answers(store, scan, reply));
    reveal_with_fuel(run, 2);
    let keys = reply->Keys_0;
    lemma_overwrite(store, store, backend, guild_id, datum, keys, 0, (fuel - 1) as nat);
}

/// With nothing stored at all, a read gives the built-in default: code is
/// run, runs are not saved, and no language is remapped.
pub proof fn lemma_read_of_nothing(
    backend: spec_fn(Map<Seq<char>, Entry>, CommandView) -> ReplyView,
    guild_id: GuildID,
    channel_id: ChannelID,
    query: Query,
    fuel: nat,
)
    requires
        works(backend),
        fuel >= 3,
    ensures
        run(
            start_read(guild_id, channel_id, query),
            Map::<Seq<char>, Entry>::empty(),
            backend,
            fuel,
        ).result == Some(Ok::<AnswerView, ErrorView>(query.missing())),
        Query::Auto.missing() == AnswerView::Flag(true),
        Query::AutoSave.missing() == AnswerView::Flag(false),
        Query::RemapAll.missing() == AnswerView::Remaps(Seq::empty()),
{
    lemma_read(Map::<Seq<char>, Entry>::empty(), backend, guild_id, channel_id, query, fuel);
}

/// A room that has no value of its own reads the community's default.
pub proof fn lemma_read_falls_back(
    store: Map<Seq<char>, Entry>,
    backend: spec_fn(Map<Seq<char>, Entry>, CommandView) -> ReplyView,
    guild_id: GuildID,
    channel_id: ChannelID,
    query: Query,
    fuel: nat,
)
    requires
        works(backend),
        store.dom().finite(),
        fuel >= 3,
        !store.dom().contains(channel_key(guild_id, channel_id, query.field())),
        store.dom().contains(default_key(guild_id, query.field())),
    ensures
        run(start_read(guild_id, channel_id, query), store, backend, fuel).result matches Some(
            finished,
        ) && reads(query, Some(store[default_key(guild_id, query.field())]), finished),
{
    lemma_read(store, backend, guild_id, channel_id, query, fuel);
}

/// A room that has a value of its own reads that value, whatever the
/// community's default is.
pub proof fn lemma_read_prefers_room(
    store: Map<Seq<char>, Entry>,
    backend: spec_fn(Map<Seq<char>, Entry>, CommandView) -> ReplyView,
    guild_id: GuildID,
    channel_id: ChannelID,
    query: Query,
    fuel: nat,
)
    requires
        works(backend),
        store.dom().finite(),
        fuel >= 3,
        store.dom().contains(channel_key(guild_id, channel_id, query.field())),
    ensures
        run(start_read(guild_id, channel_id, query), store, backend, fuel).result matches Some(
            finished,
        ) && reads(query, Some(store[channel_key(guild_id, channel_id, query.field())]), finished),
{
    lemma_read(store, backend, guild_id, channel_id, query, fuel);
}

/// A write to one room leaves every other room, every other field and every
/// other community as it was: what was in effect there is in effect there.
pub proof fn lemma_room_write_leaves_others(
    store: Map<Seq<char>, Entry>,
    backend: spec_fn(Map<Seq<char>, Entry>, CommandView) -> ReplyView,
    guild_id: GuildID,
    channel_id: ChannelID,
    datum: Datum,
    other_guild: GuildID,
    other_channel: ChannelID,
    other_field: Field,
    fuel: nat,
)
    requires
        works(backend),
        store.dom().finite(),
        fuel >= 1,
        other_guild != guild_id || other_channel != channel_id || other_field != datum.field(),
    ensures
        effective(
            run(start_write(guild_id, Scope::Channel(channel_id), datum), store, backend, fuel).store,
            other_guild,
            other_channel,
            other_field,
        ) == effective(store, other_guild, other_channel, other_field),
        run(
            start_write(guild_id, Scope::Channel(channel_id), datum),
            store,
            backend,
            fuel,
        ).store.dom().contains(default_key(other_guild, other_field)) == store.dom().contains(
            default_key(other_guild, other_field),
        ),
{
    let written = Key::ChannelKey { guild_id, channel_id, field: datum.field() };
    let own = Key::ChannelKey {
        guild_id: other_guild,
        channel_id: other_channel,
        field: other_field,
    };
    let shared = Key::DefaultKey { guild_id: other_guild, field: other_field };
    lemma_room_write(store, backend, guild_id, channel_id, datum, fuel);
    if own.spec_name() == written.spec_name() {
        lemma_key_names_differ(own, written);
    }
    if shared.spec_name() == written.spec_name() {
        lemma_key_names_differ(shared, written);
    }
}

/// What is written to a room is what the room then reads, whatever was
/// stored before, the community's default included.
pub proof fn lemma_room_write_then_read(
    store: Map<Seq<char>, Entry>,
    backend: spec_fn(Map<Seq<char>, Entry>, CommandView) -> ReplyView,
    guild_id: GuildID,
    channel_id: ChannelID,
    datum: Datum,
    query: Query,
    fuel: nat,
)
    requires
        works(backend),
        store.dom().finite(),
        fuel >= 3,
        query.field() == datum.field(),
    ensures
        ({
            let written = run(
                start_write(guild_id, Scope::Channel(channel_id), datum),
                store,
                backend,
                fuel,
            );
            written.result == Some(Ok::<AnswerView, ErrorView>(AnswerView::Written)) ==> (run(
                start_read(guild_id, channel_id, query),
                written.store,
                backend,
                fuel,
            ).result matches Some(finished) && tells(query, datum, finished))
        }),
        datum is Auto || datum is AutoSave ==> run(
            start_write(guild_id, Scope::Channel(channel_id), datum),
            store,
            backend,
            fuel,
        ).result == Some(Ok::<AnswerView, ErrorView>(AnswerView::Written)),
{
    lemma_room_write(store, backend, guild_id, channel_id, datum, fuel);
    let written = run(start_write(guild_id, Scope::Channel(channel_id), datum), store, backend, fuel);
    if written.result == Some(Ok::<AnswerView, ErrorView>(AnswerView::Written)) {
        lemma_read(written.store, backend, guild_id, channel_id, query, fuel);
        let finished = run(
            start_read(guild_id, channel_id, query),
            written.store,
            backend,
            fuel,
        ).result->Some_0;
        lemma_reads_what_holds(
            query,
            datum,
            written.store[channel_key(guild_id, channel_id, datum.field())],
            finished,
        );
    }
}

/// What is written to the whole community is what every room of it then
/// reads: a room that had a value of its own, a room that had none, and a
/// room that nobody has seen yet.
pub proof fn lemma_community_write_then_read(
    store: Map<Seq<char>, Entry>,
    backend: spec_fn(Map<Seq<char>, Entry>, CommandView) -> ReplyView,
    guild_id: GuildID,
    datum: Datum,
    channel_id: ChannelID,
    query: Query,
    write_fuel: nat,
    read_fuel: nat,
)
    requires
        works(backend),
        store.dom().finite(),
        read_fuel >= 3,
        query.field() == datum.field(),
    ensures
        ({
            let written = run(start_write(guild_id, Scope::Guild, datum), store, backend, write_fuel);
            written.result == Some(Ok::<AnswerView, ErrorView>(AnswerView::Written)) ==> (run(
                start_read(guild_id, channel_id, query),
                written.store,
                backend,
                read_fuel,
            ).result matches Some(finished) && tells(query, datum, finished))
        }),
{
    lemma_community_write(store, backend, guild_id, datum, write_fuel);
    let written = run(start_write(guild_id, Scope::Guild, datum), store, backend, write_fuel);
    lemma_run_finite(start_write(guild_id, Scope::Guild, datum), store, backend, write_fuel);
    if written.result == Some(Ok::<AnswerView, ErrorView>(AnswerView::Written)) {
        lemma_read(written.store, backend, guild_id, channel_id, query, read_fuel);
        let entry = effective(written.store, guild_id, channel_id, datum.field())->Some_0;
        let finished = run(
            start_read(guild_id, channel_id, query),
            written.store,
            backend,
            read_fuel,
        ).result->Some_0;
        lemma_reads_what_holds(query, datum, entry, finished);
    }
}

/// A backend that fails ends the operation at once: the result is what the
/// backend said, and no further command is named.
pub proof fn lemma_failure_ends(setting: SettingView, why: Seq<char>)
    ensures
        setting.resume(ReplyView::Failed(why)) == StepView::<SettingView, Finished>::Finish(
            Err(ErrorView::Database(why)),
        ),
{
}

} // verus!
