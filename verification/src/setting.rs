//! Settings by room, with a default for the whole community.
//!
//! A setting of a room is read from the room's own key where there is one,
//! else from the community's default key, else it is the built-in default. A
//! write to one room touches that room's key alone. A write to the community
//! overwrites every room key there is and then the default key, so that
//! afterwards every room reads the new value, rooms not yet seen included.

use crate::error::{Error, ErrorView};
use crate::model::channel_id::ChannelID;
use crate::model::compiler::CompilerID;
use crate::model::compiler_options::string_views;
use crate::model::guild_id::GuildID;
use crate::model::language::LanguageID;
use crate::store::{
    lemma_match_after_prefix, lemma_match_star, lemma_plain_matches_itself,
    lemma_star_match_shape, plain, wildcard_match,
    Command, CommandView, Reply, ReplyView, Step, StepView,
};
use vstd::prelude::*;

verus! {

/// How far a write reaches.
#[derive(Debug, Clone, Copy)]
pub enum Scope {
    /// One room.
    Channel(ChannelID),
    /// Every room of the community, and the community's default.
    Guild,
}

/// The settings there are. Each is stored on its own.
#[derive(Debug, Clone, Copy, PartialEq, Eq, Structural)]
pub enum Field {
    /// Whether code posted without a command is run.
    Auto,
    /// Whether a run started that way is saved.
    AutoSave,
    /// Which compiler stands for which language.
    Remap,
}

impl Field {
    /// The field's part of a key.
    pub open spec fn spec_name(self) -> Seq<char> {
        match self {
            Field::Auto => "auto"@,
            Field::AutoSave => "auto_save"@,
            Field::Remap => "remap"@,
        }
    }

    pub fn name(&self) -> (r: &'static str)
        ensures
            r@ == self.spec_name(),
    {
        match self {
            Field::Auto => "auto",
            Field::AutoSave => "auto_save",
            Field::Remap => "remap",
        }
    }
}

/// The character that writes the digit `d`.
pub open spec fn digit(d: nat) -> char {
    ((48 + d) as u8) as char
}

/// A number in decimal, without leading zeros.
pub open spec fn decimal(n: nat) -> Seq<char>
    decreases n,
{
    if n < 10 {
        seq![digit(n)]
    } else {
        decimal(n / 10).push(digit(n % 10))
    }
}

fn digit_text(d: u64) -> (r: &'static str)
    requires
        d < 10,
    ensures
        r@ == seq![digit(d as nat)],
{
    proof {
        reveal_strlit("0");
        reveal_strlit("1");
        reveal_strlit("2");
        reveal_strlit("3");
        reveal_strlit("4");
        reveal_strlit("5");
        reveal_strlit("6");
        reveal_strlit("7");
        reveal_strlit("8");
        reveal_strlit("9");
    }
    let text = if d == 0 {
        "0"
    } else if d == 1 {
        "1"
    } else if d == 2 {
        "2"
    } else if d == 3 {
        "3"
    } else if d == 4 {
        "4"
    } else if d == 5 {
        "5"
    } else if d == 6 {
        "6"
    } else if d == 7 {
        "7"
    } else if d == 8 {
        "8"
    } else {
        "9"
    };
    assert(text@ =~= seq![digit(d as nat)]);
    text
}

/// Writes a number in decimal.
pub fn decimal_text(n: u64) -> (r: String)
    ensures
        r@ == decimal(n as nat),
    decreases n,
{
    if n < 10 {
        String::from_str(digit_text(n))
    } else {
        let mut text = decimal_text(n / 10);
        text.append(digit_text(n % 10));
        assert(text@ =~= decimal(n as nat));
        text
    }
}

/// Where a setting is kept in the backend.
#[derive(Debug, Clone, Copy)]
pub enum Key {
    /// The setting of one room.
    ChannelKey { guild_id: GuildID, channel_id: ChannelID, field: Field },
    /// The community's default for rooms that have no setting of their own.
    DefaultKey { guild_id: GuildID, field: Field },
}

impl Key {
    /// The key as the backend knows it: `channel:<community>:<room>:<field>`
    /// for a room, `channel:<community>:default:<field>` for the default.
    pub open spec fn spec_name(self) -> Seq<char> {
        match self {
            Key::ChannelKey { guild_id, channel_id, field } => "channel:"@ + decimal(
                guild_id.0 as nat,
            ) + ":"@ + decimal(channel_id.0 as nat) + ":"@ + field.spec_name(),
            Key::DefaultKey { guild_id, field } => "channel:"@ + decimal(guild_id.0 as nat)
                + ":default:"@ + field.spec_name(),
        }
    }

    pub fn name(&self) -> (r: String)
        ensures
            r@ == self.spec_name(),
    {
        match self {
            Key::ChannelKey { guild_id, channel_id, field } => {
                let mut text = String::from_str("channel:");
                text.append(decimal_text(guild_id.as_u64()).as_str());
                text.append(":");
                text.append(decimal_text(channel_id.as_u64()).as_str());
                text.append(":");
                text.append(field.name());
                text
            },
            Key::DefaultKey { guild_id, field } => {
                let mut text = String::from_str("channel:");
                text.append(decimal_text(guild_id.as_u64()).as_str());
                text.append(":default:");
                text.append(field.name());
                text
            },
        }
    }
}

/// A pattern for listing keys.
#[derive(Debug, Clone, Copy)]
pub enum ScanPattern {
    /// The keys of one field in every room of a community.
    AllChannels(GuildID, Field),
}

impl ScanPattern {
    /// The pattern as the backend knows it: `channel:<community>:*:<field>`.
    pub open spec fn spec_pattern(self) -> Seq<char> {
        match self {
            ScanPattern::AllChannels(guild_id, field) => "channel:"@ + decimal(guild_id.0 as nat)
                + ":*:"@ + field.spec_name(),
        }
    }

    pub fn pattern(&self) -> (r: String)
        ensures
            r@ == self.spec_pattern(),
    {
        match self {
            ScanPattern::AllChannels(guild_id, field) => {
                let mut text = String::from_str("channel:");
                text.append(decimal_text(guild_id.as_u64()).as_str());
                text.append(":*:");
                text.append(field.name());
                text
            },
        }
    }
}

/// A number in decimal is one digit at least, and digits only.
pub proof fn lemma_decimal_digits(n: nat)
    ensures
        decimal(n).len() > 0,
        forall|i: int| 0 <= i < decimal(n).len() ==> '0' <= #[trigger] decimal(n)[i] <= '9',
    decreases n,
{
    if n >= 10 {
        lemma_decimal_digits(n / 10);
    }
}

/// The name of a field is made of letters and `_`.
pub proof fn lemma_field_name_plain(field: Field)
    ensures
        plain(field.spec_name()),
{
    reveal_strlit("auto");
    reveal_strlit("auto_save");
    reveal_strlit("remap");
}

/// The pattern that lists the room keys of a community matches the key of
/// each of its rooms, for the same field.
pub proof fn lemma_scan_finds_room(guild_id: GuildID, channel_id: ChannelID, field: Field)
    ensures
        wildcard_match(
            ScanPattern::AllChannels(guild_id, field).spec_pattern(),
            (Key::ChannelKey { guild_id, channel_id, field }).spec_name(),
        ),
{
    reveal_strlit("channel:");
    reveal_strlit(":");
    reveal_strlit(":*:");
    lemma_decimal_digits(guild_id.0 as nat);
    lemma_field_name_plain(field);
    let head = "channel:"@ + decimal(guild_id.0 as nat) + ":"@;
    let tail = ":"@ + field.spec_name();
    let room = decimal(channel_id.0 as nat);
    assert(plain(head));
    assert(plain(tail));
    assert(ScanPattern::AllChannels(guild_id, field).spec_pattern() =~= head + (seq!['*'] + tail));
    assert((Key::ChannelKey { guild_id, channel_id, field }).spec_name() =~= head + (room + tail));
    lemma_plain_matches_itself(tail, tail);
    lemma_match_star(tail, room, tail);
    lemma_match_after_prefix(head, seq!['*'] + tail, room + tail);
}

/// The number that decimal digits write.
pub open spec fn value_of(digits: Seq<char>) -> nat
    decreases digits.len(),
{
    if digits.len() == 0 {
        0
    } else {
        (value_of(digits.drop_last()) * 10 + (digits.last() as nat - 48)) as nat
    }
}

/// A number in decimal writes that number.
pub proof fn lemma_decimal_value(n: nat)
    ensures
        value_of(decimal(n)) == n,
    decreases n,
{
    if n < 10 {
        let d = decimal(n);
        assert(d.drop_last() =~= Seq::<char>::empty());
        assert(d.last() == digit(n));
        reveal_with_fuel(value_of, 2);
    } else {
        lemma_decimal_value(n / 10);
        let d = decimal(n);
        assert(d.drop_last() =~= decimal(n / 10));
        assert(d.last() == digit(n % 10));
    }
}

/// Two numbers that are written alike are the same number.
pub proof fn lemma_decimal_injective(a: nat, b: nat)
    requires
        decimal(a) == decimal(b),
    ensures
        a == b,
{
    lemma_decimal_value(a);
    lemma_decimal_value(b);
}

/// Whether a text is made of decimal digits only, one at least.
pub open spec fn all_digits(s: Seq<char>) -> bool {
    s.len() > 0 && forall|i: int| 0 <= i < s.len() ==> '0' <= #[trigger] s[i] <= '9'
}

/// Digits, a colon, and a rest can be read in one way only.
pub proof fn lemma_digits_before_colon(
    first: Seq<char>,
    first_rest: Seq<char>,
    second: Seq<char>,
    second_rest: Seq<char>,
)
    requires
        all_digits(first),
        all_digits(second),
        first + seq![':'] + first_rest == second + seq![':'] + second_rest,
    ensures
        first == second,
        first_rest == second_rest,
{
    let left = first + seq![':'] + first_rest;
    let right = second + seq![':'] + second_rest;
    if first.len() < second.len() {
        assert(left[first.len() as int] == ':');
        assert(right[first.len() as int] == second[first.len() as int]);
    } else if second.len() < first.len() {
        assert(right[second.len() as int] == ':');
        assert(left[second.len() as int] == first[second.len() as int]);
    }
    assert(first =~= second) by {
        assert forall|i: int| 0 <= i < first.len() implies first[i] == second[i] by {
            assert(left[i] == first[i]);
            assert(right[i] == second[i]);
        }
    }
    assert(first_rest =~= second_rest) by {
        assert(first_rest.len() == second_rest.len()) by {
            assert(left.len() == first.len() + 1 + first_rest.len());
            assert(right.len() == second.len() + 1 + second_rest.len());
        }
        assert forall|i: int| 0 <= i < first_rest.len() implies first_rest[i] == second_rest[i] by {
            assert(left[first.len() + 1 + i] == first_rest[i]);
            assert(right[second.len() + 1 + i] == second_rest[i]);
        }
    }
}

/// Two fields have two names.
pub proof fn lemma_field_names_differ(a: Field, b: Field)
    requires
        a.spec_name() == b.spec_name(),
    ensures
        a == b,
{
    reveal_strlit("auto");
    reveal_strlit("auto_save");
    reveal_strlit("remap");
    assert("auto"@.len() == 4);
    assert("auto_save"@.len() == 9);
    assert("remap"@.len() == 5);
}

/// What follows the number of the community in the name of a key.
pub open spec fn key_tail(key: Key) -> Seq<char> {
    match key {
        Key::ChannelKey { channel_id, field, .. } => decimal(channel_id.0 as nat) + seq![':']
            + field.spec_name(),
        Key::DefaultKey { field, .. } => "default:"@ + field.spec_name(),
    }
}

/// The number of the community that a key belongs to.
pub open spec fn key_guild(key: Key) -> GuildID {
    match key {
        Key::ChannelKey { guild_id, .. } => guild_id,
        Key::DefaultKey { guild_id, .. } => guild_id,
    }
}

/// The name of a key is `channel:`, the number of the community, a colon,
/// and the key's tail.
proof fn lemma_key_name_shape(key: Key)
    ensures
        key.spec_name() == "channel:"@ + (decimal(key_guild(key).0 as nat) + seq![':'] + key_tail(
            key,
        )),
        "channel:"@.len() == 8,
{
    reveal_strlit("channel:");
    reveal_strlit(":");
    reveal_strlit(":default:");
    reveal_strlit("default:");
    assert(":"@ =~= seq![':']);
    assert(":default:"@ =~= seq![':'] + "default:"@);
    assert(key.spec_name() =~= "channel:"@ + (decimal(key_guild(key).0 as nat) + seq![':']
        + key_tail(key)));
}

/// Two keys with one name belong to one community and have one tail.
proof fn lemma_key_name_parts(a: Key, b: Key)
    requires
        a.spec_name() == b.spec_name(),
    ensures
        key_guild(a) == key_guild(b),
        key_tail(a) == key_tail(b),
{
    let head = "channel:"@;
    let ga = decimal(key_guild(a).0 as nat);
    let gb = decimal(key_guild(b).0 as nat);
    let left = ga + seq![':'] + key_tail(a);
    let right = gb + seq![':'] + key_tail(b);
    lemma_key_name_shape(a);
    lemma_key_name_shape(b);
    lemma_decimal_digits(key_guild(a).0 as nat);
    lemma_decimal_digits(key_guild(b).0 as nat);
    assert(left == right) by {
        assert((head + left).skip(8) =~= left);
        assert((head + right).skip(8) =~= right);
    }
    lemma_digits_before_colon(ga, key_tail(a), gb, key_tail(b));
    lemma_decimal_injective(key_guild(a).0 as nat, key_guild(b).0 as nat);
}

/// Two keys of one community with one tail are one key.
proof fn lemma_key_tails_differ(a: Key, b: Key)
    requires
        key_guild(a) == key_guild(b),
        key_tail(a) == key_tail(b),
    ensures
        a == b,
{
    match (a, b) {
        (
            Key::ChannelKey { channel_id: ca, field: fa, .. },
            Key::ChannelKey { channel_id: cb, field: fb, .. },
        ) => {
            lemma_decimal_digits(ca.0 as nat);
            lemma_decimal_digits(cb.0 as nat);
            lemma_digits_before_colon(
                decimal(ca.0 as nat),
                fa.spec_name(),
                decimal(cb.0 as nat),
                fb.spec_name(),
            );
            lemma_decimal_injective(ca.0 as nat, cb.0 as nat);
            lemma_field_names_differ(fa, fb);
        },
        (Key::DefaultKey { field: fa, .. }, Key::DefaultKey { field: fb, .. }) => {
            reveal_strlit("default:");
            assert("default:"@.len() == 8);
            assert(fa.spec_name() =~= key_tail(a).skip(8));
            assert(fb.spec_name() =~= key_tail(b).skip(8));
            lemma_field_names_differ(fa, fb);
        },
        (Key::ChannelKey { channel_id, .. }, Key::DefaultKey { .. }) => {
            reveal_strlit("default:");
            lemma_decimal_digits(channel_id.0 as nat);
            assert(key_tail(a)[0] == decimal(channel_id.0 as nat)[0]);
            assert(key_tail(b)[0] == 'd');
        },
        (Key::DefaultKey { .. }, Key::ChannelKey { channel_id, .. }) => {
            reveal_strlit("default:");
            lemma_decimal_digits(channel_id.0 as nat);
            assert(key_tail(b)[0] == decimal(channel_id.0 as nat)[0]);
            assert(key_tail(a)[0] == 'd');
        },
    }
}

/// Two keys have two names: no two settings are kept in the same place.
pub proof fn lemma_key_names_differ(a: Key, b: Key)
    requires
        a.spec_name() == b.spec_name(),
    ensures
        a == b,
{
    lemma_key_name_parts(a, b);
    lemma_key_tails_differ(a, b);
}

/// The field that a key belongs to.
pub open spec fn key_field(key: Key) -> Field {
    match key {
        Key::ChannelKey { field, .. } => field,
        Key::DefaultKey { field, .. } => field,
    }
}

/// The pattern that lists the room keys of a community for a field matches
/// no key of another community, and no key of another field.
pub proof fn lemma_scan_finds_only(guild_id: GuildID, field: Field, key: Key)
    requires
        wildcard_match(ScanPattern::AllChannels(guild_id, field).spec_pattern(), key.spec_name()),
    ensures
        key_guild(key) == guild_id,
        key_field(key) == field,
{
    reveal_strlit("channel:");
    reveal_strlit(":");
    reveal_strlit(":*:");
    let name = key.spec_name();
    let head = "channel:"@;
    let number = decimal(guild_id.0 as nat);
    let other = decimal(key_guild(key).0 as nat);
    let prefix = head + number + seq![':'];
    let suffix = seq![':'] + field.spec_name();
    lemma_decimal_digits(guild_id.0 as nat);
    lemma_decimal_digits(key_guild(key).0 as nat);
    lemma_field_name_plain(field);
    assert(plain(prefix));
    assert(plain(suffix));
    assert(ScanPattern::AllChannels(guild_id, field).spec_pattern() =~= prefix + (seq!['*']
        + suffix));
    lemma_star_match_shape(prefix, suffix, name);
    lemma_key_name_shape(key);
    let behind = name.skip(prefix.len() as int);
    assert(number + seq![':'] + behind == other + seq![':'] + key_tail(key)) by {
        assert(name =~= name.take(prefix.len() as int) + behind);
        assert((head + (number + seq![':'] + behind)).skip(8) =~= number + seq![':'] + behind);
        assert((head + (other + seq![':'] + key_tail(key))).skip(8) =~= other + seq![':']
            + key_tail(key));
        assert(name =~= head + (number + seq![':'] + behind));
    }
    lemma_digits_before_colon(number, behind, other, key_tail(key));
    lemma_decimal_injective(guild_id.0 as nat, key_guild(key).0 as nat);
    lemma_key_name_ends(key);
    lemma_field_name_ends(field);
    lemma_field_name_ends(key_field(key));
    assert(name.last() == suffix.last()) by {
        assert(name.skip(name.len() - suffix.len()).last() == name.last());
    }
    assert(suffix.last() == field.spec_name().last());
}

/// The name of a field ends with a letter of its own.
proof fn lemma_field_name_ends(field: Field)
    ensures
        field.spec_name().len() > 0,
        field.spec_name().last() == match field {
            Field::Auto => 'o',
            Field::AutoSave => 'e',
            Field::Remap => 'p',
        },
{
    reveal_strlit("auto");
    reveal_strlit("auto_save");
    reveal_strlit("remap");
}

/// The name of a key ends as the name of its field does.
proof fn lemma_key_name_ends(key: Key)
    ensures
        key.spec_name().len() > 0,
        key.spec_name().last() == key_field(key).spec_name().last(),
{
    lemma_field_name_ends(key_field(key));
}

/// What a read asks for.
#[derive(Debug, Clone, Copy)]
pub enum Query {
    /// Whether code posted without a command is run.
    Auto,
    /// Whether such a run is saved.
    AutoSave,
    /// The compiler that stands for one language.
    Remap(LanguageID),
    /// Every language with the compiler that stands for it.
    RemapAll,
}

/// What a write puts down.
#[derive(Debug, Clone, Copy)]
pub enum Datum {
    Auto(bool),
    AutoSave(bool),
    Remap(LanguageID, CompilerID),
}

/// What a finished operation found.
#[derive(Debug)]
pub enum Answer {
    /// The value of `Auto` or of `AutoSave`.
    Flag(bool),
    /// The compiler that stands for the language, if one does.
    Remap(Option<CompilerID>),
    /// Every language with the compiler that stands for it, in no particular
    /// order.
    Remaps(Vec<(LanguageID, CompilerID)>),
    /// The write went through.
    Written,
}

/// An answer with its list as a sequence.
pub enum AnswerView {
    Flag(bool),
    Remap(Option<CompilerID>),
    Remaps(Seq<(LanguageID, CompilerID)>),
    Written,
}

impl View for Answer {
    type V = AnswerView;

    open spec fn view(&self) -> AnswerView {
        match self {
            Answer::Flag(b) => AnswerView::Flag(*b),
            Answer::Remap(c) => AnswerView::Remap(*c),
            Answer::Remaps(pairs) => AnswerView::Remaps(pairs@),
            Answer::Written => AnswerView::Written,
        }
    }
}

/// The pairs of raw ids read as a language and its compiler each.
pub open spec fn remap_pairs(entries: Seq<(u64, u64)>) -> Seq<(LanguageID, CompilerID)> {
    entries.map_values(|e: (u64, u64)| (LanguageID(e.0), CompilerID(e.1)))
}

/// The number that stores a flag.
pub open spec fn flag_value(set: bool) -> u32 {
    if set {
        1
    } else {
        0
    }
}

impl Query {
    /// The field that the query reads.
    pub open spec fn field(self) -> Field {
        match self {
            Query::Auto => Field::Auto,
            Query::AutoSave => Field::AutoSave,
            Query::Remap(_) => Field::Remap,
            Query::RemapAll => Field::Remap,
        }
    }

    /// The answer where neither the room nor the community has a value:
    /// code is run, runs are not saved, no language is remapped.
    pub open spec fn missing(self) -> AnswerView {
        match self {
            Query::Auto => AnswerView::Flag(true),
            Query::AutoSave => AnswerView::Flag(false),
            Query::Remap(_) => AnswerView::Remap(None),
            Query::RemapAll => AnswerView::Remaps(Seq::empty()),
        }
    }

    /// The command that reads the value under `key`.
    pub open spec fn fetch(self, key: Seq<char>) -> CommandView {
        match self {
            Query::Auto => CommandView::Get { key },
            Query::AutoSave => CommandView::Get { key },
            Query::Remap(language_id) => CommandView::HashGet { key, field: language_id.0 },
            Query::RemapAll => CommandView::HashGetAll { key },
        }
    }

    /// The answer that `reply` gives to the query, where it is a reply to
    /// the query's command at all. A flag is set unless the number is zero.
    pub open spec fn fetched(self, reply: ReplyView) -> Option<AnswerView> {
        match (self, reply) {
            (Query::Auto, ReplyView::Value(v)) => Some(AnswerView::Flag(v != 0)),
            (Query::AutoSave, ReplyView::Value(v)) => Some(AnswerView::Flag(v != 0)),
            (Query::Remap(_), ReplyView::HashValue(Some(c))) => Some(
                AnswerView::Remap(Some(CompilerID(c))),
            ),
            (Query::Remap(_), ReplyView::HashValue(None)) => Some(AnswerView::Remap(None)),
            (Query::RemapAll, ReplyView::HashEntries(entries)) => Some(
                AnswerView::Remaps(remap_pairs(entries)),
            ),
            _ => None,
        }
    }
}

impl Datum {
    /// The field that the datum belongs to.
    pub open spec fn field(self) -> Field {
        match self {
            Datum::Auto(_) => Field::Auto,
            Datum::AutoSave(_) => Field::AutoSave,
            Datum::Remap(_, _) => Field::Remap,
        }
    }

    /// The command that puts the datum under `key`.
    pub open spec fn write(self, key: Seq<char>) -> CommandView {
        match self {
            Datum::Auto(set) => CommandView::Put { key, value: flag_value(set) },
            Datum::AutoSave(set) => CommandView::Put { key, value: flag_value(set) },
            Datum::Remap(language_id, compiler_id) => CommandView::HashPut {
                key,
                field: language_id.0,
                value: compiler_id.0,
            },
        }
    }
}

/// How far a read has come.
#[derive(Debug, Clone, Copy)]
pub enum ReadStage {
    /// The backend was asked whether the room has a key of its own.
    ChannelAsked,
    /// The room has none; the backend was asked whether the community has a
    /// default.
    DefaultAsked,
    /// The backend was asked for the value under the key that was found.
    Fetching,
}

/// How far a write has come.
#[derive(Debug)]
enum WriteStage {
    ChannelWriting,
    Scanning,
    Overwriting { keys: Vec<String>, next: usize },
    DefaultWriting,
}

/// How far a write has come.
pub enum WriteStageView {
    /// The write to the one room is on its way.
    ChannelWriting,
    /// The backend was asked for the room keys of the community.
    Scanning,
    /// The write to `keys[next]` is on its way; the keys before it are
    /// written.
    Overwriting { keys: Seq<Seq<char>>, next: nat },
    /// Every room key is written; the write to the default is on its way.
    DefaultWriting,
}

#[derive(Debug)]
#[allow(inconsistent_fields)]
enum State {
    Reading { guild_id: GuildID, channel_id: ChannelID, query: Query, stage: ReadStage },
    Writing { guild_id: GuildID, datum: Datum, stage: WriteStage },
}

/// An operation on the settings that waits for a reply of the backend.
#[allow(inconsistent_fields)]
pub enum SettingView {
    Reading { guild_id: GuildID, channel_id: ChannelID, query: Query, stage: ReadStage },
    Writing { guild_id: GuildID, datum: Datum, stage: WriteStageView },
}

/// What an operation ends with.
pub type Finished = Result<AnswerView, ErrorView>;

/// The result of an operation that was handed a reply it could not have
/// asked for.
pub open spec fn unexpected() -> Finished {
    Err(ErrorView::Database("unexpected reply"@))
}

/// The first step of a read: ask whether the room has a key of its own.
pub open spec fn start_read(guild_id: GuildID, channel_id: ChannelID, query: Query) -> StepView<
    SettingView,
    Finished,
> {
    StepView::Perform(
        SettingView::Reading { guild_id, channel_id, query, stage: ReadStage::ChannelAsked },
        CommandView::Exists {
            key: (Key::ChannelKey { guild_id, channel_id, field: query.field() }).spec_name(),
        },
    )
}

/// The first step of a write: write the one room, or ask for the room keys of
/// the community.
pub open spec fn start_write(guild_id: GuildID, scope: Scope, datum: Datum) -> StepView<
    SettingView,
    Finished,
> {
    match scope {
        Scope::Channel(channel_id) => StepView::Perform(
            SettingView::Writing { guild_id, datum, stage: WriteStageView::ChannelWriting },
            datum.write(
                (Key::ChannelKey { guild_id, channel_id, field: datum.field() }).spec_name(),
            ),
        ),
        Scope::Guild => StepView::Perform(
            SettingView::Writing { guild_id, datum, stage: WriteStageView::Scanning },
            CommandView::Scan {
                pattern: ScanPattern::AllChannels(guild_id, datum.field()).spec_pattern(),
            },
        ),
    }
}

/// The step of a community-wide write once the keys before `keys[next]` are
/// written: write the next key, or, after the last, the default.
pub open spec fn overwrite_from(
    guild_id: GuildID,
    datum: Datum,
    keys: Seq<Seq<char>>,
    next: nat,
) -> StepView<SettingView, Finished> {
    if next < keys.len() {
        StepView::Perform(
            SettingView::Writing {
                guild_id,
                datum,
                stage: WriteStageView::Overwriting { keys, next },
            },
            datum.write(keys[next as int]),
        )
    } else {
        StepView::Perform(
            SettingView::Writing { guild_id, datum, stage: WriteStageView::DefaultWriting },
            datum.write((Key::DefaultKey { guild_id, field: datum.field() }).spec_name()),
        )
    }
}

impl SettingView {
    /// The step that follows `reply`. A failed reply ends the operation at
    /// once with what the backend said, and so does a reply of the wrong kind.
    pub open spec fn resume(self, reply: ReplyView) -> StepView<SettingView, Finished> {
        match (self, reply) {
            (_, ReplyView::Failed(why)) => StepView::Finish(Err(ErrorView::Database(why))),
            (
                SettingView::Reading { guild_id, channel_id, query, stage: ReadStage::ChannelAsked },
                ReplyView::Exists(found),
            ) => if found {
                StepView::Perform(
                    SettingView::Reading { guild_id, channel_id, query, stage: ReadStage::Fetching },
                    query.fetch(
                        (Key::ChannelKey { guild_id, channel_id, field: query.field() }).spec_name(),
                    ),
                )
            } else {
                StepView::Perform(
                    SettingView::Reading {
                        guild_id,
                        channel_id,
                        query,
                        stage: ReadStage::DefaultAsked,
                    },
                    CommandView::Exists {
                        key: (Key::DefaultKey { guild_id, field: query.field() }).spec_name(),
                    },
                )
            },
            (
                SettingView::Reading { guild_id, channel_id, query, stage: ReadStage::DefaultAsked },
                ReplyView::Exists(found),
            ) => if found {
                StepView::Perform(
                    SettingView::Reading { guild_id, channel_id, query, stage: ReadStage::Fetching },
                    query.fetch((Key::DefaultKey { guild_id, field: query.field() }).spec_name()),
                )
            } else {
                StepView::Finish(Ok(query.missing()))
            },
            (SettingView::Reading { query, stage: ReadStage::Fetching, .. }, _) => match query.fetched(
                reply,
            ) {
                Some(answer) => StepView::Finish(Ok(answer)),
                None => StepView::Finish(unexpected()),
            },
            (
                SettingView::Writing { stage: WriteStageView::ChannelWriting, .. },
                ReplyView::Done,
            ) => StepView::Finish(Ok(AnswerView::Written)),
            (
                SettingView::Writing { stage: WriteStageView::DefaultWriting, .. },
                ReplyView::Done,
            ) => StepView::Finish(Ok(AnswerView::Written)),
            (
                SettingView::Writing { guild_id, datum, stage: WriteStageView::Scanning },
                ReplyView::Keys(keys),
            ) => overwrite_from(guild_id, datum, keys, 0),
            (
                SettingView::Writing {
                    guild_id,
                    datum,
                    stage: WriteStageView::Overwriting { keys, next },
                },
                ReplyView::Done,
            ) => overwrite_from(guild_id, datum, keys, next + 1),
            _ => StepView::Finish(unexpected()),
        }
    }
}

/// An operation on the settings, between two round-trips to the backend.
///
/// Each of the constructors names the operation's first command. `resume`
/// takes the backend's reply to the command last named and gives the next
/// one, or the operation's result.
#[derive(Debug)]
pub struct Setting {
    state: State,
}

impl View for Setting {
    type V = SettingView;

    closed spec fn view(&self) -> SettingView {
        match self.state {
            State::Reading { guild_id, channel_id, query, stage } => SettingView::Reading {
                guild_id,
                channel_id,
                query,
                stage,
            },
            State::Writing { guild_id, datum, stage } => SettingView::Writing {
                guild_id,
                datum,
                stage: match stage {
                    WriteStage::ChannelWriting => WriteStageView::ChannelWriting,
                    WriteStage::Scanning => WriteStageView::Scanning,
                    WriteStage::Overwriting { keys, next } => WriteStageView::Overwriting {
                        keys: string_views(keys@),
                        next: next as nat,
                    },
                    WriteStage::DefaultWriting => WriteStageView::DefaultWriting,
                },
            },
        }
    }
}

/// A step of an operation on the settings, as plain values.
pub open spec fn step_view(step: Step<Setting, Result<Answer, Error>>) -> StepView<
    SettingView,
    Finished,
> {
    match step {
        Step::Perform(setting, command) => StepView::Perform(setting@, command@),
        Step::Finish(Ok(answer)) => StepView::Finish(Ok(answer@)),
        Step::Finish(Err(error)) => StepView::Finish(Err(error@)),
    }
}

fn field_of_query(query: Query) -> (r: Field)
    ensures
        r == query.field(),
{
    match query {
        Query::Auto => Field::Auto,
        Query::AutoSave => Field::AutoSave,
        Query::Remap(_) => Field::Remap,
        Query::RemapAll => Field::Remap,
    }
}

fn field_of_datum(datum: Datum) -> (r: Field)
    ensures
        r == datum.field(),
{
    match datum {
        Datum::Auto(_) => Field::Auto,
        Datum::AutoSave(_) => Field::AutoSave,
        Datum::Remap(_, _) => Field::Remap,
    }
}

fn fetch_command(query: Query, key: String) -> (r: Command)
    ensures
        r@ == query.fetch(key@),
{
    match query {
        Query::Auto => Command::Get { key },
        Query::AutoSave => Command::Get { key },
        Query::Remap(language_id) => Command::HashGet { key, field: language_id.as_u64() },
        Query::RemapAll => Command::HashGetAll { key },
    }
}

fn flag_number(set: bool) -> (r: u32)
    ensures
        r == flag_value(set),
{
    if set {
        1
    } else {
        0
    }
}

fn write_command(datum: Datum, key: String) -> (r: Command)
    ensures
        r@ == datum.write(key@),
{
    match datum {
        Datum::Auto(set) => Command::Put { key, value: flag_number(set) },
        Datum::AutoSave(set) => Command::Put { key, value: flag_number(set) },
        Datum::Remap(language_id, compiler_id) => Command::HashPut {
            key,
            field: language_id.as_u64(),
            value: compiler_id.as_u64(),
        },
    }
}

/// Reads raw pairs of ids as a language and its compiler each.
fn to_remap_pairs(entries: Vec<(u64, u64)>) -> (r: Vec<(LanguageID, CompilerID)>)
    ensures
        r@ == remap_pairs(entries@),
{
    let mut pairs: Vec<(LanguageID, CompilerID)> = Vec::new();
    let mut i: usize = 0;
    while i < entries.len()
        invariant
            0 <= i <= entries.len(),
            pairs.len() == i,
            forall|j: int|
                0 <= j < i ==> #[trigger] pairs[j] == (
                    LanguageID(entries[j].0),
                    CompilerID(entries[j].1),
                ),
        decreases entries.len() - i,
    {
        let entry = entries[i];
        pairs.push((LanguageID::from_u64(entry.0), CompilerID::from_u64(entry.1)));
        i = i + 1;
    }
    assert(pairs@ =~= remap_pairs(entries@));
    pairs
}

/// The answer that a reply gives to a query, if it is a reply to it.
fn interpret(query: Query, reply: Reply) -> (r: Option<Answer>)
    ensures
        match r {
            Some(answer) => query.fetched(reply@) == Some(answer@),
            None => query.fetched(reply@) is None,
        },
{
    match query {
        Query::Auto => match reply {
            Reply::Value(v) => Some(Answer::Flag(v != 0)),
            _ => None,
        },
        Query::AutoSave => match reply {
            Reply::Value(v) => Some(Answer::Flag(v != 0)),
            _ => None,
        },
        Query::Remap(_) => match reply {
            Reply::HashValue(Some(c)) => Some(Answer::Remap(Some(CompilerID::from_u64(c)))),
            Reply::HashValue(None) => Some(Answer::Remap(None)),
            _ => None,
        },
        Query::RemapAll => match reply {
            Reply::HashEntries(entries) => Some(Answer::Remaps(to_remap_pairs(entries))),
            _ => None,
        },
    }
}

/// The result for a reply that the operation could not have asked for.
fn unexpected_reply() -> (r: Step<Setting, Result<Answer, Error>>)
    ensures
        step_view(r) == StepView::<SettingView, Finished>::Finish(unexpected()),
{
    Step::Finish(Err(Error::Database(String::from_str("unexpected reply"))))
}

impl Setting {
    fn read(guild_id: GuildID, channel_id: ChannelID, query: Query) -> (r: Step<
        Setting,
        Result<Answer, Error>,
    >)
        ensures
            step_view(r) == start_read(guild_id, channel_id, query),
    {
        let key = Key::ChannelKey { guild_id, channel_id, field: field_of_query(query) };
        Step::Perform(
            Setting {
                state: State::Reading { guild_id, channel_id, query, stage: ReadStage::ChannelAsked },
            },
            Command::Exists { key: key.name() },
        )
    }

    fn write(guild_id: GuildID, scope: Scope, datum: Datum) -> (r: Step<
        Setting,
        Result<Answer, Error>,
    >)
        ensures
            step_view(r) == start_write(guild_id, scope, datum),
    {
        match scope {
            Scope::Channel(channel_id) => {
                let key = Key::ChannelKey { guild_id, channel_id, field: field_of_datum(datum) };
                Step::Perform(
                    Setting {
                        state: State::Writing { guild_id, datum, stage: WriteStage::ChannelWriting },
                    },
                    write_command(datum, key.name()),
                )
            },
            Scope::Guild => {
                let pattern = ScanPattern::AllChannels(guild_id, field_of_datum(datum));
                Step::Perform(
                    Setting {
                        state: State::Writing { guild_id, datum, stage: WriteStage::Scanning },
                    },
                    Command::Scan { pattern: pattern.pattern() },
                )
            },
        }
    }

    fn overwrite(guild_id: GuildID, datum: Datum, keys: Vec<String>, next: usize) -> (r: Step<
        Setting,
        Result<Answer, Error>,
    >)
        ensures
            step_view(r) == overwrite_from(guild_id, datum, string_views(keys@), next as nat),
    {
        if next < keys.len() {
            let key = keys[next].clone();
            Step::Perform(
                Setting {
                    state: State::Writing {
                        guild_id,
                        datum,
                        stage: WriteStage::Overwriting { keys, next },
                    },
                },
                write_command(datum, key),
            )
        } else {
            let key = Key::DefaultKey { guild_id, field: field_of_datum(datum) };
            Step::Perform(
                Setting {
                    state: State::Writing { guild_id, datum, stage: WriteStage::DefaultWriting },
                },
                write_command(datum, key.name()),
            )
        }
    }

    /// Sets whether code posted without a command is run.
    pub fn set_auto(guild_id: GuildID, scope: Scope, set: bool) -> (r: Step<
        Setting,
        Result<Answer, Error>,
    >)
        ensures
            step_view(r) == start_write(guild_id, scope, Datum::Auto(set)),
    {
        Setting::write(guild_id, scope, Datum::Auto(set))
    }

    /// Reads whether code posted without a command is run. It is, unless
    /// somebody has said otherwise.
    pub fn get_auto(guild_id: GuildID, channel_id: ChannelID) -> (r: Step<
        Setting,
        Result<Answer, Error>,
    >)
        ensures
            step_view(r) == start_read(guild_id, channel_id, Query::Auto),
    {
        Setting::read(guild_id, channel_id, Query::Auto)
    }

    /// Sets whether runs of code posted without a command are saved.
    pub fn set_auto_save(guild_id: GuildID, scope: Scope, set: bool) -> (r: Step<
        Setting,
        Result<Answer, Error>,
    >)
        ensures
            step_view(r) == start_write(guild_id, scope, Datum::AutoSave(set)),
    {
        Setting::write(guild_id, scope, Datum::AutoSave(set))
    }

    /// Reads whether runs of code posted without a command are saved. They
    /// are not, unless somebody has said otherwise.
    pub fn get_auto_save(guild_id: GuildID, channel_id: ChannelID) -> (r: Step<
        Setting,
        Result<Answer, Error>,
    >)
        ensures
            step_view(r) == start_read(guild_id, channel_id, Query::AutoSave),
    {
        Setting::read(guild_id, channel_id, Query::AutoSave)
    }

    /// Lets a compiler stand for a language.
    pub fn set_remap(
        guild_id: GuildID,
        scope: Scope,
        language_id: LanguageID,
        compiler_id: CompilerID,
    ) -> (r: Step<Setting, Result<Answer, Error>>)
        ensures
            step_view(r) == start_write(guild_id, scope, Datum::Remap(language_id, compiler_id)),
    {
        Setting::write(guild_id, scope, Datum::Remap(language_id, compiler_id))
    }

    /// Reads which compiler stands for a language, if one does.
    pub fn get_remap(guild_id: GuildID, channel_id: ChannelID, language_id: LanguageID) -> (r: Step<
        Setting,
        Result<Answer, Error>,
    >)
        ensures
            step_view(r) == start_read(guild_id, channel_id, Query::Remap(language_id)),
    {
        Setting::read(guild_id, channel_id, Query::Remap(language_id))
    }

    /// Reads every language with the compiler that stands for it.
    pub fn get_remap_all(guild_id: GuildID, channel_id: ChannelID) -> (r: Step<
        Setting,
        Result<Answer, Error>,
    >)
        ensures
            step_view(r) == start_read(guild_id, channel_id, Query::RemapAll),
    {
        Setting::read(guild_id, channel_id, Query::RemapAll)
    }

    /// Takes the backend's reply to the command last named.
    pub fn resume(self, reply: Reply) -> (r: Step<Setting, Result<Answer, Error>>)
        ensures
            step_view(r) == self@.resume(reply@),
    {
        match reply {
            Reply::Failed(why) => Step::Finish(Err(Error::Database(why))),
            _ => match self.state {
                State::Reading { guild_id, channel_id, query, stage } => match stage {
                    ReadStage::ChannelAsked => match reply {
                        Reply::Exists(true) => {
                            let key = Key::ChannelKey {
                                guild_id,
                                channel_id,
                                field: field_of_query(query),
                            };
                            Step::Perform(
                                Setting {
                                    state: State::Reading {
                                        guild_id,
                                        channel_id,
                                        query,
                                        stage: ReadStage::Fetching,
                                    },
                                },
                                fetch_command(query, key.name()),
                            )
                        },
                        Reply::Exists(false) => {
                            let key = Key::DefaultKey { guild_id, field: field_of_query(query) };
                            Step::Perform(
                                Setting {
                                    state: State::Reading {
                                        guild_id,
                                        channel_id,
                                        query,
                                        stage: ReadStage::DefaultAsked,
                                    },
                                },
                                Command::Exists { key: key.name() },
                            )
                        },
                        _ => unexpected_reply(),
                    },
                    ReadStage::DefaultAsked => match reply {
                        Reply::Exists(true) => {
                            let key = Key::DefaultKey { guild_id, field: field_of_query(query) };
                            Step::Perform(
                                Setting {
                                    state: State::Reading {
                                        guild_id,
                                        channel_id,
                                        query,
                                        stage: ReadStage::Fetching,
                                    },
                                },
                                fetch_command(query, key.name()),
                            )
                        },
                        Reply::Exists(false) => Step::Finish(Ok(missing_answer(query))),
                        _ => unexpected_reply(),
                    },
                    ReadStage::Fetching => match interpret(query, reply) {
                        Some(answer) => Step::Finish(Ok(answer)),
                        None => unexpected_reply(),
                    },
                },
                State::Writing { guild_id, datum, stage } => match stage {
                    WriteStage::ChannelWriting => match reply {
                        Reply::Done => Step::Finish(Ok(Answer::Written)),
                        _ => unexpected_reply(),
                    },
                    WriteStage::DefaultWriting => match reply {
                        Reply::Done => Step::Finish(Ok(Answer::Written)),
                        _ => unexpected_reply(),
                    },
                    WriteStage::Scanning => match reply {
                        Reply::Keys(keys) => Setting::overwrite(guild_id, datum, keys, 0),
                        _ => unexpected_reply(),
                    },
                    WriteStage::Overwriting { keys, next } => match reply {
                        Reply::Done => {
                            if next < keys.len() {
                                Setting::overwrite(guild_id, datum, keys, next + 1)
                            } else {
                                Setting::overwrite(guild_id, datum, keys, next)
                            }
                        },
                        _ => unexpected_reply(),
                    },
                },
            },
        }
    }
}

/// The answer where neither the room nor the community has a value.
fn missing_answer(query: Query) -> (r: Answer)
    ensures
        r@ == query.missing(),
{
    match query {
        Query::Auto => Answer::Flag(true),
        Query::AutoSave => Answer::Flag(false),
        Query::Remap(_) => Answer::Remap(None),
        Query::RemapAll => Answer::Remaps(Vec::new()),
    }
}

} // verus!
