use runbot::error::Error;
use runbot::model::channel_id::ChannelID;
use runbot::model::compiler::CompilerID;
use runbot::model::guild_id::GuildID;
use runbot::model::language::LanguageID;
use runbot::setting::{decimal_text, Answer, Field, Key, ScanPattern, Scope, Setting};
use runbot::store::{Command, Reply, Step};
use std::collections::BTreeMap;

/// What the stand-in backend holds under one key.
#[derive(Debug, Clone, PartialEq)]
enum Entry {
    Scalar(u32),
    Hash(BTreeMap<u64, u64>),
}

/// A backend in memory that keeps a record of the commands it was given.
struct Backend {
    store: BTreeMap<String, Entry>,
    log: Vec<String>,
    fail_from: Option<usize>,
}

fn matches_pattern(pattern: &[u8], key: &[u8]) -> bool {
    match pattern.split_first() {
        None => key.is_empty(),
        Some((b'*', rest)) => {
            matches_pattern(rest, key) || (!key.is_empty() && matches_pattern(pattern, &key[1..]))
        }
        Some((c, rest)) => !key.is_empty() && key[0] == *c && matches_pattern(rest, &key[1..]),
    }
}

impl Backend {
    fn new() -> Backend {
        Backend { store: BTreeMap::new(), log: Vec::new(), fail_from: None }
    }

    fn perform(&mut self, command: &Command) -> Reply {
        self.log.push(format!("{:?}", command));
        if let Some(n) = self.fail_from {
            if self.log.len() > n {
                return Reply::Failed("connection lost".to_string());
            }
        }
        match command {
            Command::Exists { key } => Reply::Exists(self.store.contains_key(key)),
            Command::Get { key } => match self.store.get(key) {
                Some(Entry::Scalar(v)) => Reply::Value(*v),
                _ => Reply::Failed("not a number".to_string()),
            },
            Command::HashGet { key, field } => match self.store.get(key) {
                Some(Entry::Hash(h)) => Reply::HashValue(h.get(field).copied()),
                Some(Entry::Scalar(_)) => Reply::Failed("wrong kind".to_string()),
                None => Reply::HashValue(None),
            },
            Command::HashGetAll { key } => match self.store.get(key) {
                Some(Entry::Hash(h)) => {
                    Reply::HashEntries(h.iter().map(|(k, v)| (*k, *v)).collect())
                }
                Some(Entry::Scalar(_)) => Reply::Failed("wrong kind".to_string()),
                None => Reply::HashEntries(Vec::new()),
            },
            Command::Put { key, value } => {
                self.store.insert(key.clone(), Entry::Scalar(*value));
                Reply::Done
            }
            Command::HashPut { key, field, value } => match self.store.get_mut(key) {
                Some(Entry::Hash(h)) => {
                    h.insert(*field, *value);
                    Reply::Done
                }
                Some(Entry::Scalar(_)) => Reply::Failed("wrong kind".to_string()),
                None => {
                    let mut h = BTreeMap::new();
                    h.insert(*field, *value);
                    self.store.insert(key.clone(), Entry::Hash(h));
                    Reply::Done
                }
            },
            Command::Scan { pattern } => Reply::Keys(
                self.store
                    .keys()
                    .filter(|k| matches_pattern(pattern.as_bytes(), k.as_bytes()))
                    .cloned()
                    .collect(),
            ),
        }
    }

    fn run(&mut self, first: Step<Setting, Result<Answer, Error>>) -> Result<Answer, Error> {
        let mut step = first;
        loop {
            match step {
                Step::Perform(setting, command) => {
                    let reply = self.perform(&command);
                    step = setting.resume(reply);
                }
                Step::Finish(result) => return result,
            }
        }
    }

    fn auto(&mut self, guild: u64, channel: u64) -> bool {
        match self.run(Setting::get_auto(GuildID::from_u64(guild), ChannelID::from_u64(channel))) {
            Ok(Answer::Flag(b)) => b,
            other => panic!("no flag: {:?}", other),
        }
    }

    fn auto_save(&mut self, guild: u64, channel: u64) -> bool {
        match self
            .run(Setting::get_auto_save(GuildID::from_u64(guild), ChannelID::from_u64(channel)))
        {
            Ok(Answer::Flag(b)) => b,
            other => panic!("no flag: {:?}", other),
        }
    }

    fn remap(&mut self, guild: u64, channel: u64, language: u64) -> Option<u64> {
        match self.run(Setting::get_remap(
            GuildID::from_u64(guild),
            ChannelID::from_u64(channel),
            LanguageID::from_u64(language),
        )) {
            Ok(Answer::Remap(c)) => c.map(|c| c.as_u64()),
            other => panic!("no remap: {:?}", other),
        }
    }

    fn remaps(&mut self, guild: u64, channel: u64) -> Vec<(u64, u64)> {
        match self
            .run(Setting::get_remap_all(GuildID::from_u64(guild), ChannelID::from_u64(channel)))
        {
            Ok(Answer::Remaps(pairs)) => {
                pairs.into_iter().map(|(l, c)| (l.as_u64(), c.as_u64())).collect()
            }
            other => panic!("no remaps: {:?}", other),
        }
    }
}

fn room(channel: u64) -> Scope {
    Scope::Channel(ChannelID::from_u64(channel))
}

fn guild(id: u64) -> GuildID {
    GuildID::from_u64(id)
}

#[test]
fn field_names() {
    assert_eq!(Field::Auto.name(), "auto");
    assert_eq!(Field::AutoSave.name(), "auto_save");
    assert_eq!(Field::Remap.name(), "remap");
}

#[test]
fn decimal_text_writes_numbers_without_leading_zeros() {
    assert_eq!(decimal_text(0), "0");
    assert_eq!(decimal_text(7), "7");
    assert_eq!(decimal_text(10), "10");
    assert_eq!(decimal_text(1234567890), "1234567890");
    assert_eq!(decimal_text(u64::MAX), "18446744073709551615");
}

#[test]
fn key_names() {
    let room_key = Key::ChannelKey {
        guild_id: guild(12),
        channel_id: ChannelID::from_u64(345),
        field: Field::Auto,
    };
    assert_eq!(room_key.name(), "channel:12:345:auto");
    let save_key = Key::ChannelKey {
        guild_id: guild(0),
        channel_id: ChannelID::from_u64(u64::MAX),
        field: Field::AutoSave,
    };
    assert_eq!(save_key.name(), "channel:0:18446744073709551615:auto_save");
    let default_key = Key::DefaultKey { guild_id: guild(12), field: Field::Remap };
    assert_eq!(default_key.name(), "channel:12:default:remap");
}

#[test]
fn scan_pattern_names_every_room_of_one_field() {
    assert_eq!(ScanPattern::AllChannels(guild(12), Field::Auto).pattern(), "channel:12:*:auto");
    assert_eq!(
        ScanPattern::AllChannels(guild(9), Field::AutoSave).pattern(),
        "channel:9:*:auto_save"
    );
    assert_eq!(ScanPattern::AllChannels(guild(9), Field::Remap).pattern(), "channel:9:*:remap");
}

#[test]
fn nothing_stored_gives_the_built_in_defaults() {
    let mut backend = Backend::new();
    assert!(backend.auto(1, 2));
    assert!(!backend.auto_save(1, 2));
    assert_eq!(backend.remap(1, 2, 77), None);
    assert_eq!(backend.remaps(1, 2), Vec::<(u64, u64)>::new());
    assert!(backend.store.is_empty());
}

#[test]
fn a_read_asks_the_room_then_the_default() {
    let mut backend = Backend::new();
    backend.auto(1, 2);
    assert_eq!(
        backend.log,
        vec![
            "Exists { key: \"channel:1:2:auto\" }".to_string(),
            "Exists { key: \"channel:1:default:auto\" }".to_string(),
        ]
    );
    backend.log.clear();
    backend.store.insert("channel:1:default:auto".to_string(), Entry::Scalar(0));
    assert!(!backend.auto(1, 2));
    assert_eq!(
        backend.log,
        vec![
            "Exists { key: \"channel:1:2:auto\" }".to_string(),
            "Exists { key: \"channel:1:default:auto\" }".to_string(),
            "Get { key: \"channel:1:default:auto\" }".to_string(),
        ]
    );
    backend.log.clear();
    backend.store.insert("channel:1:2:auto".to_string(), Entry::Scalar(1));
    assert!(backend.auto(1, 2));
    assert_eq!(
        backend.log,
        vec![
            "Exists { key: \"channel:1:2:auto\" }".to_string(),
            "Get { key: \"channel:1:2:auto\" }".to_string(),
        ]
    );
}

#[test]
fn a_room_without_a_value_reads_the_community_default() {
    let mut backend = Backend::new();
    backend.store.insert("channel:1:default:auto".to_string(), Entry::Scalar(0));
    backend.store.insert("channel:1:default:auto_save".to_string(), Entry::Scalar(1));
    let mut h = BTreeMap::new();
    h.insert(5, 50);
    backend.store.insert("channel:1:default:remap".to_string(), Entry::Hash(h));
    assert!(!backend.auto(1, 2));
    assert!(backend.auto_save(1, 2));
    assert_eq!(backend.remap(1, 2, 5), Some(50));
    assert_eq!(backend.remap(1, 2, 6), None);
    assert_eq!(backend.remaps(1, 2), vec![(5, 50)]);
    // another community has its own default
    assert!(backend.auto(2, 2));
}

#[test]
fn a_stored_number_other_than_zero_sets_the_flag() {
    let mut backend = Backend::new();
    backend.store.insert("channel:1:2:auto".to_string(), Entry::Scalar(7));
    assert!(backend.auto(1, 2));
    backend.store.insert("channel:1:2:auto".to_string(), Entry::Scalar(0));
    assert!(!backend.auto(1, 2));
}

#[test]
fn a_room_write_touches_that_room_alone() {
    let mut backend = Backend::new();
    let written = backend.run(Setting::set_auto(guild(1), room(2), false));
    assert!(matches!(written, Ok(Answer::Written)));
    assert_eq!(backend.log, vec!["Put { key: \"channel:1:2:auto\", value: 0 }".to_string()]);
    assert_eq!(backend.store.len(), 1);
    assert!(!backend.auto(1, 2));
    assert!(backend.auto(1, 3));
    assert!(backend.auto(2, 2));
    assert!(!backend.store.contains_key("channel:1:default:auto"));
}

#[test]
fn an_override_wins_over_the_default_until_a_broadcast() {
    let mut backend = Backend::new();
    // the default is changed first, the room is overridden afterwards
    assert!(matches!(
        backend.run(Setting::set_auto_save(guild(1), Scope::Guild, true)),
        Ok(Answer::Written)
    ));
    assert!(matches!(
        backend.run(Setting::set_auto_save(guild(1), room(2), false)),
        Ok(Answer::Written)
    ));
    assert!(!backend.auto_save(1, 2));
    assert!(backend.auto_save(1, 3));
    // a broadcast that comes after the override overrides it
    assert!(matches!(
        backend.run(Setting::set_auto_save(guild(1), Scope::Guild, true)),
        Ok(Answer::Written)
    ));
    assert!(backend.auto_save(1, 2));
    assert!(backend.auto_save(1, 3));
}

#[test]
fn a_broadcast_reaches_every_room() {
    let mut backend = Backend::new();
    backend.store.insert("channel:1:2:auto".to_string(), Entry::Scalar(1));
    backend.store.insert("channel:1:30:auto".to_string(), Entry::Scalar(1));
    backend.store.insert("channel:1:2:auto_save".to_string(), Entry::Scalar(1));
    backend.store.insert("channel:11:2:auto".to_string(), Entry::Scalar(1));
    let written = backend.run(Setting::set_auto(guild(1), Scope::Guild, false));
    assert!(matches!(written, Ok(Answer::Written)));
    assert_eq!(
        backend.log,
        vec![
            "Scan { pattern: \"channel:1:*:auto\" }".to_string(),
            "Put { key: \"channel:1:2:auto\", value: 0 }".to_string(),
            "Put { key: \"channel:1:30:auto\", value: 0 }".to_string(),
            "Put { key: \"channel:1:default:auto\", value: 0 }".to_string(),
        ]
    );
    // a room that had a value, one that had none, one that nobody has seen
    assert!(!backend.auto(1, 2));
    assert!(!backend.auto(1, 30));
    assert!(!backend.auto(1, 4));
    assert!(!backend.auto(1, 99999));
    // other fields and other communities are as they were
    assert!(backend.auto_save(1, 2));
    assert!(backend.auto(11, 2));
    assert_eq!(backend.store.get("channel:11:2:auto"), Some(&Entry::Scalar(1)));
}

#[test]
fn a_broadcast_overwrites_the_default_it_finds() {
    let mut backend = Backend::new();
    backend.store.insert("channel:1:default:auto".to_string(), Entry::Scalar(1));
    backend.store.insert("channel:1:7:auto".to_string(), Entry::Scalar(1));
    assert!(matches!(
        backend.run(Setting::set_auto(guild(1), Scope::Guild, false)),
        Ok(Answer::Written)
    ));
    assert_eq!(backend.store.get("channel:1:default:auto"), Some(&Entry::Scalar(0)));
    assert_eq!(backend.store.get("channel:1:7:auto"), Some(&Entry::Scalar(0)));
    assert_eq!(backend.log.last().unwrap(), "Put { key: \"channel:1:default:auto\", value: 0 }");
}

#[test]
fn a_broadcast_with_no_rooms_writes_the_default() {
    let mut backend = Backend::new();
    assert!(matches!(
        backend.run(Setting::set_auto(guild(3), Scope::Guild, true)),
        Ok(Answer::Written)
    ));
    assert_eq!(
        backend.log,
        vec![
            "Scan { pattern: \"channel:3:*:auto\" }".to_string(),
            "Put { key: \"channel:3:default:auto\", value: 1 }".to_string(),
        ]
    );
}

#[test]
fn a_remap_is_stored_by_language() {
    let mut backend = Backend::new();
    let written = backend.run(Setting::set_remap(
        guild(1),
        room(2),
        LanguageID::from_u64(5),
        CompilerID::from_u64(50),
    ));
    assert!(matches!(written, Ok(Answer::Written)));
    assert_eq!(
        backend.log,
        vec!["HashPut { key: \"channel:1:2:remap\", field: 5, value: 50 }".to_string()]
    );
    assert!(matches!(
        backend.run(Setting::set_remap(
            guild(1),
            room(2),
            LanguageID::from_u64(6),
            CompilerID::from_u64(60),
        )),
        Ok(Answer::Written)
    ));
    assert_eq!(backend.remap(1, 2, 5), Some(50));
    assert_eq!(backend.remap(1, 2, 6), Some(60));
    assert_eq!(backend.remap(1, 2, 7), None);
    assert_eq!(backend.remap(1, 3, 5), None);
    assert_eq!(backend.remaps(1, 2), vec![(5, 50), (6, 60)]);
}

#[test]
fn a_remap_broadcast_adds_to_each_room() {
    let mut backend = Backend::new();
    backend
        .run(Setting::set_remap(
            guild(1),
            room(2),
            LanguageID::from_u64(5),
            CompilerID::from_u64(50),
        ))
        .unwrap();
    backend
        .run(Setting::set_remap(
            guild(1),
            Scope::Guild,
            LanguageID::from_u64(6),
            CompilerID::from_u64(60),
        ))
        .unwrap();
    assert_eq!(backend.remaps(1, 2), vec![(5, 50), (6, 60)]);
    assert_eq!(backend.remaps(1, 3), vec![(6, 60)]);
    assert_eq!(backend.remap(1, 3, 6), Some(60));
}

#[test]
fn a_failure_ends_the_operation_with_what_the_backend_said() {
    let mut backend = Backend::new();
    backend.fail_from = Some(0);
    let read = backend.run(Setting::get_auto(guild(1), ChannelID::from_u64(2)));
    match read {
        Err(Error::Database(why)) => assert_eq!(why, "connection lost"),
        other => panic!("not a failure: {:?}", other),
    }
    assert_eq!(backend.log.len(), 1);
}

#[test]
fn a_failure_in_the_middle_of_a_broadcast_stops_it() {
    let mut backend = Backend::new();
    backend.store.insert("channel:1:2:auto".to_string(), Entry::Scalar(1));
    backend.store.insert("channel:1:3:auto".to_string(), Entry::Scalar(1));
    backend.store.insert("channel:1:4:auto".to_string(), Entry::Scalar(1));
    backend.fail_from = Some(2);
    let written = backend.run(Setting::set_auto(guild(1), Scope::Guild, false));
    assert!(matches!(written, Err(Error::Database(_))));
    // the scan, one write that went through, and the write that failed
    assert_eq!(backend.log.len(), 3);
    assert_eq!(backend.store.get("channel:1:2:auto"), Some(&Entry::Scalar(0)));
    assert_eq!(backend.store.get("channel:1:3:auto"), Some(&Entry::Scalar(1)));
    assert_eq!(backend.store.get("channel:1:4:auto"), Some(&Entry::Scalar(1)));
    assert!(!backend.store.contains_key("channel:1:default:auto"));
}

#[test]
fn a_reply_of_the_wrong_kind_is_an_error() {
    let first = Setting::get_auto(guild(1), ChannelID::from_u64(2));
    let setting = match first {
        Step::Perform(setting, _) => setting,
        Step::Finish(_) => panic!("finished before it began"),
    };
    match setting.resume(Reply::Value(1)) {
        Step::Finish(Err(Error::Database(why))) => assert_eq!(why, "unexpected reply"),
        other => panic!("not an error: {:?}", other),
    }
    let first = Setting::set_auto(guild(1), Scope::Guild, true);
    let setting = match first {
        Step::Perform(setting, _) => setting,
        Step::Finish(_) => panic!("finished before it began"),
    };
    assert!(matches!(setting.resume(Reply::Done), Step::Finish(Err(Error::Database(_)))));
}

#[test]
fn a_flag_read_from_a_hash_fails() {
    let mut backend = Backend::new();
    backend.store.insert("channel:1:2:auto".to_string(), Entry::Hash(BTreeMap::new()));
    let read = backend.run(Setting::get_auto(guild(1), ChannelID::from_u64(2)));
    assert!(matches!(read, Err(Error::Database(_))));
}
