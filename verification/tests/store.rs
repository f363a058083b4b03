use madis::commands::detail::get_key_detail;
use madis::commands::detail::DetailStep;
use madis::commands::redis::add_list;
use madis::commands::redis::delete_key;
use madis::commands::redis::hash_add_items;
use madis::commands::redis::hash_delete_field;
use madis::commands::redis::hash_update_field;
use madis::commands::redis::list_add_items;
use madis::commands::lists::list_delete_value;
use madis::commands::lists::RemovalStep;
use madis::commands::redis::save_string;
use madis::commands::redis::settle;
use madis::commands::redis::update_ttl;
use madis::commands::scan::ScanStep;
use madis::commands::scan::TreeScan;
use madis::models::command::Answer;
use madis::models::command::Command;
use madis::models::command::CommandError;
use madis::models::command::Mode;
use madis::models::command::Reply;
use madis::models::command::Request;
use madis::models::redis::ListDirection;
use madis::models::redis::RedisItem;
use madis::models::redis::RedisItemValue;
use madis::models::redis::RedisTreeItem;
use madis::AppState;
use std::collections::BTreeMap;
use std::collections::HashMap;

fn s(text: &str) -> String {
    text.to_string()
}

#[derive(Clone, Debug)]
enum Held {
    Text(String),
    List(Vec<String>),
    Hash(HashMap<String, String>),
}

/// A store in memory that knows the commands these tests send.
struct Memory {
    values: BTreeMap<String, Held>,
    expiry: BTreeMap<String, i64>,
}

impl Memory {
    fn new() -> Memory {
        Memory { values: BTreeMap::new(), expiry: BTreeMap::new() }
    }

    fn list(&mut self, key: &str) -> Result<&mut Vec<String>, String> {
        match self.values.entry(s(key)).or_insert(Held::List(vec![])) {
            Held::List(items) => Ok(items),
            _ => Err(s("WRONGTYPE")),
        }
    }

    fn hash(&mut self, key: &str) -> Result<&mut HashMap<String, String>, String> {
        match self.values.entry(s(key)).or_insert(Held::Hash(HashMap::new())) {
            Held::Hash(fields) => Ok(fields),
            _ => Err(s("WRONGTYPE")),
        }
    }

    fn one(&mut self, command: &Command) -> Result<Reply, String> {
        match command {
            Command::Keys { pattern } => {
                assert_eq!(pattern, "*");
                Ok(Reply::Keys(self.values.keys().cloned().collect()))
            }
            Command::Type { key } => Ok(Reply::Types(vec![s(match self.values.get(key) {
                Some(Held::Text(_)) => "string",
                Some(Held::List(_)) => "list",
                Some(Held::Hash(_)) => "hash",
                None => "none",
            })])),
            Command::Get { key } => match self.values.get(key) {
                Some(Held::Text(text)) => Ok(Reply::Value(RedisItemValue::StringValue(text.clone()))),
                _ => Err(s("WRONGTYPE")),
            },
            Command::LRange { key, start, stop } => {
                assert_eq!((*start, *stop), (0, -1));
                Ok(Reply::Value(RedisItemValue::ListValue(self.list(key)?.clone())))
            }
            Command::HGetAll { key } => {
                Ok(Reply::Value(RedisItemValue::HashValue(self.hash(key)?.clone())))
            }
            Command::Del { key } => {
                self.values.remove(key);
                self.expiry.remove(key);
                Ok(Reply::Done)
            }
            Command::SetString { key, value } => {
                self.values.insert(key.clone(), Held::Text(value.clone()));
                self.expiry.remove(key);
                Ok(Reply::Done)
            }
            Command::Expire { key, seconds } => {
                if *seconds <= 0 {
                    self.values.remove(key);
                    self.expiry.remove(key);
                } else if self.values.contains_key(key) {
                    self.expiry.insert(key.clone(), *seconds);
                }
                Ok(Reply::Done)
            }
            Command::Persist { key } => {
                self.expiry.remove(key);
                Ok(Reply::Done)
            }
            Command::RPush { key, items } => {
                self.list(key)?.extend(items.iter().cloned());
                Ok(Reply::Done)
            }
            Command::LPush { key, items } => {
                let list = self.list(key)?;
                for item in items {
                    list.insert(0, item.clone());
                }
                Ok(Reply::Done)
            }
            Command::LSet { key, index, value } => {
                let list = self.list(key)?;
                let at = if *index < 0 { list.len() as i64 + *index } else { *index };
                if at < 0 || at >= list.len() as i64 {
                    return Err(s("ERR index out of range"));
                }
                list[at as usize] = value.clone();
                Ok(Reply::Done)
            }
            Command::LRem { key, count, value } => {
                assert_eq!(*count, 0);
                self.list(key)?.retain(|item| item != value);
                Ok(Reply::Done)
            }
            Command::HSetMultiple { key, items } => {
                let fields = self.hash(key)?;
                for (field, value) in items {
                    fields.insert(field.clone(), value.clone());
                }
                Ok(Reply::Done)
            }
            Command::HSet { key, field, value } => {
                self.hash(key)?.insert(field.clone(), value.clone());
                Ok(Reply::Done)
            }
            Command::HDel { key, field } => {
                self.hash(key)?.remove(field);
                Ok(Reply::Done)
            }
            other => panic!("a command that this store does not know: {:?}", other),
        }
    }

    fn run(&mut self, request: &Request) -> Reply {
        assert_eq!(request.session, "main");
        if request.answer == Answer::Usage {
            assert_eq!(request.mode, Mode::Atomic);
            return match &request.commands[..] {
                [Command::MemoryUsage { key }, Command::Ttl { key: same }] if key == same => {
                    Reply::Usage {
                        size: 64,
                        ttl: if self.values.contains_key(key) {
                            self.expiry.get(key).copied().unwrap_or(-1)
                        } else {
                            -2
                        },
                    }
                }
                other => panic!("not a probe: {:?}", other),
            };
        }
        let mut types = Vec::new();
        let mut last = Reply::Done;
        for (step, command) in request.commands.iter().enumerate() {
            match self.one(command) {
                Ok(Reply::Types(mut found)) => types.append(&mut found),
                Ok(reply) => last = reply,
                Err(message) => return Reply::Failed { step, message },
            }
        }
        match request.answer {
            Answer::Nothing => Reply::Done,
            Answer::Types => Reply::Types(types),
            _ => last,
        }
    }

    fn read(&mut self, state: &AppState, key: &str) -> Result<RedisItem, CommandError> {
        let (mut query, mut request) = get_key_detail(state, s(key))?;
        loop {
            match query.advance(self.run(&request)) {
                DetailStep::Send { next, request: following } => {
                    query = next;
                    request = following;
                }
                DetailStep::Ready { item } => return Ok(item),
                DetailStep::Failed { error } => return Err(error),
            }
        }
    }

    fn browse(&mut self, state: &AppState) -> Result<Vec<RedisTreeItem>, CommandError> {
        let (mut scan, mut request) = TreeScan::start(state, None)?;
        loop {
            match scan.advance(self.run(&request)) {
                ScanStep::Send { next, request: following } => {
                    scan = next;
                    request = following;
                }
                ScanStep::Ready { tree } => return Ok(tree),
                ScanStep::Failed { error } => return Err(error),
            }
        }
    }

    fn write(&mut self, plan: Result<Request, CommandError>) -> Result<(), CommandError> {
        settle(self.run(&plan?))
    }

    fn remove(&mut self, state: &AppState, key: &str, index: i64) -> Result<(), CommandError> {
        let (mut removal, mut request) = list_delete_value(state, s(key), index)?;
        loop {
            match removal.advance(self.run(&request)) {
                RemovalStep::Send { next, request: following } => {
                    removal = next;
                    request = following;
                }
                RemovalStep::Removed => return Ok(()),
                RemovalStep::Failed { error } => return Err(error),
            }
        }
    }
}

fn selected() -> AppState {
    let mut state = AppState::new();
    assert_eq!(state.connect(s("main")), Ok(s("main")));
    state
}

#[test]
fn a_saved_string_is_read_back_with_its_time_to_live() {
    let state = selected();
    let mut store = Memory::new();
    assert_eq!(store.write(save_string(&state, s("k"), s("v"), Some(60))), Ok(()));
    let item = store.read(&state, "k").unwrap();
    assert_eq!(item.redis_key, "k");
    assert_eq!(item.value, RedisItemValue::StringValue(s("v")));
    assert!(0 < item.ttl && item.ttl <= 60);
    assert_eq!(item.size, 64);
}

#[test]
fn clearing_the_expiry_is_read_back_as_minus_one() {
    let state = selected();
    let mut store = Memory::new();
    assert_eq!(store.write(save_string(&state, s("k"), s("v"), Some(60))), Ok(()));
    assert_eq!(store.write(update_ttl(&state, s("k"), -1)), Ok(()));
    assert_eq!(store.read(&state, "k").unwrap().ttl, -1);
    assert_eq!(store.write(update_ttl(&state, s("k"), 5)), Ok(()));
    assert_eq!(store.read(&state, "k").unwrap().ttl, 5);
}

#[test]
fn a_time_to_live_that_is_not_positive_leaves_the_key_alone() {
    let state = selected();
    let mut store = Memory::new();
    assert_eq!(store.write(save_string(&state, s("k"), s("v"), Some(0))), Ok(()));
    assert_eq!(store.read(&state, "k").unwrap().ttl, -1);
    assert_eq!(store.write(add_list(&state, s("l"), vec![s("a")], Some(-3))), Ok(()));
    assert_eq!(store.read(&state, "l").unwrap().value, RedisItemValue::ListValue(vec![s("a")]));
}

#[test]
fn a_hash_is_read_back_with_the_fields_that_were_written() {
    let state = selected();
    let mut store = Memory::new();
    let first = vec![(s("a"), s("1")), (s("b"), s("2")), (s("c"), s("3"))];
    assert_eq!(store.write(hash_add_items(&state, s("h"), first, None)), Ok(()));
    assert_eq!(store.write(hash_delete_field(&state, s("h"), s("b"))), Ok(()));
    assert_eq!(store.write(hash_add_items(&state, s("h"), vec![(s("a"), s("9"))], None)), Ok(()));
    assert_eq!(store.write(hash_update_field(&state, s("h"), s("c"), s("d"), s("4"))), Ok(()));
    let mut expected = HashMap::new();
    expected.insert(s("a"), s("9"));
    expected.insert(s("d"), s("4"));
    assert_eq!(store.read(&state, "h").unwrap().value, RedisItemValue::HashValue(expected));
}

#[test]
fn deleting_a_list_element_removes_that_element_only() {
    let state = selected();
    let mut store = Memory::new();
    let items = vec![s("x"), s("y"), s("x"), s("x"), s("z")];
    assert_eq!(
        store.write(list_add_items(&state, s("l"), items, ListDirection::End, None)),
        Ok(())
    );
    assert_eq!(store.remove(&state, "l", 2), Ok(()));
    assert_eq!(
        store.read(&state, "l").unwrap().value,
        RedisItemValue::ListValue(vec![s("x"), s("y"), s("x"), s("z")])
    );
    assert_eq!(store.remove(&state, "l", 0), Ok(()));
    assert_eq!(
        store.read(&state, "l").unwrap().value,
        RedisItemValue::ListValue(vec![s("y"), s("x"), s("z")])
    );
}

#[test]
fn a_failed_first_step_is_reported_and_the_second_is_not_run() {
    let state = selected();
    let mut store = Memory::new();
    assert_eq!(store.write(add_list(&state, s("l"), vec![s("a")], None)), Ok(()));
    assert_eq!(
        store.remove(&state, "l", 7),
        Err(CommandError::TransportError { step: 0, message: s("ERR index out of range") })
    );
    assert_eq!(store.read(&state, "l").unwrap().value, RedisItemValue::ListValue(vec![s("a")]));
}

#[test]
fn items_added_at_the_start_come_first() {
    let state = selected();
    let mut store = Memory::new();
    assert_eq!(store.write(add_list(&state, s("l"), vec![s("a"), s("b")], None)), Ok(()));
    assert_eq!(
        store.write(list_add_items(&state, s("l"), vec![s("c")], ListDirection::Start, None)),
        Ok(())
    );
    assert_eq!(
        store.read(&state, "l").unwrap().value,
        RedisItemValue::ListValue(vec![s("c"), s("a"), s("b")])
    );
}

#[test]
fn a_key_that_is_gone_cannot_be_read() {
    let state = selected();
    let mut store = Memory::new();
    assert_eq!(store.write(save_string(&state, s("k"), s("v"), None)), Ok(()));
    assert_eq!(store.write(delete_key(&state, s("k"))), Ok(()));
    assert_eq!(store.read(&state, "k"), Err(CommandError::KeyNotFound));
}

#[test]
fn the_keys_of_a_store_are_browsed_as_a_tree() {
    let state = selected();
    let mut store = Memory::new();
    assert_eq!(store.write(save_string(&state, s("user:1:name"), s("Ann"), None)), Ok(()));
    assert_eq!(store.write(add_list(&state, s("queue"), vec![s("job")], None)), Ok(()));
    assert_eq!(
        store.write(hash_add_items(&state, s("user:1"), vec![(s("f"), s("v"))], None)),
        Ok(())
    );
    let tree = store.browse(&state).unwrap();
    let labels: Vec<&str> = tree.iter().map(|node| node.label.as_str()).collect();
    assert_eq!(labels, vec!["user", "queue"]);
    let below = tree[0].children.as_ref().unwrap();
    assert_eq!(below.len(), 2);
    assert_eq!((below[0].label.as_str(), below[0].children.is_some()), ("1", true));
    assert_eq!((below[1].key.as_str(), below[1].item_type.as_str()), ("user:1", "hash"));
    assert_eq!(tree[1].item_type, "list");
    assert_eq!(store.browse(&AppState::new()), Err(CommandError::NoActiveConnection));
}

#[test]
fn a_list_element_is_removed_where_the_list_holds_the_placeholder() {
    let state = selected();
    let mut store = Memory::new();
    let items = vec![s("__MADIS_DELETED_VALUE_PLACEHOLDER__"), s("x"), s("y")];
    assert_eq!(store.write(add_list(&state, s("l"), items, None)), Ok(()));
    assert_eq!(store.remove(&state, "l", 1), Ok(()));
    assert_eq!(
        store.read(&state, "l").unwrap().value,
        RedisItemValue::ListValue(vec![s("__MADIS_DELETED_VALUE_PLACEHOLDER__"), s("y")])
    );
    assert_eq!(store.remove(&state, "l", 0), Ok(()));
    assert_eq!(store.read(&state, "l").unwrap().value, RedisItemValue::ListValue(vec![s("y")]));
}
