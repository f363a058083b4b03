use madis::commands::redis::add_list;
use madis::commands::redis::add_zset_items;
use madis::commands::redis::delete_key;
use madis::commands::redis::get_all_keys_as_tree;
use madis::commands::redis::get_hash;
use madis::commands::redis::get_key_type;
use madis::commands::redis::get_list;
use madis::commands::redis::get_set;
use madis::commands::redis::get_stream;
use madis::commands::redis::get_string;
use madis::commands::redis::get_zset;
use madis::commands::redis::hash_add_items;
use madis::commands::redis::hash_delete_field;
use madis::commands::redis::hash_update_field;
use madis::commands::redis::hash_update_value;
use madis::commands::redis::list_add_items;
use madis::commands::redis::list_update_value;
use madis::commands::redis::save_string;
use madis::commands::redis::search_keys_as_tree;
use madis::commands::redis::set_add_items;
use madis::commands::redis::set_delete_value;
use madis::commands::redis::set_update_value;
use madis::commands::redis::settle;
use madis::commands::redis::stream_add_items;
use madis::commands::redis::stream_delete_value;
use madis::commands::redis::update_ttl;
use madis::commands::redis::zset_add_items;
use madis::commands::redis::zset_delete_value;
use madis::commands::redis::zset_update_member;
use madis::commands::redis::zset_update_score;
use madis::models::command::Answer;
use madis::models::command::Command;
use madis::models::command::CommandError;
use madis::models::command::Mode;
use madis::models::command::Reply;
use madis::models::command::Request;
use madis::models::redis::ListDirection;
use madis::AppState;

fn s(text: &str) -> String {
    text.to_string()
}

fn selected() -> AppState {
    let mut state = AppState::new();
    assert_eq!(state.connect(s("main")), Ok(s("main")));
    state
}

fn request(mode: Mode, commands: Vec<Command>) -> Result<Request, CommandError> {
    Ok(Request { session: s("main"), mode, answer: Answer::Nothing, commands })
}

fn listing(pattern: &str) -> Result<Request, CommandError> {
    Ok(Request {
        session: s("main"),
        mode: Mode::Sequence,
        answer: Answer::Keys,
        commands: vec![Command::Keys { pattern: s(pattern) }],
    })
}

fn expire(seconds: i64) -> Command {
    Command::Expire { key: s("k"), seconds }
}

#[test]
fn nothing_is_sent_without_a_selected_session() {
    let state = AppState::new();
    let none = Err(CommandError::NoActiveConnection);
    assert_eq!(get_all_keys_as_tree(&state), none);
    assert_eq!(search_keys_as_tree(&state, s("x")), none);
    assert_eq!(delete_key(&state, s("k")), none);
    assert_eq!(add_list(&state, s("k"), vec![s("a")], None), none);
    assert_eq!(save_string(&state, s("k"), s("v"), Some(60)), none);
    assert_eq!(list_add_items(&state, s("k"), vec![], ListDirection::End, None), none);
    assert_eq!(list_update_value(&state, s("k"), 0, s("v")), none);
    assert_eq!(set_add_items(&state, s("k"), vec![], None), none);
    assert_eq!(set_update_value(&state, s("k"), s("a"), s("b")), none);
    assert_eq!(set_delete_value(&state, s("k"), s("a")), none);
    assert_eq!(hash_add_items(&state, s("k"), vec![], None), none);
    assert_eq!(hash_delete_field(&state, s("k"), s("f")), none);
    assert_eq!(hash_update_value(&state, s("k"), s("f"), s("v")), none);
    assert_eq!(hash_update_field(&state, s("k"), s("f"), s("g"), s("v")), none);
    assert_eq!(add_zset_items(&state, s("k"), vec![], None), none);
    assert_eq!(zset_add_items(&state, s("k"), vec![], true), none);
    assert_eq!(zset_delete_value(&state, s("k"), s("m")), none);
    assert_eq!(zset_update_score(&state, s("k"), s("m"), 0), none);
    assert_eq!(zset_update_member(&state, s("k"), s("m"), s("n"), 0), none);
    assert_eq!(stream_add_items(&state, s("k"), None, vec![], None), none);
    assert_eq!(stream_delete_value(&state, s("k"), s("1-0")), none);
    assert_eq!(update_ttl(&state, s("k"), 10), none);
}

#[test]
fn a_closed_selection_sends_nothing() {
    let mut state = selected();
    assert_eq!(state.disconnect("main"), Ok(()));
    assert_eq!(delete_key(&state, s("k")), Err(CommandError::NoActiveConnection));
}

#[test]
fn commands_go_to_the_selected_session() {
    let mut state = AppState::new();
    assert_eq!(state.connect(s("one")), Ok(s("one")));
    assert_eq!(state.connect(s("two")), Ok(s("two")));
    assert_eq!(delete_key(&state, s("k")).map(|r| r.session), Ok(s("two")));
    assert_eq!(state.select("one"), Ok(()));
    assert_eq!(delete_key(&state, s("k")).map(|r| r.session), Ok(s("one")));
}

#[test]
fn listing_asks_for_all_keys() {
    assert_eq!(get_all_keys_as_tree(&selected()), listing("*"));
}

#[test]
fn searching_asks_for_keys_that_hold_the_term() {
    assert_eq!(search_keys_as_tree(&selected(), s("user")), listing("*user*"));
    assert_eq!(search_keys_as_tree(&selected(), s("")), listing("**"));
}

#[test]
fn a_string_is_saved_with_a_positive_time_to_live() {
    let set = Command::SetString { key: s("k"), value: s("v") };
    assert_eq!(
        save_string(&selected(), s("k"), s("v"), Some(60)),
        request(Mode::Pipeline, vec![set.clone(), expire(60)])
    );
    assert_eq!(
        save_string(&selected(), s("k"), s("v"), Some(1)),
        request(Mode::Pipeline, vec![set.clone(), expire(1)])
    );
    assert_eq!(
        save_string(&selected(), s("k"), s("v"), None),
        request(Mode::Pipeline, vec![set.clone()])
    );
}

#[test]
fn a_time_to_live_that_is_not_positive_changes_nothing() {
    let set = Command::SetString { key: s("k"), value: s("v") };
    for ttl in [0, -1, -60, i64::MIN] {
        assert_eq!(
            save_string(&selected(), s("k"), s("v"), Some(ttl)),
            request(Mode::Pipeline, vec![set.clone()])
        );
    }
}

#[test]
fn a_list_is_added_at_its_end() {
    let push = Command::RPush { key: s("k"), items: vec![s("a"), s("b")] };
    assert_eq!(
        add_list(&selected(), s("k"), vec![s("a"), s("b")], Some(5)),
        request(Mode::Pipeline, vec![push.clone(), expire(5)])
    );
    assert_eq!(
        add_list(&selected(), s("k"), vec![s("a"), s("b")], Some(0)),
        request(Mode::Pipeline, vec![push])
    );
}

#[test]
fn items_are_added_at_either_end_of_a_list() {
    assert_eq!(
        list_add_items(&selected(), s("k"), vec![s("a")], ListDirection::Start, None),
        request(Mode::Pipeline, vec![Command::LPush { key: s("k"), items: vec![s("a")] }])
    );
    assert_eq!(
        list_add_items(&selected(), s("k"), vec![s("a")], ListDirection::End, Some(9)),
        request(
            Mode::Pipeline,
            vec![Command::RPush { key: s("k"), items: vec![s("a")] }, expire(9)]
        )
    );
}

#[test]
fn a_list_element_is_overwritten_in_place() {
    assert_eq!(
        list_update_value(&selected(), s("k"), 3, s("v")),
        request(Mode::Sequence, vec![Command::LSet { key: s("k"), index: 3, value: s("v") }])
    );
}

#[test]
fn set_members_are_added_replaced_and_removed() {
    assert_eq!(
        set_add_items(&selected(), s("k"), vec![s("a"), s("b")], Some(7)),
        request(
            Mode::Pipeline,
            vec![Command::SAdd { key: s("k"), members: vec![s("a"), s("b")] }, expire(7)]
        )
    );
    assert_eq!(
        set_update_value(&selected(), s("k"), s("old"), s("new")),
        request(
            Mode::Sequence,
            vec![
                Command::SRem { key: s("k"), member: s("old") },
                Command::SAdd { key: s("k"), members: vec![s("new")] },
            ]
        )
    );
    assert_eq!(
        set_delete_value(&selected(), s("k"), s("a")),
        request(Mode::Sequence, vec![Command::SRem { key: s("k"), member: s("a") }])
    );
}

#[test]
fn hash_fields_are_added_set_renamed_and_removed() {
    let items = vec![(s("f"), s("1")), (s("g"), s("2"))];
    assert_eq!(
        hash_add_items(&selected(), s("k"), items.clone(), Some(-5)),
        request(Mode::Pipeline, vec![Command::HSetMultiple { key: s("k"), items: items.clone() }])
    );
    assert_eq!(
        hash_add_items(&selected(), s("k"), items.clone(), Some(5)),
        request(
            Mode::Pipeline,
            vec![Command::HSetMultiple { key: s("k"), items }, expire(5)]
        )
    );
    assert_eq!(
        hash_update_value(&selected(), s("k"), s("f"), s("v")),
        request(Mode::Sequence, vec![Command::HSet { key: s("k"), field: s("f"), value: s("v") }])
    );
    assert_eq!(
        hash_update_field(&selected(), s("k"), s("f"), s("g"), s("v")),
        request(
            Mode::Sequence,
            vec![
                Command::HDel { key: s("k"), field: s("f") },
                Command::HSet { key: s("k"), field: s("g"), value: s("v") },
            ]
        )
    );
    assert_eq!(
        hash_delete_field(&selected(), s("k"), s("f")),
        request(Mode::Sequence, vec![Command::HDel { key: s("k"), field: s("f") }])
    );
}

#[test]
fn sorted_set_members_keep_their_scores_bit_by_bit() {
    let one = 1.5f64.to_bits();
    let two = (-0.25f64).to_bits();
    let items = vec![(one, s("a")), (two, s("b"))];
    assert_eq!(
        add_zset_items(&selected(), s("k"), items.clone(), Some(3)),
        request(
            Mode::Pipeline,
            vec![Command::ZAddMultiple { key: s("k"), items: items.clone() }, expire(3)]
        )
    );
    assert_eq!(
        zset_add_items(&selected(), s("k"), items.clone(), true),
        request(Mode::Sequence, vec![Command::ZAddMultiple { key: s("k"), items: items.clone() }])
    );
    assert_eq!(
        zset_add_items(&selected(), s("k"), items.clone(), false),
        request(Mode::Sequence, vec![Command::ZAddIfAbsent { key: s("k"), items }])
    );
    assert_eq!(
        zset_update_score(&selected(), s("k"), s("a"), two),
        request(Mode::Sequence, vec![Command::ZAdd { key: s("k"), member: s("a"), score: two }])
    );
    assert_eq!(
        zset_update_member(&selected(), s("k"), s("a"), s("b"), one),
        request(
            Mode::Sequence,
            vec![
                Command::ZRem { key: s("k"), member: s("a") },
                Command::ZAdd { key: s("k"), member: s("b"), score: one },
            ]
        )
    );
    assert_eq!(
        zset_delete_value(&selected(), s("k"), s("a")),
        request(Mode::Sequence, vec![Command::ZRem { key: s("k"), member: s("a") }])
    );
}

#[test]
fn a_stream_entry_without_an_id_gets_one_from_the_store() {
    let items = vec![(s("f"), s("v"))];
    assert_eq!(
        stream_add_items(&selected(), s("k"), None, items.clone(), None),
        request(
            Mode::Pipeline,
            vec![Command::XAdd { key: s("k"), id: s("*"), items: items.clone() }]
        )
    );
    assert_eq!(
        stream_add_items(&selected(), s("k"), Some(s("5-1")), items.clone(), Some(30)),
        request(
            Mode::Pipeline,
            vec![Command::XAdd { key: s("k"), id: s("5-1"), items }, expire(30)]
        )
    );
    assert_eq!(
        stream_delete_value(&selected(), s("k"), s("5-1")),
        request(Mode::Sequence, vec![Command::XDel { key: s("k"), id: s("5-1") }])
    );
}

#[test]
fn minus_one_clears_the_expiry() {
    assert_eq!(
        update_ttl(&selected(), s("k"), -1),
        request(Mode::Sequence, vec![Command::Persist { key: s("k") }])
    );
    assert_eq!(update_ttl(&selected(), s("k"), 60), request(Mode::Sequence, vec![expire(60)]));
    assert_eq!(update_ttl(&selected(), s("k"), 0), request(Mode::Sequence, vec![expire(0)]));
    assert_eq!(update_ttl(&selected(), s("k"), -2), request(Mode::Sequence, vec![expire(-2)]));
}

#[test]
fn a_key_is_deleted() {
    assert_eq!(
        delete_key(&selected(), s("k")),
        request(Mode::Sequence, vec![Command::Del { key: s("k") }])
    );
}

#[test]
fn whole_values_are_fetched() {
    assert_eq!(get_key_type(s("k")), Command::Type { key: s("k") });
    assert_eq!(get_string(s("k")), Command::Get { key: s("k") });
    assert_eq!(get_list(s("k")), Command::LRange { key: s("k"), start: 0, stop: -1 });
    assert_eq!(get_set(s("k")), Command::SMembers { key: s("k") });
    assert_eq!(get_hash(s("k")), Command::HGetAll { key: s("k") });
    assert_eq!(get_stream(s("k")), Command::XRange { key: s("k"), start: s("-"), end: s("+") });
    assert_eq!(
        get_zset(s("k")),
        Command::ZRangeWithScores { key: s("k"), start: 0, stop: -1 }
    );
}

#[test]
fn a_mutation_reports_the_step_that_failed() {
    assert_eq!(settle(Reply::Done), Ok(()));
    assert_eq!(
        settle(Reply::Failed { step: 1, message: s("READONLY") }),
        Err(CommandError::TransportError { step: 1, message: s("READONLY") })
    );
}

#[test]
fn failures_are_worded_by_kind() {
    assert_eq!(CommandError::NoActiveConnection.message(), "No client selected");
    assert_eq!(
        CommandError::UnsupportedType(s("ReJSON-RL")).message(),
        "Unsupported key type: ReJSON-RL"
    );
    assert_eq!(CommandError::KeyNotFound.message(), "Key not found");
    assert_eq!(
        CommandError::TransportError { step: 1, message: s("broken pipe") }.message(),
        "Transport error at step 1: broken pipe"
    );
    assert_eq!(
        CommandError::TransportError { step: 0, message: s("") }.message(),
        "Transport error at step 0: "
    );
    assert_eq!(
        CommandError::TransportError { step: 12, message: s("x") }.message(),
        "Transport error at step 12: x"
    );
}
