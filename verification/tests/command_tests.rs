use rudis::command::lpush::{reversed, LpushCommand};
use rudis::command::set::SetCommand;
use rudis::command::zadd::ZaddCommand;
use rudis::command::{
    arity_error, check_count, collect_every_other, find_option, read_expiration, refuse,
    resolve, uppercased, CommandStrategy, CommandType, Outcome, Target,
};
use rudis::config::RudisConfig;
use rudis::resp::RespValue;
use rudis::session::SessionRegistry;
use rudis::store::Db;

fn wire(parts: &[&str]) -> Vec<String> {
    let mut f = vec![format!("*{}", parts.len())];
    for p in parts {
        f.push(format!("${}", p.len()));
        f.push(p.to_string());
    }
    f
}

fn texts(items: &[&str]) -> Vec<String> {
    items.iter().map(|s| s.to_string()).collect()
}

fn settings() -> RudisConfig {
    RudisConfig { appendonly: false, appendfilename: None, dir: String::new(), databases: 16 }
}

fn expiration(parts: &[&str], now: i64) -> Result<Option<i64>, String> {
    let f = wire(parts);
    read_expiration(&f, &uppercased(&f), now)
}

fn one_session() -> SessionRegistry {
    let mut r = SessionRegistry::new();
    r.connect("c1");
    r
}

fn wrong_type() -> Outcome {
    Outcome::Replied(RespValue::Error(
        "WRONGTYPE Operation against a key holding the wrong kind of value".to_string(),
    ))
}

#[test]
fn wire_fragments_put_the_name_at_two_and_arguments_at_even_places() {
    let f = wire(&["SET", "k", "v"]);
    assert_eq!(f, texts(&["*3", "$3", "SET", "$1", "k", "$1", "v"]));
}

#[test]
fn resolve_finds_the_selected_database() {
    let db = Db::new(4);
    let mut r = one_session();
    assert_eq!(resolve(&db, &r, "c1"), Target::Database(0));
    assert!(r.select_database("c1", 3));
    assert_eq!(resolve(&db, &r, "c1"), Target::Database(3));
    assert!(r.select_database("c1", 4));
    assert_eq!(resolve(&db, &r, "c1"), Target::OutOfRange);
    assert_eq!(resolve(&db, &r, "c2"), Target::Missing);
}

#[test]
fn arity_error_names_the_command() {
    assert_eq!(
        arity_error("set"),
        RespValue::Error("ERR wrong number of arguments for 'set' command".to_string())
    );
}

#[test]
fn find_option_skips_the_key_and_the_value() {
    assert!(find_option(&uppercased(&wire(&["SET", "k", "v", "nx"])), "NX"));
    assert!(!find_option(&uppercased(&wire(&["SET", "NX", "v"])), "NX"));
    assert!(!find_option(&uppercased(&wire(&["SET", "k", "NX"])), "NX"));
    assert!(!find_option(&uppercased(&wire(&["SET", "k", "v", "XX"])), "NX"));
    assert!(find_option(&uppercased(&wire(&["SET", "NX", "NX", "NX"])), "NX"));
}

#[test]
fn read_expiration_without_a_unit_is_none() {
    assert_eq!(expiration(&["SET", "k", "v"], 5), Ok(None));
    assert_eq!(expiration(&["SET", "EX", "PX"], 5), Ok(None));
    assert_eq!(expiration(&["SET"], 5), Ok(None));
}

#[test]
fn read_expiration_adds_seconds_or_milliseconds_to_now() {
    assert_eq!(expiration(&["SET", "k", "v", "EX", "10"], 1_000_000), Ok(Some(1_010_000)));
    assert_eq!(expiration(&["SET", "k", "v", "PX", "10"], 1_000_000), Ok(Some(1_000_010)));
    assert_eq!(expiration(&["SET", "k", "v", "ex", "1"], 0), Ok(Some(1000)));
    assert_eq!(expiration(&["SET", "k", "v", "px", "-5"], 100), Ok(Some(95)));
    assert_eq!(expiration(&["SET", "k", "v", "NX", "EX", "2"], 1), Ok(Some(2001)));
}

#[test]
fn read_expiration_honours_the_last_unit() {
    assert_eq!(expiration(&["SET", "k", "v", "EX", "10", "PX", "7"], 100), Ok(Some(107)));
    assert_eq!(expiration(&["SET", "k", "v", "PX", "7", "EX", "10"], 100), Ok(Some(10_100)));
}

#[test]
fn read_expiration_refuses_a_missing_amount() {
    assert_eq!(expiration(&["SET", "k", "v", "EX"], 1), Err("ERR syntax error".to_string()));
    let mut f = wire(&["SET", "k", "v", "EX"]);
    f.push("$2".to_string());
    assert_eq!(read_expiration(&f, &uppercased(&f), 1), Err("ERR syntax error".to_string()));
}

#[test]
fn read_expiration_refuses_an_amount_that_is_no_integer() {
    let expected = Err("ERR value is not an integer or out of range".to_string());
    assert_eq!(expiration(&["SET", "k", "v", "EX", "ten"], 1), expected);
    assert_eq!(expiration(&["SET", "k", "v", "PX", ""], 1), expected);
    assert_eq!(expiration(&["SET", "k", "v", "PX", "1.5"], 1), expected);
}

#[test]
fn read_expiration_refuses_a_moment_out_of_range() {
    let expected = Err("ERR value is not an integer or out of range".to_string());
    assert_eq!(expiration(&["SET", "k", "v", "PX", "1"], i64::MAX), expected);
    assert_eq!(expiration(&["SET", "k", "v", "EX", "9223372036854775807"], 0), expected);
    assert_eq!(expiration(&["SET", "k", "v", "PX", "-1"], i64::MIN), expected);
    assert_eq!(
        expiration(&["SET", "k", "v", "PX", "9223372036854775807"], 0),
        Ok(Some(i64::MAX))
    );
    assert_eq!(
        expiration(&["SET", "k", "v", "EX", "9223372036854775"], 807),
        Ok(Some(i64::MAX))
    );
}

#[test]
fn collect_every_other_takes_each_second_fragment() {
    let f = wire(&["LPUSH", "k", "a", "b", "c"]);
    assert_eq!(collect_every_other(&f, 6), texts(&["a", "b", "c"]));
    let mut g = f.clone();
    g.push(String::new());
    assert_eq!(collect_every_other(&g, 6), texts(&["a", "b", "c"]));
    assert_eq!(collect_every_other(&f, 10), texts(&["c"]));
    assert_eq!(collect_every_other(&f, 11), Vec::<String>::new());
    assert_eq!(collect_every_other(&f, 12), Vec::<String>::new());
    assert_eq!(collect_every_other(&f, usize::MAX), Vec::<String>::new());
}

#[test]
fn reversed_turns_the_order_round() {
    assert_eq!(reversed(&texts(&["a", "b", "c"])), texts(&["c", "b", "a"]));
    assert_eq!(reversed(&Vec::new()), Vec::<String>::new());
}

#[test]
fn all_three_commands_are_writes() {
    assert_eq!(SetCommand {}.command_type(), CommandType::Write);
    assert_eq!(LpushCommand {}.command_type(), CommandType::Write);
    assert_eq!(ZaddCommand {}.command_type(), CommandType::Write);
}

#[test]
fn set_stores_the_value_without_expiration() {
    let mut db = Db::new(1);
    let r = one_session();
    let out = SetCommand {}.execute(&wire(&["SET", "k", "v"]), &mut db, &settings(), &r, "c1", 1000);
    assert_eq!(out, Outcome::Replied(RespValue::Okay));
    assert_eq!(db.get_scalar(0, "k"), Ok(Some("v".to_string())));
    assert_eq!(db.expiration(0, "k"), None);
}

#[test]
fn set_overwrites_and_clears_the_expiration() {
    let mut db = Db::new(1);
    let r = one_session();
    SetCommand {}.execute(&wire(&["SET", "k", "v", "EX", "10"]), &mut db, &settings(), &r, "c1", 0);
    let out = SetCommand {}.execute(&wire(&["SET", "k", "w"]), &mut db, &settings(), &r, "c1", 1);
    assert_eq!(out, Outcome::Replied(RespValue::Okay));
    assert_eq!(db.get_scalar(0, "k"), Ok(Some("w".to_string())));
    assert_eq!(db.expiration(0, "k"), None);
}

#[test]
fn set_without_key_or_value_is_an_arity_error() {
    let mut db = Db::new(1);
    let r = one_session();
    let expected = Outcome::Replied(RespValue::Error(
        "ERR wrong number of arguments for 'set' command".to_string(),
    ));
    assert_eq!(SetCommand {}.execute(&wire(&["SET"]), &mut db, &settings(), &r, "c1", 0), expected);
    assert_eq!(SetCommand {}.execute(&wire(&["SET", "k"]), &mut db, &settings(), &r, "c1", 0), expected);
    assert_eq!(SetCommand {}.execute(&Vec::new(), &mut db, &settings(), &r, "c1", 0), expected);
    assert!(!db.key_exists(0, "k"));
}

#[test]
fn set_nx_on_existing_key_replies_null_and_mutates_nothing() {
    let mut db = Db::new(1);
    let r = one_session();
    db.set(0, "k".to_string(), "old".to_string(), Some(5000));
    let out = SetCommand {}.execute(&wire(&["SET", "k", "v", "NX"]), &mut db, &settings(), &r, "c1", 1000);
    assert_eq!(out, Outcome::Replied(RespValue::Null));
    assert_eq!(db.get_scalar(0, "k"), Ok(Some("old".to_string())));
    assert_eq!(db.expiration(0, "k"), Some(5000));
}

#[test]
fn set_xx_on_missing_key_replies_null_and_mutates_nothing() {
    let mut db = Db::new(1);
    let r = one_session();
    let out = SetCommand {}.execute(&wire(&["SET", "k", "v", "XX"]), &mut db, &settings(), &r, "c1", 1000);
    assert_eq!(out, Outcome::Replied(RespValue::Null));
    assert!(!db.key_exists(0, "k"));
}

#[test]
fn set_nx_on_missing_key_succeeds() {
    let mut db = Db::new(1);
    let r = one_session();
    let out = SetCommand {}.execute(&wire(&["SET", "k", "v", "NX"]), &mut db, &settings(), &r, "c1", 1000);
    assert_eq!(out, Outcome::Replied(RespValue::Okay));
    assert_eq!(db.get_scalar(0, "k"), Ok(Some("v".to_string())));
}

#[test]
fn set_xx_on_existing_key_succeeds() {
    let mut db = Db::new(1);
    let r = one_session();
    db.set(0, "k".to_string(), "old".to_string(), None);
    let out = SetCommand {}.execute(&wire(&["SET", "k", "v", "xx"]), &mut db, &settings(), &r, "c1", 1000);
    assert_eq!(out, Outcome::Replied(RespValue::Okay));
    assert_eq!(db.get_scalar(0, "k"), Ok(Some("v".to_string())));
}

#[test]
fn set_nx_sees_an_expired_key_as_absent() {
    let mut db = Db::new(1);
    let r = one_session();
    db.set(0, "k".to_string(), "old".to_string(), Some(500));
    let out = SetCommand {}.execute(&wire(&["SET", "k", "v", "NX"]), &mut db, &settings(), &r, "c1", 1000);
    assert_eq!(out, Outcome::Replied(RespValue::Okay));
    assert_eq!(db.get_scalar(0, "k"), Ok(Some("v".to_string())));
    assert_eq!(db.expiration(0, "k"), None);
}

#[test]
fn set_xx_sees_an_expired_key_as_absent() {
    let mut db = Db::new(1);
    let r = one_session();
    db.set(0, "k".to_string(), "old".to_string(), Some(500));
    let out = SetCommand {}.execute(&wire(&["SET", "k", "v", "XX"]), &mut db, &settings(), &r, "c1", 500);
    assert_eq!(out, Outcome::Replied(RespValue::Null));
    assert!(!db.key_exists(0, "k"));
}

#[test]
fn set_with_key_or_value_named_like_an_option() {
    let mut db = Db::new(1);
    let r = one_session();
    db.set(0, "NX".to_string(), "old".to_string(), None);
    let out = SetCommand {}.execute(&wire(&["SET", "NX", "XX"]), &mut db, &settings(), &r, "c1", 0);
    assert_eq!(out, Outcome::Replied(RespValue::Okay));
    assert_eq!(db.get_scalar(0, "NX"), Ok(Some("XX".to_string())));
}

#[test]
fn set_ex_ten_expires_ten_thousand_milliseconds_after_now() {
    let mut db = Db::new(1);
    let r = one_session();
    let now = 1_700_000_000_000;
    let out = SetCommand {}.execute(&wire(&["SET", "k", "v", "EX", "10"]), &mut db, &settings(), &r, "c1", now);
    assert_eq!(out, Outcome::Replied(RespValue::Okay));
    assert_eq!(db.expiration(0, "k"), Some(now + 10000));
}

#[test]
fn set_px_ten_expires_ten_milliseconds_after_now() {
    let mut db = Db::new(1);
    let r = one_session();
    let now = 1_700_000_000_000;
    let out = SetCommand {}.execute(&wire(&["SET", "k", "v", "PX", "10"]), &mut db, &settings(), &r, "c1", now);
    assert_eq!(out, Outcome::Replied(RespValue::Okay));
    assert_eq!(db.expiration(0, "k"), Some(now + 10));
}

#[test]
fn set_with_unreadable_time_to_live_mutates_nothing() {
    let mut db = Db::new(1);
    let r = one_session();
    db.set(0, "k".to_string(), "old".to_string(), Some(1));
    let out = SetCommand {}.execute(&wire(&["SET", "k", "v", "EX", "soon"]), &mut db, &settings(), &r, "c1", 100);
    assert_eq!(
        out,
        Outcome::Replied(RespValue::Error("ERR value is not an integer or out of range".to_string()))
    );
    assert_eq!(db.get_scalar(0, "k"), Ok(Some("old".to_string())));
    let out = SetCommand {}.execute(&wire(&["SET", "k", "v", "EX"]), &mut db, &settings(), &r, "c1", 100);
    assert_eq!(out, Outcome::Replied(RespValue::Error("ERR syntax error".to_string())));
    assert_eq!(db.get_scalar(0, "k"), Ok(Some("old".to_string())));
    assert_eq!(db.expiration(0, "k"), Some(1));
}

#[test]
fn lpush_a_b_c_on_empty_list_yields_c_b_a() {
    let mut db = Db::new(1);
    let r = one_session();
    let out = LpushCommand {}.execute(&wire(&["LPUSH", "k", "a", "b", "c"]), &mut db, &settings(), &r, "c1", 0);
    assert_eq!(out, Outcome::Replied(RespValue::Integer(3)));
    assert_eq!(db.list_items(0, "k"), Ok(texts(&["c", "b", "a"])));
}

#[test]
fn lpush_puts_new_values_before_the_old() {
    let mut db = Db::new(1);
    let r = one_session();
    LpushCommand {}.execute(&wire(&["LPUSH", "k", "a", "b"]), &mut db, &settings(), &r, "c1", 0);
    let out = LpushCommand {}.execute(&wire(&["LPUSH", "k", "c", "d"]), &mut db, &settings(), &r, "c1", 0);
    assert_eq!(out, Outcome::Replied(RespValue::Integer(4)));
    assert_eq!(db.list_items(0, "k"), Ok(texts(&["d", "c", "b", "a"])));
}

#[test]
fn lpush_ignores_a_trailing_empty_fragment() {
    let mut db = Db::new(1);
    let r = one_session();
    let mut f = wire(&["LPUSH", "k", "a", "b"]);
    f.push(String::new());
    let out = LpushCommand {}.execute(&f, &mut db, &settings(), &r, "c1", 0);
    assert_eq!(out, Outcome::Replied(RespValue::Integer(2)));
    assert_eq!(db.list_items(0, "k"), Ok(texts(&["b", "a"])));
}

#[test]
fn lpush_without_a_value_is_an_arity_error() {
    let mut db = Db::new(1);
    let r = one_session();
    let expected = Outcome::Replied(RespValue::Error(
        "ERR wrong number of arguments for 'lpush' command".to_string(),
    ));
    assert_eq!(LpushCommand {}.execute(&wire(&["LPUSH", "k"]), &mut db, &settings(), &r, "c1", 0), expected);
    assert_eq!(LpushCommand {}.execute(&wire(&["LPUSH"]), &mut db, &settings(), &r, "c1", 0), expected);
    assert!(!db.key_exists(0, "k"));
}

#[test]
fn lpush_on_a_text_is_a_wrong_type_and_mutates_nothing() {
    let mut db = Db::new(1);
    let r = one_session();
    db.set(0, "k".to_string(), "v".to_string(), None);
    let out = LpushCommand {}.execute(&wire(&["LPUSH", "k", "a"]), &mut db, &settings(), &r, "c1", 0);
    assert_eq!(out, wrong_type());
    assert_eq!(db.get_scalar(0, "k"), Ok(Some("v".to_string())));
}

#[test]
fn lpush_sees_an_expired_key_as_absent() {
    let mut db = Db::new(1);
    let r = one_session();
    db.set(0, "k".to_string(), "v".to_string(), Some(10));
    let out = LpushCommand {}.execute(&wire(&["LPUSH", "k", "a"]), &mut db, &settings(), &r, "c1", 10);
    assert_eq!(out, Outcome::Replied(RespValue::Integer(1)));
    assert_eq!(db.list_items(0, "k"), Ok(texts(&["a"])));
    assert_eq!(db.expiration(0, "k"), None);
}

#[test]
fn zadd_first_replies_one_then_zero_and_score_is_updated() {
    let mut db = Db::new(1);
    let r = one_session();
    let out = ZaddCommand {}.execute(&wire(&["ZADD", "k", "1", "m"]), &mut db, &settings(), &r, "c1", 0);
    assert_eq!(out, Outcome::Replied(RespValue::Integer(1)));
    let out = ZaddCommand {}.execute(&wire(&["ZADD", "k", "2", "m"]), &mut db, &settings(), &r, "c1", 0);
    assert_eq!(out, Outcome::Replied(RespValue::Integer(0)));
    assert_eq!(db.sorted_set_score(0, "k", "m"), Ok(Some(2)));
}

#[test]
fn zadd_on_a_scalar_is_a_wrong_type_and_leaves_the_value() {
    let mut db = Db::new(1);
    let r = one_session();
    db.set(0, "k".to_string(), "v".to_string(), Some(900));
    let out = ZaddCommand {}.execute(&wire(&["ZADD", "k", "1", "m"]), &mut db, &settings(), &r, "c1", 0);
    assert_eq!(out, wrong_type());
    assert_eq!(db.get_scalar(0, "k"), Ok(Some("v".to_string())));
    assert_eq!(db.expiration(0, "k"), Some(900));
}

#[test]
fn zadd_with_too_few_arguments_is_an_arity_error() {
    let mut db = Db::new(1);
    let r = one_session();
    let expected = Outcome::Replied(RespValue::Error(
        "ERR wrong number of arguments for 'zadd' command".to_string(),
    ));
    assert_eq!(ZaddCommand {}.execute(&wire(&["ZADD", "k", "1"]), &mut db, &settings(), &r, "c1", 0), expected);
    assert_eq!(ZaddCommand {}.execute(&wire(&["ZADD", "k"]), &mut db, &settings(), &r, "c1", 0), expected);
    assert!(!db.key_exists(0, "k"));
}

#[test]
fn zadd_with_a_score_that_is_no_number_mutates_nothing() {
    let mut db = Db::new(1);
    let r = one_session();
    let expected = Outcome::Replied(RespValue::Error(
        "ERR value is not an integer or out of range".to_string(),
    ));
    assert_eq!(ZaddCommand {}.execute(&wire(&["ZADD", "k", "x", "m"]), &mut db, &settings(), &r, "c1", 0), expected);
    assert_eq!(ZaddCommand {}.execute(&wire(&["ZADD", "k", "-1", "m"]), &mut db, &settings(), &r, "c1", 0), expected);
    assert!(!db.key_exists(0, "k"));
}

#[test]
fn zadd_does_not_expire_a_key_when_the_score_is_unreadable() {
    let mut db = Db::new(1);
    let r = one_session();
    db.set(0, "k".to_string(), "v".to_string(), Some(1));
    ZaddCommand {}.execute(&wire(&["ZADD", "k", "x", "m"]), &mut db, &settings(), &r, "c1", 100);
    assert!(db.key_exists(0, "k"));
}

#[test]
fn zadd_sees_an_expired_key_as_absent() {
    let mut db = Db::new(1);
    let r = one_session();
    db.set(0, "k".to_string(), "v".to_string(), Some(1));
    let out = ZaddCommand {}.execute(&wire(&["ZADD", "k", "4", "m"]), &mut db, &settings(), &r, "c1", 100);
    assert_eq!(out, Outcome::Replied(RespValue::Integer(1)));
    assert_eq!(db.sorted_set_score(0, "k", "m"), Ok(Some(4)));
}

#[test]
fn commands_with_unknown_session_do_nothing() {
    let mut db = Db::new(1);
    let r = one_session();
    assert_eq!(
        SetCommand {}.execute(&wire(&["SET", "k", "v"]), &mut db, &settings(), &r, "nobody", 0),
        Outcome::SessionMissing
    );
    assert_eq!(
        LpushCommand {}.execute(&wire(&["LPUSH", "k", "v"]), &mut db, &settings(), &r, "nobody", 0),
        Outcome::SessionMissing
    );
    assert_eq!(
        ZaddCommand {}.execute(&wire(&["ZADD", "k", "1", "m"]), &mut db, &settings(), &r, "nobody", 0),
        Outcome::SessionMissing
    );
    assert!(!db.key_exists(0, "k"));
}

#[test]
fn commands_with_unknown_session_do_not_even_expire() {
    let mut db = Db::new(1);
    let r = one_session();
    db.set(0, "k".to_string(), "v".to_string(), Some(1));
    SetCommand {}.execute(&wire(&["SET", "k", "w"]), &mut db, &settings(), &r, "nobody", 100);
    assert_eq!(db.get_scalar(0, "k"), Ok(Some("v".to_string())));
}

#[test]
fn commands_work_on_the_database_selected_at_execution() {
    let mut db = Db::new(3);
    let mut r = one_session();
    SetCommand {}.execute(&wire(&["SET", "k", "zero"]), &mut db, &settings(), &r, "c1", 0);
    assert!(r.select_database("c1", 2));
    SetCommand {}.execute(&wire(&["SET", "k", "two"]), &mut db, &settings(), &r, "c1", 0);
    assert_eq!(db.get_scalar(0, "k"), Ok(Some("zero".to_string())));
    assert_eq!(db.get_scalar(1, "k"), Ok(None));
    assert_eq!(db.get_scalar(2, "k"), Ok(Some("two".to_string())));
}

#[test]
fn commands_with_a_database_out_of_range_reply_an_error() {
    let mut db = Db::new(2);
    let mut r = one_session();
    assert!(r.select_database("c1", 2));
    let expected = Outcome::Replied(RespValue::Error("ERR DB index is out of range".to_string()));
    assert_eq!(SetCommand {}.execute(&wire(&["SET", "k", "v"]), &mut db, &settings(), &r, "c1", 0), expected);
    assert_eq!(LpushCommand {}.execute(&wire(&["LPUSH", "k", "v"]), &mut db, &settings(), &r, "c1", 0), expected);
    assert_eq!(ZaddCommand {}.execute(&wire(&["ZADD", "k", "1", "m"]), &mut db, &settings(), &r, "c1", 0), expected);
    assert!(!db.key_exists(0, "k"));
    assert!(!db.key_exists(1, "k"));
}

#[test]
fn reply_bytes_is_the_one_encoded_reply_or_nothing() {
    assert_eq!(Outcome::Replied(RespValue::Integer(3)).reply_bytes(), Some(b":3\r\n".to_vec()));
    assert_eq!(Outcome::Replied(RespValue::Null).reply_bytes(), Some(b"$-1\r\n".to_vec()));
    assert_eq!(Outcome::SessionMissing.reply_bytes(), None);
    assert_eq!(Outcome::UnknownCommand.reply_bytes(), None);
}

#[test]
fn uppercased_maps_every_fragment() {
    assert_eq!(uppercased(&texts(&["*3", "$3", "set", "k", "Nx"])), texts(&["*3", "$3", "SET", "K", "NX"]));
    assert_eq!(uppercased(&Vec::new()), Vec::<String>::new());
}

#[test]
fn uppercased_uses_the_unicode_case_mapping() {
    assert_eq!(uppercased(&texts(&["\u{17f}et", "stra\u{df}e"])), texts(&["SET", "STRASSE"]));
}

#[test]
fn find_option_looks_at_the_forms_it_is_given() {
    assert!(!find_option(&wire(&["SET", "k", "v", "nx"]), "NX"));
    assert!(find_option(&wire(&["SET", "k", "v", "NX"]), "NX"));
}

#[test]
fn read_expiration_takes_units_from_the_upper_case_forms() {
    let f = wire(&["SET", "k", "v", "ex", "10"]);
    assert_eq!(read_expiration(&f, &f, 0), Ok(None));
    assert_eq!(read_expiration(&f, &uppercased(&f), 0), Ok(Some(10_000)));
    assert_eq!(read_expiration(&f, &Vec::new(), 0), Ok(None));
    assert_eq!(read_expiration(&Vec::new(), &uppercased(&f), 0), Err("ERR syntax error".to_string()));
}

#[test]
fn run_works_on_the_given_database() {
    let mut db = Db::new(3);
    let f = wire(&["SET", "k", "v", "px", "5"]);
    let reply = SetCommand {}.run(&f, &uppercased(&f), &mut db, 2, 100);
    assert_eq!(reply, RespValue::Okay);
    assert_eq!(db.get_scalar(2, "k"), Ok(Some("v".to_string())));
    assert_eq!(db.expiration(2, "k"), Some(105));
    assert!(!db.key_exists(0, "k"));
    let g = wire(&["LPUSH", "l", "a", "b"]);
    assert_eq!(LpushCommand {}.run(&g, &uppercased(&g), &mut db, 1, 0), RespValue::Integer(2));
    assert_eq!(db.list_items(1, "l"), Ok(texts(&["b", "a"])));
    let h = wire(&["ZADD", "z", "9", "m"]);
    assert_eq!(ZaddCommand {}.run(&h, &uppercased(&h), &mut db, 0, 0), RespValue::Integer(1));
    assert_eq!(db.sorted_set_score(0, "z", "m"), Ok(Some(9)));
}

#[test]
fn set_reads_options_in_any_letter_case() {
    let mut db = Db::new(1);
    let r = one_session();
    db.set(0, "k".to_string(), "old".to_string(), None);
    let out = SetCommand {}.execute(&wire(&["SET", "k", "v", "nX"]), &mut db, &settings(), &r, "c1", 0);
    assert_eq!(out, Outcome::Replied(RespValue::Null));
    let out = SetCommand {}.execute(&wire(&["SET", "k", "v", "Xx", "eX", "3"]), &mut db, &settings(), &r, "c1", 7);
    assert_eq!(out, Outcome::Replied(RespValue::Okay));
    assert_eq!(db.expiration(0, "k"), Some(3007));
}

#[test]
fn check_count_reports_a_request_that_is_too_short() {
    let f = wire(&["SET", "k"]);
    assert_eq!(f.len(), 5);
    assert_eq!(check_count("set", 5, &f), None);
    assert_eq!(check_count("set", 0, &f), None);
    assert_eq!(
        check_count("set", 6, &f),
        Some(RespValue::Error("ERR wrong number of arguments for 'set' command".to_string()))
    );
    assert_eq!(
        check_count("zadd", 9, &Vec::new()),
        Some(RespValue::Error("ERR wrong number of arguments for 'zadd' command".to_string()))
    );
}

#[test]
fn check_arguments_counts_what_each_command_needs() {
    assert_eq!(SetCommand {}.check_arguments(&wire(&["SET", "k", "v"])), None);
    assert_eq!(LpushCommand {}.check_arguments(&wire(&["LPUSH", "k", "v"])), None);
    assert_eq!(ZaddCommand {}.check_arguments(&wire(&["ZADD", "k", "1", "m"])), None);
    assert_eq!(
        SetCommand {}.check_arguments(&wire(&["SET", "k"])),
        Some(RespValue::Error("ERR wrong number of arguments for 'set' command".to_string()))
    );
    assert_eq!(
        LpushCommand {}.check_arguments(&wire(&["LPUSH", "k"])),
        Some(RespValue::Error("ERR wrong number of arguments for 'lpush' command".to_string()))
    );
    assert_eq!(
        ZaddCommand {}.check_arguments(&wire(&["ZADD", "k", "1"])),
        Some(RespValue::Error("ERR wrong number of arguments for 'zadd' command".to_string()))
    );
}

#[test]
fn refuse_prefers_the_reply_for_lacking_arguments() {
    assert_eq!(refuse(None), RespValue::Error("ERR DB index is out of range".to_string()));
    assert_eq!(refuse(Some(RespValue::Error("ERR x".to_string()))), RespValue::Error("ERR x".to_string()));
}

#[test]
fn argument_count_decides_before_the_database_range() {
    let mut db = Db::new(2);
    let mut r = one_session();
    assert!(r.select_database("c1", 2));
    assert_eq!(
        SetCommand {}.execute(&wire(&["SET", "k"]), &mut db, &settings(), &r, "c1", 0),
        Outcome::Replied(RespValue::Error("ERR wrong number of arguments for 'set' command".to_string()))
    );
    assert_eq!(
        SetCommand {}.execute(&wire(&["SET"]), &mut db, &settings(), &r, "c1", 0),
        Outcome::Replied(RespValue::Error("ERR wrong number of arguments for 'set' command".to_string()))
    );
    assert_eq!(
        LpushCommand {}.execute(&wire(&["LPUSH", "k"]), &mut db, &settings(), &r, "c1", 0),
        Outcome::Replied(RespValue::Error("ERR wrong number of arguments for 'lpush' command".to_string()))
    );
    assert_eq!(
        ZaddCommand {}.execute(&wire(&["ZADD", "k", "1"]), &mut db, &settings(), &r, "c1", 0),
        Outcome::Replied(RespValue::Error("ERR wrong number of arguments for 'zadd' command".to_string()))
    );
    assert_eq!(
        SetCommand {}.execute(&wire(&["SET", "k"]), &mut db, &settings(), &r, "nobody", 0),
        Outcome::SessionMissing
    );
    assert!(!db.key_exists(0, "k"));
    assert!(!db.key_exists(1, "k"));
}

#[test]
fn set_nx_on_existing_key_replies_null_before_the_time_to_live_is_read() {
    let mut db = Db::new(1);
    let r = one_session();
    db.set(0, "k".to_string(), "old".to_string(), Some(5000));
    let out = SetCommand {}.execute(&wire(&["SET", "k", "new", "NX", "EX", "abc"]), &mut db, &settings(), &r, "c1", 100);
    assert_eq!(out, Outcome::Replied(RespValue::Null));
    let out = SetCommand {}.execute(&wire(&["SET", "k", "new", "NX", "EX"]), &mut db, &settings(), &r, "c1", 100);
    assert_eq!(out, Outcome::Replied(RespValue::Null));
    assert_eq!(db.get_scalar(0, "k"), Ok(Some("old".to_string())));
    assert_eq!(db.expiration(0, "k"), Some(5000));
}

#[test]
fn set_xx_on_missing_key_replies_null_before_the_time_to_live_is_read() {
    let mut db = Db::new(1);
    let r = one_session();
    let out = SetCommand {}.execute(&wire(&["SET", "k", "new", "XX", "PX", "abc"]), &mut db, &settings(), &r, "c1", 100);
    assert_eq!(out, Outcome::Replied(RespValue::Null));
    assert!(!db.key_exists(0, "k"));
}

#[test]
fn set_reads_the_time_to_live_once_nx_and_xx_let_it_through() {
    let mut db = Db::new(1);
    let r = one_session();
    let expected = Outcome::Replied(RespValue::Error(
        "ERR value is not an integer or out of range".to_string(),
    ));
    let out = SetCommand {}.execute(&wire(&["SET", "k", "new", "NX", "EX", "abc"]), &mut db, &settings(), &r, "c1", 100);
    assert_eq!(out, expected);
    assert!(!db.key_exists(0, "k"));
    db.set(0, "k".to_string(), "old".to_string(), None);
    let out = SetCommand {}.execute(&wire(&["SET", "k", "new", "XX", "EX", "abc"]), &mut db, &settings(), &r, "c1", 100);
    assert_eq!(out, expected);
    assert_eq!(db.get_scalar(0, "k"), Ok(Some("old".to_string())));
}

#[test]
fn set_with_unreadable_time_to_live_leaves_a_due_key_unchecked() {
    let mut db = Db::new(1);
    let r = one_session();
    db.set(0, "k".to_string(), "old".to_string(), Some(1));
    let out = SetCommand {}.execute(&wire(&["SET", "k", "new", "NX", "EX", "abc"]), &mut db, &settings(), &r, "c1", 100);
    assert_eq!(
        out,
        Outcome::Replied(RespValue::Error("ERR value is not an integer or out of range".to_string()))
    );
    assert!(db.key_exists(0, "k"));
    assert_eq!(db.expiration(0, "k"), Some(1));
}
