use trapperkeeper::crud;
use trapperkeeper::database;
use trapperkeeper::database::{Connection, Snapshot};
use trapperkeeper::models::{
    AuthToken, NewRuleFilterField, NewRuleFilterTrapp, RuleFilterField, RuleFilterTrapp,
    StoredRule, Trapp,
};
use trapperkeeper::schema::{FilterFieldRow, FilterTrappRow, RuleRow};

fn sound() -> Snapshot {
    Snapshot {
        trapps: vec![Trapp::new(1, "foo"), Trapp::new(3, "bar")],
        auth_tokens: vec![AuthToken::new("a", 3, "one"), AuthToken::new("b", 1, "two")],
        rules: vec![
            RuleRow { id: 1, name: String::from("r"), type_: 2 },
            RuleRow { id: 2, name: String::from("s"), type_: 1 },
        ],
        rules_filter_trapp: vec![FilterTrappRow { rule_id: 2, trapp_id: 9 }],
        rules_filter_field: vec![FilterFieldRow {
            rule_id: 1,
            field_key: String::from("k"),
            field_value: String::from("v"),
        }],
        last_trapp_id: 3,
        last_rule_id: 2,
    }
}

#[test]
fn snapshot_of_a_fresh_store_is_empty() {
    let conn = database::establish_connection().unwrap();
    assert_eq!(
        conn.snapshot(),
        Snapshot {
            trapps: vec![],
            auth_tokens: vec![],
            rules: vec![],
            rules_filter_trapp: vec![],
            rules_filter_field: vec![],
            last_trapp_id: 0,
            last_rule_id: 0,
        }
    );
}

#[test]
fn snapshot_holds_what_was_stored() {
    let mut conn = database::establish_connection().unwrap();
    crud::create_trapp(&mut conn, "foo").unwrap();
    crud::create_trapp(&mut conn, "gone").unwrap();
    crud::create_trapp(&mut conn, "bar").unwrap();
    crud::delete_trapp_by_id(&mut conn, &2).unwrap();
    crud::insert_auth_token(&mut conn, String::from("a"), &3, "one").unwrap();
    crud::insert_auth_token(&mut conn, String::from("b"), &1, "two").unwrap();
    crud::create_rule(&mut conn, NewRuleFilterField::new("r", "k", "v")).unwrap();
    crud::create_rule(&mut conn, NewRuleFilterTrapp::new("s", 9)).unwrap();
    assert_eq!(conn.snapshot(), sound());
}

#[test]
fn restored_store_goes_on_where_the_snapshot_was_taken() {
    let mut conn = Connection::restore(sound()).unwrap();
    assert_eq!(conn.snapshot(), sound());
    assert_eq!(crud::create_trapp(&mut conn, "next"), Ok(4));
    assert_eq!(
        crud::get_auth_token_by_id(&mut conn, "a").unwrap(),
        Some(AuthToken::new("a", 3, "one"))
    );
    assert_eq!(
        crud::get_rules(&mut conn).unwrap(),
        vec![
            StoredRule::FilterField(RuleFilterField::new(1, "r", "k", "v")),
            StoredRule::FilterTrapp(RuleFilterTrapp::new(2, "s", 9)),
        ]
    );
    assert_eq!(crud::create_rule(&mut conn, NewRuleFilterTrapp::new("t", 1)), Ok(3));
}

#[test]
fn snapshot_with_a_trapp_id_twice_is_not_restored() {
    let mut snapshot = sound();
    snapshot.trapps.push(Trapp::new(1, "again"));
    assert!(Connection::restore(snapshot).is_none());
}

#[test]
fn snapshot_with_a_trapp_id_the_counter_did_not_give_is_not_restored() {
    let mut snapshot = sound();
    snapshot.last_trapp_id = 2;
    assert!(Connection::restore(snapshot).is_none());
    let mut snapshot = sound();
    snapshot.trapps.push(Trapp::new(0, "zero"));
    assert!(Connection::restore(snapshot).is_none());
    let mut snapshot = sound();
    snapshot.last_trapp_id = -1;
    snapshot.trapps.clear();
    snapshot.auth_tokens.clear();
    assert!(Connection::restore(snapshot).is_none());
}

#[test]
fn snapshot_with_an_auth_token_id_twice_is_not_restored() {
    let mut snapshot = sound();
    snapshot.auth_tokens.push(AuthToken::new("a", 1, "again"));
    assert!(Connection::restore(snapshot).is_none());
}

#[test]
fn snapshot_with_an_auth_token_without_its_trapp_is_not_restored() {
    let mut snapshot = sound();
    snapshot.auth_tokens.push(AuthToken::new("c", 2, "orphan"));
    assert!(Connection::restore(snapshot).is_none());
}

#[test]
fn snapshot_with_a_rule_without_payload_is_not_restored() {
    let mut snapshot = sound();
    snapshot.rules_filter_trapp.clear();
    assert!(Connection::restore(snapshot).is_none());
    let mut snapshot = sound();
    snapshot.rules[1].type_ = 2;
    assert!(Connection::restore(snapshot).is_none());
}

#[test]
fn snapshot_with_an_unknown_discriminator_is_not_restored() {
    let mut snapshot = sound();
    snapshot.rules[0].type_ = 3;
    assert!(Connection::restore(snapshot).is_none());
}

#[test]
fn snapshot_with_a_payload_without_its_rule_is_not_restored() {
    let mut snapshot = sound();
    snapshot.rules_filter_trapp.push(FilterTrappRow { rule_id: 5, trapp_id: 1 });
    assert!(Connection::restore(snapshot).is_none());
    let mut snapshot = sound();
    snapshot.rules_filter_field.push(FilterFieldRow {
        rule_id: 5,
        field_key: String::from("k"),
        field_value: String::from("v"),
    });
    assert!(Connection::restore(snapshot).is_none());
}

#[test]
fn snapshot_with_two_payloads_of_one_rule_is_not_restored() {
    let mut snapshot = sound();
    snapshot.rules_filter_trapp.push(FilterTrappRow { rule_id: 2, trapp_id: 1 });
    assert!(Connection::restore(snapshot).is_none());
}

#[test]
fn snapshot_with_a_rule_id_twice_or_out_of_range_is_not_restored() {
    let mut snapshot = sound();
    snapshot.rules.push(RuleRow { id: 2, name: String::from("again"), type_: 1 });
    assert!(Connection::restore(snapshot).is_none());
    let mut snapshot = sound();
    snapshot.last_rule_id = 1;
    assert!(Connection::restore(snapshot).is_none());
}

#[test]
fn pool_takes_a_restored_connection() {
    let mut pool = database::Pool::builder().url("sqlite::memory:").pool_size(1).build().unwrap();
    let _fresh = pool.acquire().unwrap();
    pool.release(Connection::restore(sound()).unwrap());
    let mut conn = pool.acquire().unwrap();
    assert_eq!(crud::get_trapps(&mut conn).unwrap().len(), 2);
}

#[test]
fn store_without_an_id_left_refuses_to_create() {
    let mut snapshot = sound();
    snapshot.last_trapp_id = i64::MAX;
    snapshot.last_rule_id = i64::MAX;
    let mut conn = Connection::restore(snapshot).unwrap();
    assert_eq!(
        crud::create_trapp(&mut conn, "one too many"),
        Err(crud::Error::Database(database::Error::RowIdExhausted))
    );
    assert_eq!(
        crud::create_rule(&mut conn, NewRuleFilterTrapp::new("one too many", 1)),
        Err(crud::Error::Database(database::Error::RowIdExhausted))
    );
    assert_eq!(crud::get_trapps(&mut conn).unwrap().len(), 2);
    assert_eq!(crud::get_rules(&mut conn).unwrap().len(), 2);
}

#[test]
fn store_gives_out_its_last_id() {
    let mut snapshot = sound();
    snapshot.last_trapp_id = i64::MAX - 1;
    let mut conn = Connection::restore(snapshot).unwrap();
    assert_eq!(crud::create_trapp(&mut conn, "last"), Ok(i64::MAX));
    assert_eq!(
        crud::create_trapp(&mut conn, "one too many"),
        Err(crud::Error::Database(database::Error::RowIdExhausted))
    );
}
