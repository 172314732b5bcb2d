use trapperkeeper::config;
use trapperkeeper::crud;
use trapperkeeper::crud::Error;
use trapperkeeper::database;
use trapperkeeper::models::{
    AuthToken, NewRule, NewRuleFilterField, NewRuleFilterTrapp, Rule, RuleFilterField,
    RuleFilterTrapp, RuleType, StoredRule, Trapp,
};

fn get_pool() -> database::Pool {
    let cfg = config::Config::default();
    database::Pool::builder()
        .from_config(&cfg.database)
        .build()
        .expect("Unable to construct database connection pool")
}

fn get_conn(pool: &mut database::Pool) -> database::Connection {
    pool.acquire().expect("Unable to get reference to database pool")
}

fn get_trapp_id(conn: &mut database::Connection) -> i64 {
    crud::create_trapp(conn, &"foo").unwrap()
}

fn get_trapp(conn: &mut database::Connection) -> Trapp {
    let trapp_id = get_trapp_id(conn);
    crud::get_trapp_by_id(conn, &trapp_id)
        .expect("Unable to get trapp by id")
        .expect("Trapp not found")
}

fn get_trapps(conn: &mut database::Connection) -> Vec<Trapp> {
    vec![get_trapp(conn), get_trapp(conn)]
}

fn get_auth_token_id(conn: &mut database::Connection) -> String {
    let trapp_id: i64 = get_trapp_id(conn);
    crud::create_auth_token(conn, &trapp_id, &"foo").expect("Unable to create auth token")
}

#[test]
fn can_create_trapp() {
    let mut pool = get_pool();
    let mut conn = get_conn(&mut pool);

    let trapp_id = crud::create_trapp(&mut conn, &"foo").unwrap();

    assert!(trapp_id > 0)
}

#[test]
fn can_create_auth_token() {
    let mut pool = get_pool();
    let mut conn = get_conn(&mut pool);

    let trapp_id: i64 = get_trapp_id(&mut conn);

    let auth_token_id = crud::create_auth_token(&mut conn, &trapp_id, &"foo");
    assert_eq!(auth_token_id.is_ok(), true)
}

#[test]
fn cannot_create_auth_token_when_trapp_doesnt_exist() {
    let mut pool = get_pool();
    let mut conn = get_conn(&mut pool);

    let auth_token_id = crud::create_auth_token(&mut conn, &-2, &"foo");
    assert_eq!(auth_token_id.is_ok(), false)
}

#[test]
fn can_create_rule() {
    let mut pool = get_pool();
    let mut conn = get_conn(&mut pool);

    let rule = NewRuleFilterField::new(&"foo", &"key", &"value");
    let rule_id = crud::create_rule(&mut conn, rule);
    assert_eq!(rule_id.is_ok(), true)
}

#[test]
fn can_get_trapps() {
    let mut pool = get_pool();
    let mut conn = get_conn(&mut pool);

    let trapps = get_trapps(&mut conn);
    let trapps_ = crud::get_trapps(&mut conn).expect("unable to list trapps");

    assert!(trapps.iter().all(|trapp| trapps_.contains(trapp)));
}

#[test]
fn can_get_auth_tokens() {
    let mut pool = get_pool();
    let mut conn = get_conn(&mut pool);

    let trapps = get_trapps(&mut conn);

    for trapp in trapps.iter() {
        let trapp_id: i64 = trapp.id;
        crud::create_auth_token(&mut conn, &trapp_id, &"first")
            .expect("Unable to create auth token");
        crud::create_auth_token(&mut conn, &trapp_id, &"second")
            .expect("Unable to create auth token");
    }

    for trapp in trapps.iter() {
        let trapp_id: i64 = trapp.id;
        let xs = crud::get_auth_tokens_by_trapp(&mut conn, &trapp_id)
            .expect("Unable to list auth tokens");
        assert_eq!(xs.len(), 2);
    }
}

#[test]
fn can_get_trapp() {
    let mut pool = get_pool();
    let mut conn = get_conn(&mut pool);

    let trapp = get_trapp(&mut conn);

    let get = crud::get_trapp_by_id(&mut conn, &trapp.id).expect("Unable to get trapp by id");

    assert_eq!(get, Some(trapp));
}

#[test]
fn get_nonexisting_trapp() {
    let mut pool = get_pool();
    let mut conn = get_conn(&mut pool);

    let get = crud::get_trapp_by_id(&mut conn, &-1).expect("Unable to get trapp by id");

    assert_eq!(get, None);
}

#[test]
fn can_get_auth_token() {
    let mut pool = get_pool();
    let mut conn = get_conn(&mut pool);

    let auth_token_id = get_auth_token_id(&mut conn);
    let get = crud::get_auth_token_by_id(&mut conn, &auth_token_id)
        .expect("Unable to get auth token by id")
        .expect("Auth token not found");

    assert_eq!(get.id, auth_token_id);
}

#[test]
fn can_delete_trapp() {
    let mut pool = get_pool();
    let mut conn = get_conn(&mut pool);

    let trapp_id = get_trapp_id(&mut conn);

    assert!(crud::get_trapp_by_id(&mut conn, &trapp_id)
        .expect("unable to get trapp by id")
        .is_some());
    assert_eq!(
        crud::delete_trapp_by_id(&mut conn, &trapp_id).expect("unable to delete trapp"),
        true
    );
    assert!(crud::get_trapp_by_id(&mut conn, &trapp_id)
        .expect("unable to get trapp by id")
        .is_none());
    assert_eq!(
        crud::delete_trapp_by_id(&mut conn, &trapp_id).expect("unable to delete trapp"),
        false
    );
}

#[test]
fn can_delete_auth_token() {
    let mut pool = get_pool();
    let mut conn = get_conn(&mut pool);

    let auth_token_id = get_auth_token_id(&mut conn);

    assert!(crud::get_auth_token_by_id(&mut conn, &auth_token_id)
        .expect("unable to get auth token by id")
        .is_some());
    assert_eq!(
        crud::delete_auth_token_by_id(&mut conn, &auth_token_id)
            .expect("unable to delete auth token"),
        true
    );
    assert!(crud::get_auth_token_by_id(&mut conn, &auth_token_id)
        .expect("unable to get auth token by id")
        .is_none());
    assert_eq!(
        crud::delete_auth_token_by_id(&mut conn, &auth_token_id)
            .expect("unable to delete auth token"),
        false
    );
}

#[test]
fn trapp_ids_count_up_from_one_and_are_not_given_twice() {
    let mut conn = database::establish_connection().unwrap();
    assert_eq!(crud::create_trapp(&mut conn, "foo").unwrap(), 1);
    assert_eq!(crud::create_trapp(&mut conn, "foo").unwrap(), 2);
    assert_eq!(crud::delete_trapp_by_id(&mut conn, &2).unwrap(), true);
    assert_eq!(crud::create_trapp(&mut conn, "bar").unwrap(), 3);
    assert_eq!(
        crud::get_trapps(&mut conn).unwrap(),
        vec![Trapp::new(1, "foo"), Trapp::new(3, "bar")]
    );
}

#[test]
fn trapp_and_its_auth_token_live_and_die_together() {
    let mut conn = database::establish_connection().unwrap();
    assert_eq!(crud::create_trapp(&mut conn, "foo").unwrap(), 1);
    let token = crud::create_auth_token(&mut conn, &1, "bar").unwrap();
    assert_eq!(token.len(), 32);
    assert!(token.chars().all(|c| c.is_ascii_alphanumeric()));
    assert_eq!(
        crud::get_auth_token_by_id(&mut conn, &token).unwrap(),
        Some(AuthToken::new(&token, 1, "bar"))
    );
    assert_eq!(crud::delete_trapp_by_id(&mut conn, &1).unwrap(), true);
    assert_eq!(crud::get_auth_token_by_id(&mut conn, &token).unwrap(), None);
}

#[test]
fn auth_token_of_an_unknown_trapp_is_refused_and_nothing_is_stored() {
    let mut conn = database::establish_connection().unwrap();
    crud::create_trapp(&mut conn, "foo").unwrap();
    assert_eq!(
        crud::create_auth_token(&mut conn, &999999, "x"),
        Err(Error::Database(database::Error::ForeignKeyViolation))
    );
    assert_eq!(crud::get_auth_tokens_by_trapp(&mut conn, &999999).unwrap(), vec![]);
    assert_eq!(crud::get_auth_tokens_by_trapp(&mut conn, &1).unwrap(), vec![]);
}

#[test]
fn auth_token_id_that_is_taken_is_refused() {
    let mut conn = database::establish_connection().unwrap();
    crud::create_trapp(&mut conn, "foo").unwrap();
    crud::create_trapp(&mut conn, "bar").unwrap();
    assert_eq!(
        crud::insert_auth_token(&mut conn, String::from("T1"), &1, "first"),
        Ok(String::from("T1"))
    );
    assert_eq!(
        crud::insert_auth_token(&mut conn, String::from("T1"), &2, "second"),
        Err(Error::Database(database::Error::UniqueViolation))
    );
    assert_eq!(
        crud::insert_auth_token(&mut conn, String::from("T1"), &3, "third"),
        Err(Error::Database(database::Error::ForeignKeyViolation))
    );
    assert_eq!(
        crud::get_auth_token_by_id(&mut conn, "T1").unwrap(),
        Some(AuthToken::new("T1", 1, "first"))
    );
}

#[test]
fn deleting_an_absent_trapp_is_false_every_time() {
    let mut conn = database::establish_connection().unwrap();
    crud::create_trapp(&mut conn, "foo").unwrap();
    for _ in 0..3 {
        assert_eq!(crud::delete_trapp_by_id(&mut conn, &7), Ok(false));
    }
    assert_eq!(crud::delete_trapp_by_id(&mut conn, &1), Ok(true));
    for _ in 0..3 {
        assert_eq!(crud::delete_trapp_by_id(&mut conn, &1), Ok(false));
    }
    assert_eq!(crud::get_trapps(&mut conn).unwrap(), vec![]);
}

#[test]
fn deleting_a_trapp_takes_its_auth_tokens_and_no_others() {
    let mut conn = database::establish_connection().unwrap();
    crud::create_trapp(&mut conn, "foo").unwrap();
    crud::create_trapp(&mut conn, "bar").unwrap();
    crud::insert_auth_token(&mut conn, String::from("a"), &1, "one").unwrap();
    crud::insert_auth_token(&mut conn, String::from("b"), &2, "two").unwrap();
    crud::insert_auth_token(&mut conn, String::from("c"), &1, "three").unwrap();
    assert_eq!(crud::delete_trapp_by_id(&mut conn, &1), Ok(true));
    assert_eq!(crud::get_auth_token_by_id(&mut conn, "a").unwrap(), None);
    assert_eq!(crud::get_auth_token_by_id(&mut conn, "c").unwrap(), None);
    assert_eq!(
        crud::get_auth_token_by_id(&mut conn, "b").unwrap(),
        Some(AuthToken::new("b", 2, "two"))
    );
    assert_eq!(crud::get_trapps(&mut conn).unwrap(), vec![Trapp::new(2, "bar")]);
}

#[test]
fn auth_tokens_are_listed_by_trapp_in_storage_order() {
    let mut conn = database::establish_connection().unwrap();
    crud::create_trapp(&mut conn, "foo").unwrap();
    crud::create_trapp(&mut conn, "bar").unwrap();
    crud::insert_auth_token(&mut conn, String::from("z"), &1, "one").unwrap();
    crud::insert_auth_token(&mut conn, String::from("b"), &2, "two").unwrap();
    crud::insert_auth_token(&mut conn, String::from("a"), &1, "three").unwrap();
    assert_eq!(
        crud::get_auth_tokens_by_trapp(&mut conn, &1).unwrap(),
        vec![AuthToken::new("z", 1, "one"), AuthToken::new("a", 1, "three")]
    );
}

#[test]
fn auth_token_is_found_by_trapp_and_id_only_under_its_trapp() {
    let mut conn = database::establish_connection().unwrap();
    crud::create_trapp(&mut conn, "foo").unwrap();
    crud::create_trapp(&mut conn, "bar").unwrap();
    crud::insert_auth_token(&mut conn, String::from("a"), &1, "one").unwrap();
    assert_eq!(
        crud::get_auth_token_by_trapp_and_id(&mut conn, &1, "a").unwrap(),
        Some(AuthToken::new("a", 1, "one"))
    );
    assert_eq!(crud::get_auth_token_by_trapp_and_id(&mut conn, &2, "a").unwrap(), None);
    assert_eq!(crud::get_auth_token_by_trapp_and_id(&mut conn, &1, "b").unwrap(), None);
}

#[test]
fn auth_token_is_deleted_by_trapp_and_id_only_under_its_trapp() {
    let mut conn = database::establish_connection().unwrap();
    crud::create_trapp(&mut conn, "foo").unwrap();
    crud::create_trapp(&mut conn, "bar").unwrap();
    crud::insert_auth_token(&mut conn, String::from("a"), &1, "one").unwrap();
    assert_eq!(crud::delete_auth_token_by_trapp_and_id(&mut conn, 2, "a"), Ok(false));
    assert!(crud::get_auth_token_by_id(&mut conn, "a").unwrap().is_some());
    assert_eq!(crud::delete_auth_token_by_trapp_and_id(&mut conn, 1, "a"), Ok(true));
    assert_eq!(crud::get_auth_token_by_id(&mut conn, "a").unwrap(), None);
    assert_eq!(crud::delete_auth_token_by_trapp_and_id(&mut conn, 1, "a"), Ok(false));
}

#[test]
fn rule_that_filters_by_trapp_comes_back_as_it_was_created() {
    let mut conn = database::establish_connection().unwrap();
    let id = crud::create_rule(&mut conn, NewRuleFilterTrapp::new("only foo", 42)).unwrap();
    assert_eq!(id, 1);
    let rules = crud::get_rules(&mut conn).unwrap();
    assert_eq!(rules, vec![StoredRule::FilterTrapp(RuleFilterTrapp::new(1, "only foo", 42))]);
    assert_eq!(rules[0].type_(), RuleType::FilterTrapp);
    assert_eq!(rules[0].type_().discriminant(), 1);
    assert_eq!(rules[0].id(), 1);
    assert_eq!(rules[0].name(), "only foo");
}

#[test]
fn rule_that_filters_by_field_comes_back_as_it_was_created() {
    let mut conn = database::establish_connection().unwrap();
    let id = crud::create_rule(&mut conn, NewRuleFilterField::new("errors", "level", "error"))
        .unwrap();
    assert_eq!(id, 1);
    let rules = crud::get_rules(&mut conn).unwrap();
    assert_eq!(
        rules,
        vec![StoredRule::FilterField(RuleFilterField::new(1, "errors", "level", "error"))]
    );
    assert_eq!(rules[0].type_(), RuleType::FilterField);
    assert_eq!(rules[0].type_().discriminant(), 2);
}

#[test]
fn rules_of_both_kinds_are_listed_in_storage_order() {
    let mut conn = database::establish_connection().unwrap();
    crud::create_rule(&mut conn, NewRuleFilterField::new("a", "k1", "v1")).unwrap();
    crud::create_rule(&mut conn, NewRuleFilterTrapp::new("b", 7)).unwrap();
    crud::create_rule(&mut conn, NewRuleFilterField::new("c", "k2", "v2")).unwrap();
    assert_eq!(
        crud::get_rules(&mut conn).unwrap(),
        vec![
            StoredRule::FilterField(RuleFilterField::new(1, "a", "k1", "v1")),
            StoredRule::FilterTrapp(RuleFilterTrapp::new(2, "b", 7)),
            StoredRule::FilterField(RuleFilterField::new(3, "c", "k2", "v2")),
        ]
    );
}

#[test]
fn rule_with_an_unknown_discriminator_is_an_error() {
    let mut conn = database::establish_connection().unwrap();
    crud::create_rule(&mut conn, NewRuleFilterTrapp::new("b", 7)).unwrap();
    assert_eq!(crud::resolve_rule(&mut conn, 1, "b", 3), Err(Error::UnrecognizedRuleType));
    assert_eq!(crud::resolve_rule(&mut conn, 1, "b", 0), Err(Error::UnrecognizedRuleType));
    assert_eq!(
        crud::resolve_rule(&mut conn, 1, "b", 1),
        Ok(StoredRule::FilterTrapp(RuleFilterTrapp::new(1, "b", 7)))
    );
}

#[test]
fn rule_is_resolved_from_the_payload_table_of_its_kind_only() {
    let mut conn = database::establish_connection().unwrap();
    crud::create_rule(&mut conn, NewRuleFilterTrapp::new("b", 7)).unwrap();
    assert_eq!(crud::resolve_rule(&mut conn, 1, "b", 2), Err(Error::RuleWithoutPayload));
    assert_eq!(crud::resolve_rule_filter_field(&mut conn, 1, "b"), Err(Error::RuleWithoutPayload));
    assert_eq!(crud::resolve_rule_filter_trapp(&mut conn, 2, "b"), Err(Error::RuleWithoutPayload));
    assert_eq!(
        crud::resolve_rule_filter_trapp(&mut conn, 1, "renamed"),
        Ok(StoredRule::FilterTrapp(RuleFilterTrapp::new(1, "renamed", 7)))
    );
}

#[test]
fn statements_report_the_key_they_refuse_on() {
    let mut conn = database::establish_connection().unwrap();
    assert_eq!(conn.insert_rule_filter_trapp(1, 7), Err(database::Error::ForeignKeyViolation));
    assert_eq!(conn.insert_rule("r", 1), Ok(1));
    assert_eq!(conn.insert_rule_filter_trapp(1, 7), Ok(()));
    assert_eq!(conn.insert_rule_filter_trapp(1, 8), Err(database::Error::UniqueViolation));
    assert_eq!(
        conn.insert_rule_filter_field(2, "k", "v"),
        Err(database::Error::ForeignKeyViolation)
    );
    assert_eq!(conn.insert_rule("s", 2), Ok(2));
    assert_eq!(conn.insert_rule_filter_field(2, "k", "v"), Ok(()));
    assert_eq!(conn.insert_rule_filter_field(2, "k", "w"), Err(database::Error::UniqueViolation));
    assert_eq!(crud::get_rules(&mut conn).unwrap().len(), 2);
}

#[test]
fn taking_back_a_rule_gives_its_id_back() {
    let mut conn = database::establish_connection().unwrap();
    conn.undo_insert_rule();
    assert_eq!(conn.insert_rule("r", 1), Ok(1));
    conn.undo_insert_rule();
    assert_eq!(crud::get_rules(&mut conn).unwrap(), vec![]);
    assert_eq!(crud::create_rule(&mut conn, NewRuleFilterTrapp::new("b", 7)), Ok(1));
}

#[test]
fn listing_fails_on_the_first_rule_that_does_not_resolve() {
    let mut conn = database::establish_connection().unwrap();
    crud::create_rule(&mut conn, NewRuleFilterTrapp::new("b", 7)).unwrap();
    assert_eq!(conn.insert_rule("no payload", 2), Ok(2));
    assert_eq!(conn.insert_rule("no kind", 9), Ok(3));
    assert_eq!(crud::get_rules(&mut conn), Err(Error::RuleWithoutPayload));
    assert_eq!(conn.insert_rule_filter_field(2, "k", "v"), Ok(()));
    assert_eq!(crud::get_rules(&mut conn), Err(Error::UnrecognizedRuleType));
    conn.undo_insert_rule();
    assert_eq!(crud::get_rules(&mut conn).unwrap().len(), 2);
}
