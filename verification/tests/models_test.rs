use std::convert::TryFrom;
use trapperkeeper::config::{Api, Config, Database};
use trapperkeeper::models::{
    AuthToken, Login, NewAuthToken, NewRule, NewRuleFilterField, NewRuleFilterTrapp, NewTrapp, Rule,
    RuleFilterField, RuleFilterTrapp, RuleType, Session, StoredRule, Trapp,
};

#[test]
fn constructors_keep_what_they_are_given() {
    let login = Login::new("admin", "s3cret");
    assert_eq!((login.username.as_str(), login.password.as_str()), ("admin", "s3cret"));
    let session = Session::new("abc", "admin");
    assert_eq!((session.id.as_str(), session.username.as_str()), ("abc", "admin"));
    assert_eq!(NewTrapp::new("foo").name, "foo");
    let trapp = Trapp::new(7, "foo");
    assert_eq!((trapp.id, trapp.name.as_str()), (7, "foo"));
    let new_token = NewAuthToken::new("bar", 7);
    assert_eq!((new_token.name.as_str(), new_token.trapp_id), ("bar", 7));
    let token = AuthToken::new("T", 7, "bar");
    assert_eq!((token.id.as_str(), token.trapp_id, token.name.as_str()), ("T", 7, "bar"));
    let rule = RuleFilterTrapp::new(1, "r", 7);
    assert_eq!((rule.id, rule.name.as_str(), rule.trapp_id), (1, "r", 7));
    let rule = RuleFilterField::new(2, "r", "k", "v");
    assert_eq!(
        (rule.id, rule.name.as_str(), rule.field_key.as_str(), rule.field_value.as_str()),
        (2, "r", "k", "v")
    );
    let rule = NewRuleFilterTrapp::new("r", 7);
    assert_eq!((rule.name.as_str(), rule.trapp_id), ("r", 7));
    let rule = NewRuleFilterField::new("r", "k", "v");
    assert_eq!(
        (rule.name.as_str(), rule.field_key.as_str(), rule.field_value.as_str()),
        ("r", "k", "v")
    );
}

#[test]
fn copies_are_equal_to_what_they_copy() {
    assert_eq!(Trapp::new(7, "foo").clone(), Trapp::new(7, "foo"));
    assert_eq!(AuthToken::new("T", 7, "bar").clone(), AuthToken::new("T", 7, "bar"));
    assert_eq!(Session::new("abc", "admin").clone(), Session::new("abc", "admin"));
    assert_eq!(NewTrapp::new("foo").clone().name, "foo");
}

#[test]
fn discriminators_name_the_two_kinds_and_nothing_else() {
    assert_eq!(RuleType::try_from(1), Ok(RuleType::FilterTrapp));
    assert_eq!(RuleType::try_from(2), Ok(RuleType::FilterField));
    for v in [0i64, 3, -1, i64::MIN, i64::MAX] {
        assert_eq!(RuleType::try_from(v), Err(()));
    }
    assert_eq!(RuleType::FilterTrapp.discriminant(), 1);
    assert_eq!(RuleType::FilterField.discriminant(), 2);
}

#[test]
fn rules_say_their_name_kind_and_id() {
    let rule = NewRuleFilterTrapp::new("r", 7);
    assert_eq!((rule.name(), rule.type_()), ("r", RuleType::FilterTrapp));
    let rule = NewRuleFilterField::new("s", "k", "v");
    assert_eq!((rule.name(), rule.type_()), ("s", RuleType::FilterField));
    let rule = RuleFilterTrapp::new(4, "r", 7);
    assert_eq!((rule.id(), rule.name(), rule.type_()), (4, "r", RuleType::FilterTrapp));
    let rule = RuleFilterField::new(5, "s", "k", "v");
    assert_eq!((rule.id(), rule.name(), rule.type_()), (5, "s", RuleType::FilterField));
    let rule = StoredRule::FilterTrapp(RuleFilterTrapp::new(4, "r", 7));
    assert_eq!((rule.id(), rule.name(), rule.type_()), (4, "r", RuleType::FilterTrapp));
    let rule = StoredRule::FilterField(RuleFilterField::new(5, "s", "k", "v"));
    assert_eq!((rule.id(), rule.name(), rule.type_()), (5, "s", RuleType::FilterField));
}

#[test]
fn configuration_defaults() {
    let database = Database::default();
    assert_eq!((database.url.as_str(), database.pool_size), ("sqlite://./tk.sqlite", 8));
    let api = Api::default();
    assert_eq!((api.addr.as_str(), api.port), ("127.0.0.1", 8080));
    let config = Config::default();
    assert_eq!(config.debug, false);
    assert_eq!(
        (config.database.url.as_str(), config.database.pool_size),
        ("sqlite://./tk.sqlite", 8)
    );
    assert_eq!((config.api.addr.as_str(), config.api.port), ("127.0.0.1", 8080));
    assert_eq!((config.admin.username.as_str(), config.admin.password.as_str()), ("", ""));
    let copy = config.clone();
    assert_eq!(copy.database.url, config.database.url);
    assert_eq!(copy.api.port, config.api.port);
}
