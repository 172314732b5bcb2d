use crate::database;
use vstd::prelude::*;
use vstd::std_specs::convert::FromSpecImpl;

pub mod auth_token;
pub mod rule;
pub mod trapp;

pub use auth_token::{
    create_auth_token, delete_auth_token_by_id, delete_auth_token_by_trapp_and_id,
    get_auth_token_by_id, get_auth_token_by_trapp_and_id, get_auth_tokens_by_trapp,
    insert_auth_token,
};
pub use rule::{
    create_rule, get_rules, resolve_rule, resolve_rule_filter_field, resolve_rule_filter_trapp,
    CreateRule,
};
pub use trapp::{create_trapp, delete_trapp_by_id, get_trapp_by_id, get_trapps};

verus! {

/// What a store operation fails with. That a row is absent is no failure: the
/// operations that look for one answer with `None` or `false`.
#[derive(Copy, Clone, Debug, PartialEq, Eq, Structural)]
pub enum Error {
    /// The store refused the statement.
    Database(database::Error),
    /// A stored rule carries a discriminator that names no kind of rule.
    UnrecognizedRuleType,
    /// A stored rule has no row in the payload table of its kind.
    RuleWithoutPayload,
}

impl From<database::Error> for Error {
    fn from(e: database::Error) -> (error: Self) {
        Error::Database(e)
    }
}

impl FromSpecImpl<database::Error> for Error {
    open spec fn obeys_from_spec() -> bool {
        true
    }

    open spec fn from_spec(e: database::Error) -> Self {
        Error::Database(e)
    }
}

} // verus!
