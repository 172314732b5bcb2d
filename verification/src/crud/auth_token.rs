use super::Error;
use crate::crypto;
use crate::crypto::all_alphanumeric;
use crate::database;
use crate::database::Connection;
use crate::models::{AuthToken, AuthTokenView};
use crate::schema::{
    lemma_auth_token_found, lemma_delete_trapp, Tables, lemma_delete_auth_tokens, lemma_insert_auth_token, token_of_trapp,
    token_of_trapp_with_id, token_with_id, TokenOfTrapp, TokenOfTrappWithId, TokenWithId,
};
use crate::table::{first_where, lemma_filter_members, negate, option_view, views};
use vstd::prelude::*;

verus! {

/// The length of the id of an auth token.
pub const AUTH_TOKEN_LENGTH: usize = 32;

/// Stores an auth token with the id `id` under the trapp `trapp_id` and answers
/// with the id. It is refused where the trapp is not there, and where the id is
/// taken.
pub fn insert_auth_token(conn: &mut Connection, id: String, trapp_id: &i64, name: &str) -> (r:
    Result<String, Error>)
    ensures
        old(conn).wf() ==> final(conn).wf(),
        match r {
            Ok(stored) => {
                &&& stored@ == id@
                &&& old(conn)@.has_trapp(*trapp_id as int)
                &&& !old(conn)@.has_auth_token(id@)
                &&& final(conn)@ == old(conn)@.insert_auth_token(
                    AuthTokenView { id: id@, trapp_id: *trapp_id as int, name: name@ },
                )
            },
            Err(e) => {
                &&& final(conn)@ == old(conn)@
                &&& if !old(conn)@.has_trapp(*trapp_id as int) {
                    e == Error::Database(database::Error::ForeignKeyViolation)
                } else {
                    e == Error::Database(database::Error::UniqueViolation)
                        && old(conn)@.has_auth_token(id@)
                }
            },
        },
{
    proof {
        if conn.wf() && conn@.has_trapp(*trapp_id as int) && !conn@.has_auth_token(id@) {
            lemma_insert_auth_token(
                conn@,
                AuthTokenView { id: id@, trapp_id: *trapp_id as int, name: name@ },
            );
        }
    }
    match conn.insert_auth_token(id.as_str(), *trapp_id, name) {
        Ok(()) => Ok(id),
        Err(e) => Err(Error::Database(e)),
    }
}

/// Creates an auth token named `name` under the trapp `trapp_id`, with a fresh
/// random id of thirty-two alphanumeric characters, and answers with the id.
/// Where the trapp is not there the store refuses it as a breach of
/// referential integrity and no row is stored; nothing looks for the trapp
/// beforehand. Which id is drawn is left open: the store refuses one that is
/// taken.
pub fn create_auth_token(conn: &mut Connection, trapp_id: &i64, name: &str) -> (r: Result<
    String,
    Error,
>)
    ensures
        old(conn).wf() ==> final(conn).wf(),
        !old(conn)@.has_trapp(*trapp_id as int) ==> r == Err::<String, Error>(
            Error::Database(database::Error::ForeignKeyViolation),
        ),
        match r {
            Ok(id) => {
                &&& id@.len() == AUTH_TOKEN_LENGTH
                &&& all_alphanumeric(id@)
                &&& old(conn)@.has_trapp(*trapp_id as int)
                &&& !old(conn)@.has_auth_token(id@)
                &&& final(conn)@ == old(conn)@.insert_auth_token(
                    AuthTokenView { id: id@, trapp_id: *trapp_id as int, name: name@ },
                )
            },
            Err(e) => {
                &&& final(conn)@ == old(conn)@
                &&& old(conn)@.has_trapp(*trapp_id as int) ==> {
                    &&& e == Error::Database(database::Error::UniqueViolation)
                    &&& exists|id: Seq<char>|
                        id.len() == AUTH_TOKEN_LENGTH && all_alphanumeric(id)
                            && #[trigger] old(conn)@.has_auth_token(id)
                }
            },
        },
{
    let id = crypto::random_token(AUTH_TOKEN_LENGTH);
    let ghost drawn = id@;
    let r = insert_auth_token(conn, id, trapp_id, name);
    proof {
        if r is Err && old(conn)@.has_trapp(*trapp_id as int) {
            assert(old(conn)@.has_auth_token(drawn));
        }
    }
    r
}

/// The auth token with the id `id`; `None` where there is none.
pub fn get_auth_token_by_id(conn: &mut Connection, id: &str) -> (r: Result<
    Option<AuthToken>,
    Error,
>)
    ensures
        final(conn)@ == old(conn)@,
        r matches Ok(row) && option_view(row) == old(conn)@.auth_token(id@),
{
    Ok(conn.select_auth_token(&TokenWithId(id.to_owned())))
}

/// The auth token with the id `id` if it belongs to the trapp `trapp_id`;
/// `None` where there is no such token.
pub fn get_auth_token_by_trapp_and_id(conn: &mut Connection, trapp_id: &i64, id: &str) -> (r:
    Result<Option<AuthToken>, Error>)
    ensures
        final(conn)@ == old(conn)@,
        r matches Ok(row) && option_view(row) == first_where(
            old(conn)@.auth_tokens,
            token_of_trapp_with_id(*trapp_id as int, id@),
        ),
{
    Ok(conn.select_auth_token(&TokenOfTrappWithId(*trapp_id, id.to_owned())))
}

/// The auth tokens of the trapp `trapp_id`, in storage order.
pub fn get_auth_tokens_by_trapp(conn: &mut Connection, trapp_id: &i64) -> (r: Result<
    Vec<AuthToken>,
    Error,
>)
    ensures
        final(conn)@ == old(conn)@,
        r matches Ok(rows) && views(rows@) == old(conn)@.auth_tokens.filter(
            token_of_trapp(*trapp_id as int),
        ),
{
    Ok(conn.select_auth_tokens(&TokenOfTrapp(*trapp_id)))
}

/// Deletes the auth token with the id `id`. The answer says whether one went.
pub fn delete_auth_token_by_id(conn: &mut Connection, id: &str) -> (r: Result<bool, Error>)
    ensures
        old(conn).wf() ==> final(conn).wf(),
        final(conn)@ == old(conn)@.delete_auth_tokens(token_with_id(id@)),
        r == Ok::<bool, Error>(old(conn)@.has_auth_token(id@)),
{
    proof {
        if conn.wf() {
            lemma_delete_auth_tokens(conn@, token_with_id(id@));
        }
        lemma_auth_token_found(conn@, id@);
    }
    let affected = conn.delete_auth_tokens(&TokenWithId(id.to_owned()));
    Ok(affected > 0)
}

/// Deletes the auth token with the id `id` if it belongs to the trapp
/// `trapp_id`. The answer says whether one went.
pub fn delete_auth_token_by_trapp_and_id(conn: &mut Connection, trapp_id: i64, id: &str) -> (r:
    Result<bool, Error>)
    ensures
        old(conn).wf() ==> final(conn).wf(),
        final(conn)@ == old(conn)@.delete_auth_tokens(token_of_trapp_with_id(trapp_id as int, id@)),
        r == Ok::<bool, Error>(
            first_where(old(conn)@.auth_tokens, token_of_trapp_with_id(trapp_id as int, id@))
                is Some,
        ),
{
    proof {
        if conn.wf() {
            lemma_delete_auth_tokens(conn@, token_of_trapp_with_id(trapp_id as int, id@));
        }
    }
    let affected = conn.delete_auth_tokens(&TokenOfTrappWithId(trapp_id, id.to_owned()));
    Ok(affected > 0)
}

/// Referential integrity: an auth token goes in only under a trapp that is
/// there, and once it is in, a query for its id finds it as it was given. The
/// store keeps its constraints.
pub proof fn created_auth_token_is_found(t: Tables, row: AuthTokenView)
    requires
        t.wf(),
        t.has_trapp(row.trapp_id),
        !t.has_auth_token(row.id),
    ensures
        t.insert_auth_token(row).wf(),
        t.insert_auth_token(row).auth_token(row.id) == Some(row),
        t.insert_auth_token(row).has_trapp(row.trapp_id),
{
    lemma_insert_auth_token(t, row);
}

/// No auth token is without its trapp: in a well-formed store the trapp of
/// every auth token that a query finds is there.
pub proof fn auth_token_has_its_trapp(t: Tables, id: Seq<char>)
    requires
        t.wf(),
        t.auth_token(id) is Some,
    ensures
        t.has_trapp(t.auth_token(id)->0.trapp_id),
{
    lemma_auth_token_found(t, id);
    let row = t.auth_token(id)->0;
    let i = choose|i: int| 0 <= i < t.auth_tokens.len() && t.auth_tokens[i] == row;
    assert(t.has_trapp(t.auth_tokens[i].trapp_id));
}

/// Cascade: deleting a trapp removes the auth tokens it owns, so that a query
/// for any of them finds nothing, and leaves those of the other trapps as they
/// were.
pub proof fn delete_trapp_cascades(t: Tables, trapp_id: int, id: Seq<char>)
    requires
        t.wf(),
        t.auth_token(id) is Some,
    ensures
        t.auth_token(id)->0.trapp_id == trapp_id ==> t.delete_trapp(trapp_id).auth_token(id) is None,
        t.auth_token(id)->0.trapp_id != trapp_id ==> t.delete_trapp(trapp_id).auth_token(id)
            == t.auth_token(id),
{
    let u = t.delete_trapp(trapp_id);
    let row = t.auth_token(id)->0;
    lemma_delete_trapp(t, trapp_id);
    lemma_auth_token_found(t, id);
    lemma_auth_token_found(u, id);
    let i = choose|i: int| 0 <= i < t.auth_tokens.len() && t.auth_tokens[i] == row;
    if row.trapp_id == trapp_id {
        if u.has_auth_token(id) {
            let k = choose|k: int|
                0 <= k < t.auth_tokens.len() && (#[trigger] t.auth_tokens[k]).id == id
                    && t.auth_tokens[k].trapp_id != trapp_id;
            if k < i {
                assert(t.auth_tokens[k].id != t.auth_tokens[i].id);
            } else if i < k {
                assert(t.auth_tokens[i].id != t.auth_tokens[k].id);
            }
        }
    } else {
        assert(t.auth_tokens[i].id == id && t.auth_tokens[i].trapp_id != trapp_id);
        assert(u.has_auth_token(id));
        let found = u.auth_token(id)->0;
        assert(u.auth_tokens.contains(found));
        lemma_filter_members(t.auth_tokens, negate(token_of_trapp(trapp_id)));
        let m = choose|m: int| 0 <= m < u.auth_tokens.len() && u.auth_tokens[m] == found;
        assert(t.auth_tokens.contains(u.auth_tokens[m]));
        let k = choose|k: int| 0 <= k < t.auth_tokens.len() && t.auth_tokens[k] == found;
        if k < i {
            assert(t.auth_tokens[k].id != t.auth_tokens[i].id);
        } else if i < k {
            assert(t.auth_tokens[i].id != t.auth_tokens[k].id);
        }
    }
}

} // verus!
