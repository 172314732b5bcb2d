use super::Error;
use crate::database;
use crate::database::Connection;
use crate::models::Trapp;
use crate::models::TrappView;
use crate::schema::{
    lemma_delete_trapp, lemma_insert_trapp, lemma_trapp_found, trapp_with_id, Tables,
};
use crate::table::{lemma_first_where_key, option_view, views};
use vstd::prelude::*;

verus! {

/// Stores a trapp named `title` and answers with the id the store gave it: the
/// one after the last id given out. Names need not differ. It fails only where
/// the store has no id left.
pub fn create_trapp(conn: &mut Connection, title: &str) -> (r: Result<i64, Error>)
    ensures
        old(conn).wf() ==> final(conn).wf(),
        match r {
            Ok(id) => {
                &&& old(conn)@.last_trapp_id < i64::MAX
                &&& id == old(conn)@.last_trapp_id + 1
                &&& final(conn)@ == old(conn)@.insert_trapp(title@)
            },
            Err(e) => {
                &&& e == Error::Database(database::Error::RowIdExhausted)
                &&& old(conn)@.last_trapp_id == i64::MAX
                &&& final(conn)@ == old(conn)@
            },
        },
{
    proof {
        if conn.wf() && conn@.last_trapp_id < i64::MAX {
            lemma_insert_trapp(conn@, title@);
        }
    }
    match conn.insert_trapp(title) {
        Ok(id) => Ok(id),
        Err(e) => Err(Error::Database(e)),
    }
}

/// All trapps, in storage order.
pub fn get_trapps(conn: &mut Connection) -> (r: Result<Vec<Trapp>, Error>)
    ensures
        final(conn)@ == old(conn)@,
        r matches Ok(rows) && views(rows@) == old(conn)@.trapps,
{
    Ok(conn.select_trapps())
}

/// The trapp with the id `id`; `None` where there is none.
pub fn get_trapp_by_id(conn: &mut Connection, id: &i64) -> (r: Result<Option<Trapp>, Error>)
    ensures
        final(conn)@ == old(conn)@,
        r matches Ok(row) && option_view(row) == old(conn)@.trapp(*id as int),
{
    Ok(conn.select_trapp(*id))
}

/// Deletes the trapp with the id `id`, and with it the auth tokens it owns.
/// The answer says whether a trapp went.
pub fn delete_trapp_by_id(conn: &mut Connection, id: &i64) -> (r: Result<bool, Error>)
    ensures
        old(conn).wf() ==> final(conn).wf(),
        final(conn)@ == old(conn)@.delete_trapp(*id as int),
        r == Ok::<bool, Error>(old(conn)@.has_trapp(*id as int)),
{
    proof {
        if conn.wf() {
            lemma_delete_trapp(conn@, *id as int);
        }
        lemma_trapp_found(conn@, *id as int);
    }
    let affected = conn.delete_trapp(*id);
    Ok(affected > 0)
}

/// Deleting is idempotent on absence: a trapp that was deleted is not there,
/// and deleting a trapp that is not there answers `false` and leaves the store
/// as it is, however often it is asked.
pub proof fn delete_absent_trapp_changes_nothing(t: Tables, id: int)
    requires
        t.wf(),
    ensures
        !t.delete_trapp(id).has_trapp(id),
        !t.has_trapp(id) ==> t.delete_trapp(id) == t,
        t.delete_trapp(id).delete_trapp(id) == t.delete_trapp(id),
        t.delete_trapp(id).wf(),
{
    lemma_delete_trapp(t, id);
    lemma_delete_trapp(t.delete_trapp(id), id);
}

/// A trapp that was created is found under the id it was given, with the name
/// it was given, and the trapps that were there before are still there.
pub proof fn created_trapp_is_found(t: Tables, name: Seq<char>)
    requires
        t.wf(),
        t.last_trapp_id < i64::MAX,
    ensures
        t.insert_trapp(name).trapp(t.last_trapp_id + 1) == Some(
            TrappView { id: t.last_trapp_id + 1, name },
        ),
        t.insert_trapp(name).has_trapp(t.last_trapp_id + 1),
        forall|id: int| t.has_trapp(id) ==> t.insert_trapp(name).has_trapp(id),
        t.insert_trapp(name).wf(),
{
    let u = t.insert_trapp(name);
    let n = t.trapps.len() as int;
    let id = t.last_trapp_id + 1;
    lemma_insert_trapp(t, name);
    assert(u.trapps[n].id == id);
    assert(trapp_with_id(id)(u.trapps[n]));
    lemma_first_where_key::<Trapp>(u.trapps, trapp_with_id(id), n);
    assert forall|other: int| t.has_trapp(other) implies u.has_trapp(other) by {
        let k = choose|k: int| 0 <= k < t.trapps.len() && (#[trigger] t.trapps[k]).id == other;
        assert(u.trapps[k] == t.trapps[k]);
    }
}

} // verus!
