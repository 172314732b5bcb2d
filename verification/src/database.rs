use crate::config;
use crate::models::{AuthToken, AuthTokenView, RuleType, Trapp};
use crate::schema::{
    filter_field_of_rule, filter_trapp_of_rule, lemma_auth_token_found,
    lemma_constraints_by_keys, lemma_filter_field_found, lemma_filter_trapp_found,
    lemma_rule_found, lemma_trapp_found, rule_has_payload, trapp_with_id, FilterFieldOfRule,
    FilterFieldRow, FilterFieldRowView, FilterTrappOfRule, FilterTrappRow, FilterTrappRowView,
    RuleRow, RuleWithId, Tables, TokenOfTrapp, TokenWithId, TrappWithId,
};
use crate::table::{
    delete, first_where, foreign_key_holds, lemma_views_drop_last, lemma_views_push, option_view,
    primary_key_holds, scan, select, select_first, views, Condition,
};
use std::convert::TryFrom;
use vstd::prelude::*;

verus! {

/// What the pool or the store refuses.
#[derive(Copy, Clone, Debug, PartialEq, Eq, Structural)]
pub enum Error {
    /// No connection became free in time.
    PoolTimedOut,
    /// The pool was closed.
    PoolClosed,
    /// A row with that primary key is already there.
    UniqueViolation,
    /// The row refers to a row that is not there.
    ForeignKeyViolation,
    /// The counter of a table has no id left to give out.
    RowIdExhausted,
}

/// What a store holds, row by row: what is read from a store that is kept
/// elsewhere, and what is written back to it.
#[derive(Debug, PartialEq)]
pub struct Snapshot {
    pub trapps: Vec<Trapp>,
    pub auth_tokens: Vec<AuthToken>,
    pub rules: Vec<RuleRow>,
    pub rules_filter_trapp: Vec<FilterTrappRow>,
    pub rules_filter_field: Vec<FilterFieldRow>,
    pub last_trapp_id: i64,
    pub last_rule_id: i64,
}

impl View for Snapshot {
    type V = Tables;

    open spec fn view(&self) -> Tables {
        Tables {
            trapps: views(self.trapps@),
            auth_tokens: views(self.auth_tokens@),
            rules: views(self.rules@),
            rules_filter_trapp: views(self.rules_filter_trapp@),
            rules_filter_field: views(self.rules_filter_field@),
            last_trapp_id: self.last_trapp_id as int,
            last_rule_id: self.last_rule_id as int,
        }
    }
}

/// Whether every trapp has an id that its counter gave out.
fn trapp_ids_in_range(rows: &Vec<Trapp>, last: i64) -> (holds: bool)
    ensures
        holds == (forall|i: int| 0 <= i < rows@.len() ==> 0 < (#[trigger] views(rows@)[i]).id <= last),
{
    let mut i: usize = 0;
    while i < rows.len()
        invariant
            i <= rows.len(),
            forall|k: int| 0 <= k < i ==> 0 < (#[trigger] views(rows@)[k]).id <= last,
        decreases rows.len() - i,
    {
        if rows[i].id <= 0 || rows[i].id > last {
            assert(views(rows@)[i as int].id == rows[i as int].id);
            return false;
        }
        i += 1;
    }
    true
}

/// Whether every rule has an id that its counter gave out.
fn rule_ids_in_range(rows: &Vec<RuleRow>, last: i64) -> (holds: bool)
    ensures
        holds == (forall|i: int| 0 <= i < rows@.len() ==> 0 < (#[trigger] views(rows@)[i]).id <= last),
{
    let mut i: usize = 0;
    while i < rows.len()
        invariant
            i <= rows.len(),
            forall|k: int| 0 <= k < i ==> 0 < (#[trigger] views(rows@)[k]).id <= last,
        decreases rows.len() - i,
    {
        if rows[i].id <= 0 || rows[i].id > last {
            assert(views(rows@)[i as int].id == rows[i as int].id);
            return false;
        }
        i += 1;
    }
    true
}

/// Whether every rule has a known discriminator and a payload row in the table
/// that the discriminator names.
fn rules_have_payloads(
    rules: &Vec<RuleRow>,
    filter_trapps: &Vec<FilterTrappRow>,
    filter_fields: &Vec<FilterFieldRow>,
) -> (holds: bool)
    ensures
        holds == (forall|i: int|
            0 <= i < rules@.len() ==> rule_has_payload(
                #[trigger] views(rules@)[i],
                views(filter_trapps@),
                views(filter_fields@),
            )),
{
    let ghost t = Tables {
        rules_filter_trapp: views(filter_trapps@),
        rules_filter_field: views(filter_fields@),
        ..Tables::empty()
    };
    let mut i: usize = 0;
    while i < rules.len()
        invariant
            i <= rules.len(),
            t.rules_filter_trapp == views(filter_trapps@),
            t.rules_filter_field == views(filter_fields@),
            forall|k: int|
                0 <= k < i ==> rule_has_payload(
                    #[trigger] views(rules@)[k],
                    views(filter_trapps@),
                    views(filter_fields@),
                ),
        decreases rules.len() - i,
    {
        proof {
            assert(views(rules@)[i as int] == rules[i as int]@);
            lemma_filter_trapp_found(t, rules[i as int].id as int);
            lemma_filter_field_found(t, rules[i as int].id as int);
        }
        let found = match RuleType::try_from(rules[i].type_) {
            Ok(RuleType::FilterTrapp) => select_first(
                filter_trapps,
                &FilterTrappOfRule(rules[i].id),
            ).is_some(),
            Ok(RuleType::FilterField) => select_first(
                filter_fields,
                &FilterFieldOfRule(rules[i].id),
            ).is_some(),
            Err(_) => false,
        };
        if !found {
            return false;
        }
        i += 1;
    }
    true
}

/// A connection to the store: the one handle that every store operation takes.
/// It holds the five tables and enforces their keys on every statement.
pub struct Connection {
    trapps: Vec<Trapp>,
    auth_tokens: Vec<AuthToken>,
    rules: Vec<RuleRow>,
    rules_filter_trapp: Vec<FilterTrappRow>,
    rules_filter_field: Vec<FilterFieldRow>,
    last_trapp_id: i64,
    last_rule_id: i64,
}

/// The connection that a pool hands out.
pub type PoolConnection = Connection;

impl View for Connection {
    type V = Tables;

    closed spec fn view(&self) -> Tables {
        Tables {
            trapps: views(self.trapps@),
            auth_tokens: views(self.auth_tokens@),
            rules: views(self.rules@),
            rules_filter_trapp: views(self.rules_filter_trapp@),
            rules_filter_field: views(self.rules_filter_field@),
            last_trapp_id: self.last_trapp_id as int,
            last_rule_id: self.last_rule_id as int,
        }
    }
}

impl Connection {
    /// The constraints hold and every rule is complete: the state in which a
    /// connection is handed out and in which every store operation leaves it.
    pub open spec fn wf(&self) -> bool {
        self@.wf()
    }

    /// A connection to a store whose schema was just created.
    fn open() -> (conn: Self)
        ensures
            conn@ == Tables::empty(),
            conn.wf(),
    {
        let conn = Connection {
            trapps: Vec::new(),
            auth_tokens: Vec::new(),
            rules: Vec::new(),
            rules_filter_trapp: Vec::new(),
            rules_filter_field: Vec::new(),
            last_trapp_id: 0,
            last_rule_id: 0,
        };
        assert(conn@ =~= Tables::empty()) by {
            assert(conn@.trapps =~= Seq::empty());
            assert(conn@.auth_tokens =~= Seq::empty());
            assert(conn@.rules =~= Seq::empty());
            assert(conn@.rules_filter_trapp =~= Seq::empty());
            assert(conn@.rules_filter_field =~= Seq::empty());
        }
        conn
    }

    /// A connection to a store that holds what `snapshot` holds. There is one
    /// exactly where the snapshot keeps the constraints and every rule in it is
    /// complete.
    pub fn restore(snapshot: Snapshot) -> (r: Option<Connection>)
        ensures
            match r {
                Some(conn) => conn.wf() && conn@ == snapshot@,
                None => !snapshot@.wf(),
            },
    {
        proof {
            lemma_constraints_by_keys(snapshot@);
        }
        let counters = snapshot.last_trapp_id >= 0 && snapshot.last_rule_id >= 0;
        let ids = trapp_ids_in_range(&snapshot.trapps, snapshot.last_trapp_id)
            && rule_ids_in_range(&snapshot.rules, snapshot.last_rule_id);
        let primary = primary_key_holds(&snapshot.trapps)
            && primary_key_holds(&snapshot.auth_tokens)
            && primary_key_holds(&snapshot.rules)
            && primary_key_holds(&snapshot.rules_filter_trapp)
            && primary_key_holds(&snapshot.rules_filter_field);
        let foreign = foreign_key_holds(&snapshot.auth_tokens, &snapshot.trapps)
            && foreign_key_holds(&snapshot.rules_filter_trapp, &snapshot.rules)
            && foreign_key_holds(&snapshot.rules_filter_field, &snapshot.rules);
        let complete = rules_have_payloads(
            &snapshot.rules,
            &snapshot.rules_filter_trapp,
            &snapshot.rules_filter_field,
        );
        if !(counters && ids && primary && foreign && complete) {
            return None;
        }
        Some(
            Connection {
                trapps: snapshot.trapps,
                auth_tokens: snapshot.auth_tokens,
                rules: snapshot.rules,
                rules_filter_trapp: snapshot.rules_filter_trapp,
                rules_filter_field: snapshot.rules_filter_field,
                last_trapp_id: snapshot.last_trapp_id,
                last_rule_id: snapshot.last_rule_id,
            },
        )
    }

    /// What the store holds, row by row.
    pub fn snapshot(&self) -> (snapshot: Snapshot)
        ensures
            snapshot@ == self@,
    {
        Snapshot {
            trapps: scan(&self.trapps),
            auth_tokens: scan(&self.auth_tokens),
            rules: scan(&self.rules),
            rules_filter_trapp: scan(&self.rules_filter_trapp),
            rules_filter_field: scan(&self.rules_filter_field),
            last_trapp_id: self.last_trapp_id,
            last_rule_id: self.last_rule_id,
        }
    }

    /// `INSERT INTO trapps (name) VALUES (?)`, answered with the id of the new
    /// row. It fails only where the counter has no id left.
    pub fn insert_trapp(&mut self, name: &str) -> (r: Result<i64, Error>)
        ensures
            match r {
                Ok(id) => {
                    &&& old(self)@.last_trapp_id < i64::MAX
                    &&& id == old(self)@.last_trapp_id + 1
                    &&& final(self)@ == old(self)@.insert_trapp(name@)
                },
                Err(e) => {
                    &&& e == Error::RowIdExhausted
                    &&& old(self)@.last_trapp_id == i64::MAX
                    &&& final(self)@ == old(self)@
                },
            },
    {
        if self.last_trapp_id == i64::MAX {
            return Err(Error::RowIdExhausted);
        }
        let id = self.last_trapp_id + 1;
        let row = Trapp::new(id, name);
        proof {
            lemma_views_push(self.trapps@, row);
        }
        self.trapps.push(row);
        self.last_trapp_id = id;
        Ok(id)
    }

    /// `SELECT id, name FROM trapps`.
    pub fn select_trapps(&self) -> (rows: Vec<Trapp>)
        ensures
            views(rows@) == self@.trapps,
    {
        scan(&self.trapps)
    }

    /// `SELECT id, name FROM trapps WHERE id = ?`, asked for at most one row.
    pub fn select_trapp(&self, id: i64) -> (row: Option<Trapp>)
        ensures
            option_view(row) == self@.trapp(id as int),
    {
        select_first(&self.trapps, &TrappWithId(id))
    }

    /// `DELETE FROM trapps WHERE id = ?`, answered with the number of trapps
    /// that went. The auth tokens that refer to the trapp go with it.
    pub fn delete_trapp(&mut self, id: i64) -> (affected: u64)
        ensures
            final(self)@ == old(self)@.delete_trapp(id as int),
            affected == old(self)@.trapps.filter(trapp_with_id(id as int)).len(),
    {
        let affected = delete(&mut self.trapps, &TrappWithId(id));
        let _ = delete(&mut self.auth_tokens, &TokenOfTrapp(id));
        affected as u64
    }

    /// `INSERT INTO auth_tokens (id, trapp_id, name) VALUES (?, ?, ?)`. A trapp
    /// that is not there is reported before an id that is taken.
    pub fn insert_auth_token(&mut self, id: &str, trapp_id: i64, name: &str) -> (r: Result<
        (),
        Error,
    >)
        ensures
            match r {
                Ok(()) => {
                    &&& old(self)@.has_trapp(trapp_id as int)
                    &&& !old(self)@.has_auth_token(id@)
                    &&& final(self)@ == old(self)@.insert_auth_token(
                        AuthTokenView { id: id@, trapp_id: trapp_id as int, name: name@ },
                    )
                },
                Err(e) => {
                    &&& final(self)@ == old(self)@
                    &&& if !old(self)@.has_trapp(trapp_id as int) {
                        e == Error::ForeignKeyViolation
                    } else {
                        e == Error::UniqueViolation && old(self)@.has_auth_token(id@)
                    }
                },
            },
    {
        proof {
            lemma_auth_token_found(self@, id@);
            lemma_trapp_found(self@, trapp_id as int);
        }
        if select_first(&self.trapps, &TrappWithId(trapp_id)).is_none() {
            return Err(Error::ForeignKeyViolation);
        }
        if select_first(&self.auth_tokens, &TokenWithId(id.to_owned())).is_some() {
            return Err(Error::UniqueViolation);
        }
        let row = AuthToken::new(id, trapp_id, name);
        proof {
            lemma_views_push(self.auth_tokens@, row);
        }
        self.auth_tokens.push(row);
        Ok(())
    }

    /// `SELECT id, trapp_id, name FROM auth_tokens WHERE ...`.
    pub fn select_auth_tokens<C: Condition<AuthToken>>(&self, c: &C) -> (rows: Vec<AuthToken>)
        ensures
            views(rows@) == self@.auth_tokens.filter(c.pred()),
    {
        select(&self.auth_tokens, c)
    }

    /// `SELECT id, trapp_id, name FROM auth_tokens WHERE ...`, asked for at most
    /// one row.
    pub fn select_auth_token<C: Condition<AuthToken>>(&self, c: &C) -> (row: Option<AuthToken>)
        ensures
            option_view(row) == first_where(self@.auth_tokens, c.pred()),
    {
        select_first(&self.auth_tokens, c)
    }

    /// `DELETE FROM auth_tokens WHERE ...`, answered with the number of rows
    /// that went.
    pub fn delete_auth_tokens<C: Condition<AuthToken>>(&mut self, c: &C) -> (affected: u64)
        ensures
            final(self)@ == old(self)@.delete_auth_tokens(c.pred()),
            affected == old(self)@.auth_tokens.filter(c.pred()).len(),
    {
        let affected = delete(&mut self.auth_tokens, c);
        affected as u64
    }

    /// `INSERT INTO rules (name, type_) VALUES (?, ?)`, answered with the id of
    /// the new row. It fails only where the counter has no id left.
    pub fn insert_rule(&mut self, name: &str, type_: i64) -> (r: Result<i64, Error>)
        ensures
            match r {
                Ok(id) => {
                    &&& old(self)@.last_rule_id < i64::MAX
                    &&& id == old(self)@.last_rule_id + 1
                    &&& final(self)@ == old(self)@.insert_rule(name@, type_ as int)
                },
                Err(e) => {
                    &&& e == Error::RowIdExhausted
                    &&& old(self)@.last_rule_id == i64::MAX
                    &&& final(self)@ == old(self)@
                },
            },
    {
        if self.last_rule_id == i64::MAX {
            return Err(Error::RowIdExhausted);
        }
        let id = self.last_rule_id + 1;
        let row = RuleRow { id: id, name: name.to_owned(), type_: type_ };
        proof {
            lemma_views_push(self.rules@, row);
        }
        self.rules.push(row);
        self.last_rule_id = id;
        Ok(id)
    }

    /// Takes back the `insert_rule` that ran last: its row goes and its id
    /// returns to the counter. Where `rules` is empty nothing changes.
    pub fn undo_insert_rule(&mut self)
        ensures
            final(self)@ == if old(self)@.rules.len() > 0 && old(self)@.last_rule_id > i64::MIN {
                old(self)@.undo_insert_rule()
            } else {
                old(self)@
            },
    {
        if self.rules.len() > 0 && self.last_rule_id > i64::MIN {
            proof {
                lemma_views_drop_last(self.rules@);
            }
            let _ = self.rules.pop();
            self.last_rule_id = self.last_rule_id - 1;
        }
    }

    /// `INSERT INTO rules_filter_trapp (rule_id, trapp_id) VALUES (?, ?)`. The
    /// primary key is looked at first, then the foreign key.
    pub fn insert_rule_filter_trapp(&mut self, rule_id: i64, trapp_id: i64) -> (r: Result<
        (),
        Error,
    >)
        ensures
            match r {
                Ok(()) => {
                    &&& !old(self)@.has_filter_trapp(rule_id as int)
                    &&& old(self)@.has_rule(rule_id as int)
                    &&& final(self)@ == old(self)@.insert_filter_trapp(
                        FilterTrappRowView { rule_id: rule_id as int, trapp_id: trapp_id as int },
                    )
                },
                Err(e) => {
                    &&& final(self)@ == old(self)@
                    &&& if old(self)@.has_filter_trapp(rule_id as int) {
                        e == Error::UniqueViolation
                    } else {
                        e == Error::ForeignKeyViolation && !old(self)@.has_rule(rule_id as int)
                    }
                },
            },
    {
        proof {
            lemma_filter_trapp_found(self@, rule_id as int);
            lemma_rule_found(self@, rule_id as int);
        }
        if select_first(&self.rules_filter_trapp, &FilterTrappOfRule(rule_id)).is_some() {
            return Err(Error::UniqueViolation);
        }
        if select_first(&self.rules, &RuleWithId(rule_id)).is_none() {
            return Err(Error::ForeignKeyViolation);
        }
        let row = FilterTrappRow { rule_id: rule_id, trapp_id: trapp_id };
        proof {
            lemma_views_push(self.rules_filter_trapp@, row);
        }
        self.rules_filter_trapp.push(row);
        Ok(())
    }

    /// `INSERT INTO rules_filter_field (rule_id, field_key, field_value) VALUES
    /// (?, ?, ?)`. The primary key is looked at first, then the foreign key.
    pub fn insert_rule_filter_field(
        &mut self,
        rule_id: i64,
        field_key: &str,
        field_value: &str,
    ) -> (r: Result<(), Error>)
        ensures
            match r {
                Ok(()) => {
                    &&& !old(self)@.has_filter_field(rule_id as int)
                    &&& old(self)@.has_rule(rule_id as int)
                    &&& final(self)@ == old(self)@.insert_filter_field(
                        FilterFieldRowView {
                            rule_id: rule_id as int,
                            field_key: field_key@,
                            field_value: field_value@,
                        },
                    )
                },
                Err(e) => {
                    &&& final(self)@ == old(self)@
                    &&& if old(self)@.has_filter_field(rule_id as int) {
                        e == Error::UniqueViolation
                    } else {
                        e == Error::ForeignKeyViolation && !old(self)@.has_rule(rule_id as int)
                    }
                },
            },
    {
        proof {
            lemma_filter_field_found(self@, rule_id as int);
            lemma_rule_found(self@, rule_id as int);
        }
        if select_first(&self.rules_filter_field, &FilterFieldOfRule(rule_id)).is_some() {
            return Err(Error::UniqueViolation);
        }
        if select_first(&self.rules, &RuleWithId(rule_id)).is_none() {
            return Err(Error::ForeignKeyViolation);
        }
        let row = FilterFieldRow {
            rule_id: rule_id,
            field_key: field_key.to_owned(),
            field_value: field_value.to_owned(),
        };
        proof {
            lemma_views_push(self.rules_filter_field@, row);
        }
        self.rules_filter_field.push(row);
        Ok(())
    }

    /// `SELECT id, type_, name FROM rules`.
    pub fn select_rules(&self) -> (rows: Vec<RuleRow>)
        ensures
            views(rows@) == self@.rules,
    {
        scan(&self.rules)
    }

    /// `SELECT rule_id, trapp_id FROM rules_filter_trapp WHERE rule_id = ?`,
    /// asked for at most one row.
    pub fn select_rule_filter_trapp(&self, rule_id: i64) -> (row: Option<FilterTrappRow>)
        ensures
            option_view(row) == first_where(
                self@.rules_filter_trapp,
                filter_trapp_of_rule(rule_id as int),
            ),
    {
        select_first(&self.rules_filter_trapp, &FilterTrappOfRule(rule_id))
    }

    /// `SELECT rule_id, field_key, field_value FROM rules_filter_field WHERE
    /// rule_id = ?`, asked for at most one row.
    pub fn select_rule_filter_field(&self, rule_id: i64) -> (row: Option<FilterFieldRow>)
        ensures
            option_view(row) == first_where(
                self@.rules_filter_field,
                filter_field_of_rule(rule_id as int),
            ),
    {
        select_first(&self.rules_filter_field, &FilterFieldOfRule(rule_id))
    }
}

/// Where a pool is in its life. A pool is built `Migrating` and handed to
/// its owner `Ready`; from then on it is `Ready` while its connection is at
/// home, `Acquiring` while the connection is out, and `Closed` for good once it
/// was closed.
#[derive(Copy, Clone, Debug, PartialEq, Eq, Structural)]
pub enum PoolState {
    Migrating,
    Ready,
    Acquiring,
    Closed,
}

/// The pool of connections to one store. The store admits one connection at a
/// time, so the pool hands its connection out and takes it back; a caller that
/// asks while the connection is out is told that the wait timed out.
pub struct Pool {
    url: String,
    size: u32,
    state: PoolState,
    idle: Option<Connection>,
}

impl Pool {
    pub closed spec fn state(&self) -> PoolState {
        self.state
    }

    /// The number of connections the pool was built for.
    pub closed spec fn capacity(&self) -> u32 {
        self.size
    }

    /// The address of the store.
    pub closed spec fn address(&self) -> Seq<char> {
        self.url@
    }

    /// What the store holds, as the connection at home shows it.
    pub closed spec fn tables(&self) -> Tables {
        self.idle->0@
    }

    /// The connection is at home exactly while the pool is `Ready`, it is
    /// well-formed, and the pool was built for at least one connection.
    pub closed spec fn wf(&self) -> bool {
        &&& self.size > 0
        &&& self.idle is Some <==> self.state == PoolState::Ready
        &&& self.idle is Some ==> self.idle->0.wf()
    }

    pub fn builder() -> (builder: PoolBuilder)
        ensures
            builder@ == (PoolBuilderView { url: Seq::empty(), pool_size: 0 }),
    {
        PoolBuilder::default()
    }

    /// The number of connections the pool was built for.
    pub fn size(&self) -> (size: u32)
        ensures
            size == self.capacity(),
    {
        self.size
    }

    /// The address of the store.
    pub fn url(&self) -> (url: &str)
        ensures
            url@ == self.address(),
    {
        self.url.as_str()
    }

    pub fn is_closed(&self) -> (closed: bool)
        ensures
            closed == (self.state() == PoolState::Closed),
    {
        match self.state {
            PoolState::Closed => true,
            _ => false,
        }
    }

    /// Hands out the connection. Only a `Ready` pool does: a closed pool says
    /// so, and any other pool lets the wait time out. The connection shows
    /// what the store held when it was last at home, in a migrated schema.
    pub fn acquire(&mut self) -> (r: Result<Connection, Error>)
        requires
            old(self).wf(),
        ensures
            final(self).wf(),
            final(self).capacity() == old(self).capacity(),
            final(self).address() == old(self).address(),
            match old(self).state() {
                PoolState::Ready => {
                    &&& r matches Ok(conn) && conn.wf() && conn@ == old(self).tables()
                    &&& final(self).state() == PoolState::Acquiring
                },
                PoolState::Closed => {
                    &&& r matches Err(e) && e == Error::PoolClosed
                    &&& final(self).state() == PoolState::Closed
                },
                _ => {
                    &&& r matches Err(e) && e == Error::PoolTimedOut
                    &&& final(self).state() == old(self).state()
                },
            },
    {
        match self.state {
            PoolState::Ready => {
                let idle = self.idle.take();
                match idle {
                    Some(conn) => {
                        self.state = PoolState::Acquiring;
                        Ok(conn)
                    },
                    None => Err(Error::PoolTimedOut),
                }
            },
            PoolState::Closed => Err(Error::PoolClosed),
            _ => Err(Error::PoolTimedOut),
        }
    }

    /// Takes the connection back. A pool whose connection is out is `Ready`
    /// again and holds what the connection shows; any other pool lets the
    /// connection go and stays as it is.
    pub fn release(&mut self, conn: Connection)
        requires
            old(self).wf(),
            conn.wf(),
        ensures
            final(self).wf(),
            final(self).capacity() == old(self).capacity(),
            final(self).address() == old(self).address(),
            match old(self).state() {
                PoolState::Acquiring => {
                    &&& final(self).state() == PoolState::Ready
                    &&& final(self).tables() == conn@
                },
                PoolState::Ready => {
                    &&& final(self).state() == PoolState::Ready
                    &&& final(self).tables() == old(self).tables()
                },
                _ => final(self).state() == old(self).state(),
            },
    {
        match self.state {
            PoolState::Acquiring => {
                self.idle = Some(conn);
                self.state = PoolState::Ready;
            },
            _ => {},
        }
    }

    /// Applies the migrations that are pending. A pool that was just built
    /// gets its schema and is `Ready`; a `Ready` pool has none pending and
    /// stays as it is. A pool whose connection is out cannot migrate, nor can a
    /// closed one.
    pub fn migrate(&mut self) -> (r: Result<(), Error>)
        requires
            old(self).wf(),
        ensures
            final(self).wf(),
            final(self).capacity() == old(self).capacity(),
            final(self).address() == old(self).address(),
            match old(self).state() {
                PoolState::Migrating => {
                    &&& r is Ok
                    &&& final(self).state() == PoolState::Ready
                    &&& final(self).tables() == Tables::empty()
                },
                PoolState::Ready => {
                    &&& r is Ok
                    &&& final(self).state() == PoolState::Ready
                    &&& final(self).tables() == old(self).tables()
                },
                PoolState::Acquiring => {
                    &&& r matches Err(e) && e == Error::PoolTimedOut
                    &&& final(self).state() == PoolState::Acquiring
                },
                PoolState::Closed => {
                    &&& r matches Err(e) && e == Error::PoolClosed
                    &&& final(self).state() == PoolState::Closed
                },
            },
    {
        match self.state {
            PoolState::Migrating => {
                self.idle = Some(Connection::open());
                self.state = PoolState::Ready;
                Ok(())
            },
            PoolState::Ready => Ok(()),
            PoolState::Acquiring => Err(Error::PoolTimedOut),
            PoolState::Closed => Err(Error::PoolClosed),
        }
    }

    /// Closes the pool for good. A connection that is out stays with its
    /// holder and is let go when it comes back.
    pub fn close(&mut self)
        requires
            old(self).wf(),
        ensures
            final(self).wf(),
            final(self).state() == PoolState::Closed,
            final(self).capacity() == old(self).capacity(),
            final(self).address() == old(self).address(),
    {
        self.idle = None;
        self.state = PoolState::Closed;
    }
}

/// What a pool is to be built from, as mathematical values.
pub struct PoolBuilderView {
    pub url: Seq<char>,
    pub pool_size: u32,
}

/// Collects the address of the store and the size of the pool.
pub struct PoolBuilder {
    url: String,
    pool_size: u32,
}

impl View for PoolBuilder {
    type V = PoolBuilderView;

    closed spec fn view(&self) -> PoolBuilderView {
        PoolBuilderView { url: self.url@, pool_size: self.pool_size }
    }
}

impl Default for PoolBuilder {
    fn default() -> (builder: Self)
        ensures
            builder@ == (PoolBuilderView { url: Seq::empty(), pool_size: 0 }),
    {
        PoolBuilder { url: String::new(), pool_size: 0 }
    }
}

impl PoolBuilder {
    pub fn from_config(self, config: &config::Database) -> (builder: Self)
        ensures
            builder@ == (PoolBuilderView { url: config.url@, pool_size: config.pool_size }),
    {
        self.url(config.url.as_str()).pool_size(config.pool_size)
    }

    pub fn url(self, url: &str) -> (builder: Self)
        ensures
            builder@ == (PoolBuilderView { url: url@, pool_size: self@.pool_size }),
    {
        PoolBuilder { url: url.to_owned(), pool_size: self.pool_size }
    }

    pub fn pool_size(self, pool_size: u32) -> (builder: Self)
        ensures
            builder@ == (PoolBuilderView { url: self@.url, pool_size }),
    {
        PoolBuilder { url: self.url, pool_size: pool_size }
    }

    /// Builds the pool and applies the migrations before anybody gets it: the
    /// pool that comes back is `Ready` over a store with a fresh schema. A
    /// pool for no connection cannot get the one it migrates on, and is not
    /// built.
    pub fn build(&mut self) -> (r: Result<Pool, Error>)
        ensures
            final(self)@ == old(self)@,
            match r {
                Ok(pool) => {
                    &&& old(self)@.pool_size > 0
                    &&& pool.wf()
                    &&& pool.state() == PoolState::Ready
                    &&& pool.tables() == Tables::empty()
                    &&& pool.capacity() == old(self)@.pool_size
                    &&& pool.address() == old(self)@.url
                },
                Err(e) => old(self)@.pool_size == 0 && e == Error::PoolTimedOut,
            },
    {
        if self.pool_size == 0 {
            return Err(Error::PoolTimedOut);
        }
        let mut pool = Pool {
            url: self.url.clone(),
            size: self.pool_size,
            state: PoolState::Migrating,
            idle: None,
        };
        match pool.migrate() {
            Ok(()) => Ok(pool),
            Err(e) => Err(e),
        }
    }
}

/// Connects to a fresh store at the default address: builds its pool and takes
/// the connection.
pub fn establish_connection() -> (r: Result<Connection, Error>)
    ensures
        r matches Ok(conn) && conn.wf() && conn@ == Tables::empty(),
{
    let mut builder = Pool::builder().from_config(&config::Database::default());
    match builder.build() {
        Ok(mut pool) => pool.acquire(),
        Err(e) => Err(e),
    }
}

} // verus!
