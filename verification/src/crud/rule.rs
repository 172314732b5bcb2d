use super::Error;
use crate::database;
use crate::database::Connection;
use crate::models::{
    NewRule, NewRuleFilterField, NewRuleFilterTrapp, RuleFilterField, RuleFilterFieldView,
    RuleFilterTrapp, RuleFilterTrappView, RuleType, StoredRule, StoredRuleView,
};
use crate::schema::{
    filter_field_of_rule, filter_trapp_of_rule, lemma_filter_field_found, lemma_filter_trapp_found,
    lemma_insert_filter_field, lemma_insert_filter_trapp, lemma_insert_rule, rule_has_payload,
    FilterFieldRowView, FilterTrappRowView, RuleRowView, Tables,
};
use crate::table::{first_where, views};
use std::convert::TryFrom;
use vstd::prelude::*;

verus! {

/// The rule that a row of `rules` stands for, if it filters by trapp: the row
/// and the payload that `rules_filter_trapp` holds for it.
pub open spec fn resolved_filter_trapp(t: Tables, id: int, name: Seq<char>) -> Result<
    StoredRuleView,
    Error,
> {
    match first_where(t.rules_filter_trapp, filter_trapp_of_rule(id)) {
        Some(payload) => Ok(
            StoredRuleView::FilterTrapp(
                RuleFilterTrappView { id, name, trapp_id: payload.trapp_id },
            ),
        ),
        None => Err(Error::RuleWithoutPayload),
    }
}

/// The rule that a row of `rules` stands for, if it filters by field: the row
/// and the payload that `rules_filter_field` holds for it.
pub open spec fn resolved_filter_field(t: Tables, id: int, name: Seq<char>) -> Result<
    StoredRuleView,
    Error,
> {
    match first_where(t.rules_filter_field, filter_field_of_rule(id)) {
        Some(payload) => Ok(
            StoredRuleView::FilterField(
                RuleFilterFieldView {
                    id,
                    name,
                    field_key: payload.field_key,
                    field_value: payload.field_value,
                },
            ),
        ),
        None => Err(Error::RuleWithoutPayload),
    }
}

/// The rule that a row of `rules` stands for. The discriminator alone decides
/// which payload table is read; one that names no kind is an error, never a
/// guess.
pub open spec fn resolved(t: Tables, id: int, name: Seq<char>, type_: int) -> Result<
    StoredRuleView,
    Error,
> {
    match RuleType::of_discriminant(type_) {
        Some(RuleType::FilterTrapp) => resolved_filter_trapp(t, id, name),
        Some(RuleType::FilterField) => resolved_filter_field(t, id, name),
        None => Err(Error::UnrecognizedRuleType),
    }
}

/// Builds the rule `id` that filters by trapp from its payload row.
pub fn resolve_rule_filter_trapp(conn: &mut Connection, id: i64, name: &str) -> (r: Result<
    StoredRule,
    Error,
>)
    ensures
        final(conn)@ == old(conn)@,
        match r {
            Ok(rule) => Ok::<StoredRuleView, Error>(rule@) == resolved_filter_trapp(
                old(conn)@,
                id as int,
                name@,
            ),
            Err(e) => Err::<StoredRuleView, Error>(e) == resolved_filter_trapp(
                old(conn)@,
                id as int,
                name@,
            ),
        },
{
    match conn.select_rule_filter_trapp(id) {
        Some(payload) => Ok(StoredRule::FilterTrapp(RuleFilterTrapp::new(id, name, payload.trapp_id))),
        None => Err(Error::RuleWithoutPayload),
    }
}

/// Builds the rule `id` that filters by field from its payload row.
pub fn resolve_rule_filter_field(conn: &mut Connection, id: i64, name: &str) -> (r: Result<
    StoredRule,
    Error,
>)
    ensures
        final(conn)@ == old(conn)@,
        match r {
            Ok(rule) => Ok::<StoredRuleView, Error>(rule@) == resolved_filter_field(
                old(conn)@,
                id as int,
                name@,
            ),
            Err(e) => Err::<StoredRuleView, Error>(e) == resolved_filter_field(
                old(conn)@,
                id as int,
                name@,
            ),
        },
{
    match conn.select_rule_filter_field(id) {
        Some(payload) => Ok(
            StoredRule::FilterField(
                RuleFilterField::new(
                    id,
                    name,
                    payload.field_key.as_str(),
                    payload.field_value.as_str(),
                ),
            ),
        ),
        None => Err(Error::RuleWithoutPayload),
    }
}

/// Builds the rule that the row `(id, name, type_)` of `rules` stands for.
pub fn resolve_rule(conn: &mut Connection, id: i64, name: &str, type_: i64) -> (r: Result<
    StoredRule,
    Error,
>)
    ensures
        final(conn)@ == old(conn)@,
        match r {
            Ok(rule) => Ok::<StoredRuleView, Error>(rule@) == resolved(
                old(conn)@,
                id as int,
                name@,
                type_ as int,
            ),
            Err(e) => Err::<StoredRuleView, Error>(e) == resolved(
                old(conn)@,
                id as int,
                name@,
                type_ as int,
            ),
        },
{
    match RuleType::try_from(type_) {
        Ok(RuleType::FilterTrapp) => resolve_rule_filter_trapp(conn, id, name),
        Ok(RuleType::FilterField) => resolve_rule_filter_field(conn, id, name),
        Err(_) => Err(Error::UnrecognizedRuleType),
    }
}

/// Every rule of a well-formed store resolves.
pub proof fn lemma_complete_rules_resolve(t: Tables, i: int)
    requires
        t.wf(),
        0 <= i < t.rules.len(),
    ensures
        resolved_row(t, i) is Ok,
{
    let row = t.rules[i];
    assert(rule_has_payload(row, t.rules_filter_trapp, t.rules_filter_field));
    lemma_filter_trapp_found(t, row.id);
    lemma_filter_field_found(t, row.id);
}

/// What the row `i` of `rules` resolves to.
pub open spec fn resolved_row(t: Tables, i: int) -> Result<StoredRuleView, Error> {
    resolved(t, t.rules[i].id, t.rules[i].name, t.rules[i].type_)
}

/// All rules, in storage order, each resolved to its kind. A rule that does not
/// resolve is not passed over: the first such rule fails the whole listing with
/// its error. In a well-formed store every rule resolves.
pub fn get_rules(conn: &mut Connection) -> (r: Result<Vec<StoredRule>, Error>)
    ensures
        final(conn)@ == old(conn)@,
        match r {
            Ok(rules) => {
                &&& rules@.len() == old(conn)@.rules.len()
                &&& forall|i: int|
                    0 <= i < rules@.len() ==> resolved_row(old(conn)@, i) == Ok::<
                        StoredRuleView,
                        Error,
                    >((#[trigger] rules@[i])@)
            },
            Err(e) => exists|k: int|
                {
                    &&& 0 <= k < old(conn)@.rules.len()
                    &&& #[trigger] resolved_row(old(conn)@, k) == Err::<StoredRuleView, Error>(e)
                    &&& forall|i: int| 0 <= i < k ==> (#[trigger] resolved_row(old(conn)@, i)) is Ok
                },
        },
        old(conn).wf() ==> r is Ok,
{
    let rows = conn.select_rules();
    let mut rules: Vec<StoredRule> = Vec::new();
    let ghost t = conn@;
    let mut i: usize = 0;
    while i < rows.len()
        invariant
            i <= rows.len(),
            conn@ == t,
            t == old(conn)@,
            views(rows@) == t.rules,
            rules@.len() == i,
            forall|k: int|
                0 <= k < i ==> resolved_row(t, k) == Ok::<StoredRuleView, Error>(
                    (#[trigger] rules@[k])@,
                ),
        decreases rows.len() - i,
    {
        proof {
            assert(views(rows@)[i as int] == rows@[i as int]@);
            if t.wf() {
                lemma_complete_rules_resolve(t, i as int);
            }
        }
        match resolve_rule(conn, rows[i].id, rows[i].name.as_str(), rows[i].type_) {
            Ok(rule) => {
                rules.push(rule);
            },
            Err(e) => {
                proof {
                    assert(resolved_row(t, i as int) == Err::<StoredRuleView, Error>(e));
                    assert forall|k: int| 0 <= k < i implies (#[trigger] resolved_row(t, k)) is Ok by {
                        assert(resolved_row(t, k) == Ok::<StoredRuleView, Error>(rules@[k]@));
                    }
                }
                return Err(e);
            },
        }
        i += 1;
    }
    proof {
        assert(views(rows@).len() == rows@.len());
    }
    Ok(rules)
}

/// A rule that can be stored: it says what payload it has, and puts it into the
/// payload table of its kind.
pub trait CreateRule: NewRule {
    /// The tables after the payload of this rule went in under the id `id`.
    spec fn stored(&self, t: Tables, id: int) -> Tables;

    /// Whether the payload goes in, and if not, why.
    spec fn outcome(&self, t: Tables, id: int) -> Result<(), Error>;

    /// Stores the payload of this rule under the id `id` of its parent row,
    /// which was inserted last. Where it fails it leaves the store as it was.
    fn create(&self, conn: &mut Connection, id: i64) -> (r: Result<(), Error>)
        requires
            old(conn)@.awaits_payload(id as int, self.rule_type()),
        ensures
            r == self.outcome(old(conn)@, id as int),
            r is Ok ==> final(conn).wf() && final(conn)@ == self.stored(old(conn)@, id as int),
            r is Err ==> final(conn)@ == old(conn)@,
    ;
}

impl CreateRule for NewRuleFilterTrapp {
    open spec fn stored(&self, t: Tables, id: int) -> Tables {
        t.insert_filter_trapp(FilterTrappRowView { rule_id: id, trapp_id: self.trapp_id as int })
    }

    open spec fn outcome(&self, t: Tables, id: int) -> Result<(), Error> {
        Ok(())
    }

    fn create(&self, conn: &mut Connection, id: i64) -> (r: Result<(), Error>) {
        proof {
            lemma_insert_filter_trapp(
                conn@,
                FilterTrappRowView { rule_id: id as int, trapp_id: self.trapp_id as int },
            );
            assert(conn@.rules[conn@.rules.len() - 1].id == id);
        }
        match conn.insert_rule_filter_trapp(id, self.trapp_id) {
            Ok(()) => Ok(()),
            Err(e) => Err(Error::Database(e)),
        }
    }
}

impl CreateRule for NewRuleFilterField {
    open spec fn stored(&self, t: Tables, id: int) -> Tables {
        t.insert_filter_field(
            FilterFieldRowView {
                rule_id: id,
                field_key: self.field_key@,
                field_value: self.field_value@,
            },
        )
    }

    open spec fn outcome(&self, t: Tables, id: int) -> Result<(), Error> {
        Ok(())
    }

    fn create(&self, conn: &mut Connection, id: i64) -> (r: Result<(), Error>) {
        proof {
            lemma_insert_filter_field(
                conn@,
                FilterFieldRowView {
                    rule_id: id as int,
                    field_key: self.field_key@,
                    field_value: self.field_value@,
                },
            );
            assert(conn@.rules[conn@.rules.len() - 1].id == id);
        }
        match conn.insert_rule_filter_field(
            id,
            self.field_key.as_str(),
            self.field_value.as_str(),
        ) {
            Ok(()) => Ok(()),
            Err(e) => Err(Error::Database(e)),
        }
    }
}

/// The tables in the middle of creating a rule named `name` of the kind `kind`:
/// the parent row is in, the payload is not.
pub open spec fn with_parent_row(t: Tables, name: Seq<char>, kind: RuleType) -> Tables {
    t.insert_rule(name, kind.spec_discriminant())
}

/// Stores `rule` and answers with the id the store gave it: the one after the
/// last id given out. The parent row goes in first, under the discriminator of
/// the rule's kind, then the payload under the id of the parent row. Both go in
/// or neither does: where the payload is refused the parent row is taken back.
pub fn create_rule<R: CreateRule>(conn: &mut Connection, rule: R) -> (r: Result<i64, Error>)
    requires
        old(conn).wf(),
    ensures
        final(conn).wf(),
        if old(conn)@.last_rule_id == i64::MAX {
            &&& r == Err::<i64, Error>(Error::Database(database::Error::RowIdExhausted))
            &&& final(conn)@ == old(conn)@
        } else {
            let id = old(conn)@.last_rule_id + 1;
            let pending = with_parent_row(old(conn)@, rule.rule_name(), rule.rule_type());
            match rule.outcome(pending, id) {
                Ok(()) => r == Ok::<i64, Error>(id as i64) && final(conn)@ == rule.stored(pending, id),
                Err(e) => r == Err::<i64, Error>(e) && final(conn)@ == old(conn)@,
            }
        },
{
    let ghost before = conn@;
    let kind = rule.type_();
    let id = match conn.insert_rule(rule.name(), kind.discriminant()) {
        Ok(id) => id,
        Err(e) => {
            return Err(Error::Database(e));
        },
    };
    proof {
        lemma_insert_rule(before, rule.rule_name(), kind);
    }
    match rule.create(conn, id) {
        Ok(()) => Ok(id),
        Err(e) => {
            conn.undo_insert_rule();
            Err(e)
        },
    }
}

/// Rule round trip, for a rule that filters by trapp: once created it is the
/// last rule of the store, carries the discriminator of its kind, and resolves
/// to a rule of that kind with the id it was given and the fields it was
/// created with.
pub proof fn created_filter_trapp_rule_resolves(t: Tables, rule: NewRuleFilterTrapp)
    requires
        t.wf(),
        t.last_rule_id < i64::MAX,
    ensures
        ({
            let id = t.last_rule_id + 1;
            let u = rule.stored(with_parent_row(t, rule.name@, RuleType::FilterTrapp), id);
            &&& u.wf()
            &&& u.rules == t.rules.push(
                RuleRowView { id, name: rule.name@, type_: RuleType::FilterTrapp.spec_discriminant() },
            )
            &&& RuleType::of_discriminant(u.rules.last().type_) == Some(RuleType::FilterTrapp)
            &&& resolved(u, id, rule.name@, u.rules.last().type_) == Ok::<StoredRuleView, Error>(
                StoredRuleView::FilterTrapp(
                    RuleFilterTrappView { id, name: rule.name@, trapp_id: rule.trapp_id as int },
                ),
            )
        }),
{
    let id = t.last_rule_id + 1;
    lemma_insert_rule(t, rule.name@, RuleType::FilterTrapp);
    lemma_insert_filter_trapp(
        with_parent_row(t, rule.name@, RuleType::FilterTrapp),
        FilterTrappRowView { rule_id: id, trapp_id: rule.trapp_id as int },
    );
}

/// Rule round trip, for a rule that filters by field: once created it is the
/// last rule of the store, carries the discriminator of its kind, and resolves
/// to a rule of that kind with the id it was given and the fields it was
/// created with.
pub proof fn created_filter_field_rule_resolves(t: Tables, rule: NewRuleFilterField)
    requires
        t.wf(),
        t.last_rule_id < i64::MAX,
    ensures
        ({
            let id = t.last_rule_id + 1;
            let u = rule.stored(with_parent_row(t, rule.name@, RuleType::FilterField), id);
            &&& u.wf()
            &&& u.rules == t.rules.push(
                RuleRowView { id, name: rule.name@, type_: RuleType::FilterField.spec_discriminant() },
            )
            &&& RuleType::of_discriminant(u.rules.last().type_) == Some(RuleType::FilterField)
            &&& resolved(u, id, rule.name@, u.rules.last().type_) == Ok::<StoredRuleView, Error>(
                StoredRuleView::FilterField(
                    RuleFilterFieldView {
                        id,
                        name: rule.name@,
                        field_key: rule.field_key@,
                        field_value: rule.field_value@,
                    },
                ),
            )
        }),
{
    let id = t.last_rule_id + 1;
    lemma_insert_rule(t, rule.name@, RuleType::FilterField);
    lemma_insert_filter_field(
        with_parent_row(t, rule.name@, RuleType::FilterField),
        FilterFieldRowView { rule_id: id, field_key: rule.field_key@, field_value: rule.field_value@ },
    );
}

} // verus!
