use crate::models::{AuthToken, AuthTokenView, RuleType, Trapp, TrappView};
use crate::table::{
    all_referred, first_where, keys_distinct, lemma_filter_distinct, lemma_filter_empty,
    lemma_filter_members, lemma_filter_unchanged, lemma_first_where, lemma_first_where_key, negate,
    referred, Condition, Keyed, Reference, Row,
};
use vstd::prelude::*;

verus! {

impl Row for Trapp {
    fn duplicate(&self) -> (copy: Self) {
        self.clone()
    }
}

impl Row for AuthToken {
    fn duplicate(&self) -> (copy: Self) {
        self.clone()
    }
}

impl Keyed for Trapp {
    type Key = int;

    open spec fn key(v: TrappView) -> int {
        v.id
    }

    fn same_key(&self, other: &Self) -> (same: bool) {
        self.id == other.id
    }
}

impl Keyed for AuthToken {
    type Key = Seq<char>;

    open spec fn key(v: AuthTokenView) -> Seq<char> {
        v.id
    }

    fn same_key(&self, other: &Self) -> (same: bool) {
        self.id == other.id
    }
}

impl Reference<Trapp> for AuthToken {
    open spec fn target(v: AuthTokenView) -> spec_fn(TrappView) -> bool {
        trapp_with_id(v.trapp_id)
    }

    fn refers_to(&self, parent: &Trapp) -> (refers: bool) {
        parent.id == self.trapp_id
    }
}

/// The trapps whose id is `id`.
pub open spec fn trapp_with_id(id: int) -> spec_fn(TrappView) -> bool {
    |row: TrappView| row.id == id
}

/// The auth tokens whose id is `id`.
pub open spec fn token_with_id(id: Seq<char>) -> spec_fn(AuthTokenView) -> bool {
    |row: AuthTokenView| row.id == id
}

/// The auth tokens that belong to the trapp `trapp_id`.
pub open spec fn token_of_trapp(trapp_id: int) -> spec_fn(AuthTokenView) -> bool {
    |row: AuthTokenView| row.trapp_id == trapp_id
}

/// The auth tokens whose id is `id` and that belong to the trapp `trapp_id`.
pub open spec fn token_of_trapp_with_id(trapp_id: int, id: Seq<char>) -> spec_fn(
    AuthTokenView,
) -> bool {
    |row: AuthTokenView| row.id == id && row.trapp_id == trapp_id
}

/// `WHERE id = ?` on `trapps`.
pub struct TrappWithId(pub i64);

impl Condition<Trapp> for TrappWithId {
    open spec fn pred(&self) -> spec_fn(TrappView) -> bool {
        trapp_with_id(self.0 as int)
    }

    fn test(&self, row: &Trapp) -> (holds: bool) {
        row.id == self.0
    }
}

/// `WHERE id = ?` on `auth_tokens`.
pub struct TokenWithId(pub String);

impl Condition<AuthToken> for TokenWithId {
    open spec fn pred(&self) -> spec_fn(AuthTokenView) -> bool {
        token_with_id(self.0@)
    }

    fn test(&self, row: &AuthToken) -> (holds: bool) {
        row.id == self.0
    }
}

/// `WHERE trapp_id = ?` on `auth_tokens`.
pub struct TokenOfTrapp(pub i64);

impl Condition<AuthToken> for TokenOfTrapp {
    open spec fn pred(&self) -> spec_fn(AuthTokenView) -> bool {
        token_of_trapp(self.0 as int)
    }

    fn test(&self, row: &AuthToken) -> (holds: bool) {
        row.trapp_id == self.0
    }
}

/// `WHERE id = ? AND trapp_id = ?` on `auth_tokens`.
pub struct TokenOfTrappWithId(pub i64, pub String);

impl Condition<AuthToken> for TokenOfTrappWithId {
    open spec fn pred(&self) -> spec_fn(AuthTokenView) -> bool {
        token_of_trapp_with_id(self.0 as int, self.1@)
    }

    fn test(&self, row: &AuthToken) -> (holds: bool) {
        row.id == self.1 && row.trapp_id == self.0
    }
}


/// A row of the parent table `rules`, as mathematical values.
pub struct RuleRowView {
    pub id: int,
    pub name: Seq<char>,
    pub type_: int,
}

/// A row of the parent table `rules`: what every rule has, and the
/// discriminator that names the table its payload is in.
#[derive(Debug, PartialEq)]
pub struct RuleRow {
    pub id: i64,
    pub name: String,
    pub type_: i64,
}

impl View for RuleRow {
    type V = RuleRowView;

    open spec fn view(&self) -> RuleRowView {
        RuleRowView { id: self.id as int, name: self.name@, type_: self.type_ as int }
    }
}

impl Row for RuleRow {
    fn duplicate(&self) -> (copy: Self) {
        RuleRow { id: self.id, name: self.name.clone(), type_: self.type_ }
    }
}

/// A row of `rules_filter_trapp`, as mathematical values.
pub struct FilterTrappRowView {
    pub rule_id: int,
    pub trapp_id: int,
}

/// A row of `rules_filter_trapp`: the payload of a rule that filters by trapp.
#[derive(Debug, PartialEq)]
pub struct FilterTrappRow {
    pub rule_id: i64,
    pub trapp_id: i64,
}

impl View for FilterTrappRow {
    type V = FilterTrappRowView;

    open spec fn view(&self) -> FilterTrappRowView {
        FilterTrappRowView { rule_id: self.rule_id as int, trapp_id: self.trapp_id as int }
    }
}

impl Row for FilterTrappRow {
    fn duplicate(&self) -> (copy: Self) {
        FilterTrappRow { rule_id: self.rule_id, trapp_id: self.trapp_id }
    }
}

/// A row of `rules_filter_field`, as mathematical values.
pub struct FilterFieldRowView {
    pub rule_id: int,
    pub field_key: Seq<char>,
    pub field_value: Seq<char>,
}

/// A row of `rules_filter_field`: the payload of a rule that filters by field.
#[derive(Debug, PartialEq)]
pub struct FilterFieldRow {
    pub rule_id: i64,
    pub field_key: String,
    pub field_value: String,
}

impl View for FilterFieldRow {
    type V = FilterFieldRowView;

    open spec fn view(&self) -> FilterFieldRowView {
        FilterFieldRowView {
            rule_id: self.rule_id as int,
            field_key: self.field_key@,
            field_value: self.field_value@,
        }
    }
}

impl Row for FilterFieldRow {
    fn duplicate(&self) -> (copy: Self) {
        FilterFieldRow {
            rule_id: self.rule_id,
            field_key: self.field_key.clone(),
            field_value: self.field_value.clone(),
        }
    }
}

impl Keyed for RuleRow {
    type Key = int;

    open spec fn key(v: RuleRowView) -> int {
        v.id
    }

    fn same_key(&self, other: &Self) -> (same: bool) {
        self.id == other.id
    }
}

impl Keyed for FilterTrappRow {
    type Key = int;

    open spec fn key(v: FilterTrappRowView) -> int {
        v.rule_id
    }

    fn same_key(&self, other: &Self) -> (same: bool) {
        self.rule_id == other.rule_id
    }
}

impl Keyed for FilterFieldRow {
    type Key = int;

    open spec fn key(v: FilterFieldRowView) -> int {
        v.rule_id
    }

    fn same_key(&self, other: &Self) -> (same: bool) {
        self.rule_id == other.rule_id
    }
}

impl Reference<RuleRow> for FilterTrappRow {
    open spec fn target(v: FilterTrappRowView) -> spec_fn(RuleRowView) -> bool {
        rule_with_id(v.rule_id)
    }

    fn refers_to(&self, parent: &RuleRow) -> (refers: bool) {
        parent.id == self.rule_id
    }
}

impl Reference<RuleRow> for FilterFieldRow {
    open spec fn target(v: FilterFieldRowView) -> spec_fn(RuleRowView) -> bool {
        rule_with_id(v.rule_id)
    }

    fn refers_to(&self, parent: &RuleRow) -> (refers: bool) {
        parent.id == self.rule_id
    }
}

/// The rules whose id is `id`.
pub open spec fn rule_with_id(id: int) -> spec_fn(RuleRowView) -> bool {
    |row: RuleRowView| row.id == id
}

/// The trapp payloads of the rule `rule_id`.
pub open spec fn filter_trapp_of_rule(rule_id: int) -> spec_fn(FilterTrappRowView) -> bool {
    |row: FilterTrappRowView| row.rule_id == rule_id
}

/// The field payloads of the rule `rule_id`.
pub open spec fn filter_field_of_rule(rule_id: int) -> spec_fn(FilterFieldRowView) -> bool {
    |row: FilterFieldRowView| row.rule_id == rule_id
}

/// `WHERE id = ?` on `rules`.
pub struct RuleWithId(pub i64);

impl Condition<RuleRow> for RuleWithId {
    open spec fn pred(&self) -> spec_fn(RuleRowView) -> bool {
        rule_with_id(self.0 as int)
    }

    fn test(&self, row: &RuleRow) -> (holds: bool) {
        row.id == self.0
    }
}

/// `WHERE rule_id = ?` on `rules_filter_trapp`.
pub struct FilterTrappOfRule(pub i64);

impl Condition<FilterTrappRow> for FilterTrappOfRule {
    open spec fn pred(&self) -> spec_fn(FilterTrappRowView) -> bool {
        filter_trapp_of_rule(self.0 as int)
    }

    fn test(&self, row: &FilterTrappRow) -> (holds: bool) {
        row.rule_id == self.0
    }
}

/// `WHERE rule_id = ?` on `rules_filter_field`.
pub struct FilterFieldOfRule(pub i64);

impl Condition<FilterFieldRow> for FilterFieldOfRule {
    open spec fn pred(&self) -> spec_fn(FilterFieldRowView) -> bool {
        filter_field_of_rule(self.0 as int)
    }

    fn test(&self, row: &FilterFieldRow) -> (holds: bool) {
        row.rule_id == self.0
    }
}

/// Some trapp of `rows` has the id `id`.
pub open spec fn trapps_include(rows: Seq<TrappView>, id: int) -> bool {
    exists|i: int| 0 <= i < rows.len() && (#[trigger] rows[i]).id == id
}

/// Some auth token of `rows` has the id `id`.
pub open spec fn auth_tokens_include(rows: Seq<AuthTokenView>, id: Seq<char>) -> bool {
    exists|i: int| 0 <= i < rows.len() && (#[trigger] rows[i]).id == id
}

/// Some rule of `rows` has the id `id`.
pub open spec fn rules_include(rows: Seq<RuleRowView>, id: int) -> bool {
    exists|i: int| 0 <= i < rows.len() && (#[trigger] rows[i]).id == id
}

/// Some trapp payload of `rows` belongs to the rule `rule_id`.
pub open spec fn filter_trapps_include(rows: Seq<FilterTrappRowView>, rule_id: int) -> bool {
    exists|i: int| 0 <= i < rows.len() && (#[trigger] rows[i]).rule_id == rule_id
}

/// Some field payload of `rows` belongs to the rule `rule_id`.
pub open spec fn filter_fields_include(rows: Seq<FilterFieldRowView>, rule_id: int) -> bool {
    exists|i: int| 0 <= i < rows.len() && (#[trigger] rows[i]).rule_id == rule_id
}

/// The rule `row` has a known discriminator, and the payload table that the
/// discriminator names holds a row for it.
pub open spec fn rule_has_payload(
    row: RuleRowView,
    filter_trapps: Seq<FilterTrappRowView>,
    filter_fields: Seq<FilterFieldRowView>,
) -> bool {
    match RuleType::of_discriminant(row.type_) {
        Some(RuleType::FilterTrapp) => filter_trapps_include(filter_trapps, row.id),
        Some(RuleType::FilterField) => filter_fields_include(filter_fields, row.id),
        None => false,
    }
}

/// The five tables as mathematical values, each in storage order, and the last
/// id each of the two counters gave out.
pub struct Tables {
    pub trapps: Seq<TrappView>,
    pub auth_tokens: Seq<AuthTokenView>,
    pub rules: Seq<RuleRowView>,
    pub rules_filter_trapp: Seq<FilterTrappRowView>,
    pub rules_filter_field: Seq<FilterFieldRowView>,
    pub last_trapp_id: int,
    pub last_rule_id: int,
}

impl Tables {
    /// The tables right after the schema was created: no rows, no id given out.
    pub open spec fn empty() -> Tables {
        Tables {
            trapps: Seq::empty(),
            auth_tokens: Seq::empty(),
            rules: Seq::empty(),
            rules_filter_trapp: Seq::empty(),
            rules_filter_field: Seq::empty(),
            last_trapp_id: 0,
            last_rule_id: 0,
        }
    }

    pub open spec fn has_trapp(self, id: int) -> bool {
        trapps_include(self.trapps, id)
    }

    pub open spec fn has_auth_token(self, id: Seq<char>) -> bool {
        auth_tokens_include(self.auth_tokens, id)
    }

    pub open spec fn has_rule(self, id: int) -> bool {
        rules_include(self.rules, id)
    }

    pub open spec fn has_filter_trapp(self, rule_id: int) -> bool {
        filter_trapps_include(self.rules_filter_trapp, rule_id)
    }

    pub open spec fn has_filter_field(self, rule_id: int) -> bool {
        filter_fields_include(self.rules_filter_field, rule_id)
    }

    /// The trapp with the id `id`, if there is one.
    pub open spec fn trapp(self, id: int) -> Option<TrappView> {
        first_where(self.trapps, trapp_with_id(id))
    }

    /// The auth token with the id `id`, if there is one.
    pub open spec fn auth_token(self, id: Seq<char>) -> Option<AuthTokenView> {
        first_where(self.auth_tokens, token_with_id(id))
    }

    /// `INSERT INTO trapps`: the next id of the counter goes to the new row.
    pub open spec fn insert_trapp(self, name: Seq<char>) -> Tables {
        Tables {
            trapps: self.trapps.push(TrappView { id: self.last_trapp_id + 1, name }),
            last_trapp_id: self.last_trapp_id + 1,
            ..self
        }
    }

    /// `DELETE FROM trapps WHERE id = ?`: the trapp goes, and with it the auth
    /// tokens that refer to it.
    pub open spec fn delete_trapp(self, id: int) -> Tables {
        Tables {
            trapps: self.trapps.filter(negate(trapp_with_id(id))),
            auth_tokens: self.auth_tokens.filter(negate(token_of_trapp(id))),
            ..self
        }
    }

    /// `INSERT INTO auth_tokens`.
    pub open spec fn insert_auth_token(self, row: AuthTokenView) -> Tables {
        Tables { auth_tokens: self.auth_tokens.push(row), ..self }
    }

    /// `DELETE FROM auth_tokens WHERE ...`.
    pub open spec fn delete_auth_tokens(self, p: spec_fn(AuthTokenView) -> bool) -> Tables {
        Tables { auth_tokens: self.auth_tokens.filter(negate(p)), ..self }
    }

    /// `INSERT INTO rules`: the next id of the counter goes to the new row.
    pub open spec fn insert_rule(self, name: Seq<char>, type_: int) -> Tables {
        Tables {
            rules: self.rules.push(RuleRowView { id: self.last_rule_id + 1, name, type_ }),
            last_rule_id: self.last_rule_id + 1,
            ..self
        }
    }

    /// `INSERT INTO rules_filter_trapp`.
    pub open spec fn insert_filter_trapp(self, row: FilterTrappRowView) -> Tables {
        Tables { rules_filter_trapp: self.rules_filter_trapp.push(row), ..self }
    }

    /// `INSERT INTO rules_filter_field`.
    pub open spec fn insert_filter_field(self, row: FilterFieldRowView) -> Tables {
        Tables { rules_filter_field: self.rules_filter_field.push(row), ..self }
    }

    /// What the schema's keys demand of `trapps` and `auth_tokens`: ids come
    /// from the counter and occur once, and every auth token refers to a trapp
    /// that is there.
    pub open spec fn trapps_consistent(self) -> bool {
        &&& 0 <= self.last_trapp_id <= i64::MAX
        &&& forall|i: int|
            0 <= i < self.trapps.len() ==> 0 < (#[trigger] self.trapps[i]).id
                <= self.last_trapp_id
        &&& forall|i: int, j: int|
            0 <= i < j < self.trapps.len() ==> (#[trigger] self.trapps[i]).id
                != (#[trigger] self.trapps[j]).id
        &&& forall|i: int, j: int|
            0 <= i < j < self.auth_tokens.len() ==> (#[trigger] self.auth_tokens[i]).id
                != (#[trigger] self.auth_tokens[j]).id
        &&& forall|i: int|
            0 <= i < self.auth_tokens.len() ==> trapps_include(
                self.trapps,
                (#[trigger] self.auth_tokens[i]).trapp_id,
            )
    }

    /// What the schema's keys demand of the three rule tables: ids come from
    /// the counter and occur once, a rule has at most one payload row in each
    /// payload table, and every payload row refers to a rule that is there.
    pub open spec fn rules_consistent(self) -> bool {
        &&& 0 <= self.last_rule_id <= i64::MAX
        &&& forall|i: int|
            0 <= i < self.rules.len() ==> 0 < (#[trigger] self.rules[i]).id <= self.last_rule_id
        &&& forall|i: int, j: int|
            0 <= i < j < self.rules.len() ==> (#[trigger] self.rules[i]).id
                != (#[trigger] self.rules[j]).id
        &&& forall|i: int, j: int|
            0 <= i < j < self.rules_filter_trapp.len() ==> (
            #[trigger] self.rules_filter_trapp[i]).rule_id
                != (#[trigger] self.rules_filter_trapp[j]).rule_id
        &&& forall|i: int, j: int|
            0 <= i < j < self.rules_filter_field.len() ==> (
            #[trigger] self.rules_filter_field[i]).rule_id
                != (#[trigger] self.rules_filter_field[j]).rule_id
        &&& forall|i: int|
            0 <= i < self.rules_filter_trapp.len() ==> rules_include(
                self.rules,
                (#[trigger] self.rules_filter_trapp[i]).rule_id,
            )
        &&& forall|i: int|
            0 <= i < self.rules_filter_field.len() ==> rules_include(
                self.rules,
                (#[trigger] self.rules_filter_field[i]).rule_id,
            )
    }

    /// The constraints the store enforces on every statement.
    pub open spec fn consistent(self) -> bool {
        self.trapps_consistent() && self.rules_consistent()
    }

    /// `DELETE FROM rules` of the row that was inserted last, with its id handed
    /// back to the counter: what rolling back `insert_rule` leaves.
    pub open spec fn undo_insert_rule(self) -> Tables {
        Tables { rules: self.rules.drop_last(), last_rule_id: self.last_rule_id - 1, ..self }
    }

    /// Every rule has a known discriminator and a payload row in the table that
    /// the discriminator names.
    pub open spec fn rules_complete(self) -> bool {
        forall|i: int|
            0 <= i < self.rules.len() ==> rule_has_payload(
                #[trigger] self.rules[i],
                self.rules_filter_trapp,
                self.rules_filter_field,
            )
    }

    /// The state between two statements of a caller: the constraints hold and
    /// every rule is complete.
    pub open spec fn wf(self) -> bool {
        self.consistent() && self.rules_complete()
    }

    /// The state in the middle of creating a rule: the parent row of the rule
    /// `id` of kind `kind` was inserted last, and its payload row is still to
    /// come; every other rule is complete.
    pub open spec fn awaits_payload(self, id: int, kind: RuleType) -> bool {
        &&& self.consistent()
        &&& self.rules.len() > 0
        &&& self.rules.last().id == id
        &&& self.rules.last().type_ == kind.spec_discriminant()
        &&& self.last_rule_id == id
        &&& !self.has_filter_trapp(id)
        &&& !self.has_filter_field(id)
        &&& forall|i: int|
            0 <= i < self.rules.len() - 1 ==> rule_has_payload(
                #[trigger] self.rules[i],
                self.rules_filter_trapp,
                self.rules_filter_field,
            )
    }
}

/// The constraints, said by the keys of the tables: the ids of trapps and
/// rules come from their counters, every table has its primary key, and auth
/// tokens and payloads have their foreign keys.
pub open spec fn keys_hold(t: Tables) -> bool {
    &&& 0 <= t.last_trapp_id <= i64::MAX
    &&& 0 <= t.last_rule_id <= i64::MAX
    &&& forall|i: int| 0 <= i < t.trapps.len() ==> 0 < (#[trigger] t.trapps[i]).id <= t.last_trapp_id
    &&& forall|i: int| 0 <= i < t.rules.len() ==> 0 < (#[trigger] t.rules[i]).id <= t.last_rule_id
    &&& keys_distinct::<Trapp>(t.trapps)
    &&& keys_distinct::<AuthToken>(t.auth_tokens)
    &&& keys_distinct::<RuleRow>(t.rules)
    &&& keys_distinct::<FilterTrappRow>(t.rules_filter_trapp)
    &&& keys_distinct::<FilterFieldRow>(t.rules_filter_field)
    &&& all_referred::<AuthToken, Trapp>(t.auth_tokens, t.trapps)
    &&& all_referred::<FilterTrappRow, RuleRow>(t.rules_filter_trapp, t.rules)
    &&& all_referred::<FilterFieldRow, RuleRow>(t.rules_filter_field, t.rules)
}

/// The tables keep their constraints exactly if their keys hold.
pub proof fn lemma_constraints_by_keys(t: Tables)
    ensures
        t.consistent() <==> keys_hold(t),
{
    assert forall|i: int| 0 <= i < t.auth_tokens.len() implies (referred::<AuthToken, Trapp>(
        #[trigger] t.auth_tokens[i],
        t.trapps,
    ) <==> trapps_include(t.trapps, t.auth_tokens[i].trapp_id)) by {
        let row = t.auth_tokens[i];
        if referred::<AuthToken, Trapp>(row, t.trapps) {
            let j = choose|j: int|
                0 <= j < t.trapps.len() && (trapp_with_id(row.trapp_id))(#[trigger] t.trapps[j]);
            assert(t.trapps[j].id == row.trapp_id);
        }
        if trapps_include(t.trapps, row.trapp_id) {
            let j = choose|j: int| 0 <= j < t.trapps.len() && (#[trigger] t.trapps[j]).id == row.trapp_id;
            assert((trapp_with_id(row.trapp_id))(t.trapps[j]));
        }
    }
    assert forall|i: int| 0 <= i < t.rules_filter_trapp.len() implies (referred::<
        FilterTrappRow,
        RuleRow,
    >(#[trigger] t.rules_filter_trapp[i], t.rules) <==> rules_include(
        t.rules,
        t.rules_filter_trapp[i].rule_id,
    )) by {
        let row = t.rules_filter_trapp[i];
        if referred::<FilterTrappRow, RuleRow>(row, t.rules) {
            let j = choose|j: int|
                0 <= j < t.rules.len() && (rule_with_id(row.rule_id))(#[trigger] t.rules[j]);
            assert(t.rules[j].id == row.rule_id);
        }
        if rules_include(t.rules, row.rule_id) {
            let j = choose|j: int| 0 <= j < t.rules.len() && (#[trigger] t.rules[j]).id == row.rule_id;
            assert((rule_with_id(row.rule_id))(t.rules[j]));
        }
    }
    assert forall|i: int| 0 <= i < t.rules_filter_field.len() implies (referred::<
        FilterFieldRow,
        RuleRow,
    >(#[trigger] t.rules_filter_field[i], t.rules) <==> rules_include(
        t.rules,
        t.rules_filter_field[i].rule_id,
    )) by {
        let row = t.rules_filter_field[i];
        if referred::<FilterFieldRow, RuleRow>(row, t.rules) {
            let j = choose|j: int|
                0 <= j < t.rules.len() && (rule_with_id(row.rule_id))(#[trigger] t.rules[j]);
            assert(t.rules[j].id == row.rule_id);
        }
        if rules_include(t.rules, row.rule_id) {
            let j = choose|j: int| 0 <= j < t.rules.len() && (#[trigger] t.rules[j]).id == row.rule_id;
            assert((rule_with_id(row.rule_id))(t.rules[j]));
        }
    }
}

/// A trapp is there exactly if a query for its id finds a row, and that row
/// carries the id.
pub proof fn lemma_trapp_found(t: Tables, id: int)
    ensures
        t.has_trapp(id) <==> t.trapp(id) is Some,
        t.trapp(id) is Some ==> t.trapp(id)->0.id == id && t.trapps.contains(t.trapp(id)->0),
{
    lemma_first_where(t.trapps, trapp_with_id(id));
    if t.has_trapp(id) {
        let i = choose|i: int| 0 <= i < t.trapps.len() && (#[trigger] t.trapps[i]).id == id;
        assert(trapp_with_id(id)(t.trapps[i]));
    }
    if t.trapp(id) is Some {
        let row = t.trapp(id)->0;
        let i = choose|i: int| 0 <= i < t.trapps.len() && t.trapps[i] == row;
        assert(t.trapps[i].id == id);
    }
}

/// An auth token is there exactly if a query for its id finds a row, and that
/// row carries the id.
pub proof fn lemma_auth_token_found(t: Tables, id: Seq<char>)
    ensures
        t.has_auth_token(id) <==> t.auth_token(id) is Some,
        t.auth_token(id) is Some ==> t.auth_token(id)->0.id == id && t.auth_tokens.contains(
            t.auth_token(id)->0,
        ),
{
    lemma_first_where(t.auth_tokens, token_with_id(id));
    if t.has_auth_token(id) {
        let i = choose|i: int| 0 <= i < t.auth_tokens.len() && (#[trigger] t.auth_tokens[i]).id == id;
        assert(token_with_id(id)(t.auth_tokens[i]));
    }
    if t.auth_token(id) is Some {
        let row = t.auth_token(id)->0;
        let i = choose|i: int| 0 <= i < t.auth_tokens.len() && t.auth_tokens[i] == row;
        assert(t.auth_tokens[i].id == id);
    }
}

/// A rule is there exactly if a query for its id finds a row.
pub proof fn lemma_rule_found(t: Tables, id: int)
    ensures
        t.has_rule(id) <==> first_where(t.rules, rule_with_id(id)) is Some,
{
    lemma_first_where(t.rules, rule_with_id(id));
    if t.has_rule(id) {
        let i = choose|i: int| 0 <= i < t.rules.len() && (#[trigger] t.rules[i]).id == id;
        assert(rule_with_id(id)(t.rules[i]));
    }
    if first_where(t.rules, rule_with_id(id)) is Some {
        let row = first_where(t.rules, rule_with_id(id))->0;
        let i = choose|i: int| 0 <= i < t.rules.len() && t.rules[i] == row;
        assert(t.rules[i].id == id);
    }
}

/// A rule has a trapp payload exactly if a query for it finds a row, and that
/// row belongs to the rule.
pub proof fn lemma_filter_trapp_found(t: Tables, rule_id: int)
    ensures
        t.has_filter_trapp(rule_id) <==> first_where(
            t.rules_filter_trapp,
            filter_trapp_of_rule(rule_id),
        ) is Some,
        first_where(t.rules_filter_trapp, filter_trapp_of_rule(rule_id)) is Some ==> first_where(
            t.rules_filter_trapp,
            filter_trapp_of_rule(rule_id),
        )->0.rule_id == rule_id,
{
    let p = filter_trapp_of_rule(rule_id);
    lemma_first_where(t.rules_filter_trapp, p);
    if t.has_filter_trapp(rule_id) {
        let i = choose|i: int|
            0 <= i < t.rules_filter_trapp.len() && (#[trigger] t.rules_filter_trapp[i]).rule_id
                == rule_id;
        assert(p(t.rules_filter_trapp[i]));
    }
    if first_where(t.rules_filter_trapp, p) is Some {
        let row = first_where(t.rules_filter_trapp, p)->0;
        let i = choose|i: int| 0 <= i < t.rules_filter_trapp.len() && t.rules_filter_trapp[i] == row;
        assert(t.rules_filter_trapp[i].rule_id == rule_id);
    }
}

/// A rule has a field payload exactly if a query for it finds a row, and that
/// row belongs to the rule.
pub proof fn lemma_filter_field_found(t: Tables, rule_id: int)
    ensures
        t.has_filter_field(rule_id) <==> first_where(
            t.rules_filter_field,
            filter_field_of_rule(rule_id),
        ) is Some,
        first_where(t.rules_filter_field, filter_field_of_rule(rule_id)) is Some ==> first_where(
            t.rules_filter_field,
            filter_field_of_rule(rule_id),
        )->0.rule_id == rule_id,
{
    let p = filter_field_of_rule(rule_id);
    lemma_first_where(t.rules_filter_field, p);
    if t.has_filter_field(rule_id) {
        let i = choose|i: int|
            0 <= i < t.rules_filter_field.len() && (#[trigger] t.rules_filter_field[i]).rule_id
                == rule_id;
        assert(p(t.rules_filter_field[i]));
    }
    if first_where(t.rules_filter_field, p) is Some {
        let row = first_where(t.rules_filter_field, p)->0;
        let i = choose|i: int| 0 <= i < t.rules_filter_field.len() && t.rules_filter_field[i] == row;
        assert(t.rules_filter_field[i].rule_id == rule_id);
    }
}

/// Inserting a trapp keeps the constraints while the counter has ids left.
pub proof fn lemma_insert_trapp(t: Tables, name: Seq<char>)
    requires
        t.consistent(),
        t.last_trapp_id < i64::MAX,
    ensures
        t.insert_trapp(name).consistent(),
        t.insert_trapp(name).has_trapp(t.last_trapp_id + 1),
        !t.has_trapp(t.last_trapp_id + 1),
{
    let u = t.insert_trapp(name);
    let n = t.trapps.len() as int;
    assert(u.trapps[n].id == t.last_trapp_id + 1);
    assert forall|i: int| 0 <= i < u.auth_tokens.len() implies trapps_include(
        u.trapps,
        (#[trigger] u.auth_tokens[i]).trapp_id,
    ) by {
        let id = t.auth_tokens[i].trapp_id;
        assert(t.has_trapp(id));
        let k = choose|k: int| 0 <= k < t.trapps.len() && (#[trigger] t.trapps[k]).id == id;
        assert(u.trapps[k] == t.trapps[k]);
    }
    assert forall|i: int, j: int| 0 <= i < j < u.trapps.len() implies (#[trigger] u.trapps[i]).id != (
    #[trigger] u.trapps[j]).id by {
        if j < n {
            assert(u.trapps[i] == t.trapps[i] && u.trapps[j] == t.trapps[j]);
        } else {
            assert(u.trapps[i] == t.trapps[i]);
        }
    }
    assert forall|i: int| 0 <= i < u.trapps.len() implies 0 < (#[trigger] u.trapps[i]).id
        <= u.last_trapp_id by {
        if i < n {
            assert(u.trapps[i] == t.trapps[i]);
        }
    }
}

/// Deleting a trapp keeps the constraints: its auth tokens go with it. After
/// it the trapp is gone, every other trapp is still there, and the auth tokens
/// left are those of the other trapps.
pub proof fn lemma_delete_trapp(t: Tables, id: int)
    requires
        t.consistent(),
    ensures
        t.delete_trapp(id).consistent(),
        !t.delete_trapp(id).has_trapp(id),
        forall|other: int| other != id ==> (t.delete_trapp(id).has_trapp(other) <==> t.has_trapp(other)),
        forall|token: Seq<char>|
            t.delete_trapp(id).has_auth_token(token) <==> (exists|i: int|
                0 <= i < t.auth_tokens.len() && (#[trigger] t.auth_tokens[i]).id == token
                    && t.auth_tokens[i].trapp_id != id),
        !t.has_trapp(id) ==> t.delete_trapp(id) == t,
{
    let u = t.delete_trapp(id);
    let keep_trapp = negate(trapp_with_id(id));
    let keep_token = negate(token_of_trapp(id));
    lemma_filter_members(t.trapps, keep_trapp);
    lemma_filter_members(t.auth_tokens, keep_token);
    lemma_filter_distinct::<Trapp>(t.trapps, keep_trapp);
    lemma_filter_distinct::<AuthToken>(t.auth_tokens, keep_token);
    assert forall|i: int| 0 <= i < u.trapps.len() implies 0 < (#[trigger] u.trapps[i]).id
        <= u.last_trapp_id by {
        assert(t.trapps.contains(u.trapps[i]));
    }
    assert forall|other: int| other != id implies (u.has_trapp(other) <==> t.has_trapp(other)) by {
        if t.has_trapp(other) {
            let k = choose|k: int| 0 <= k < t.trapps.len() && (#[trigger] t.trapps[k]).id == other;
            assert(keep_trapp(t.trapps[k]));
            assert(u.trapps.contains(t.trapps[k]));
            let m = choose|m: int| 0 <= m < u.trapps.len() && u.trapps[m] == t.trapps[k];
            assert(u.trapps[m].id == other);
        }
        if u.has_trapp(other) {
            let m = choose|m: int| 0 <= m < u.trapps.len() && (#[trigger] u.trapps[m]).id == other;
            assert(t.trapps.contains(u.trapps[m]));
            let k = choose|k: int| 0 <= k < t.trapps.len() && t.trapps[k] == u.trapps[m];
            assert(t.trapps[k].id == other);
        }
    }
    if u.has_trapp(id) {
        let m = choose|m: int| 0 <= m < u.trapps.len() && (#[trigger] u.trapps[m]).id == id;
        assert(keep_trapp(u.trapps[m]));
    }
    assert forall|i: int| 0 <= i < u.auth_tokens.len() implies trapps_include(
        u.trapps,
        (#[trigger] u.auth_tokens[i]).trapp_id,
    ) by {
        let row = u.auth_tokens[i];
        assert(keep_token(row));
        assert(t.auth_tokens.contains(row));
        let k = choose|k: int| 0 <= k < t.auth_tokens.len() && t.auth_tokens[k] == row;
        assert(t.has_trapp(t.auth_tokens[k].trapp_id));
    }
    assert forall|token: Seq<char>|
        u.has_auth_token(token) <==> (exists|i: int|
            0 <= i < t.auth_tokens.len() && (#[trigger] t.auth_tokens[i]).id == token
                && t.auth_tokens[i].trapp_id != id) by {
        if u.has_auth_token(token) {
            let m = choose|m: int| 0 <= m < u.auth_tokens.len() && (#[trigger] u.auth_tokens[m]).id == token;
            assert(keep_token(u.auth_tokens[m]));
            assert(t.auth_tokens.contains(u.auth_tokens[m]));
            let k = choose|k: int| 0 <= k < t.auth_tokens.len() && t.auth_tokens[k] == u.auth_tokens[m];
            assert(t.auth_tokens[k].id == token && t.auth_tokens[k].trapp_id != id);
        }
        if exists|i: int|
            0 <= i < t.auth_tokens.len() && (#[trigger] t.auth_tokens[i]).id == token
                && t.auth_tokens[i].trapp_id != id {
            let k = choose|k: int|
                0 <= k < t.auth_tokens.len() && (#[trigger] t.auth_tokens[k]).id == token
                    && t.auth_tokens[k].trapp_id != id;
            assert(keep_token(t.auth_tokens[k]));
            assert(u.auth_tokens.contains(t.auth_tokens[k]));
            let m = choose|m: int| 0 <= m < u.auth_tokens.len() && u.auth_tokens[m] == t.auth_tokens[k];
            assert(u.auth_tokens[m].id == token);
        }
    }
    if !t.has_trapp(id) {
        lemma_filter_unchanged(t.trapps, keep_trapp);
        assert forall|i: int| 0 <= i < t.auth_tokens.len() implies keep_token(
            #[trigger] t.auth_tokens[i],
        ) by {
            assert(t.has_trapp(t.auth_tokens[i].trapp_id));
        }
        lemma_filter_unchanged(t.auth_tokens, keep_token);
    }
}

/// Inserting an auth token keeps the constraints where its id is new and its
/// trapp is there; a query for its id then finds it.
pub proof fn lemma_insert_auth_token(t: Tables, row: AuthTokenView)
    requires
        t.consistent(),
        !t.has_auth_token(row.id),
        t.has_trapp(row.trapp_id),
    ensures
        t.insert_auth_token(row).consistent(),
        t.insert_auth_token(row).auth_token(row.id) == Some(row),
{
    let u = t.insert_auth_token(row);
    let n = t.auth_tokens.len() as int;
    assert(u.auth_tokens[n] == row);
    assert forall|i: int, j: int| 0 <= i < j < u.auth_tokens.len() implies (
    #[trigger] u.auth_tokens[i]).id != (#[trigger] u.auth_tokens[j]).id by {
        assert(u.auth_tokens[i] == t.auth_tokens[i]);
        if j < n {
            assert(u.auth_tokens[j] == t.auth_tokens[j]);
        }
    }
    assert forall|i: int| 0 <= i < u.auth_tokens.len() implies trapps_include(
        u.trapps,
        (#[trigger] u.auth_tokens[i]).trapp_id,
    ) by {
        if i < n {
            assert(u.auth_tokens[i] == t.auth_tokens[i]);
        }
    }
    assert(token_with_id(row.id)(u.auth_tokens[n]));
    lemma_first_where_key::<AuthToken>(u.auth_tokens, token_with_id(row.id), n);
}

/// Deleting auth tokens keeps the constraints, and every auth token left was
/// there before and does not meet the condition.
pub proof fn lemma_delete_auth_tokens(t: Tables, p: spec_fn(AuthTokenView) -> bool)
    requires
        t.consistent(),
    ensures
        t.delete_auth_tokens(p).consistent(),
        forall|token: Seq<char>|
            t.delete_auth_tokens(p).has_auth_token(token) <==> (exists|i: int|
                0 <= i < t.auth_tokens.len() && (#[trigger] t.auth_tokens[i]).id == token && !p(
                    t.auth_tokens[i],
                )),
        t.auth_tokens.filter(p).len() == 0 ==> t.delete_auth_tokens(p) == t,
{
    let u = t.delete_auth_tokens(p);
    let keep = negate(p);
    lemma_filter_members(t.auth_tokens, keep);
    lemma_filter_distinct::<AuthToken>(t.auth_tokens, keep);
    assert forall|i: int| 0 <= i < u.auth_tokens.len() implies trapps_include(
        u.trapps,
        (#[trigger] u.auth_tokens[i]).trapp_id,
    ) by {
        let row = u.auth_tokens[i];
        assert(t.auth_tokens.contains(row));
        let k = choose|k: int| 0 <= k < t.auth_tokens.len() && t.auth_tokens[k] == row;
        assert(t.has_trapp(t.auth_tokens[k].trapp_id));
    }
    assert forall|token: Seq<char>|
        u.has_auth_token(token) <==> (exists|i: int|
            0 <= i < t.auth_tokens.len() && (#[trigger] t.auth_tokens[i]).id == token && !p(
                t.auth_tokens[i],
            )) by {
        if u.has_auth_token(token) {
            let m = choose|m: int| 0 <= m < u.auth_tokens.len() && (#[trigger] u.auth_tokens[m]).id == token;
            assert(keep(u.auth_tokens[m]));
            assert(t.auth_tokens.contains(u.auth_tokens[m]));
            let k = choose|k: int| 0 <= k < t.auth_tokens.len() && t.auth_tokens[k] == u.auth_tokens[m];
            assert(t.auth_tokens[k].id == token && !p(t.auth_tokens[k]));
        }
        if exists|i: int|
            0 <= i < t.auth_tokens.len() && (#[trigger] t.auth_tokens[i]).id == token && !p(
                t.auth_tokens[i],
            ) {
            let k = choose|k: int|
                0 <= k < t.auth_tokens.len() && (#[trigger] t.auth_tokens[k]).id == token && !p(
                    t.auth_tokens[k],
                );
            assert(keep(t.auth_tokens[k]));
            assert(u.auth_tokens.contains(t.auth_tokens[k]));
            let m = choose|m: int| 0 <= m < u.auth_tokens.len() && u.auth_tokens[m] == t.auth_tokens[k];
            assert(u.auth_tokens[m].id == token);
        }
    }
    if t.auth_tokens.filter(p).len() == 0 {
        lemma_filter_empty(t.auth_tokens, p);
        lemma_filter_unchanged(t.auth_tokens, keep);
    }
}


/// Inserting the parent row of a rule keeps the constraints while the counter
/// has ids left, and leaves the rule waiting for its payload. Undoing it gives
/// the tables back as they were.
pub proof fn lemma_insert_rule(t: Tables, name: Seq<char>, kind: RuleType)
    requires
        t.wf(),
        t.last_rule_id < i64::MAX,
    ensures
        t.insert_rule(name, kind.spec_discriminant()).awaits_payload(t.last_rule_id + 1, kind),
        t.insert_rule(name, kind.spec_discriminant()).undo_insert_rule() == t,
{
    let id = t.last_rule_id + 1;
    let u = t.insert_rule(name, kind.spec_discriminant());
    let n = t.rules.len() as int;
    assert(u.rules[n].id == id);
    assert(u.rules.drop_last() =~= t.rules);
    assert forall|i: int| 0 <= i < u.rules.len() implies 0 < (#[trigger] u.rules[i]).id
        <= u.last_rule_id by {
        if i < n {
            assert(u.rules[i] == t.rules[i]);
        }
    }
    assert forall|i: int, j: int| 0 <= i < j < u.rules.len() implies (#[trigger] u.rules[i]).id != (
    #[trigger] u.rules[j]).id by {
        assert(u.rules[i] == t.rules[i]);
        if j < n {
            assert(u.rules[j] == t.rules[j]);
        }
    }
    assert forall|i: int| 0 <= i < u.rules_filter_trapp.len() implies rules_include(
        u.rules,
        (#[trigger] u.rules_filter_trapp[i]).rule_id,
    ) by {
        let r = t.rules_filter_trapp[i].rule_id;
        assert(rules_include(t.rules, r));
        let k = choose|k: int| 0 <= k < t.rules.len() && (#[trigger] t.rules[k]).id == r;
        assert(u.rules[k] == t.rules[k]);
    }
    assert forall|i: int| 0 <= i < u.rules_filter_field.len() implies rules_include(
        u.rules,
        (#[trigger] u.rules_filter_field[i]).rule_id,
    ) by {
        let r = t.rules_filter_field[i].rule_id;
        assert(rules_include(t.rules, r));
        let k = choose|k: int| 0 <= k < t.rules.len() && (#[trigger] t.rules[k]).id == r;
        assert(u.rules[k] == t.rules[k]);
    }
    if u.has_filter_trapp(id) {
        let i = choose|i: int|
            0 <= i < t.rules_filter_trapp.len() && (#[trigger] t.rules_filter_trapp[i]).rule_id == id;
        assert(rules_include(t.rules, t.rules_filter_trapp[i].rule_id));
    }
    if u.has_filter_field(id) {
        let i = choose|i: int|
            0 <= i < t.rules_filter_field.len() && (#[trigger] t.rules_filter_field[i]).rule_id == id;
        assert(rules_include(t.rules, t.rules_filter_field[i].rule_id));
    }
    assert forall|i: int| 0 <= i < u.rules.len() - 1 implies rule_has_payload(
        #[trigger] u.rules[i],
        u.rules_filter_trapp,
        u.rules_filter_field,
    ) by {
        assert(u.rules[i] == t.rules[i]);
    }
}

/// Inserting the trapp payload of the rule that waits for it completes the
/// rule; a query for the payload of the rule then finds the row.
pub proof fn lemma_insert_filter_trapp(t: Tables, row: FilterTrappRowView)
    requires
        t.awaits_payload(row.rule_id, RuleType::FilterTrapp),
    ensures
        t.insert_filter_trapp(row).wf(),
        first_where(t.insert_filter_trapp(row).rules_filter_trapp, filter_trapp_of_rule(row.rule_id))
            == Some(row),
{
    let u = t.insert_filter_trapp(row);
    let n = t.rules_filter_trapp.len() as int;
    assert(u.rules_filter_trapp[n] == row);
    assert forall|i: int, j: int| 0 <= i < j < u.rules_filter_trapp.len() implies (
    #[trigger] u.rules_filter_trapp[i]).rule_id != (#[trigger] u.rules_filter_trapp[j]).rule_id by {
        assert(u.rules_filter_trapp[i] == t.rules_filter_trapp[i]);
        if j < n {
            assert(u.rules_filter_trapp[j] == t.rules_filter_trapp[j]);
        }
    }
    assert(t.rules[t.rules.len() - 1].id == row.rule_id);
    assert forall|i: int| 0 <= i < u.rules_filter_trapp.len() implies rules_include(
        u.rules,
        (#[trigger] u.rules_filter_trapp[i]).rule_id,
    ) by {
        if i < n {
            assert(u.rules_filter_trapp[i] == t.rules_filter_trapp[i]);
        }
    }
    assert forall|i: int| 0 <= i < u.rules.len() implies rule_has_payload(
        #[trigger] u.rules[i],
        u.rules_filter_trapp,
        u.rules_filter_field,
    ) by {
        if i < u.rules.len() - 1 {
            assert(rule_has_payload(t.rules[i], t.rules_filter_trapp, t.rules_filter_field));
            if RuleType::of_discriminant(t.rules[i].type_) == Some(RuleType::FilterTrapp) {
                let k = choose|k: int|
                    0 <= k < t.rules_filter_trapp.len() && (#[trigger] t.rules_filter_trapp[k]).rule_id
                        == t.rules[i].id;
                assert(u.rules_filter_trapp[k] == t.rules_filter_trapp[k]);
            }
        }
    }
    assert(filter_trapp_of_rule(row.rule_id)(u.rules_filter_trapp[n]));
    lemma_first_where_key::<FilterTrappRow>(
        u.rules_filter_trapp,
        filter_trapp_of_rule(row.rule_id),
        n,
    );
}

/// Inserting the field payload of the rule that waits for it completes the
/// rule; a query for the payload of the rule then finds the row.
pub proof fn lemma_insert_filter_field(t: Tables, row: FilterFieldRowView)
    requires
        t.awaits_payload(row.rule_id, RuleType::FilterField),
    ensures
        t.insert_filter_field(row).wf(),
        first_where(t.insert_filter_field(row).rules_filter_field, filter_field_of_rule(row.rule_id))
            == Some(row),
{
    let u = t.insert_filter_field(row);
    let n = t.rules_filter_field.len() as int;
    assert(u.rules_filter_field[n] == row);
    assert forall|i: int, j: int| 0 <= i < j < u.rules_filter_field.len() implies (
    #[trigger] u.rules_filter_field[i]).rule_id != (#[trigger] u.rules_filter_field[j]).rule_id by {
        assert(u.rules_filter_field[i] == t.rules_filter_field[i]);
        if j < n {
            assert(u.rules_filter_field[j] == t.rules_filter_field[j]);
        }
    }
    assert(t.rules[t.rules.len() - 1].id == row.rule_id);
    assert forall|i: int| 0 <= i < u.rules_filter_field.len() implies rules_include(
        u.rules,
        (#[trigger] u.rules_filter_field[i]).rule_id,
    ) by {
        if i < n {
            assert(u.rules_filter_field[i] == t.rules_filter_field[i]);
        }
    }
    assert forall|i: int| 0 <= i < u.rules.len() implies rule_has_payload(
        #[trigger] u.rules[i],
        u.rules_filter_trapp,
        u.rules_filter_field,
    ) by {
        if i < u.rules.len() - 1 {
            assert(rule_has_payload(t.rules[i], t.rules_filter_trapp, t.rules_filter_field));
            if RuleType::of_discriminant(t.rules[i].type_) == Some(RuleType::FilterField) {
                let k = choose|k: int|
                    0 <= k < t.rules_filter_field.len() && (#[trigger] t.rules_filter_field[k]).rule_id
                        == t.rules[i].id;
                assert(u.rules_filter_field[k] == t.rules_filter_field[k]);
            }
        }
    }
    assert(filter_field_of_rule(row.rule_id)(u.rules_filter_field[n]));
    lemma_first_where_key::<FilterFieldRow>(
        u.rules_filter_field,
        filter_field_of_rule(row.rule_id),
        n,
    );
}

} // verus!
