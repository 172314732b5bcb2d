use std::convert::TryFrom;
use vstd::prelude::*;
use vstd::std_specs::convert::TryFromSpecImpl;

verus! {

/// Credentials presented at login; never stored.
#[derive(Debug)]
pub struct Login {
    pub username: String,
    pub password: String,
}

impl Login {
    pub fn new(username: &str, password: &str) -> (login: Self)
        ensures
            login.username@ == username@,
            login.password@ == password@,
    {
        Login { username: username.to_owned(), password: password.to_owned() }
    }
}

/// What a session carries, as mathematical values.
pub struct SessionView {
    pub id: Seq<char>,
    pub username: Seq<char>,
}

/// A stateless claim that names the authenticated principal. The `id` only makes
/// each signed payload unique; nothing looks it up.
#[derive(Debug, PartialEq)]
pub struct Session {
    pub id: String,
    pub username: String,
}

impl View for Session {
    type V = SessionView;

    open spec fn view(&self) -> SessionView {
        SessionView { id: self.id@, username: self.username@ }
    }
}

impl Clone for Session {
    fn clone(&self) -> (copy: Self)
        ensures
            copy@ == self@,
    {
        Session { id: self.id.clone(), username: self.username.clone() }
    }
}

impl Session {
    pub fn new(id: &str, username: &str) -> (session: Self)
        ensures
            session@ == (SessionView { id: id@, username: username@ }),
    {
        Session { id: id.to_owned(), username: username.to_owned() }
    }
}

/// The request to create a trapp.
#[derive(Debug)]
pub struct NewTrapp {
    pub name: String,
}

impl Clone for NewTrapp {
    fn clone(&self) -> (copy: Self)
        ensures
            copy.name@ == self.name@,
    {
        NewTrapp { name: self.name.clone() }
    }
}

impl NewTrapp {
    pub fn new(name: &str) -> (trapp: Self)
        ensures
            trapp.name@ == name@,
    {
        NewTrapp { name: name.to_owned() }
    }
}

/// A stored trapp, as mathematical values.
pub struct TrappView {
    pub id: int,
    pub name: Seq<char>,
}

/// A tenant-owned application container.
#[derive(Debug, PartialEq)]
pub struct Trapp {
    pub id: i64,
    pub name: String,
}

impl View for Trapp {
    type V = TrappView;

    open spec fn view(&self) -> TrappView {
        TrappView { id: self.id as int, name: self.name@ }
    }
}

impl Clone for Trapp {
    fn clone(&self) -> (copy: Self)
        ensures
            copy@ == self@,
    {
        Trapp { id: self.id, name: self.name.clone() }
    }
}

impl Trapp {
    pub fn new(id: i64, name: &str) -> (trapp: Self)
        ensures
            trapp@ == (TrappView { id: id as int, name: name@ }),
    {
        Trapp { id: id, name: name.to_owned() }
    }
}

/// The request to create an auth token under a trapp.
#[derive(Debug, PartialEq)]
pub struct NewAuthToken {
    pub name: String,
    pub trapp_id: i64,
}

impl NewAuthToken {
    pub fn new(name: &str, trapp_id: i64) -> (token: Self)
        ensures
            token.name@ == name@,
            token.trapp_id == trapp_id,
    {
        NewAuthToken { name: name.to_owned(), trapp_id: trapp_id }
    }
}

/// A stored auth token, as mathematical values.
pub struct AuthTokenView {
    pub id: Seq<char>,
    pub trapp_id: int,
    pub name: Seq<char>,
}

/// An opaque bearer credential scoped to one trapp.
#[derive(Debug, PartialEq)]
pub struct AuthToken {
    pub id: String,
    pub trapp_id: i64,
    pub name: String,
}

impl View for AuthToken {
    type V = AuthTokenView;

    open spec fn view(&self) -> AuthTokenView {
        AuthTokenView { id: self.id@, trapp_id: self.trapp_id as int, name: self.name@ }
    }
}

impl Clone for AuthToken {
    fn clone(&self) -> (copy: Self)
        ensures
            copy@ == self@,
    {
        AuthToken { id: self.id.clone(), trapp_id: self.trapp_id, name: self.name.clone() }
    }
}

impl AuthToken {
    pub fn new(id: &str, trapp_id: i64, name: &str) -> (token: Self)
        ensures
            token@ == (AuthTokenView { id: id@, trapp_id: trapp_id as int, name: name@ }),
    {
        AuthToken { id: id.to_owned(), trapp_id: trapp_id, name: name.to_owned() }
    }
}

/// The kinds of rule. Each is stored under its own discriminator and keeps its
/// payload in a table of its own.
#[derive(Copy, Clone, Debug, PartialEq, Eq, Structural)]
pub enum RuleType {
    FilterTrapp,
    FilterField,
}

impl RuleType {
    /// The stored integer of the kind `v` names, if it names one.
    pub open spec fn of_discriminant(v: int) -> Option<RuleType> {
        if v == 1 {
            Some(RuleType::FilterTrapp)
        } else if v == 2 {
            Some(RuleType::FilterField)
        } else {
            None
        }
    }

    /// The integer this kind is stored under.
    pub open spec fn spec_discriminant(self) -> int {
        match self {
            RuleType::FilterTrapp => 1,
            RuleType::FilterField => 2,
        }
    }

    pub fn discriminant(self) -> (v: i64)
        ensures
            v == self.spec_discriminant(),
    {
        match self {
            RuleType::FilterTrapp => 1,
            RuleType::FilterField => 2,
        }
    }
}

impl TryFrom<i64> for RuleType {
    type Error = ();

    fn try_from(v: i64) -> (kind: Result<Self, ()>) {
        if v == 1 {
            Ok(RuleType::FilterTrapp)
        } else if v == 2 {
            Ok(RuleType::FilterField)
        } else {
            Err(())
        }
    }
}

impl TryFromSpecImpl<i64> for RuleType {
    open spec fn obeys_try_from_spec() -> bool {
        true
    }

    open spec fn try_from_spec(v: i64) -> Result<Self, ()> {
        match RuleType::of_discriminant(v as int) {
            Some(kind) => Ok(kind),
            None => Err(()),
        }
    }
}

/// What is common to every rule, stored or not: its name and its kind.
pub trait NewRule {
    spec fn rule_name(&self) -> Seq<char>;

    spec fn rule_type(&self) -> RuleType;

    fn name(&self) -> (name: &str)
        ensures
            name@ == self.rule_name(),
    ;

    fn type_(&self) -> (kind: RuleType)
        ensures
            kind == self.rule_type(),
    ;
}

/// A stored rule: it also has the id the store assigned.
pub trait Rule: NewRule {
    spec fn rule_id(&self) -> int;

    fn id(&self) -> (id: i64)
        ensures
            id == self.rule_id(),
    ;
}

/// The request to create a rule that matches the events of one trapp.
#[derive(Debug, PartialEq)]
pub struct NewRuleFilterTrapp {
    pub name: String,
    pub trapp_id: i64,
}

/// A stored rule that matches the events of one trapp.
#[derive(Debug, PartialEq)]
pub struct RuleFilterTrapp {
    pub id: i64,
    pub name: String,
    pub trapp_id: i64,
}

impl NewRule for NewRuleFilterTrapp {
    open spec fn rule_name(&self) -> Seq<char> {
        self.name@
    }

    open spec fn rule_type(&self) -> RuleType {
        RuleType::FilterTrapp
    }

    fn name(&self) -> (name: &str) {
        self.name.as_str()
    }

    fn type_(&self) -> (kind: RuleType) {
        RuleType::FilterTrapp
    }
}

impl NewRule for RuleFilterTrapp {
    open spec fn rule_name(&self) -> Seq<char> {
        self.name@
    }

    open spec fn rule_type(&self) -> RuleType {
        RuleType::FilterTrapp
    }

    fn name(&self) -> (name: &str) {
        self.name.as_str()
    }

    fn type_(&self) -> (kind: RuleType) {
        RuleType::FilterTrapp
    }
}

impl Rule for RuleFilterTrapp {
    open spec fn rule_id(&self) -> int {
        self.id as int
    }

    fn id(&self) -> (id: i64) {
        self.id
    }
}

impl NewRuleFilterTrapp {
    pub fn new(name: &str, trapp_id: i64) -> (rule: Self)
        ensures
            rule.name@ == name@,
            rule.trapp_id == trapp_id,
    {
        NewRuleFilterTrapp { name: name.to_owned(), trapp_id: trapp_id }
    }
}

impl RuleFilterTrapp {
    pub fn new(id: i64, name: &str, trapp_id: i64) -> (rule: Self)
        ensures
            rule.id == id,
            rule.name@ == name@,
            rule.trapp_id == trapp_id,
    {
        RuleFilterTrapp { id: id, name: name.to_owned(), trapp_id: trapp_id }
    }
}

/// The request to create a rule that matches events whose named field has a
/// given value.
#[derive(Debug, PartialEq)]
pub struct NewRuleFilterField {
    pub name: String,
    pub field_key: String,
    pub field_value: String,
}

/// A stored rule that matches events whose named field has a given value.
#[derive(Debug, PartialEq)]
pub struct RuleFilterField {
    pub id: i64,
    pub name: String,
    pub field_key: String,
    pub field_value: String,
}

impl NewRule for NewRuleFilterField {
    open spec fn rule_name(&self) -> Seq<char> {
        self.name@
    }

    open spec fn rule_type(&self) -> RuleType {
        RuleType::FilterField
    }

    fn name(&self) -> (name: &str) {
        self.name.as_str()
    }

    fn type_(&self) -> (kind: RuleType) {
        RuleType::FilterField
    }
}

impl NewRule for RuleFilterField {
    open spec fn rule_name(&self) -> Seq<char> {
        self.name@
    }

    open spec fn rule_type(&self) -> RuleType {
        RuleType::FilterField
    }

    fn name(&self) -> (name: &str) {
        self.name.as_str()
    }

    fn type_(&self) -> (kind: RuleType) {
        RuleType::FilterField
    }
}

impl Rule for RuleFilterField {
    open spec fn rule_id(&self) -> int {
        self.id as int
    }

    fn id(&self) -> (id: i64) {
        self.id
    }
}

impl NewRuleFilterField {
    pub fn new(name: &str, field_key: &str, field_value: &str) -> (rule: Self)
        ensures
            rule.name@ == name@,
            rule.field_key@ == field_key@,
            rule.field_value@ == field_value@,
    {
        NewRuleFilterField {
            name: name.to_owned(),
            field_key: field_key.to_owned(),
            field_value: field_value.to_owned(),
        }
    }
}

impl RuleFilterField {
    pub fn new(id: i64, name: &str, field_key: &str, field_value: &str) -> (rule: Self)
        ensures
            rule.id == id,
            rule.name@ == name@,
            rule.field_key@ == field_key@,
            rule.field_value@ == field_value@,
    {
        RuleFilterField {
            id: id,
            name: name.to_owned(),
            field_key: field_key.to_owned(),
            field_value: field_value.to_owned(),
        }
    }
}

/// A stored rule that filters by trapp, as mathematical values.
pub struct RuleFilterTrappView {
    pub id: int,
    pub name: Seq<char>,
    pub trapp_id: int,
}

impl View for RuleFilterTrapp {
    type V = RuleFilterTrappView;

    open spec fn view(&self) -> RuleFilterTrappView {
        RuleFilterTrappView { id: self.id as int, name: self.name@, trapp_id: self.trapp_id as int }
    }
}

/// A stored rule that filters by field, as mathematical values.
pub struct RuleFilterFieldView {
    pub id: int,
    pub name: Seq<char>,
    pub field_key: Seq<char>,
    pub field_value: Seq<char>,
}

impl View for RuleFilterField {
    type V = RuleFilterFieldView;

    open spec fn view(&self) -> RuleFilterFieldView {
        RuleFilterFieldView {
            id: self.id as int,
            name: self.name@,
            field_key: self.field_key@,
            field_value: self.field_value@,
        }
    }
}

/// A stored rule of either kind, as mathematical values.
pub enum StoredRuleView {
    FilterTrapp(RuleFilterTrappView),
    FilterField(RuleFilterFieldView),
}

/// A stored rule of either kind. The kinds are closed: a rule is exactly one of
/// them.
#[derive(Debug, PartialEq)]
pub enum StoredRule {
    FilterTrapp(RuleFilterTrapp),
    FilterField(RuleFilterField),
}

impl View for StoredRule {
    type V = StoredRuleView;

    open spec fn view(&self) -> StoredRuleView {
        match self {
            StoredRule::FilterTrapp(rule) => StoredRuleView::FilterTrapp(rule@),
            StoredRule::FilterField(rule) => StoredRuleView::FilterField(rule@),
        }
    }
}

impl NewRule for StoredRule {
    open spec fn rule_name(&self) -> Seq<char> {
        match self {
            StoredRule::FilterTrapp(rule) => rule.name@,
            StoredRule::FilterField(rule) => rule.name@,
        }
    }

    open spec fn rule_type(&self) -> RuleType {
        match self {
            StoredRule::FilterTrapp(_) => RuleType::FilterTrapp,
            StoredRule::FilterField(_) => RuleType::FilterField,
        }
    }

    fn name(&self) -> (name: &str) {
        match self {
            StoredRule::FilterTrapp(rule) => rule.name.as_str(),
            StoredRule::FilterField(rule) => rule.name.as_str(),
        }
    }

    fn type_(&self) -> (kind: RuleType) {
        match self {
            StoredRule::FilterTrapp(_) => RuleType::FilterTrapp,
            StoredRule::FilterField(_) => RuleType::FilterField,
        }
    }
}

impl Rule for StoredRule {
    open spec fn rule_id(&self) -> int {
        match self {
            StoredRule::FilterTrapp(rule) => rule.id as int,
            StoredRule::FilterField(rule) => rule.id as int,
        }
    }

    fn id(&self) -> (id: i64) {
        match self {
            StoredRule::FilterTrapp(rule) => rule.id,
            StoredRule::FilterField(rule) => rule.id,
        }
    }
}

/// The discriminator table is closed: a kind and its stored integer determine
/// each other, and no other integer names a kind.
pub proof fn discriminant_round_trip(kind: RuleType, v: int)
    ensures
        RuleType::of_discriminant(kind.spec_discriminant()) == Some(kind),
        RuleType::of_discriminant(v) == Some(kind) <==> v == kind.spec_discriminant(),
        RuleType::of_discriminant(v) is None <==> v != 1 && v != 2,
{
}

} // verus!
