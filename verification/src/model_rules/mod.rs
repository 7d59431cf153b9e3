//! The rules about models: which are offered, under which names, and how they are
//! bound to providers.
//!
//! The rules are kept in the member `modelRules` of the configuration:
//! - `disabled` closes the name that a provider itself gives a model,
//! - `mappings` offer a model of a provider under another name; several providers
//!   may stand behind one name,
//! - `custom` adds models that a provider has but does not list,
//! - `seeded` says for which models the defaults were already written, so that what
//!   a user has changed since is not changed back.
//!
//! A rule or mapping without a provider is an old one and holds for all of them.
//! Names are compared without regard to ASCII case.

pub mod cline;
pub mod edit;
pub mod reasoning;
pub mod seed;
pub mod store;

use crate::json;
use crate::lists;
use crate::text;
use vstd::prelude::*;
use vstd::string::*;

verus! {

/// The member of the configuration that holds the rules.
pub const KEY_MODEL_RULES: &'static str = "modelRules";

/// One name under which a model of a provider is offered. Without a provider the
/// mapping holds for all that have the model. `reasoning` is how hard the model is
/// asked to think; one that is not enabled does not count for now.
#[derive(Clone, Debug, PartialEq, Eq)]
pub struct Mapping {
    pub alias: String,
    pub target: String,
    pub provider: Option<String>,
    pub reasoning: Option<String>,
    pub enabled: bool,
}

/// A model that is closed: of one provider, or of all where it names none.
#[derive(Clone, Debug, PartialEq, Eq)]
pub struct RuleEntry {
    pub provider: Option<String>,
    pub id: String,
}

/// A model that a provider has without listing it.
#[derive(Clone, Debug, PartialEq, Eq)]
pub struct CustomModel {
    pub provider: String,
    pub id: String,
}

/// The rules.
#[derive(Clone, Debug, PartialEq, Eq)]
pub struct ModelRules {
    pub disabled: Vec<RuleEntry>,
    pub mappings: Vec<Mapping>,
    pub custom: Vec<CustomModel>,
    pub seeded: Vec<String>,
}

/// What a mapping says.
#[verifier::ext_equal]
pub struct MappingV {
    pub alias: Seq<char>,
    pub target: Seq<char>,
    pub provider: Option<Seq<char>>,
    pub reasoning: Option<Seq<char>>,
    pub enabled: bool,
}

/// What a rule says.
#[verifier::ext_equal]
pub struct RuleV {
    pub provider: Option<Seq<char>>,
    pub id: Seq<char>,
}

/// What an added model is.
#[verifier::ext_equal]
pub struct CustomV {
    pub provider: Seq<char>,
    pub id: Seq<char>,
}

/// What the rules say.
#[verifier::ext_equal]
pub struct RulesV {
    pub disabled: Seq<RuleV>,
    pub mappings: Seq<MappingV>,
    pub custom: Seq<CustomV>,
    pub seeded: Seq<Seq<char>>,
}

impl View for Mapping {
    type V = MappingV;

    open spec fn view(&self) -> MappingV {
        MappingV {
            alias: self.alias@,
            target: self.target@,
            provider: json::opt_string(self.provider),
            reasoning: json::opt_string(self.reasoning),
            enabled: self.enabled,
        }
    }
}

impl View for RuleEntry {
    type V = RuleV;

    open spec fn view(&self) -> RuleV {
        RuleV { provider: json::opt_string(self.provider), id: self.id@ }
    }
}

impl View for CustomModel {
    type V = CustomV;

    open spec fn view(&self) -> CustomV {
        CustomV { provider: self.provider@, id: self.id@ }
    }
}

impl View for ModelRules {
    type V = RulesV;

    open spec fn view(&self) -> RulesV {
        RulesV {
            disabled: lists::views(self.disabled@),
            mappings: lists::views(self.mappings@),
            custom: lists::views(self.custom@),
            seeded: lists::views(self.seeded@),
        }
    }
}

// ---------------------------------------------------------------- comparisons

/// Whether a provider that may be named is that one.
pub open spec fn owned_by(provider: Option<Seq<char>>, name: Seq<char>) -> bool {
    match provider {
        Some(p) => text::same_fold(p, name),
        None => false,
    }
}

/// Whether a provider that may be named is that one, or none is named.
pub open spec fn open_to(provider: Option<Seq<char>>, name: Seq<char>) -> bool {
    match provider {
        Some(p) => text::same_fold(p, name),
        None => true,
    }
}

/// Whether two providers that may be named are the same.
pub open spec fn same_provider(a: Option<Seq<char>>, b: Option<Seq<char>>) -> bool {
    match (a, b) {
        (Some(x), Some(y)) => text::same_fold(x, y),
        (None, None) => true,
        _ => false,
    }
}

impl RuleV {
    /// Whether the rule closes the model of that provider.
    pub open spec fn hits(self, provider: Seq<char>, id: Seq<char>) -> bool {
        text::same_fold(self.id, id) && open_to(self.provider, provider)
    }
}

impl CustomV {
    /// Whether this is that model of that provider.
    pub open spec fn is(self, provider: Seq<char>, id: Seq<char>) -> bool {
        text::same_fold(self.provider, provider) && text::same_fold(self.id, id)
    }
}

impl MappingV {
    /// Whether the mapping is from that name to that model.
    pub open spec fn leads(self, alias: Seq<char>, target: Seq<char>) -> bool {
        text::same_fold(self.alias, alias) && text::same_fold(self.target, target)
    }
}

/// Rules that close the model of a provider.
pub open spec fn closing(provider: Seq<char>, id: Seq<char>) -> spec_fn(RuleV) -> bool {
    |e: RuleV| e.hits(provider, id)
}

/// Mappings of that provider from that name to that model.
pub open spec fn own_binding(
    provider: Seq<char>,
    alias: Seq<char>,
    target: Seq<char>,
) -> spec_fn(MappingV) -> bool {
    |m: MappingV| m.leads(alias, target) && owned_by(m.provider, provider)
}

/// Mappings from that name to that model that name no provider.
pub open spec fn shared_binding(alias: Seq<char>, target: Seq<char>) -> spec_fn(MappingV) -> bool {
    |m: MappingV| m.leads(alias, target) && m.provider is None
}

/// Mappings from that name that count.
pub open spec fn active_alias(model: Seq<char>) -> spec_fn(MappingV) -> bool {
    |m: MappingV| m.enabled && text::same_fold(m.alias, model)
}

/// Mappings from that name.
pub open spec fn with_alias(alias: Seq<char>) -> spec_fn(MappingV) -> bool {
    |m: MappingV| text::same_fold(m.alias, alias)
}

/// Mappings to that model that hold for that provider.
pub open spec fn naming(provider: Seq<char>, target: Seq<char>) -> spec_fn(MappingV) -> bool {
    |m: MappingV| text::same_fold(m.target, target) && open_to(m.provider, provider)
}

/// The names of mappings.
pub open spec fn aliases(s: Seq<MappingV>) -> Seq<Seq<char>> {
    Seq::new(s.len(), |i: int| s[i].alias)
}

/// Whether a text stands in a list, without regard to ASCII case.
pub open spec fn listed(s: Seq<Seq<char>>, one: Seq<char>) -> bool {
    exists|i: int| 0 <= i < s.len() && text::same_fold(#[trigger] s[i], one)
}

/// The different names of the first `n` mappings that lead to a model and count.
pub open spec fn distinct_aliases(s: Seq<MappingV>, target: Seq<char>, n: nat) -> Seq<Seq<char>>
    decreases n,
{
    if n == 0 {
        Seq::empty()
    } else {
        let before = distinct_aliases(s, target, (n - 1) as nat);
        let m = s[n - 1];
        if m.enabled && text::same_fold(m.target, target) && !listed(before, m.alias) {
            before.push(m.alias)
        } else {
            before
        }
    }
}

impl RulesV {
    /// Whether the model of a provider is closed.
    pub open spec fn is_disabled(self, provider: Seq<char>, id: Seq<char>) -> bool {
        lists::any(self.disabled, closing(provider, id))
    }

    /// The mapping of a name to a model that holds for a provider: its own before one
    /// that names no provider.
    pub open spec fn binding(
        self,
        provider: Seq<char>,
        alias: Seq<char>,
        target: Seq<char>,
    ) -> Option<MappingV> {
        match lists::found(self.mappings, own_binding(provider, alias, target)) {
            Some(m) => Some(m),
            None => lists::found(self.mappings, shared_binding(alias, target)),
        }
    }

    /// Whether a provider offers a model under its own name.
    pub open spec fn default_enabled(self, provider: Seq<char>, id: Seq<char>) -> bool {
        !self.is_disabled(provider, id) && (match self.binding(provider, id, id) {
            Some(m) => m.enabled,
            None => true,
        })
    }

    /// Whether something is mapped from a name.
    pub open spec fn has_alias(self, alias: Seq<char>) -> bool {
        lists::any(self.mappings, with_alias(alias))
    }

    /// Whether this model was added to that provider.
    pub open spec fn has_custom(self, provider: Seq<char>, id: Seq<char>) -> bool {
        lists::any(self.custom, |c: CustomV| c.is(provider, id))
    }
}

/// How the name of a provider and of its model are spelled does not matter to whether the
/// model is offered.
pub proof fn spelling_does_not_matter(
    rules: RulesV,
    provider: Seq<char>,
    id: Seq<char>,
    other: Seq<char>,
    model: Seq<char>,
)
    requires
        text::same_fold(provider, other),
        text::same_fold(id, model),
    ensures
        rules.is_disabled(provider, id) == rules.is_disabled(other, model),
        rules.default_enabled(provider, id) == rules.default_enabled(other, model),
{
    assert(closing(provider, id) =~= closing(other, model));
    assert(own_binding(provider, id, id) =~= own_binding(other, model, model));
    assert(shared_binding(id, id) =~= shared_binding(model, model));
}

/// A model that is closed is not offered under its own name.
pub proof fn disabled_is_not_offered(rules: RulesV, provider: Seq<char>, id: Seq<char>)
    requires
        rules.is_disabled(provider, id),
    ensures
        !rules.default_enabled(provider, id),
{
}

/// A mapping of the provider itself goes before one that names no provider, also
/// where it is not enabled.
pub proof fn own_binding_first(
    rules: RulesV,
    provider: Seq<char>,
    alias: Seq<char>,
    target: Seq<char>,
)
    requires
        lists::any(rules.mappings, own_binding(provider, alias, target)),
    ensures
        rules.binding(provider, alias, target) matches Some(m) && owned_by(m.provider, provider)
            && m.leads(alias, target),
{
    lists::found_says(rules.mappings, own_binding(provider, alias, target));
}

/// The names that lead to a model are different from each other, and every name
/// that leads to it and counts is among them.
pub proof fn aliases_are_distinct(s: Seq<MappingV>, target: Seq<char>, n: nat)
    requires
        n <= s.len(),
    ensures
        forall|i: int, j: int|
            0 <= i < j < distinct_aliases(s, target, n).len() ==> !text::same_fold(
                #[trigger] distinct_aliases(s, target, n)[i],
                #[trigger] distinct_aliases(s, target, n)[j],
            ),
        forall|i: int|
            0 <= i < n && (#[trigger] s[i]).enabled && text::same_fold(s[i].target, target) ==> listed(
                distinct_aliases(s, target, n),
                s[i].alias,
            ),
    decreases n,
{
    if n > 0 {
        aliases_are_distinct(s, target, (n - 1) as nat);
        let before = distinct_aliases(s, target, (n - 1) as nat);
        let after = distinct_aliases(s, target, n);
        let m = s[n - 1];
        assert forall|i: int|
            0 <= i < n && (#[trigger] s[i]).enabled && text::same_fold(
                s[i].target,
                target,
            ) implies listed(after, s[i].alias) by {
            if i < n - 1 {
                let k = choose|k: int|
                    0 <= k < before.len() && text::same_fold(#[trigger] before[k], s[i].alias);
                assert(after[k] == before[k]);
            } else if !listed(before, m.alias) {
                assert(after[after.len() - 1] == m.alias);
            }
        }
    }
}

// -------------------------------------------------------------------- copies

/// A copy of a text that may be missing.
pub(crate) fn copy_text(s: &Option<String>) -> (r: Option<String>)
    ensures
        json::opt_string(r) == json::opt_string(*s),
{
    match s {
        Some(t) => Some(t.clone()),
        None => None,
    }
}

/// An owned text of one that may be missing.
pub(crate) fn own_text(s: Option<&str>) -> (r: Option<String>)
    ensures
        json::opt_string(r) == json::opt_text(s),
{
    match s {
        Some(t) => Some(t.to_owned()),
        None => None,
    }
}

impl RuleEntry {
    /// A rule.
    pub(crate) fn new(provider: Option<&str>, id: &str) -> (r: RuleEntry)
        ensures
            r@ == (RuleV { provider: json::opt_text(provider), id: id@ }),
    {
        RuleEntry { provider: own_text(provider), id: id.to_owned() }
    }

    /// A copy.
    pub(crate) fn copy(&self) -> (r: RuleEntry)
        ensures
            r@ == self@,
    {
        RuleEntry { provider: copy_text(&self.provider), id: self.id.clone() }
    }

    /// Whether the rule closes the model of that provider.
    pub(crate) fn matches(&self, provider: &str, id: &str) -> (r: bool)
        ensures
            r == self@.hits(provider@, id@),
    {
        text::eq_fold(self.id.as_str(), id) && is_open_to(&self.provider, provider)
    }
}

/// Whether two providers that may be named are the same.
pub(crate) fn is_same_provider(a: &Option<String>, b: Option<&str>) -> (r: bool)
    ensures
        r == same_provider(json::opt_string(*a), json::opt_text(b)),
{
    match (a, b) {
        (Some(x), Some(y)) => text::eq_fold(x.as_str(), y),
        (None, None) => true,
        _ => false,
    }
}

/// Whether a provider that may be named is that one.
pub(crate) fn is_owned_by(provider: &Option<String>, name: &str) -> (r: bool)
    ensures
        r == owned_by(json::opt_string(*provider), name@),
{
    match provider {
        Some(p) => text::eq_fold(p.as_str(), name),
        None => false,
    }
}

/// Whether a provider that may be named is that one, or none is named.
pub(crate) fn is_open_to(provider: &Option<String>, name: &str) -> (r: bool)
    ensures
        r == open_to(json::opt_string(*provider), name@),
{
    match provider {
        Some(p) => text::eq_fold(p.as_str(), name),
        None => true,
    }
}

impl CustomModel {
    /// A copy.
    pub(crate) fn copy(&self) -> (r: CustomModel)
        ensures
            r@ == self@,
    {
        CustomModel { provider: self.provider.clone(), id: self.id.clone() }
    }

    /// Whether this is that model of that provider.
    pub fn matches(&self, provider: &str, id: &str) -> (r: bool)
        ensures
            r == self@.is(provider@, id@),
    {
        text::eq_fold(self.provider.as_str(), provider) && text::eq_fold(self.id.as_str(), id)
    }
}

impl Mapping {
    /// A copy.
    pub(crate) fn copy(&self) -> (r: Mapping)
        ensures
            r@ == self@,
    {
        Mapping {
            alias: self.alias.clone(),
            target: self.target.clone(),
            provider: copy_text(&self.provider),
            reasoning: copy_text(&self.reasoning),
            enabled: self.enabled,
        }
    }

    /// Whether the mapping is from that name to that model.
    pub(crate) fn leads(&self, alias: &str, target: &str) -> (r: bool)
        ensures
            r == self@.leads(alias@, target@),
    {
        text::eq_fold(self.alias.as_str(), alias) && text::eq_fold(self.target.as_str(), target)
    }
}

impl Default for ModelRules {
    /// No rules.
    fn default() -> (r: ModelRules)
        ensures
            r@ == no_rules(),
    {
        let r = ModelRules {
            disabled: Vec::new(),
            mappings: Vec::new(),
            custom: Vec::new(),
            seeded: Vec::new(),
        };
        proof {
            assert(r@ =~= no_rules());
        }
        r
    }
}

/// No rules.
pub open spec fn no_rules() -> RulesV {
    RulesV {
        disabled: Seq::empty(),
        mappings: Seq::empty(),
        custom: Seq::empty(),
        seeded: Seq::empty(),
    }
}

// ------------------------------------------------------------------- queries

/// Whether a list of rules closes the model of a provider.
pub(crate) fn hit(list: &Vec<RuleEntry>, provider: &str, id: &str) -> (r: bool)
    ensures
        r == lists::any(lists::views(list@), closing(provider@, id@)),
{
    let mut i: usize = 0;
    while i < list.len()
        invariant
            i <= list@.len(),
            forall|j: int| 0 <= j < i ==> !(#[trigger] lists::views(list@)[j]).hits(provider@, id@),
        decreases list@.len() - i,
    {
        if list[i].matches(provider, id) {
            proof {
                assert(closing(provider@, id@)(lists::views(list@)[i as int]));
            }
            return true;
        }
        i = i + 1;
    }
    false
}

/// Whether a text stands in a list, without regard to ASCII case.
pub(crate) fn is_listed(list: &[String], one: &str) -> (r: bool)
    ensures
        r == listed(lists::views(list@), one@),
{
    let mut i: usize = 0;
    while i < list.len()
        invariant
            i <= list@.len(),
            forall|j: int| 0 <= j < i ==> !text::same_fold(#[trigger] lists::views(list@)[j], one@),
        decreases list@.len() - i,
    {
        if text::eq_fold(list[i].as_str(), one) {
            proof {
                assert(text::same_fold(lists::views(list@)[i as int], one@));
            }
            return true;
        }
        i = i + 1;
    }
    false
}

impl ModelRules {
    /// A copy.
    pub(crate) fn copy(&self) -> (r: ModelRules)
        ensures
            r@ == self@,
    {
        let mut disabled: Vec<RuleEntry> = Vec::new();
        let mut i: usize = 0;
        while i < self.disabled.len()
            invariant
                i <= self.disabled@.len(),
                lists::views(disabled@) == self@.disabled.take(i as int),
            decreases self.disabled@.len() - i,
        {
            let one = self.disabled[i].copy();
            proof {
                lists::views_push(disabled@, one);
                assert(self@.disabled.take(i as int).push(self@.disabled[i as int])
                    =~= self@.disabled.take(i as int + 1));
            }
            disabled.push(one);
            i = i + 1;
        }
        let mut mappings: Vec<Mapping> = Vec::new();
        let mut j: usize = 0;
        while j < self.mappings.len()
            invariant
                j <= self.mappings@.len(),
                lists::views(mappings@) == self@.mappings.take(j as int),
            decreases self.mappings@.len() - j,
        {
            let one = self.mappings[j].copy();
            proof {
                lists::views_push(mappings@, one);
                assert(self@.mappings.take(j as int).push(self@.mappings[j as int])
                    =~= self@.mappings.take(j as int + 1));
            }
            mappings.push(one);
            j = j + 1;
        }
        let mut custom: Vec<CustomModel> = Vec::new();
        let mut k: usize = 0;
        while k < self.custom.len()
            invariant
                k <= self.custom@.len(),
                lists::views(custom@) == self@.custom.take(k as int),
            decreases self.custom@.len() - k,
        {
            let one = self.custom[k].copy();
            proof {
                lists::views_push(custom@, one);
                assert(self@.custom.take(k as int).push(self@.custom[k as int])
                    =~= self@.custom.take(k as int + 1));
            }
            custom.push(one);
            k = k + 1;
        }
        let mut seeded: Vec<String> = Vec::new();
        let mut n: usize = 0;
        while n < self.seeded.len()
            invariant
                n <= self.seeded@.len(),
                lists::views(seeded@) == self@.seeded.take(n as int),
            decreases self.seeded@.len() - n,
        {
            let one = self.seeded[n].clone();
            proof {
                lists::views_push(seeded@, one);
                assert(self@.seeded.take(n as int).push(self@.seeded[n as int])
                    =~= self@.seeded.take(n as int + 1));
            }
            seeded.push(one);
            n = n + 1;
        }
        let r = ModelRules { disabled, mappings, custom, seeded };
        proof {
            assert(self@.disabled.take(self.disabled@.len() as int) =~= self@.disabled);
            assert(self@.mappings.take(self.mappings@.len() as int) =~= self@.mappings);
            assert(self@.custom.take(self.custom@.len() as int) =~= self@.custom);
            assert(self@.seeded.take(self.seeded@.len() as int) =~= self@.seeded);
        }
        r
    }

    /// Whether the model of a provider is closed.
    pub fn is_disabled(&self, provider: &str, id: &str) -> (r: bool)
        ensures
            r == self@.is_disabled(provider@, id@),
    {
        hit(&self.disabled, provider, id)
    }

    /// The mapping of a name to a model that holds for a provider. Its own goes before
    /// one that names no provider, also where it is not enabled.
    pub fn binding(&self, provider: &str, alias: &str, target: &str) -> (r: Option<&Mapping>)
        ensures
            r is Some <==> self@.binding(provider@, alias@, target@) is Some,
            r matches Some(m) ==> self@.binding(provider@, alias@, target@) == Some(m@),
    {
        let ghost own = own_binding(provider@, alias@, target@);
        let ghost shared = shared_binding(alias@, target@);
        let mut first: Option<&Mapping> = None;
        let mut i: usize = 0;
        while i < self.mappings.len()
            invariant
                i <= self.mappings@.len(),
                own == own_binding(provider@, alias@, target@),
                shared == shared_binding(alias@, target@),
                lists::first_where(self@.mappings, own, 0) == lists::first_where(self@.mappings, own, i as int),
                first is None ==> lists::first_where(self@.mappings, shared, 0) == lists::first_where(
                    self@.mappings,
                    shared,
                    i as int,
                ),
                first matches Some(m) ==> lists::found(self@.mappings, shared) == Some(m@),
            decreases self.mappings@.len() - i,
        {
            let m = &self.mappings[i];
            assert(self@.mappings[i as int] == m@);
            if m.leads(alias, target) {
                if is_owned_by(&m.provider, provider) {
                    return Some(m);
                }
                if m.provider.is_none() && first.is_none() {
                    first = Some(m);
                }
            }
            i = i + 1;
        }
        first
    }

    /// Whether a provider offers a model under its own name.
    pub fn default_enabled(&self, provider: &str, id: &str) -> (r: bool)
        ensures
            r == self@.default_enabled(provider@, id@),
    {
        if self.is_disabled(provider, id) {
            return false;
        }
        match self.binding(provider, id, id) {
            Some(m) => m.enabled,
            None => true,
        }
    }

    /// Whether a provider does not offer a model under its own name.
    pub fn is_blocked(&self, provider: &str, id: &str) -> (r: bool)
        ensures
            r == !self@.default_enabled(provider@, id@),
    {
        !self.default_enabled(provider, id)
    }

    /// The mappings from a name that count, in their order.
    pub fn mappings_of(&self, model: &str) -> (r: Vec<&Mapping>)
        ensures
            lists::views(r@) == self@.mappings.filter(active_alias(model@)),
    {
        let mut out: Vec<&Mapping> = Vec::new();
        let mut i: usize = 0;
        proof {
            lists::kept_all(self@.mappings, active_alias(model@));
            assert(lists::views(out@) =~= Seq::empty());
        }
        while i < self.mappings.len()
            invariant
                i <= self.mappings@.len(),
                lists::views(out@) == self@.mappings.take(i as int).filter(active_alias(model@)),
            decreases self.mappings@.len() - i,
        {
            let m = &self.mappings[i];
            proof {
                lists::kept_step(self@.mappings, active_alias(model@), i as int);
                lists::views_push(out@, m);
            }
            if m.enabled && text::eq_fold(m.alias.as_str(), model) {
                out.push(m);
            }
            i = i + 1;
        }
        out
    }

    /// Whether something is mapped from a name.
    pub fn has_alias(&self, alias: &str) -> (r: bool)
        ensures
            r == self@.has_alias(alias@),
    {
        let mut i: usize = 0;
        while i < self.mappings.len()
            invariant
                i <= self.mappings@.len(),
                forall|j: int|
                    0 <= j < i ==> !text::same_fold((#[trigger] self@.mappings[j]).alias, alias@),
            decreases self.mappings@.len() - i,
        {
            if text::eq_fold(self.mappings[i].alias.as_str(), alias) {
                proof {
                    assert(with_alias(alias@)(self@.mappings[i as int]));
                }
                return true;
            }
            i = i + 1;
        }
        false
    }

    /// The names under which a model of a provider is mapped, whether they count or
    /// not.
    pub fn aliases_of(&self, provider: &str, target: &str) -> (r: Vec<&str>)
        ensures
            lists::views(r@) == aliases(self@.mappings.filter(naming(provider@, target@))),
    {
        let ghost want = naming(provider@, target@);
        let mut out: Vec<&str> = Vec::new();
        let mut i: usize = 0;
        proof {
            lists::kept_all(self@.mappings, want);
            assert(lists::views(out@) =~= aliases(Seq::empty()));
        }
        while i < self.mappings.len()
            invariant
                i <= self.mappings@.len(),
                want == naming(provider@, target@),
                lists::views(out@) == aliases(self@.mappings.take(i as int).filter(want)),
            decreases self.mappings@.len() - i,
        {
            let m = &self.mappings[i];
            let name = m.alias.as_str();
            proof {
                lists::kept_step(self@.mappings, want, i as int);
                lists::views_push(out@, name);
                let before = self@.mappings.take(i as int).filter(want);
                assert(aliases(before.push(m@)) =~= aliases(before).push(m@.alias));
            }
            if text::eq_fold(m.target.as_str(), target) && is_open_to(&m.provider, provider) {
                out.push(name);
            }
            i = i + 1;
        }
        out
    }

    /// The different names that lead to a model and count, of whatever provider.
    pub fn aliases_of_any(&self, target: &str) -> (r: Vec<&str>)
        ensures
            lists::views(r@) == distinct_aliases(self@.mappings, target@, self@.mappings.len()),
    {
        let mut out: Vec<&str> = Vec::new();
        let mut i: usize = 0;
        proof {
            assert(lists::views(out@) =~= Seq::empty());
        }
        while i < self.mappings.len()
            invariant
                i <= self.mappings@.len(),
                lists::views(out@) == distinct_aliases(self@.mappings, target@, i as nat),
            decreases self.mappings@.len() - i,
        {
            let m = &self.mappings[i];
            let name = m.alias.as_str();
            assert(self@.mappings[i as int] == m@);
            let mut known = false;
            let mut j: usize = 0;
            while j < out.len() && !known
                invariant
                    j <= out@.len(),
                    name@ == m@.alias,
                    known ==> listed(lists::views(out@), m@.alias),
                    !known ==> forall|k: int|
                        0 <= k < j ==> !text::same_fold(#[trigger] lists::views(out@)[k], m@.alias),
                decreases out@.len() - j,
            {
                if text::eq_fold(out[j], name) {
                    proof {
                        assert(text::same_fold(lists::views(out@)[j as int], m@.alias));
                    }
                    known = true;
                }
                j = j + 1;
            }
            proof {
                lists::views_push(out@, name);
            }
            if m.enabled && text::eq_fold(m.target.as_str(), target) && !known {
                out.push(name);
            }
            i = i + 1;
        }
        out
    }

    /// Whether this model was added to that provider.
    pub(crate) fn has_custom(&self, provider: &str, id: &str) -> (r: bool)
        ensures
            r == self@.has_custom(provider@, id@),
    {
        let mut i: usize = 0;
        while i < self.custom.len()
            invariant
                i <= self.custom@.len(),
                forall|j: int| 0 <= j < i ==> !(#[trigger] self@.custom[j]).is(provider@, id@),
            decreases self.custom@.len() - i,
        {
            if self.custom[i].matches(provider, id) {
                proof {
                    assert(self@.custom[i as int].is(provider@, id@));
                }
                return true;
            }
            i = i + 1;
        }
        false
    }
}

} // verus!
