//! The defaults for models that appear for the first time.
//!
//! A model is treated once: a mark says that it was, and from then on what a user
//! does to it stays.

use crate::json;
use crate::lists;
use crate::model_rules::edit;
use crate::model_rules::{Mapping, MappingV, ModelRules, RuleV, RulesV};
use crate::model_rules;
use crate::providers::cline::Pool;
use crate::providers::cline;
use crate::text;
use vstd::prelude::*;
use vstd::string::*;

verus! {

// --------------------------------------------------------------------- marks

/// The mark of a model.
pub open spec fn mark(provider: Seq<char>, id: Seq<char>) -> Seq<char> {
    provider + ":"@ + id
}

/// The mark of a further name of a model.
pub open spec fn alias_mark(provider: Seq<char>, id: Seq<char>, alias: Seq<char>) -> Seq<char> {
    mark(provider, id) + "#alias:"@ + alias
}

/// Whether the marks say that a model was treated. Of WorkBuddy and Raccoon an old
/// mark may be the model alone.
pub open spec fn marked(marks: Seq<Seq<char>>, provider: Seq<char>, id: Seq<char>) -> bool {
    model_rules::listed(marks, mark(provider, id)) || ((provider == "workbuddy"@ || provider == "raccoon"@)
        && model_rules::listed(marks, id))
}

/// The mark of a model.
pub(crate) fn mark_of(provider: &str, id: &str) -> (r: String)
    ensures
        r@ == mark(provider@, id@),
{
    text::join3(provider, ":", id)
}

impl ModelRules {
    /// Whether a model was treated.
    fn is_seeded(&self, provider: &str, id: &str) -> (r: bool)
        ensures
            r == marked(self@.seeded, provider@, id@),
    {
        let key = mark_of(provider, id);
        if model_rules::is_listed(self.seeded.as_slice(), key.as_str()) {
            return true;
        }
        if !text::same(provider, "workbuddy") && !text::same(provider, "raccoon") {
            return false;
        }
        model_rules::is_listed(self.seeded.as_slice(), id)
    }
}

// --------------------------------------------------------------------- plans

/// What the defaults of a provider are.
pub enum Plan {
    /// Models with an inner code name are closed, and those with the prefix `sn-` are
    /// also offered without it.
    Raccoon,
    /// All models are closed but those that are listed.
    Only { provider: String, open: Vec<String> },
    /// Models are also offered under their short names.
    Cline { provider: String, pool: Pool },
}

/// What the defaults of a provider are.
#[verifier::ext_equal]
pub enum PlanV {
    Raccoon,
    Only { provider: Seq<char>, open: Seq<Seq<char>> },
    Cline { provider: Seq<char>, pool: Pool },
}

impl View for Plan {
    type V = PlanV;

    open spec fn view(&self) -> PlanV {
        match self {
            Plan::Raccoon => PlanV::Raccoon,
            Plan::Only { provider, open } => PlanV::Only {
                provider: provider@,
                open: lists::views(open@),
            },
            Plan::Cline { provider, pool } => PlanV::Cline { provider: provider@, pool: *pool },
        }
    }
}

impl PlanV {
    /// The provider whose defaults they are.
    pub open spec fn provider(self) -> Seq<char> {
        match self {
            PlanV::Raccoon => "raccoon"@,
            PlanV::Only { provider, .. } => provider,
            PlanV::Cline { provider, .. } => provider,
        }
    }
}

impl Plan {
    /// The provider whose defaults they are.
    fn provider(&self) -> (r: &str)
        ensures
            r@ == self@.provider(),
    {
        match self {
            Plan::Raccoon => "raccoon",
            Plan::Only { provider, .. } => provider.as_str(),
            Plan::Cline { provider, .. } => provider.as_str(),
        }
    }
}

/// The rules on the way, with the models that were closed and the names that were
/// added.
#[verifier::ext_equal]
pub struct SeedV {
    pub rules: RulesV,
    pub closed: Seq<Seq<char>>,
    pub added: Seq<Seq<char>>,
}

struct SeedState {
    rules: ModelRules,
    closed: Vec<String>,
    added: Vec<String>,
}

impl View for SeedState {
    type V = SeedV;

    closed spec fn view(&self) -> SeedV {
        SeedV { rules: self.rules@, closed: lists::views(self.closed@), added: lists::views(self.added@) }
    }
}

/// With a mark more.
pub open spec fn with_mark(st: SeedV, key: Seq<char>) -> SeedV {
    SeedV { rules: RulesV { seeded: st.rules.seeded.push(key), ..st.rules }, ..st }
}

/// With a mapping more, which is told of.
pub open spec fn with_name(
    st: SeedV,
    provider: Seq<char>,
    id: Seq<char>,
    alias: Seq<char>,
) -> SeedV {
    let one = MappingV {
        alias,
        target: id,
        provider: Some(provider),
        reasoning: None,
        enabled: true,
    };
    SeedV {
        rules: RulesV { mappings: st.rules.mappings.push(one), ..st.rules },
        added: st.added.push(alias + " → "@ + id),
        ..st
    }
}

/// With a model closed, where it was not yet, which is told of.
pub open spec fn with_closed(st: SeedV, provider: Seq<char>, id: Seq<char>) -> SeedV {
    if st.rules.is_disabled(provider, id) {
        st
    } else {
        SeedV {
            rules: RulesV {
                disabled: edit::closed(st.rules.disabled, Some(provider), id),
                ..st.rules
            },
            closed: st.closed.push(id),
            ..st
        }
    }
}

impl SeedState {
    fn put_mark(&mut self, key: String)
        ensures
            final(self)@ == with_mark(old(self)@, key@),
    {
        proof {
            lists::views_push(self.rules.seeded@, key);
        }
        self.rules.seeded.push(key);
    }

    fn put_name(&mut self, provider: &str, id: &str, alias: &str)
        ensures
            final(self)@ == with_name(old(self)@, provider@, id@, alias@),
    {
        let one = Mapping {
            alias: alias.to_owned(),
            target: id.to_owned(),
            provider: Some(provider.to_owned()),
            reasoning: None,
            enabled: true,
        };
        let told = text::join3(alias, " → ", id);
        proof {
            lists::views_push(self.rules.mappings@, one);
            lists::views_push(self.added@, told);
        }
        self.rules.mappings.push(one);
        self.added.push(told);
    }

    fn put_closed(&mut self, provider: &str, id: &str)
        ensures
            final(self)@ == with_closed(old(self)@, provider@, id@),
    {
        if self.rules.is_disabled(provider, id) {
            return ;
        }
        edit::set_membership(&mut self.rules.disabled, Some(provider), id);
        let told = id.to_owned();
        proof {
            lists::views_push(self.closed@, told);
        }
        self.closed.push(told);
    }
}

// ------------------------------------------------------------- further names

/// Further names of single models: the provider, the model, the name.
pub open spec fn further_names() -> Seq<(Seq<char>, Seq<char>, Seq<char>)> {
    seq![
        ("raccoon"@, "sn-deepseek-v4-1-flash"@, "deepseek-v4.1-flash"@),
        ("cline-free"@, "cline-free/deepseek-v4.1-flash"@, "deepseek-v4.1-flash"@),
        ("cline-pass"@, "cline-pass/deepseek-v4.1-flash"@, "deepseek-v4.1-flash"@),
        ("cline-free"@, "z-ai/glm-5.3-flash"@, "glm-5.3-flash"@),
        ("cline-pass"@, "cline-pass/glm-5.3-flash"@, "glm-5.3-flash"@),
    ]
}

/// Further names of single models: the provider, the model, the name.
fn name_row(i: usize) -> (r: (&'static str, &'static str, &'static str))
    requires
        i < 5,
    ensures
        (r.0@, r.1@, r.2@) == further_names()[i as int],
{
    if i == 0 {
        ("raccoon", "sn-deepseek-v4-1-flash", "deepseek-v4.1-flash")
    } else if i == 1 {
        ("cline-free", "cline-free/deepseek-v4.1-flash", "deepseek-v4.1-flash")
    } else if i == 2 {
        ("cline-pass", "cline-pass/deepseek-v4.1-flash", "deepseek-v4.1-flash")
    } else if i == 3 {
        ("cline-free", "z-ai/glm-5.3-flash", "glm-5.3-flash")
    } else {
        ("cline-pass", "cline-pass/glm-5.3-flash", "glm-5.3-flash")
    }
}

/// Whether a row of further names is about this model of this provider.
pub open spec fn row_applies(
    row: (Seq<char>, Seq<char>, Seq<char>),
    provider: Seq<char>,
    id: Seq<char>,
) -> bool {
    text::same_fold(row.0, provider) && text::same_fold(row.1, id)
}

/// Mappings from a name to a model that hold for a provider.
pub open spec fn holding(
    provider: Seq<char>,
    alias: Seq<char>,
    target: Seq<char>,
) -> spec_fn(MappingV) -> bool {
    |m: MappingV| m.leads(alias, target) && model_rules::open_to(m.provider, provider)
}

/// The rules after one row of further names was looked at. A name that the provider
/// itself gives a model, or that is mapped to the model already, is not added.
pub open spec fn row_step(
    st: SeedV,
    provider: Seq<char>,
    id: Seq<char>,
    ids: Seq<Seq<char>>,
    row: (Seq<char>, Seq<char>, Seq<char>),
) -> SeedV {
    let key = alias_mark(provider, id, row.2);
    if !row_applies(row, provider, id) || model_rules::listed(st.rules.seeded, key) {
        st
    } else {
        let next = with_mark(st, key);
        if model_rules::listed(ids, row.2) || lists::any(next.rules.mappings, holding(provider, row.2, row.1)) {
            next
        } else {
            with_name(next, provider, id, row.2)
        }
    }
}

/// The rules after the first `n` rows of further names were looked at.
pub open spec fn rows_step(
    st: SeedV,
    provider: Seq<char>,
    id: Seq<char>,
    ids: Seq<Seq<char>>,
    n: nat,
) -> SeedV
    decreases n,
{
    if n == 0 {
        st
    } else {
        row_step(
            rows_step(st, provider, id, ids, (n - 1) as nat),
            provider,
            id,
            ids,
            further_names()[n - 1],
        )
    }
}

/// Whether a list has a mapping from a name to a model that holds for a provider.
fn holds(list: &Vec<Mapping>, provider: &str, alias: &str, target: &str) -> (r: bool)
    ensures
        r == lists::any(lists::views(list@), holding(provider@, alias@, target@)),
{
    let mut i: usize = 0;
    while i < list.len()
        invariant
            i <= list@.len(),
            forall|j: int|
                0 <= j < i ==> !holding(provider@, alias@, target@)(#[trigger] lists::views(list@)[j]),
        decreases list@.len() - i,
    {
        if list[i].leads(alias, target) && model_rules::is_open_to(&list[i].provider, provider) {
            proof {
                assert(holding(provider@, alias@, target@)(lists::views(list@)[i as int]));
            }
            return true;
        }
        i = i + 1;
    }
    false
}

/// Gives a model its further names.
fn seed_extra_aliases(st: &mut SeedState, provider: &str, id: &str, ids: &[String])
    ensures
        final(st)@ == rows_step(old(st)@, provider@, id@, lists::views(ids@), 5),
{
    let ghost start = st@;
    let mut i: usize = 0;
    while i < 5
        invariant
            i <= 5,
            st@ == rows_step(start, provider@, id@, lists::views(ids@), i as nat),
        decreases 5 - i,
    {
        let (owner, target, alias) = name_row(i);
        if text::eq_fold(owner, provider) && text::eq_fold(target, id) {
            let key = text::join3(mark_of(provider, id).as_str(), "#alias:", alias);
            if !model_rules::is_listed(st.rules.seeded.as_slice(), key.as_str()) {
                st.put_mark(key);
                if !model_rules::is_listed(ids, alias) && !holds(&st.rules.mappings, provider, alias, target) {
                    st.put_name(provider, id, alias);
                }
            }
        }
        i = i + 1;
    }
}

// ----------------------------------------------------------------- treatment

/// Whether a model of Raccoon has an inner code name: up to eight hexadecimal digits
/// after the prefix.
pub open spec fn code_name(id: Seq<char>) -> bool {
    text::has_prefix(id, "raccoon-"@) && 8 < id.len() <= 16 && forall|i: int|
        8 <= i < id.len() ==> hex_letter(#[trigger] id[i])
}

/// The hexadecimal digits in either case.
pub open spec fn hex_letter(c: char) -> bool {
    ('0' <= c && c <= '9') || ('a' <= c && c <= 'f') || ('A' <= c && c <= 'F')
}

/// Whether a model of Raccoon has an inner code name.
pub fn is_opaque_raccoon_id(id: &str) -> (r: bool)
    ensures
        r == code_name(id@),
{
    let chars = text::chars_of(id);
    if !text::starts_with(id, "raccoon-") || chars.len() <= 8 || chars.len() > 16 {
        return false;
    }
    let mut i: usize = 8;
    while i < chars.len()
        invariant
            chars@ == id@,
            8 <= i <= chars@.len(),
            forall|j: int| 8 <= j < i ==> hex_letter(#[trigger] id@[j]),
        decreases chars@.len() - i,
    {
        let c = chars[i];
        let good = ('0' <= c && c <= '9') || ('a' <= c && c <= 'f') || ('A' <= c && c <= 'F');
        if !good {
            proof {
                assert(!hex_letter(id@[i as int]));
            }
            return false;
        }
        i = i + 1;
    }
    true
}

/// The rules after a name was offered for a model. A name that may not be used, is
/// taken, or that the provider itself gives a model is passed over.
pub open spec fn offered(
    st: SeedV,
    provider: Seq<char>,
    id: Seq<char>,
    alias: Seq<char>,
    ids: Seq<Seq<char>>,
) -> SeedV {
    if !edit::valid_alias(alias) || st.rules.has_alias(alias) || model_rules::listed(ids, alias) {
        st
    } else {
        with_name(st, provider, id, alias)
    }
}

/// The rules after the defaults of a provider were written for a model.
pub open spec fn treated(st: SeedV, plan: PlanV, id: Seq<char>, ids: Seq<Seq<char>>) -> SeedV {
    match plan {
        PlanV::Raccoon => if code_name(id) {
            with_closed(st, plan.provider(), id)
        } else if text::has_prefix(id, "sn-"@) {
            offered(st, plan.provider(), id, id.skip(3), ids)
        } else {
            st
        },
        PlanV::Only { provider, open } => if model_rules::listed(open, id) {
            st
        } else {
            with_closed(st, provider, id)
        },
        PlanV::Cline { provider, pool } => match cline::short_name(pool, id) {
            Some(alias) => offered(st, provider, id, alias, ids),
            None => st,
        },
    }
}

/// The rules after a model was looked at. It is treated where no mark says that it
/// was; its further names have marks of their own.
pub open spec fn model_step(st: SeedV, plan: PlanV, raw: Seq<char>, ids: Seq<Seq<char>>) -> SeedV {
    let id = text::trimmed(raw);
    if id.len() == 0 {
        st
    } else {
        let next = rows_step(st, plan.provider(), id, ids, 5);
        if marked(next.rules.seeded, plan.provider(), id) {
            next
        } else {
            treated(with_mark(next, mark(plan.provider(), id)), plan, id, ids)
        }
    }
}

/// The rules after the first `n` models were looked at.
pub open spec fn models_step(st: SeedV, plan: PlanV, ids: Seq<Seq<char>>, n: nat) -> SeedV
    decreases n,
{
    if n == 0 {
        st
    } else {
        model_step(models_step(st, plan, ids, (n - 1) as nat), plan, ids[n - 1], ids)
    }
}

/// The rules before any model is looked at.
pub open spec fn begun(rules: RulesV) -> SeedV {
    SeedV { rules, closed: Seq::empty(), added: Seq::empty() }
}

/// What the defaults of a provider make of the rules.
pub open spec fn seeded(rules: RulesV, plan: PlanV, ids: Seq<Seq<char>>) -> SeedV {
    models_step(begun(rules), plan, ids, ids.len())
}

/// Offers a name for a model.
fn offer(st: &mut SeedState, provider: &str, id: &str, alias: &str, ids: &[String])
    ensures
        final(st)@ == offered(old(st)@, provider@, id@, alias@, lists::views(ids@)),
{
    if !edit::alias_valid(alias) || st.rules.has_alias(alias) || model_rules::is_listed(ids, alias) {
        return ;
    }
    st.put_name(provider, id, alias);
}

/// Writes the defaults of a provider for a model.
fn treat(st: &mut SeedState, plan: &Plan, id: &str, ids: &[String])
    ensures
        final(st)@ == treated(old(st)@, plan@, id@, lists::views(ids@)),
{
    match plan {
        Plan::Raccoon => {
            if is_opaque_raccoon_id(id) {
                st.put_closed("raccoon", id);
            } else if text::starts_with(id, "sn-") {
                proof {
                    reveal_strlit("sn-");
                    assert("sn-"@.len() == 3);
                }
                let alias = text::skip_chars(id, 3);
                offer(st, "raccoon", id, alias.as_str(), ids);
            }
        },
        Plan::Only { provider, open } => {
            if !model_rules::is_listed(open.as_slice(), id) {
                st.put_closed(provider.as_str(), id);
            }
        },
        Plan::Cline { provider, pool } => {
            if let Some(alias) = cline::friendly_alias(*pool, id) {
                offer(st, provider.as_str(), id, alias.as_str(), ids);
            }
        },
    }
}

/// What the defaults of a provider make of the rules.
fn seed_all(rules: ModelRules, plan: &Plan, ids: &[String]) -> (r: SeedState)
    ensures
        r@ == seeded(rules@, plan@, lists::views(ids@)),
{
    let ghost start = rules@;
    let ghost all = lists::views(ids@);
    let mut st = SeedState { rules, closed: Vec::new(), added: Vec::new() };
    proof {
        assert(st@ =~= begun(start));
    }
    let provider = plan.provider();
    let mut i: usize = 0;
    while i < ids.len()
        invariant
            i <= ids@.len(),
            all == lists::views(ids@),
            provider@ == plan@.provider(),
            st@ == models_step(begun(start), plan@, all, i as nat),
        decreases ids@.len() - i,
    {
        let id = text::trim(ids[i].as_str());
        if !id.as_str().is_empty() {
            seed_extra_aliases(&mut st, provider, id.as_str(), ids);
            if !st.rules.is_seeded(provider, id.as_str()) {
                st.put_mark(mark_of(provider, id.as_str()));
                treat(&mut st, plan, id.as_str(), ids);
            }
        }
        i = i + 1;
    }
    st
}

// ------------------------------------------------------------------- results

/// The rules after the defaults were written, whether they are to be stored, and
/// what is told of it.
pub struct Seeding {
    pub rules: ModelRules,
    pub save: bool,
    pub summary: Option<String>,
}

/// The rules after the defaults were written.
#[verifier::ext_equal]
pub struct SeedingV {
    pub rules: RulesV,
    pub save: bool,
    pub summary: Option<Seq<char>>,
}

impl View for Seeding {
    type V = SeedingV;

    open spec fn view(&self) -> SeedingV {
        SeedingV { rules: self.rules@, save: self.save, summary: json::opt_string(self.summary) }
    }
}

/// The result of writing the defaults: the rules are stored where there is a new
/// mark.
pub open spec fn outcome_of(before: RulesV, st: SeedV, summary: Option<Seq<char>>) -> SeedingV {
    SeedingV {
        rules: st.rules,
        save: st.rules.seeded.len() != before.seeded.len(),
        summary,
    }
}

/// The texts of a list in square brackets.
pub open spec fn bracketed(list: Seq<Seq<char>>) -> Seq<char> {
    "["@ + text::separated(list, ", "@) + "]"@
}

/// The texts of a list in square brackets.
fn in_brackets(list: &Vec<String>) -> (r: String)
    ensures
        r@ == bracketed(lists::views(list@)),
{
    text::join3("[", text::join_all(list, ", ").as_str(), "]")
}

/// What is told of the defaults of Raccoon.
pub open spec fn raccoon_told(st: SeedV) -> Option<Seq<char>> {
    let first = if st.closed.len() > 0 {
        seq!["默认禁用内部模型 "@ + bracketed(st.closed)]
    } else {
        Seq::empty()
    };
    let parts = if st.added.len() > 0 {
        first.push("默认新增映射 "@ + bracketed(st.added))
    } else {
        first
    };
    if parts.len() == 0 {
        None
    } else {
        Some("🧩 小浣熊模型默认规则: "@ + text::separated(parts, "；"@))
    }
}

/// What the defaults of Raccoon make of the rules.
pub open spec fn raccoon_seeded(rules: RulesV, ids: Seq<Seq<char>>) -> SeedingV {
    let st = seeded(rules, PlanV::Raccoon, ids);
    outcome_of(rules, st, raccoon_told(st))
}

/// Writes the defaults for the models of Raccoon: those with an inner code name are
/// closed, and those with the prefix `sn-` are also offered without it.
pub fn seed_raccoon_defaults(rules: ModelRules, ids: &[String]) -> (r: Seeding)
    ensures
        r@ == raccoon_seeded(rules@, lists::views(ids@)),
{
    let before = rules.seeded.len();
    let st = seed_all(rules, &Plan::Raccoon, ids);
    let mut parts: Vec<String> = Vec::new();
    proof {
        assert(lists::views(parts@) =~= Seq::empty());
    }
    if st.closed.len() > 0 {
        let one = text::join2("默认禁用内部模型 ", in_brackets(&st.closed).as_str());
        proof {
            lists::views_push(parts@, one);
            assert(lists::views(parts@).push(one@) =~= seq![one@]);
        }
        parts.push(one);
    }
    if st.added.len() > 0 {
        let one = text::join2("默认新增映射 ", in_brackets(&st.added).as_str());
        proof {
            lists::views_push(parts@, one);
        }
        parts.push(one);
    }
    let summary = if parts.len() == 0 {
        None
    } else {
        Some(text::join2("🧩 小浣熊模型默认规则: ", text::join_all(&parts, "；").as_str()))
    };
    let save = st.rules.seeded.len() != before;
    Seeding { rules: st.rules, save, summary }
}

/// The models of WorkBuddy that stay open.
pub open spec fn workbuddy_open() -> Seq<Seq<char>> {
    seq!["hy3"@, "hy4-preview-f"@, "deepseek-v4.1-flash"@]
}

/// The models of Qoder that stay open.
pub open spec fn qoder_open() -> Seq<Seq<char>> {
    seq!["Qwen3.8-Flash"@]
}

/// What is told of defaults that close all models but some.
pub open spec fn only_told(label: Seq<char>, open: Seq<Seq<char>>, st: SeedV) -> Option<Seq<char>> {
    if st.closed.len() == 0 {
        None
    } else {
        Some(
            "🧩 "@ + label + "模型默认规则: 默认只启用 "@ + bracketed(open) + "；默认禁用 "@
                + text::decimal(st.closed.len()) + " 个 "@ + bracketed(st.closed),
        )
    }
}

/// What defaults that close all models but some make of the rules.
pub open spec fn only_seeded(
    rules: RulesV,
    provider: Seq<char>,
    label: Seq<char>,
    open: Seq<Seq<char>>,
    ids: Seq<Seq<char>>,
) -> SeedingV {
    let st = seeded(rules, PlanV::Only { provider, open }, ids);
    outcome_of(rules, st, only_told(label, open, st))
}

/// Writes defaults that close all models but some.
fn seed_default_enabled(
    rules: ModelRules,
    provider: &str,
    label: &str,
    open: Vec<String>,
    ids: &[String],
) -> (r: Seeding)
    ensures
        r@ == only_seeded(rules@, provider@, label@, lists::views(open@), lists::views(ids@)),
{
    let ghost start = rules@;
    let ghost opens = lists::views(open@);
    let before = rules.seeded.len();
    let shown = in_brackets(&open);
    let plan = Plan::Only { provider: provider.to_owned(), open };
    let st = seed_all(rules, &plan, ids);
    let summary = if st.closed.len() == 0 {
        None
    } else {
        let mut told = text::join3("🧩 ", label, "模型默认规则: 默认只启用 ");
        told.append(shown.as_str());
        told.append("；默认禁用 ");
        told.append(text::decimal_u64(st.closed.len() as u64).as_str());
        told.append(" 个 ");
        told.append(in_brackets(&st.closed).as_str());
        Some(told)
    };
    let save = st.rules.seeded.len() != before;
    Seeding { rules: st.rules, save, summary }
}

/// Writes the defaults for the models of WorkBuddy: all are closed but a few.
pub fn seed_workbuddy_defaults(rules: ModelRules, ids: &[String]) -> (r: Seeding)
    ensures
        r@ == only_seeded(rules@, "workbuddy"@, "WorkBuddy"@, workbuddy_open(), lists::views(ids@)),
{
    let mut open: Vec<String> = Vec::new();
    open.push("hy3".to_owned());
    open.push("hy4-preview-f".to_owned());
    open.push("deepseek-v4.1-flash".to_owned());
    proof {
        assert(lists::views(open@) =~= workbuddy_open());
    }
    seed_default_enabled(rules, "workbuddy", "WorkBuddy", open, ids)
}

/// Writes the defaults for the models of Qoder: all are closed but one.
pub fn seed_qoder_defaults(rules: ModelRules, ids: &[String]) -> (r: Seeding)
    ensures
        r@ == only_seeded(rules@, "qoder"@, "Qoder"@, qoder_open(), lists::views(ids@)),
{
    let mut open: Vec<String> = Vec::new();
    open.push("Qwen3.8-Flash".to_owned());
    proof {
        assert(lists::views(open@) =~= qoder_open());
    }
    seed_default_enabled(rules, "qoder", "Qoder", open, ids)
}

/// The pool of a provider; any other counts as the one in which no name of a maker
/// is taken off.
pub open spec fn pool_for(provider: Seq<char>) -> Pool {
    match cline::pool_named(provider) {
        Some(pool) => pool,
        None => Pool::Pass,
    }
}

/// What the defaults of a pool of Cline make of the rules.
pub open spec fn cline_seeded(rules: RulesV, provider: Seq<char>, ids: Seq<Seq<char>>) -> SeedingV {
    let st = seeded(rules, PlanV::Cline { provider, pool: pool_for(provider) }, ids);
    outcome_of(
        rules,
        st,
        if st.added.len() == 0 {
            None
        } else {
            Some("🧩 Cline 模型默认映射: "@ + bracketed(st.added))
        },
    )
}

/// Writes the defaults for the models of a pool of Cline: they are also offered under
/// their short names.
pub fn seed_cline_defaults(rules: ModelRules, provider: &str, ids: &[String]) -> (r: Seeding)
    ensures
        r@ == cline_seeded(rules@, provider@, lists::views(ids@)),
{
    let before = rules.seeded.len();
    let pool = match Pool::from_provider_id(provider) {
        Some(pool) => pool,
        None => Pool::Pass,
    };
    let plan = Plan::Cline { provider: provider.to_owned(), pool };
    let st = seed_all(rules, &plan, ids);
    let summary = if st.added.len() == 0 {
        None
    } else {
        Some(text::join2("🧩 Cline 模型默认映射: ", in_brackets(&st.added).as_str()))
    };
    let save = st.rules.seeded.len() != before;
    Seeding { rules: st.rules, save, summary }
}

// ---------------------------------------------------------------------- laws

/// Whether the one list goes on where the other ends.
pub open spec fn goes_on(before: Seq<Seq<char>>, after: Seq<Seq<char>>) -> bool {
    before.len() <= after.len() && after.take(before.len() as int) == before
}

proof fn listed_goes_on(before: Seq<Seq<char>>, after: Seq<Seq<char>>, one: Seq<char>)
    requires
        goes_on(before, after),
        model_rules::listed(before, one),
    ensures
        model_rules::listed(after, one),
{
    let i = choose|i: int| 0 <= i < before.len() && text::same_fold(#[trigger] before[i], one);
    assert(after.take(before.len() as int)[i] == after[i]);
}

proof fn marked_goes_on(
    before: Seq<Seq<char>>,
    after: Seq<Seq<char>>,
    provider: Seq<char>,
    id: Seq<char>,
)
    requires
        goes_on(before, after),
        marked(before, provider, id),
    ensures
        marked(after, provider, id),
{
    if model_rules::listed(before, mark(provider, id)) {
        listed_goes_on(before, after, mark(provider, id));
    } else {
        listed_goes_on(before, after, id);
    }
}

/// Whether the marks say that everything was done for a model, its further names
/// included.
pub open spec fn done(marks: Seq<Seq<char>>, provider: Seq<char>, id: Seq<char>) -> bool {
    marked(marks, provider, id) && forall|i: int|
        0 <= i < 5 && row_applies(#[trigger] further_names()[i], provider, id) ==> model_rules::listed(
            marks,
            alias_mark(provider, id, further_names()[i].2),
        )
}

proof fn rows_mark(st: SeedV, provider: Seq<char>, id: Seq<char>, ids: Seq<Seq<char>>, n: nat)
    requires
        n <= 5,
    ensures
        goes_on(st.rules.seeded, rows_step(st, provider, id, ids, n).rules.seeded),
        forall|i: int|
            0 <= i < n && row_applies(#[trigger] further_names()[i], provider, id) ==> model_rules::listed(
                rows_step(st, provider, id, ids, n).rules.seeded,
                alias_mark(provider, id, further_names()[i].2),
            ),
    decreases n,
{
    let after = rows_step(st, provider, id, ids, n);
    if n == 0 {
        assert(after.rules.seeded.take(st.rules.seeded.len() as int) =~= st.rules.seeded);
    } else {
        rows_mark(st, provider, id, ids, (n - 1) as nat);
        let before = rows_step(st, provider, id, ids, (n - 1) as nat);
        let row = further_names()[n - 1];
        let key = alias_mark(provider, id, row.2);
        assert(goes_on(before.rules.seeded, after.rules.seeded)) by {
            assert(after.rules.seeded.take(before.rules.seeded.len() as int)
                =~= before.rules.seeded);
        }
        assert(after.rules.seeded.take(st.rules.seeded.len() as int) =~= st.rules.seeded) by {
            assert(before.rules.seeded.take(st.rules.seeded.len() as int) =~= st.rules.seeded);
            assert forall|i: int| 0 <= i < st.rules.seeded.len() implies after.rules.seeded[i]
                == st.rules.seeded[i] by {
                assert(before.rules.seeded.take(st.rules.seeded.len() as int)[i]
                    == before.rules.seeded[i]);
                assert(after.rules.seeded.take(before.rules.seeded.len() as int)[i]
                    == after.rules.seeded[i]);
            }
        }
        assert forall|i: int|
            0 <= i < n && row_applies(#[trigger] further_names()[i], provider, id) implies model_rules::listed(
            after.rules.seeded,
            alias_mark(provider, id, further_names()[i].2),
        ) by {
            let one = alias_mark(provider, id, further_names()[i].2);
            if i < n - 1 {
                listed_goes_on(before.rules.seeded, after.rules.seeded, one);
            } else if !model_rules::listed(before.rules.seeded, key) {
                assert(after.rules.seeded[before.rules.seeded.len() as int] == key);
            }
        }
    }
}

proof fn rows_stay(st: SeedV, provider: Seq<char>, id: Seq<char>, ids: Seq<Seq<char>>, n: nat)
    requires
        n <= 5,
        forall|i: int|
            0 <= i < 5 && row_applies(#[trigger] further_names()[i], provider, id) ==> model_rules::listed(
                st.rules.seeded,
                alias_mark(provider, id, further_names()[i].2),
            ),
    ensures
        rows_step(st, provider, id, ids, n) == st,
    decreases n,
{
    if n > 0 {
        rows_stay(st, provider, id, ids, (n - 1) as nat);
        let row = further_names()[n - 1];
        assert(row_applies(row, provider, id) ==> model_rules::listed(
            st.rules.seeded,
            alias_mark(provider, id, row.2),
        ));
    }
}

/// Once a model was treated, the defaults change nothing about it any more, whatever
/// has been done to the rules in the meantime.
pub proof fn treated_model_stays(st: SeedV, plan: PlanV, raw: Seq<char>, ids: Seq<Seq<char>>)
    requires
        done(st.rules.seeded, plan.provider(), text::trimmed(raw)),
    ensures
        model_step(st, plan, raw, ids) == st,
{
    rows_stay(st, plan.provider(), text::trimmed(raw), ids, 5);
}

proof fn model_marks(st: SeedV, plan: PlanV, raw: Seq<char>, ids: Seq<Seq<char>>)
    ensures
        goes_on(st.rules.seeded, model_step(st, plan, raw, ids).rules.seeded),
        text::trimmed(raw).len() > 0 ==> done(
            model_step(st, plan, raw, ids).rules.seeded,
            plan.provider(),
            text::trimmed(raw),
        ),
{
    let id = text::trimmed(raw);
    let after = model_step(st, plan, raw, ids);
    if id.len() == 0 {
        assert(after.rules.seeded.take(st.rules.seeded.len() as int) =~= st.rules.seeded);
    } else {
        rows_mark(st, plan.provider(), id, ids, 5);
        let next = rows_step(st, plan.provider(), id, ids, 5);
        if !marked(next.rules.seeded, plan.provider(), id) {
            let key = mark(plan.provider(), id);
            assert(after.rules.seeded == next.rules.seeded.push(key));
            assert(goes_on(next.rules.seeded, after.rules.seeded)) by {
                assert(after.rules.seeded.take(next.rules.seeded.len() as int)
                    =~= next.rules.seeded);
            }
            assert(after.rules.seeded[next.rules.seeded.len() as int] == key);
            assert(model_rules::listed(after.rules.seeded, key));
            assert forall|i: int|
                0 <= i < 5 && row_applies(
                    #[trigger] further_names()[i],
                    plan.provider(),
                    id,
                ) implies model_rules::listed(
                after.rules.seeded,
                alias_mark(plan.provider(), id, further_names()[i].2),
            ) by {
                listed_goes_on(
                    next.rules.seeded,
                    after.rules.seeded,
                    alias_mark(plan.provider(), id, further_names()[i].2),
                );
            }
            assert(after.rules.seeded.take(st.rules.seeded.len() as int) =~= st.rules.seeded) by {
                assert forall|i: int| 0 <= i < st.rules.seeded.len() implies after.rules.seeded[i]
                    == st.rules.seeded[i] by {
                    assert(next.rules.seeded.take(st.rules.seeded.len() as int)[i]
                        == next.rules.seeded[i]);
                }
            }
        }
    }
}

proof fn done_goes_on(
    before: Seq<Seq<char>>,
    after: Seq<Seq<char>>,
    provider: Seq<char>,
    id: Seq<char>,
)
    requires
        goes_on(before, after),
        done(before, provider, id),
    ensures
        done(after, provider, id),
{
    marked_goes_on(before, after, provider, id);
    assert forall|i: int|
        0 <= i < 5 && row_applies(#[trigger] further_names()[i], provider, id) implies model_rules::listed(
        after,
        alias_mark(provider, id, further_names()[i].2),
    ) by {
        listed_goes_on(before, after, alias_mark(provider, id, further_names()[i].2));
    }
}

proof fn models_mark(st: SeedV, plan: PlanV, ids: Seq<Seq<char>>, n: nat)
    requires
        n <= ids.len(),
    ensures
        forall|k: int|
            0 <= k < n && text::trimmed(#[trigger] ids[k]).len() > 0 ==> done(
                models_step(st, plan, ids, n).rules.seeded,
                plan.provider(),
                text::trimmed(ids[k]),
            ),
    decreases n,
{
    if n > 0 {
        models_mark(st, plan, ids, (n - 1) as nat);
        let before = models_step(st, plan, ids, (n - 1) as nat);
        let after = models_step(st, plan, ids, n);
        model_marks(before, plan, ids[n - 1], ids);
        assert forall|k: int| 0 <= k < n && text::trimmed(#[trigger] ids[k]).len() > 0 implies done(
            after.rules.seeded,
            plan.provider(),
            text::trimmed(ids[k]),
        ) by {
            if k < n - 1 {
                done_goes_on(
                    before.rules.seeded,
                    after.rules.seeded,
                    plan.provider(),
                    text::trimmed(ids[k]),
                );
            }
        }
    }
}

proof fn models_stay(st: SeedV, plan: PlanV, ids: Seq<Seq<char>>, n: nat)
    requires
        n <= ids.len(),
        forall|k: int|
            0 <= k < ids.len() && text::trimmed(#[trigger] ids[k]).len() > 0 ==> done(
                st.rules.seeded,
                plan.provider(),
                text::trimmed(ids[k]),
            ),
    ensures
        models_step(st, plan, ids, n) == st,
    decreases n,
{
    if n > 0 {
        models_stay(st, plan, ids, (n - 1) as nat);
        if text::trimmed(ids[n - 1]).len() > 0 {
            treated_model_stays(st, plan, ids[n - 1], ids);
        }
    }
}

/// The defaults are written once. Whatever a user has done to the rules since, as
/// long as the marks are kept, the same models leave the rules as they are, and
/// nothing is told of.
pub proof fn defaults_are_written_once(
    rules: RulesV,
    later: RulesV,
    plan: PlanV,
    ids: Seq<Seq<char>>,
)
    requires
        later.seeded == seeded(rules, plan, ids).rules.seeded,
    ensures
        seeded(later, plan, ids) == begun(later),
{
    models_mark(begun(rules), plan, ids, ids.len());
    models_stay(begun(later), plan, ids, ids.len());
}

/// After the defaults were written, a switch that the user sets stays, however the rules and
/// the user spell the provider and the model: writing the defaults again changes nothing, and
/// the model is offered as the switch says.
pub proof fn switch_outlasts_defaults(
    rules: RulesV,
    plan: PlanV,
    ids: Seq<Seq<char>>,
    name: Seq<char>,
    id: Seq<char>,
    on: bool,
    others: Seq<Seq<char>>,
    provider: Seq<char>,
    model: Seq<char>,
)
    requires
        text::same_fold(name, provider),
        text::same_fold(id, model),
    ensures
        ({
            let set = edit::state_set(
                seeded(rules, plan, ids).rules,
                Some(name),
                id,
                Some(on),
                others,
            );
            &&& seeded(set, plan, ids) == begun(set)
            &&& set.default_enabled(provider, model) == on
        }),
{
    let first = seeded(rules, plan, ids).rules;
    let set = edit::state_set(first, Some(name), id, Some(on), others);
    defaults_are_written_once(rules, set, plan, ids);
    if on {
        edit::opening_offers(first, name, id, others);
    } else {
        edit::closing_withdraws(first, Some(name), id, others, name);
    }
    model_rules::spelling_does_not_matter(set, name, id, provider, model);
}

/// Where all models of a provider are closed but some, writing the defaults again after a
/// switch was set stores nothing and tells nothing.
pub proof fn switch_outlasts_closed_defaults(
    rules: RulesV,
    provider: Seq<char>,
    label: Seq<char>,
    open: Seq<Seq<char>>,
    ids: Seq<Seq<char>>,
    id: Seq<char>,
    on: bool,
    others: Seq<Seq<char>>,
)
    ensures
        ({
            let first = only_seeded(rules, provider, label, open, ids).rules;
            let set = edit::state_set(first, Some(provider), id, Some(on), others);
            &&& only_seeded(set, provider, label, open, ids) == (SeedingV {
                rules: set,
                save: false,
                summary: None,
            })
            &&& set.default_enabled(provider, id) == on
        }),
{
    switch_outlasts_defaults(
        rules,
        (PlanV::Only { provider, open }),
        ids,
        provider,
        id,
        on,
        others,
        provider,
        id,
    );
}

proof fn closing_keeps_closed(
    list: Seq<RuleV>,
    provider: Seq<char>,
    id: Seq<char>,
    name: Seq<char>,
    model: Seq<char>,
)
    requires
        lists::any(list, model_rules::closing(name, model)),
    ensures
        lists::any(edit::closed(list, Some(provider), id), model_rules::closing(name, model)),
{
    let pred = edit::other_rule(Some(provider), id);
    let r = edit::closed(list, Some(provider), id);
    let kept = list.filter(pred);
    lists::kept_says(list, pred);
    let i = choose|i: int| 0 <= i < list.len() && model_rules::closing(name, model)(#[trigger] list[i]);
    if pred(list[i]) {
        let j = choose|j: int| 0 <= j < kept.len() && kept[j] == list[i];
        assert(r[j] == kept[j]);
        assert(model_rules::closing(name, model)(r[j]));
    } else {
        assert(model_rules::closing(name, model)(r[r.len() - 1]));
    }
}

proof fn rows_keep_closed(st: SeedV, provider: Seq<char>, id: Seq<char>, ids: Seq<Seq<char>>, n: nat)
    ensures
        rows_step(st, provider, id, ids, n).rules.disabled == st.rules.disabled,
    decreases n,
{
    if n > 0 {
        rows_keep_closed(st, provider, id, ids, (n - 1) as nat);
    }
}

proof fn model_keeps_closed(
    st: SeedV,
    plan: PlanV,
    raw: Seq<char>,
    ids: Seq<Seq<char>>,
    name: Seq<char>,
    model: Seq<char>,
)
    requires
        st.rules.is_disabled(name, model),
    ensures
        model_step(st, plan, raw, ids).rules.is_disabled(name, model),
{
    let id = text::trimmed(raw);
    rows_keep_closed(st, plan.provider(), id, ids, 5);
    closing_keeps_closed(st.rules.disabled, plan.provider(), id, name, model);
}

proof fn models_keep_closed(
    st: SeedV,
    plan: PlanV,
    ids: Seq<Seq<char>>,
    k: nat,
    n: nat,
    name: Seq<char>,
    model: Seq<char>,
)
    requires
        k <= n,
        models_step(st, plan, ids, k).rules.is_disabled(name, model),
    ensures
        models_step(st, plan, ids, n).rules.is_disabled(name, model),
    decreases n - k,
{
    if k < n {
        models_keep_closed(st, plan, ids, k, (n - 1) as nat, name, model);
        model_keeps_closed(
            models_step(st, plan, ids, (n - 1) as nat),
            plan,
            ids[n - 1],
            ids,
            name,
            model,
        );
    }
}

/// Where all models are closed but some, a model that is none of these and was not
/// treated when its turn came is closed.
pub proof fn unlisted_model_is_closed(
    rules: RulesV,
    provider: Seq<char>,
    open: Seq<Seq<char>>,
    ids: Seq<Seq<char>>,
    k: int,
)
    requires
        0 <= k < ids.len(),
        text::trimmed(ids[k]).len() > 0,
        !model_rules::listed(open, text::trimmed(ids[k])),
        !marked(
            rows_step(
                models_step(begun(rules), (PlanV::Only { provider, open }), ids, k as nat),
                provider,
                text::trimmed(ids[k]),
                ids,
                5,
            ).rules.seeded,
            provider,
            text::trimmed(ids[k]),
        ),
    ensures
        seeded(rules, (PlanV::Only { provider, open }), ids).rules.is_disabled(
            provider,
            text::trimmed(ids[k]),
        ),
{
    let plan = PlanV::Only { provider, open };
    let id = text::trimmed(ids[k]);
    let before = models_step(begun(rules), plan, ids, k as nat);
    let next = with_mark(rows_step(before, provider, id, ids, 5), mark(provider, id));
    if !next.rules.is_disabled(provider, id) {
        edit::closed_is_closed(next.rules.disabled, Some(provider), id, provider);
    }
    models_keep_closed(
        begun(rules),
        plan,
        ids,
        (k + 1) as nat,
        ids.len(),
        provider,
        id,
    );
}

} // verus!
