//! The providers that requests can go to: who they are and what they are called.

pub mod autoclaw;
pub mod catalog;
pub mod cline;
pub mod custom;
pub mod router;

use crate::json::{Json, Jv};
use crate::json;
use crate::text;
use vstd::prelude::*;
use vstd::string::*;

verus! {

/// The provider of accounts that name none.
pub const DEFAULT_PROVIDER_ID: &'static str = "workbuddy";

/// What the identifiers of the providers that a user has added begin with.
pub const CUSTOM_PREFIX: &'static str = "custom-";

/// The providers that are built in.
#[derive(Clone, Copy, Debug, PartialEq, Eq, Structural, Hash)]
pub enum ProviderKind {
    WorkBuddy,
    Raccoon,
    CatPaw,
    AutoClaw,
    AutoClawIntl,
    Qoder,
    ClineFree,
    ClinePass,
}

/// What is known of a provider.
pub struct ProviderMeta {
    pub id: &'static str,
    pub label: &'static str,
}

/// The built-in providers, in the order in which they are shown.
pub open spec fn kinds() -> Seq<ProviderKind> {
    seq![
        ProviderKind::WorkBuddy,
        ProviderKind::Raccoon,
        ProviderKind::CatPaw,
        ProviderKind::AutoClaw,
        ProviderKind::AutoClawIntl,
        ProviderKind::Qoder,
        ProviderKind::ClineFree,
        ProviderKind::ClinePass,
    ]
}

/// The identifier of a provider.
pub open spec fn kind_name(kind: ProviderKind) -> Seq<char> {
    match kind {
        ProviderKind::WorkBuddy => "workbuddy"@,
        ProviderKind::Raccoon => "raccoon"@,
        ProviderKind::CatPaw => "catpaw"@,
        ProviderKind::AutoClaw => "autoclaw"@,
        ProviderKind::AutoClawIntl => "autoclaw-intl"@,
        ProviderKind::Qoder => "qoder"@,
        ProviderKind::ClineFree => "cline-free"@,
        ProviderKind::ClinePass => "cline-pass"@,
    }
}

/// What a provider is called.
pub open spec fn kind_label(kind: ProviderKind) -> Seq<char> {
    match kind {
        ProviderKind::WorkBuddy => "WorkBuddy"@,
        ProviderKind::Raccoon => "小浣熊"@,
        ProviderKind::CatPaw => "CatPaw"@,
        ProviderKind::AutoClaw => "AutoClaw 国内版"@,
        ProviderKind::AutoClawIntl => "AutoClaw 国际版"@,
        ProviderKind::Qoder => "Qoder"@,
        ProviderKind::ClineFree => "Cline Free"@,
        ProviderKind::ClinePass => "Cline Pass"@,
    }
}

/// The provider with an identifier.
pub open spec fn kind_of(id: Seq<char>) -> Option<ProviderKind> {
    if id == "workbuddy"@ {
        Some(ProviderKind::WorkBuddy)
    } else if id == "raccoon"@ {
        Some(ProviderKind::Raccoon)
    } else if id == "catpaw"@ {
        Some(ProviderKind::CatPaw)
    } else if id == "autoclaw"@ {
        Some(ProviderKind::AutoClaw)
    } else if id == "autoclaw-intl"@ {
        Some(ProviderKind::AutoClawIntl)
    } else if id == "qoder"@ {
        Some(ProviderKind::Qoder)
    } else if id == "cline-free"@ {
        Some(ProviderKind::ClineFree)
    } else if id == "cline-pass"@ {
        Some(ProviderKind::ClinePass)
    } else {
        None
    }
}

/// The place of a provider among the built-in ones.
pub open spec fn kind_place(kind: ProviderKind) -> int {
    match kind {
        ProviderKind::WorkBuddy => 0,
        ProviderKind::Raccoon => 1,
        ProviderKind::CatPaw => 2,
        ProviderKind::AutoClaw => 3,
        ProviderKind::AutoClawIntl => 4,
        ProviderKind::Qoder => 5,
        ProviderKind::ClineFree => 6,
        ProviderKind::ClinePass => 7,
    }
}

/// No two providers have one identifier: a provider is found again by it.
pub proof fn kind_found_again(kind: ProviderKind)
    ensures
        kind_of(kind_name(kind)) == Some(kind),
{
    reveal_strlit("workbuddy");
    reveal_strlit("raccoon");
    reveal_strlit("catpaw");
    reveal_strlit("autoclaw");
    reveal_strlit("autoclaw-intl");
    reveal_strlit("qoder");
    reveal_strlit("cline-free");
    reveal_strlit("cline-pass");
    assert("workbuddy"@.len() == 9);
    assert("raccoon"@.len() == 7);
    assert("catpaw"@.len() == 6);
    assert("autoclaw"@.len() == 8);
    assert("autoclaw-intl"@.len() == 13);
    assert("qoder"@.len() == 5);
    assert("cline-free"@.len() == 10);
    assert("cline-pass"@.len() == 10);
    assert("cline-free"@[6] == 'f');
    assert("cline-pass"@[6] == 'p');
}

/// An identifier that leads to a provider is that provider's.
pub proof fn id_found_again(id: Seq<char>)
    ensures
        kind_of(id) matches Some(kind) ==> kind_name(kind) == id,
{
}

/// Every provider stands in the list, at its place.
pub proof fn kind_stands_in_list(kind: ProviderKind)
    ensures
        0 <= kind_place(kind) < kinds().len(),
        kinds()[kind_place(kind)] == kind,
{
}

/// The default provider is built in, and the first of the list.
pub proof fn default_provider_known()
    ensures
        kind_of(DEFAULT_PROVIDER_ID@) == Some(kinds()[0]),
{
}

/// Whether an identifier is that of a provider that a user has added.
pub open spec fn is_custom(id: Seq<char>) -> bool {
    text::has_prefix(id, CUSTOM_PREFIX@)
}

/// No built-in provider is one that a user has added.
pub proof fn built_in_is_not_custom(kind: ProviderKind)
    ensures
        !is_custom(kind_name(kind)),
{
    reveal_strlit("custom-");
    reveal_strlit("workbuddy");
    reveal_strlit("raccoon");
    reveal_strlit("catpaw");
    reveal_strlit("autoclaw");
    reveal_strlit("autoclaw-intl");
    reveal_strlit("qoder");
    reveal_strlit("cline-free");
    reveal_strlit("cline-pass");
    let id = kind_name(kind);
    if is_custom(id) {
        assert(id.take(7)[0] == 'c' && id.take(7)[1] == 'u');
        assert(id[0] == 'c' && id[1] == 'u');
    }
}

/// The provider with an identifier; none where it is not a built-in one.
pub fn kind_from_id(id: &str) -> (r: Option<ProviderKind>)
    ensures
        r == kind_of(id@),
{
    if text::same(id, "workbuddy") {
        Some(ProviderKind::WorkBuddy)
    } else if text::same(id, "raccoon") {
        Some(ProviderKind::Raccoon)
    } else if text::same(id, "catpaw") {
        Some(ProviderKind::CatPaw)
    } else if text::same(id, "autoclaw") {
        Some(ProviderKind::AutoClaw)
    } else if text::same(id, "autoclaw-intl") {
        Some(ProviderKind::AutoClawIntl)
    } else if text::same(id, "qoder") {
        Some(ProviderKind::Qoder)
    } else if text::same(id, "cline-free") {
        Some(ProviderKind::ClineFree)
    } else if text::same(id, "cline-pass") {
        Some(ProviderKind::ClinePass)
    } else {
        None
    }
}

/// The identifier of a provider.
pub fn kind_id(kind: ProviderKind) -> (r: &'static str)
    ensures
        r@ == kind_name(kind),
{
    match kind {
        ProviderKind::WorkBuddy => "workbuddy",
        ProviderKind::Raccoon => "raccoon",
        ProviderKind::CatPaw => "catpaw",
        ProviderKind::AutoClaw => "autoclaw",
        ProviderKind::AutoClawIntl => "autoclaw-intl",
        ProviderKind::Qoder => "qoder",
        ProviderKind::ClineFree => "cline-free",
        ProviderKind::ClinePass => "cline-pass",
    }
}

/// What is known of a provider.
pub fn meta(kind: ProviderKind) -> (r: ProviderMeta)
    ensures
        r.id@ == kind_name(kind),
        r.label@ == kind_label(kind),
{
    let label = match kind {
        ProviderKind::WorkBuddy => "WorkBuddy",
        ProviderKind::Raccoon => "小浣熊",
        ProviderKind::CatPaw => "CatPaw",
        ProviderKind::AutoClaw => "AutoClaw 国内版",
        ProviderKind::AutoClawIntl => "AutoClaw 国际版",
        ProviderKind::Qoder => "Qoder",
        ProviderKind::ClineFree => "Cline Free",
        ProviderKind::ClinePass => "Cline Pass",
    };
    ProviderMeta { id: kind_id(kind), label }
}

/// The built-in providers, in the order in which they are shown.
pub fn all_kinds() -> (r: Vec<ProviderKind>)
    ensures
        r@ == kinds(),
{
    let mut out: Vec<ProviderKind> = Vec::new();
    out.push(ProviderKind::WorkBuddy);
    out.push(ProviderKind::Raccoon);
    out.push(ProviderKind::CatPaw);
    out.push(ProviderKind::AutoClaw);
    out.push(ProviderKind::AutoClawIntl);
    out.push(ProviderKind::Qoder);
    out.push(ProviderKind::ClineFree);
    out.push(ProviderKind::ClinePass);
    proof {
        assert(out@ =~= kinds());
    }
    out
}

/// The place of a provider among the built-in ones.
pub fn provider_index(id: &str) -> (r: Option<usize>)
    ensures
        r matches Some(n) ==> kind_of(id@) == Some(kinds()[n as int]) && n < kinds().len(),
        r is Some <==> kind_of(id@) is Some,
        r matches Some(n) ==> n == kind_place(kind_of(id@)->0),
{
    match kind_from_id(id) {
        Some(kind) => Some(
            match kind {
                ProviderKind::WorkBuddy => 0,
                ProviderKind::Raccoon => 1,
                ProviderKind::CatPaw => 2,
                ProviderKind::AutoClaw => 3,
                ProviderKind::AutoClawIntl => 4,
                ProviderKind::Qoder => 5,
                ProviderKind::ClineFree => 6,
                ProviderKind::ClinePass => 7,
            },
        ),
        None => None,
    }
}

/// Whether an identifier is that of a built-in provider.
pub fn is_known_provider_id(id: &str) -> (r: bool)
    ensures
        r == (kind_of(id@) is Some),
{
    kind_from_id(id).is_some()
}

/// Whether an identifier is that of a provider that a user has added.
pub fn is_custom_provider_id(id: &str) -> (r: bool)
    ensures
        r == is_custom(id@),
{
    text::starts_with(id, CUSTOM_PREFIX)
}

/// What a provider is called: a provider that a user has added by the name that
/// was given, any other unknown one by its identifier.
pub open spec fn shown_name(id: Seq<char>, given: Option<Seq<char>>) -> Seq<char> {
    if is_custom(id) {
        match given {
            Some(name) => name,
            None => id,
        }
    } else {
        match kind_of(id) {
            Some(kind) => kind_label(kind),
            None => id,
        }
    }
}

/// What a provider is called; `given` is the name that a user gave.
pub fn label_of(id: &str, given: Option<&str>) -> (r: String)
    ensures
        r@ == shown_name(id@, json::opt_text(given)),
{
    if is_custom_provider_id(id) {
        return match given {
            Some(name) => name.to_owned(),
            None => id.to_owned(),
        };
    }
    match kind_from_id(id) {
        Some(kind) => meta(kind).label.to_owned(),
        None => id.to_owned(),
    }
}

/// A provider in the summary, with the number of its accounts.
pub open spec fn summary_entry(kind: ProviderKind, count: int) -> Jv {
    Jv::obj().put("id"@, Jv::Str(kind_name(kind))).put("label"@, Jv::Str(kind_label(kind))).put(
        "count"@,
        Jv::Int(count),
    )
}

/// The count at a place, or zero where the list is too short.
pub open spec fn count_at(counts: Seq<usize>, i: int) -> int {
    if 0 <= i < counts.len() {
        counts[i] as int
    } else {
        0
    }
}

/// The providers and how many accounts each of them has; `counts` holds the
/// numbers, in the order of the providers.
pub fn summary_json(counts: &Vec<usize>) -> (r: Vec<Json>)
    ensures
        json::models(r@) == Seq::new(
            kinds().len(),
            |i: int| summary_entry(kinds()[i], count_at(counts@, i)),
        ),
{
    let all = all_kinds();
    let ghost want = Seq::new(
        kinds().len(),
        |i: int| summary_entry(kinds()[i], count_at(counts@, i)),
    );
    let mut out: Vec<Json> = Vec::new();
    let mut i: usize = 0;
    proof {
        assert(json::models(out@) =~= want.take(0));
    }
    while i < all.len()
        invariant
            i <= all@.len(),
            all@ == kinds(),
            want == Seq::new(
                kinds().len(),
                |i: int| summary_entry(kinds()[i], count_at(counts@, i)),
            ),
            json::models(out@) == want.take(i as int),
        decreases all@.len() - i,
    {
        let detail = meta(all[i]);
        let number: usize = if i < counts.len() {
            counts[i]
        } else {
            0
        };
        let one = Json::obj().with("id", Json::str(detail.id)).with(
            "label",
            Json::str(detail.label),
        ).with("count", json::count(number));
        proof {
            json::models_push(out@, one);
            assert(want.take(i as int).push(want[i as int]) =~= want.take(i as int + 1));
        }
        out.push(one);
        i = i + 1;
    }
    proof {
        assert(want.take(want.len() as int) =~= want);
    }
    out
}

} // verus!
