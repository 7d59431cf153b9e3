//! The models that the providers have.
//!
//! The name that a provider itself gives a model is its default binding, and every
//! mapping to it is a further one. Each has a switch of its own: closing the name of
//! a model does not close the other names that lead to it.

pub mod manage;
pub mod routing;
pub mod view;

use crate::json::{Json, Jv};
use crate::json;
use crate::lists;
use crate::model_rules::edit;
use crate::model_rules::{ModelRules, RulesV};
use crate::protocol;
use crate::providers::ProviderKind;
use crate::providers;
use crate::text;
use vstd::prelude::*;
use vstd::string::*;

verus! {

/// The models that a built-in provider lists, each an entry with an `id`, and
/// whether the default model may be one of them.
pub struct Listing {
    pub kind: ProviderKind,
    pub entries: Vec<Json>,
    pub default_models: bool,
}

/// The models that a built-in provider lists.
#[verifier::ext_equal]
pub struct ListingV {
    pub kind: ProviderKind,
    pub entries: Seq<Jv>,
    pub default_models: bool,
}

impl View for Listing {
    type V = ListingV;

    open spec fn view(&self) -> ListingV {
        ListingV {
            kind: self.kind,
            entries: json::models(self.entries@),
            default_models: self.default_models,
        }
    }
}

/// The identifier of a model.
pub open spec fn entry_id(entry: Jv) -> Seq<char> {
    protocol::loose_field(entry, "id"@)
}

/// The identifier of a model.
pub fn model_id(entry: &Json) -> (r: String)
    ensures
        r@ == entry_id(entry@),
{
    protocol::string_field(entry, "id")
}

/// Entries with that identifier.
pub open spec fn by_id(id: Seq<char>) -> spec_fn(Jv) -> bool {
    |e: Jv| text::same_fold(entry_id(e), id)
}

/// Whether a list has an entry with that identifier.
pub(crate) fn has_id(list: &Vec<Json>, id: &str) -> (r: bool)
    ensures
        r == lists::any(json::models(list@), by_id(id@)),
{
    let mut i: usize = 0;
    while i < list.len()
        invariant
            i <= list@.len(),
            forall|j: int| 0 <= j < i ==> !by_id(id@)(#[trigger] json::models(list@)[j]),
        decreases list@.len() - i,
    {
        let one = model_id(&list[i]);
        if text::eq_fold(one.as_str(), id) {
            proof {
                assert(by_id(id@)(json::models(list@)[i as int]));
            }
            return true;
        }
        i = i + 1;
    }
    false
}

/// A list of models with the first `n` further ones that it does not have yet.
pub open spec fn with_further(list: Seq<Jv>, further: Seq<Jv>, n: nat) -> Seq<Jv>
    decreases n,
{
    if n == 0 {
        list
    } else {
        let before = with_further(list, further, (n - 1) as nat);
        let one = further[n - 1];
        if entry_id(one).len() > 0 && !lists::any(before, by_id(entry_id(one))) {
            before.push(one)
        } else {
            before
        }
    }
}

/// The models of a provider: those that it lists and those that were added. The
/// switches do not count here.
pub open spec fn manifest(listed: Seq<Jv>, rules: RulesV, kind: ProviderKind) -> Seq<Jv> {
    let further = lists::chosen(rules.custom, edit::custom_of(providers::kind_name(kind)));
    with_further(listed, further, further.len())
}

/// The models of a provider: those that it lists and those that were added.
pub fn manifest_for(listed: &Vec<Json>, rules: &ModelRules, kind: ProviderKind) -> (r: Vec<Json>)
    ensures
        json::models(r@) == manifest(json::models(listed@), rules@, kind),
{
    let mut out = json::copy_all(listed);
    let further = edit::custom_models_for(rules, providers::kind_id(kind));
    let ghost all = json::models(further@);
    let ghost start = json::models(listed@);
    let mut i: usize = 0;
    while i < further.len()
        invariant
            i <= further@.len(),
            all == json::models(further@),
            json::models(out@) == with_further(start, all, i as nat),
        decreases further@.len() - i,
    {
        let id = model_id(&further[i]);
        if !id.as_str().is_empty() && !has_id(&out, id.as_str()) {
            let one = further[i].copy();
            proof {
                json::models_push(out@, one);
            }
            out.push(one);
        }
        i = i + 1;
    }
    out
}

/// The models of a provider among the listings; none where it has no listing.
pub open spec fn manifest_among(
    listings: Seq<ListingV>,
    rules: RulesV,
    kind: ProviderKind,
) -> Seq<Jv> {
    match lists::found(listings, |l: ListingV| l.kind == kind) {
        Some(l) => manifest(l.entries, rules, kind),
        None => manifest(Seq::empty(), rules, kind),
    }
}

/// The models of a provider among the listings.
pub(crate) fn manifest_in(
    listings: &Vec<Listing>,
    rules: &ModelRules,
    kind: ProviderKind,
) -> (r: Vec<Json>)
    ensures
        json::models(r@) == manifest_among(lists::views(listings@), rules@, kind),
{
    let ghost pred = |l: ListingV| l.kind == kind;
    let ghost all = lists::views(listings@);
    let mut i: usize = 0;
    while i < listings.len()
        invariant
            i <= listings@.len(),
            all == lists::views(listings@),
            pred == (|l: ListingV| l.kind == kind),
            lists::first_where(all, pred, 0) == lists::first_where(all, pred, i as int),
        decreases listings@.len() - i,
    {
        if listings[i].kind == kind {
            assert(all[i as int] == listings@[i as int]@);
            return manifest_for(&listings[i].entries, rules, kind);
        }
        assert(all[i as int].kind == listings@[i as int].kind);
        i = i + 1;
    }
    let none: Vec<Json> = Vec::new();
    proof {
        assert(json::models(none@) =~= Seq::empty());
    }
    manifest_for(&none, rules, kind)
}

/// No two models of a provider have one identifier, where that holds of those that it
/// lists.
pub proof fn manifest_has_no_doubles(listed: Seq<Jv>, further: Seq<Jv>, n: nat)
    requires
        n <= further.len(),
        forall|i: int, j: int|
            0 <= i < j < listed.len() ==> !text::same_fold(
                entry_id(#[trigger] listed[i]),
                entry_id(#[trigger] listed[j]),
            ),
    ensures
        ({
            let all = with_further(listed, further, n);
            forall|i: int, j: int|
                0 <= i < j < all.len() ==> !text::same_fold(
                    entry_id(#[trigger] all[i]),
                    entry_id(#[trigger] all[j]),
                )
        }),
    decreases n,
{
    if n > 0 {
        manifest_has_no_doubles(listed, further, (n - 1) as nat);
        let before = with_further(listed, further, (n - 1) as nat);
        let all = with_further(listed, further, n);
        let one = further[n - 1];
        assert forall|i: int, j: int| 0 <= i < j < all.len() implies !text::same_fold(
            entry_id(#[trigger] all[i]),
            entry_id(#[trigger] all[j]),
        ) by {
            if j == before.len() {
                assert(!by_id(entry_id(one))(before[i]));
            }
        }
    }
}

// --------------------------------------------------------------------- offers

/// What a built-in provider offers now: how many accounts it has, whether there are
/// credentials for it in the environment, the models that it shows, whether they
/// come from the provider itself, and when they were asked for.
pub struct Offer {
    pub kind: ProviderKind,
    pub accounts: usize,
    pub environment: bool,
    pub entries: Vec<Json>,
    pub remote: bool,
    pub refreshed_at: i64,
}

/// What a built-in provider offers now.
#[verifier::ext_equal]
pub struct OfferV {
    pub kind: ProviderKind,
    pub accounts: int,
    pub environment: bool,
    pub entries: Seq<Jv>,
    pub remote: bool,
    pub refreshed_at: int,
}

impl View for Offer {
    type V = OfferV;

    open spec fn view(&self) -> OfferV {
        OfferV {
            kind: self.kind,
            accounts: self.accounts as int,
            environment: self.environment,
            entries: json::models(self.entries@),
            remote: self.remote,
            refreshed_at: self.refreshed_at as int,
        }
    }
}

impl OfferV {
    /// Whether requests can go there and there are models to ask for.
    pub open spec fn active(self) -> bool {
        (self.accounts > 0 || self.environment) && self.entries.len() > 0
    }
}

/// Whether requests can go to a provider.
pub fn provider_available(accounts: usize, environment: bool) -> (r: bool)
    ensures
        r == (accounts > 0 || environment),
{
    accounts > 0 || environment
}

/// Offers that are active.
pub open spec fn active_offer() -> spec_fn(OfferV) -> bool {
    |o: OfferV| o.active()
}

/// The offers of the providers that requests can go to and that have models, in
/// their order.
pub fn active_manifests(offers: &Vec<Offer>) -> (r: Vec<&Offer>)
    ensures
        lists::views(r@) == lists::views(offers@).filter(active_offer()),
{
    let ghost all = lists::views(offers@);
    let mut out: Vec<&Offer> = Vec::new();
    let mut i: usize = 0;
    proof {
        lists::kept_all(all, active_offer());
        assert(lists::views(out@) =~= Seq::empty());
    }
    while i < offers.len()
        invariant
            i <= offers@.len(),
            all == lists::views(offers@),
            lists::views(out@) == all.take(i as int).filter(active_offer()),
        decreases offers@.len() - i,
    {
        let one = &offers[i];
        proof {
            lists::kept_step(all, active_offer(), i as int);
            lists::views_push(out@, one);
            assert(all[i as int] == one@);
        }
        if provider_available(one.accounts, one.environment) && one.entries.len() > 0 {
            out.push(one);
        }
        i = i + 1;
    }
    out
}

/// Where a list of models comes from, and when it was asked for.
pub open spec fn source_of(active: Seq<OfferV>) -> (Seq<char>, int) {
    if active.len() == 0 {
        ("none"@, 0)
    } else if active.len() == 1 {
        (
            if active[0].remote {
                "remote"@
            } else {
                "builtin"@
            },
            active[0].refreshed_at,
        )
    } else {
        ("aggregate"@, active[0].refreshed_at)
    }
}

/// Where a list of models comes from, and when it was asked for.
pub fn aggregate_source(active: &Vec<&Offer>) -> (r: (&'static str, i64))
    ensures
        (r.0@, r.1 as int) == source_of(lists::views(active@)),
{
    if active.len() == 0 {
        ("none", 0)
    } else {
        let first = active[0];
        assert(lists::views(active@)[0] == first@);
        if active.len() > 1 {
            ("aggregate", first.refreshed_at)
        } else if first.remote {
            ("remote", first.refreshed_at)
        } else {
            ("builtin", first.refreshed_at)
        }
    }
}

} // verus!
