//! Which providers a request can go to.

use crate::json::{Json, Jv};
use crate::json;
use crate::lists;
use crate::model_rules::{ModelRules, RulesV};
use crate::providers::catalog::routing;
use crate::providers::catalog::{Listing, ListingV};
use crate::providers;
use crate::text;
use vstd::prelude::*;
use vstd::string::*;

verus! {

/// The providers that a request can go to. One that asks for no model goes to the
/// default provider; so does one for a name that nobody knows. A model that is known
/// but offered by none goes nowhere.
pub open spec fn route_of(
    listings: Seq<ListingV>,
    rules: RulesV,
    customs: Seq<Jv>,
    custom_carriers: Seq<Seq<char>>,
    model: Seq<char>,
) -> Seq<Seq<char>> {
    let open = routing::forwarding(listings, rules, custom_carriers, model);
    if text::blank(model) {
        seq![providers::DEFAULT_PROVIDER_ID@]
    } else if open.len() > 0 {
        open
    } else if routing::carriers(listings, rules, customs, model).len() > 0 {
        Seq::empty()
    } else {
        seq![providers::DEFAULT_PROVIDER_ID@]
    }
}

/// The providers that a request can go to.
pub fn route_for_forward(
    listings: &Vec<Listing>,
    rules: &ModelRules,
    customs: &Vec<Json>,
    custom_carriers: &Vec<String>,
    model: &str,
) -> (r: Vec<String>)
    ensures
        lists::views(r@) == route_of(
            lists::views(listings@),
            rules@,
            json::models(customs@),
            lists::views(custom_carriers@),
            model@,
        ),
{
    let mut one: Vec<String> = Vec::new();
    one.push(providers::DEFAULT_PROVIDER_ID.to_owned());
    proof {
        assert(lists::views(one@) =~= seq![providers::DEFAULT_PROVIDER_ID@]);
    }
    if text::trim(model).as_str().is_empty() {
        return one;
    }
    let open = routing::forwarding_providers(listings, rules, custom_carriers, model);
    if open.len() > 0 {
        return open;
    }
    if routing::providers_for_model(listings, rules, customs, model).len() > 0 {
        let none: Vec<String> = Vec::new();
        proof {
            assert(lists::views(none@) =~= Seq::empty());
        }
        return none;
    }
    one
}

/// A model that a provider has but none offers is not sent anywhere, not even to the
/// default provider.
pub proof fn closed_model_goes_nowhere(
    listings: Seq<ListingV>,
    rules: RulesV,
    customs: Seq<Jv>,
    custom_carriers: Seq<Seq<char>>,
    model: Seq<char>,
)
    requires
        routing::forwarding(listings, rules, custom_carriers, model).len() == 0,
        routing::carriers(listings, rules, customs, model).len() > 0,
    ensures
        route_of(listings, rules, customs, custom_carriers, model).len() == 0,
{
}

} // verus!
