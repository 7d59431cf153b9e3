//! The providers that a user has added.

pub mod forward;

use crate::json::{Json, Jv};
use crate::json;
use crate::lists;
use crate::providers::catalog::view::{ItemV, ListItem};
use crate::providers::catalog;
use crate::text;
use crate::upstream::provider_loop::{KeyScope, ScopeV};
use crate::upstream::provider_loop;
use vstd::prelude::*;
use vstd::string::*;

verus! {

/// What an added provider offers now: how many accounts it has, and its models, each
/// with its entry and its item in the list of models.
pub struct CustomOffer {
    pub id: String,
    pub accounts: usize,
    pub entries: Vec<Json>,
    pub items: Vec<ListItem>,
}

/// What an added provider offers now.
#[verifier::ext_equal]
pub struct CustomOfferV {
    pub id: Seq<char>,
    pub accounts: int,
    pub entries: Seq<Jv>,
    pub items: Seq<ItemV>,
}

impl View for CustomOffer {
    type V = CustomOfferV;

    open spec fn view(&self) -> CustomOfferV {
        CustomOfferV {
            id: self.id@,
            accounts: self.accounts as int,
            entries: json::models(self.entries@),
            items: lists::views(self.items@),
        }
    }
}

impl CustomOfferV {
    /// Whether requests can go there and there are models to ask for.
    pub open spec fn active(self) -> bool {
        self.accounts > 0 && self.entries.len() > 0
    }
}

/// Offers that are active.
pub open spec fn active_custom() -> spec_fn(CustomOfferV) -> bool {
    |o: CustomOfferV| o.active()
}

/// The offers of the added providers that requests can go to and that have models.
pub fn catalog_providers(offers: &Vec<CustomOffer>) -> (r: Vec<&CustomOffer>)
    ensures
        lists::views(r@) == lists::views(offers@).filter(active_custom()),
{
    let ghost all = lists::views(offers@);
    let mut out: Vec<&CustomOffer> = Vec::new();
    let mut i: usize = 0;
    proof {
        lists::kept_all(all, active_custom());
        assert(lists::views(out@) =~= Seq::empty());
    }
    while i < offers.len()
        invariant
            i <= offers@.len(),
            all == lists::views(offers@),
            lists::views(out@) == all.take(i as int).filter(active_custom()),
        decreases offers@.len() - i,
    {
        let one = &offers[i];
        proof {
            lists::kept_step(all, active_custom(), i as int);
            lists::views_push(out@, one);
            assert(all[i as int] == one@);
        }
        if one.accounts > 0 && one.entries.len() > 0 {
            out.push(one);
        }
        i = i + 1;
    }
    out
}

/// The list of models on the way, and the names that are taken.
#[verifier::ext_equal]
pub struct AppendState {
    pub taken: Seq<Seq<char>>,
    pub data: Seq<Jv>,
}

/// The list after the first `n` models of an added provider were looked at.
pub open spec fn entries_step(st: AppendState, o: CustomOfferV, n: nat) -> AppendState
    decreases n,
{
    if n == 0 {
        st
    } else {
        let before = entries_step(st, o, (n - 1) as nat);
        let key = text::lowercase(catalog::entry_id(o.entries[n - 1]));
        if n <= o.items.len() && o.items[n - 1].allowed && !before.taken.contains(key) {
            AppendState {
                taken: before.taken.push(key),
                data: before.data.push(o.items[n - 1].item),
            }
        } else {
            before
        }
    }
}

/// The list after the first `n` added providers were looked at.
pub open spec fn customs_step(
    st: AppendState,
    active: Seq<CustomOfferV>,
    scope: Option<ScopeV>,
    n: nat,
) -> AppendState
    decreases n,
{
    if n == 0 {
        st
    } else {
        let before = customs_step(st, active, scope, (n - 1) as nat);
        let o = active[n - 1];
        if provider_loop::scope_allows(scope, o.id) {
            entries_step(before, o, o.entries.len())
        } else {
            before
        }
    }
}

/// The names in a list of models, in small letters.
pub open spec fn taken_by(data: Seq<Jv>) -> Seq<Seq<char>> {
    Seq::new(data.len(), |i: int| text::lowercase(catalog::entry_id(data[i])))
}

/// The list of models with those of the added providers that a key may use and whose
/// names are still free.
pub open spec fn appended(
    data: Seq<Jv>,
    offers: Seq<CustomOfferV>,
    scope: Option<ScopeV>,
) -> Seq<Jv> {
    let active = offers.filter(active_custom());
    customs_step(AppendState { taken: taken_by(data), data }, active, scope, active.len()).data
}

/// Adds the models of the added providers to a list of models.
pub fn append_models_response(
    offers: &Vec<CustomOffer>,
    scope: Option<&KeyScope>,
    data: &mut Vec<Json>,
)
    ensures
        json::models(final(data)@) == appended(json::models(old(data)@), lists::views(offers@), provider_loop::opt_scope(scope)),
{
    let ghost start = json::models(data@);
    let ghost keys = taken_by(start);
    let mut taken: Vec<String> = Vec::new();
    let mut n: usize = 0;
    while n < data.len()
        invariant
            n <= data@.len(),
            start == json::models(data@),
            keys == taken_by(start),
            lists::views(taken@) == keys.take(n as int),
        decreases data@.len() - n,
    {
        let key = text::lower(catalog::model_id(&data[n]).as_str());
        proof {
            lists::views_push(taken@, key);
            assert(key@ == keys[n as int]);
            assert(keys.take(n as int).push(keys[n as int]) =~= keys.take(n as int + 1));
        }
        taken.push(key);
        n = n + 1;
    }
    proof {
        assert(keys.take(keys.len() as int) =~= keys);
    }
    let active = catalog_providers(offers);
    let ghost all = lists::views(active@);
    let ghost begin = AppendState { taken: keys, data: start };
    let mut i: usize = 0;
    while i < active.len()
        invariant
            i <= active@.len(),
            all == lists::views(active@),
            (AppendState { taken: lists::views(taken@), data: json::models(data@) }) == customs_step(
                begin,
                all,
                provider_loop::opt_scope(scope),
                i as nat,
            ),
        decreases active@.len() - i,
    {
        let one = active[i];
        assert(all[i as int] == one@);
        let fits = match scope {
            Some(s) => s.allows_provider(one.id.as_str()),
            None => true,
        };
        if fits {
            let ghost before = customs_step(begin, all, provider_loop::opt_scope(scope), i as nat);
            let mut j: usize = 0;
            while j < one.entries.len()
                invariant
                    j <= one.entries@.len(),
                    (AppendState { taken: lists::views(taken@), data: json::models(data@) }) == entries_step(
                        before,
                        one@,
                        j as nat,
                    ),
                decreases one.entries@.len() - j,
            {
                let key = text::lower(catalog::model_id(&one.entries[j]).as_str());
                assert(one@.entries[j as int] == one.entries@[j as int]@);
                if j < one.items.len() {
                    assert(one@.items[j as int] == one.items@[j as int]@);
                    if one.items[j].allowed && !lists::contains_text(&taken, key.as_str()) {
                        let item = one.items[j].item.copy();
                        proof {
                            lists::views_push(taken@, key);
                            json::models_push(data@, item);
                        }
                        taken.push(key);
                        data.push(item);
                    }
                }
                j = j + 1;
            }
        }
        i = i + 1;
    }
}

proof fn entries_go_on(st: AppendState, o: CustomOfferV, n: nat)
    ensures
        entries_step(st, o, n).data.len() >= st.data.len(),
        forall|i: int|
            0 <= i < st.data.len() ==> #[trigger] entries_step(st, o, n).data[i] == st.data[i],
    decreases n,
{
    if n > 0 {
        entries_go_on(st, o, (n - 1) as nat);
    }
}

proof fn customs_go_on(
    st: AppendState,
    active: Seq<CustomOfferV>,
    scope: Option<ScopeV>,
    n: nat,
)
    ensures
        customs_step(st, active, scope, n).data.len() >= st.data.len(),
        forall|i: int|
            0 <= i < st.data.len() ==> #[trigger] customs_step(st, active, scope, n).data[i]
                == st.data[i],
    decreases n,
{
    if n > 0 {
        customs_go_on(st, active, scope, (n - 1) as nat);
        let before = customs_step(st, active, scope, (n - 1) as nat);
        entries_go_on(before, active[n - 1], active[n - 1].entries.len());
    }
}

/// The models of the added providers come after those that were there, which stay as
/// they are.
pub proof fn built_in_models_come_first(
    data: Seq<Jv>,
    offers: Seq<CustomOfferV>,
    scope: Option<ScopeV>,
)
    ensures
        appended(data, offers, scope).len() >= data.len(),
        appended(data, offers, scope).take(data.len() as int) == data,
{
    let active = offers.filter(active_custom());
    let st = AppendState { taken: taken_by(data), data };
    customs_go_on(st, active, scope, active.len());
    assert(appended(data, offers, scope).take(data.len() as int) =~= data);
}

} // verus!
