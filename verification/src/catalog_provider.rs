//! The kinds of provider that the runtime itself registers.

use vstd::prelude::*;

use crate::error::{Error, ErrorView};
use crate::mcp::McpToolProvider;
use crate::proto::discovery::{CapabilityDetail, CapabilityDetailView};
use crate::provider::{
    CapabilityListing, CommandView, ListingView, NativeProvider, Provider, ResolvedCommand,
};
use crate::registry::{
    empty_catalog, with_listings, with_offer, CatalogView, OfferView, ProviderRegistry,
};

verus! {

/// A provider of one of the kinds that the runtime registers.
pub enum CatalogProvider {
    /// An in-memory provider.
    Native(NativeProvider),
    /// A provider of static external tools.
    Mcp(McpToolProvider),
}

impl Provider for CatalogProvider {
    open spec fn provider_id(&self) -> Seq<char> {
        match self {
            CatalogProvider::Native(p) => p.provider_id(),
            CatalogProvider::Mcp(p) => p.provider_id(),
        }
    }

    open spec fn lists(&self, r: Result<Seq<ListingView>, ErrorView>) -> bool {
        match self {
            CatalogProvider::Native(p) => p.lists(r),
            CatalogProvider::Mcp(p) => p.lists(r),
        }
    }

    open spec fn describes(
        &self,
        local_name: Seq<char>,
        r: Result<CapabilityDetailView, ErrorView>,
    ) -> bool {
        match self {
            CatalogProvider::Native(p) => p.describes(local_name, r),
            CatalogProvider::Mcp(p) => p.describes(local_name, r),
        }
    }

    open spec fn resolves(
        &self,
        local_name: Seq<char>,
        params: serde_json::Value,
        r: Result<CommandView, ErrorView>,
    ) -> bool {
        match self {
            CatalogProvider::Native(p) => p.resolves(local_name, params, r),
            CatalogProvider::Mcp(p) => p.resolves(local_name, params, r),
        }
    }

    fn id(&self) -> (r: &str) {
        match self {
            CatalogProvider::Native(p) => p.id(),
            CatalogProvider::Mcp(p) => p.id(),
        }
    }

    fn index(&self) -> (r: Result<Vec<CapabilityListing>, Error>) {
        match self {
            CatalogProvider::Native(p) => p.index(),
            CatalogProvider::Mcp(p) => p.index(),
        }
    }

    fn describe(&self, local_name: &str) -> (r: Result<CapabilityDetail, Error>) {
        match self {
            CatalogProvider::Native(p) => p.describe(local_name),
            CatalogProvider::Mcp(p) => p.describe(local_name),
        }
    }

    fn resolve(&self, local_name: &str, params: &serde_json::Value) -> (r: Result<
        ResolvedCommand,
        Error,
    >) {
        match self {
            CatalogProvider::Native(p) => p.resolve(local_name, params),
            CatalogProvider::Mcp(p) => p.resolve(local_name, params),
        }
    }
}

/// Whether a provider has a capability of a local name.
pub open spec fn has_local(p: CatalogProvider, name: Seq<char>) -> bool {
    match p {
        CatalogProvider::Native(q) => q.offers().contains_key(name),
        CatalogProvider::Mcp(q) => q.offers().contains_key(name),
    }
}

/// Whether a provider has every capability that it lists.
pub open spec fn has_what_it_lists(p: CatalogProvider) -> bool {
    match p {
        CatalogProvider::Native(q) => forall|i: int|
            0 <= i < q.order().len() ==> q.offers().contains_key(#[trigger] q.order()[i]),
        CatalogProvider::Mcp(q) => forall|i: int|
            0 <= i < q.order().len() ==> q.offers().contains_key(#[trigger] q.order()[i]),
    }
}

/// Whether some provider has the capability of an offer.
pub open spec fn backs(providers: Seq<CatalogProvider>, offer: OfferView) -> bool {
    exists|i: int|
        0 <= i < providers.len() && (#[trigger] providers[i]).provider_id() == offer.provider_id
            && has_local(providers[i], offer.local_name)
}

/// Whether every entry of a catalog is backed by one of the providers.
pub open spec fn backed(providers: Seq<CatalogProvider>, catalog: CatalogView) -> bool {
    forall|name: Seq<char>| #[trigger]
        catalog.entries.contains_key(name) ==> backs(providers, catalog.entries[name])
}

/// An empty catalog is backed.
pub proof fn empty_catalog_is_backed(providers: Seq<CatalogProvider>)
    ensures
        backed(providers, empty_catalog()),
{
}

proof fn lemma_offering_keeps_backed(
    providers: Seq<CatalogProvider>,
    catalog: CatalogView,
    offer: OfferView,
)
    requires
        backed(providers, catalog),
        backs(providers, offer),
    ensures
        backed(providers, with_offer(catalog, offer)),
{
    let after = with_offer(catalog, offer);
    assert forall|name: Seq<char>| #[trigger] after.entries.contains_key(name) implies backs(
        providers,
        after.entries[name],
    ) by {
        if catalog.shared.contains_key(offer.local_name) && catalog.entries.contains_key(
            offer.local_name,
        ) {
            assert(backs(providers, catalog.entries[offer.local_name]));
        }
        if catalog.entries.contains_key(name) {
            assert(backs(providers, catalog.entries[name]));
        }
    }
}

/// Registering a provider with what it lists keeps the catalog backed, so that
/// nothing is listed which nobody has.
pub proof fn registration_keeps_the_catalog_backed(
    providers: Seq<CatalogProvider>,
    catalog: CatalogView,
    provider: CatalogProvider,
    listings: Seq<ListingView>,
)
    requires
        backed(providers, catalog),
        has_what_it_lists(provider),
        provider.lists(Ok(listings)),
    ensures
        backed(
            providers.push(provider),
            with_listings(catalog, provider.provider_id(), listings),
        ),
{
    let more = providers.push(provider);
    assert forall|name: Seq<char>| #[trigger] catalog.entries.contains_key(name) implies backs(
        more,
        catalog.entries[name],
    ) by {
        let offer = catalog.entries[name];
        assert(backs(providers, offer));
        let i = choose|i: int|
            0 <= i < providers.len() && (#[trigger] providers[i]).provider_id()
                == offer.provider_id && has_local(providers[i], offer.local_name);
        assert(more[i] == providers[i]);
    }
    assert forall|k: int| 0 <= k < listings.len() implies has_local(
        provider,
        (#[trigger] listings[k]).name,
    ) by {
        match provider {
            CatalogProvider::Native(q) => {
                assert(q.offers().contains_key(q.order()[k]));
            },
            CatalogProvider::Mcp(q) => {
                assert(q.offers().contains_key(q.order()[k]));
            },
        }
    }
    lemma_listings_keep_backed(more, catalog, provider, listings);
}

proof fn lemma_listings_keep_backed(
    more: Seq<CatalogProvider>,
    catalog: CatalogView,
    provider: CatalogProvider,
    listings: Seq<ListingView>,
)
    requires
        backed(more, catalog),
        more.len() > 0,
        more.last() == provider,
        forall|k: int|
            0 <= k < listings.len() ==> has_local(provider, (#[trigger] listings[k]).name),
    ensures
        backed(more, with_listings(catalog, provider.provider_id(), listings)),
    decreases listings.len(),
{
    if listings.len() > 0 {
        let fewer = listings.drop_last();
        assert forall|k: int| 0 <= k < fewer.len() implies has_local(
            provider,
            (#[trigger] fewer[k]).name,
        ) by {
            assert(fewer[k] == listings[k]);
        }
        lemma_listings_keep_backed(more, catalog, provider, fewer);
        let last = listings.last();
        let offer = OfferView {
            provider_id: provider.provider_id(),
            local_name: last.name,
            desc: last.desc,
        };
        assert(has_local(provider, listings[listings.len() - 1].name));
        assert(more[more.len() - 1].provider_id() == offer.provider_id);
        assert(backs(more, offer));
        lemma_offering_keeps_backed(
            more,
            with_listings(catalog, provider.provider_id(), fewer),
            offer,
        );
    }
}

/// What is listed can be described: a registry with a backed catalog answers for
/// every listed name with its detail.
pub proof fn listed_capability_is_described(
    registry: ProviderRegistry<CatalogProvider>,
    name: Seq<char>,
    r: Result<CapabilityDetailView, ErrorView>,
)
    requires
        registry.wf(),
        backed(registry.registered(), registry.catalog()),
        registry.catalog().entries.contains_key(name),
        registry.described_by_owner(name, r),
    ensures
        r is Ok,
{
    registry.ids_are_distinct();
    let providers = registry.registered();
    let offer = registry.catalog().entries[name];
    assert(backs(providers, offer));
    let i = choose|i: int|
        0 <= i < providers.len() && (#[trigger] providers[i]).provider_id() == offer.provider_id
            && has_local(providers[i], offer.local_name);
    let owner = choose|owner: int|
        0 <= owner < providers.len() && registry.ids()[owner] == offer.provider_id
            && #[trigger] providers[owner].describes(offer.local_name, r);
    assert(registry.ids()[i] == registry.ids()[owner]);
}

} // verus!
