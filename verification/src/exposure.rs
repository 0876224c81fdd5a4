//! Collision-correct exposure: how the names of a catalog relate to the offers
//! that went into it.

use vstd::prelude::*;
use vstd::string::*;

use crate::provider::{first_repeat, listed_names, ListingView};
use crate::registry::{
    empty_catalog, qualified, with_listings, with_offer, CatalogView, OfferView,
};

verus! {

/// Whether some provider offers a local name.
pub open spec fn offered(offers: Seq<OfferView>, name: Seq<char>) -> bool {
    exists|i: int| 0 <= i < offers.len() && (#[trigger] offers[i]).local_name == name
}

/// Whether two or more offers have the same local name.
pub open spec fn contested(offers: Seq<OfferView>, name: Seq<char>) -> bool {
    exists|i: int, j: int|
        0 <= i < j < offers.len() && (#[trigger] offers[i]).local_name == name && (
        #[trigger] offers[j]).local_name == name
}

/// The name under which an offer is exposed among all offers: its local name
/// where nobody else offers that, its qualified name otherwise.
pub open spec fn exposed_as(offers: Seq<OfferView>, offer: OfferView) -> Seq<char> {
    if contested(offers, offer.local_name) {
        qualified(offer)
    } else {
        offer.local_name
    }
}

/// Whether a catalog exposes exactly the given offers, each under its name.
pub open spec fn exposes(catalog: CatalogView, offers: Seq<OfferView>) -> bool {
    &&& forall|name: Seq<char>| #[trigger]
        catalog.shared.contains_key(name) <==> offered(offers, name)
    &&& forall|name: Seq<char>|
        offered(offers, name) ==> (#[trigger] catalog.shared[name] <==> contested(offers, name))
    &&& forall|i: int|
        0 <= i < offers.len() ==> {
            let name = exposed_as(offers, #[trigger] offers[i]);
            catalog.entries.contains_key(name) && catalog.entries[name] == offers[i]
        }
    &&& forall|name: Seq<char>| #[trigger]
        catalog.entries.contains_key(name) ==> exists|i: int|
            0 <= i < offers.len() && exposed_as(offers, #[trigger] offers[i]) == name
}

/// Whether no name under which an offer puts an entry is taken by another entry.
pub open spec fn names_are_free(catalog: CatalogView, offer: OfferView) -> bool {
    let name = offer.local_name;
    if !catalog.shared.contains_key(name) {
        !catalog.entries.contains_key(name)
    } else if !catalog.shared[name] {
        let first = catalog.entries[name];
        &&& !catalog.entries.contains_key(qualified(first))
        &&& !catalog.entries.contains_key(qualified(offer))
        &&& qualified(first) != qualified(offer)
    } else {
        !catalog.entries.contains_key(qualified(offer))
    }
}

/// Whether no name that a listing adds is taken at the time it is added.
pub open spec fn listing_names_are_free(
    catalog: CatalogView,
    id: Seq<char>,
    listings: Seq<ListingView>,
) -> bool
    decreases listings.len(),
{
    listings.len() == 0 || {
        &&& listing_names_are_free(catalog, id, listings.drop_last())
        &&& names_are_free(
            with_listings(catalog, id, listings.drop_last()),
            listed_offer(id, listings.last()),
        )
    }
}

/// The offer of a listed capability.
pub open spec fn listed_offer(id: Seq<char>, listing: ListingView) -> OfferView {
    OfferView { provider_id: id, local_name: listing.name, desc: listing.desc }
}

/// The offers of a listing.
pub open spec fn listed_offers(id: Seq<char>, listings: Seq<ListingView>) -> Seq<OfferView> {
    Seq::new(listings.len(), |i: int| listed_offer(id, listings[i]))
}

/// An empty catalog exposes no offers.
pub proof fn empty_catalog_exposes_nothing()
    ensures
        exposes(empty_catalog(), Seq::empty()),
{
}

proof fn lemma_offers_grow(offers: Seq<OfferView>, offer: OfferView, name: Seq<char>)
    ensures
        offered(offers.push(offer), name) <==> offered(offers, name) || offer.local_name == name,
        contested(offers.push(offer), name) <==> contested(offers, name) || (offered(offers, name)
            && offer.local_name == name),
{
    let more = offers.push(offer);
    if offered(offers, name) {
        let i = choose|i: int| 0 <= i < offers.len() && (#[trigger] offers[i]).local_name == name;
        assert(more[i].local_name == name);
        if offer.local_name == name {
            assert(more[offers.len() as int].local_name == name);
            assert(contested(more, name));
        }
    }
    if offer.local_name == name {
        assert(more[offers.len() as int].local_name == name);
    }
    if contested(offers, name) {
        let (i, j) = choose|i: int, j: int|
            0 <= i < j < offers.len() && (#[trigger] offers[i]).local_name == name && (
            #[trigger] offers[j]).local_name == name;
        assert(more[i].local_name == name && more[j].local_name == name);
    }
    if contested(more, name) {
        let (i, j) = choose|i: int, j: int|
            0 <= i < j < more.len() && (#[trigger] more[i]).local_name == name && (
            #[trigger] more[j]).local_name == name;
        assert(offers[i].local_name == name);
        if j < offers.len() {
            assert(offers[j].local_name == name);
        }
    }
    if offered(more, name) {
        let i = choose|i: int| 0 <= i < more.len() && (#[trigger] more[i]).local_name == name;
        if i < offers.len() {
            assert(offers[i].local_name == name);
        }
    }
}

/// One more offer keeps the exposure correct: every offer stands in the catalog
/// exactly once, under its bare local name if it is the only one of that name
/// and under its qualified name otherwise.
pub proof fn offering_keeps_exposure_correct(
    catalog: CatalogView,
    offers: Seq<OfferView>,
    offer: OfferView,
)
    requires
        exposes(catalog, offers),
        names_are_free(catalog, offer),
    ensures
        exposes(with_offer(catalog, offer), offers.push(offer)),
{
    let more = offers.push(offer);
    let after = with_offer(catalog, offer);
    let n = offer.local_name;
    assert forall|name: Seq<char>| #[trigger]
        after.shared.contains_key(name) <==> offered(more, name) by {
        lemma_offers_grow(offers, offer, name);
        assert(catalog.shared.contains_key(name) <==> offered(offers, name));
    }
    assert forall|name: Seq<char>| offered(more, name) implies (#[trigger] after.shared[name]
        <==> contested(more, name)) by {
        lemma_offers_grow(offers, offer, name);
        assert(catalog.shared.contains_key(name) <==> offered(offers, name));
        if offered(offers, name) {
            assert(catalog.shared[name] <==> contested(offers, name));
        } else {
            assert(!contested(offers, name)) by {
                if contested(offers, name) {
                    let (i, j) = choose|i: int, j: int|
                        0 <= i < j < offers.len() && (#[trigger] offers[i]).local_name == name && (
                        #[trigger] offers[j]).local_name == name;
                    assert(offered(offers, name));
                }
            }
        }
    }
    lemma_offers_grow(offers, offer, n);
    assert(catalog.shared.contains_key(n) <==> offered(offers, n));
    if offered(offers, n) {
        assert(catalog.shared[n] <==> contested(offers, n));
    }
    // Where the local name was offered once, the offer that had it is the one under it.
    let was_single = offered(offers, n) && !contested(offers, n);
    let at = if was_single {
        choose|i: int| 0 <= i < offers.len() && (#[trigger] offers[i]).local_name == n
    } else {
        -1
    };
    if was_single {
        assert(exposed_as(offers, offers[at]) == n);
        assert(catalog.entries[n] == offers[at]);
        assert(qualified(offers[at]).len() > n.len()) by {
            reveal_strlit(":");
        }
    }
    assert(qualified(offer).len() > n.len()) by {
        reveal_strlit(":");
    }
    assert forall|i: int| 0 <= i < more.len() implies {
        let name = exposed_as(more, #[trigger] more[i]);
        after.entries.contains_key(name) && after.entries[name] == more[i]
    } by {
        lemma_offers_grow(offers, offer, more[i].local_name);
        if i < offers.len() {
            let was = exposed_as(offers, offers[i]);
            assert(catalog.entries.contains_key(was) && catalog.entries[was] == offers[i]);
            if was_single && offers[i].local_name == n {
                assert(i == at) by {
                    if i < at {
                        assert(offers[i].local_name == n && offers[at].local_name == n);
                        assert(contested(offers, n));
                    } else if at < i {
                        assert(offers[at].local_name == n && offers[i].local_name == n);
                        assert(contested(offers, n));
                    }
                }
            } else if was_single {
                assert(was != n) by {
                    if was == n {
                        assert(catalog.entries[n] == offers[i]);
                        assert(offers[i] == offers[at]);
                    }
                }
            }
        }
    }
    assert forall|name: Seq<char>| #[trigger]
        after.entries.contains_key(name) implies exists|i: int|
        0 <= i < more.len() && exposed_as(more, #[trigger] more[i]) == name by {
        if catalog.entries.contains_key(name) && !(was_single && name == n) {
            let i = choose|i: int|
                0 <= i < offers.len() && exposed_as(offers, #[trigger] offers[i]) == name;
            lemma_offers_grow(offers, offer, offers[i].local_name);
            assert(more[i] == offers[i]);
            if was_single && offers[i].local_name == n {
                assert(!contested(offers, offers[i].local_name));
                assert(name == n);
            }
            assert(exposed_as(more, more[i]) == name);
        } else if was_single && name == qualified(offers[at]) {
            assert(more[at] == offers[at]);
            assert(exposed_as(more, more[at]) == name);
        } else {
            assert(more[offers.len() as int] == offer);
            assert(exposed_as(more, more[offers.len() as int]) == name);
        }
    }
}

/// A registration keeps the exposure correct.
pub proof fn registration_keeps_exposure_correct(
    catalog: CatalogView,
    offers: Seq<OfferView>,
    id: Seq<char>,
    listings: Seq<ListingView>,
)
    requires
        exposes(catalog, offers),
        listing_names_are_free(catalog, id, listings),
    ensures
        exposes(with_listings(catalog, id, listings), offers + listed_offers(id, listings)),
    decreases listings.len(),
{
    if listings.len() == 0 {
        assert(offers + listed_offers(id, listings) =~= offers);
    } else {
        let earlier = listings.drop_last();
        registration_keeps_exposure_correct(catalog, offers, id, earlier);
        let last = listed_offer(id, listings.last());
        offering_keeps_exposure_correct(
            with_listings(catalog, id, earlier),
            offers + listed_offers(id, earlier),
            last,
        );
        assert((offers + listed_offers(id, earlier)).push(last) =~= offers + listed_offers(
            id,
            listings,
        ));
    }
}

/// Whether neither the provider id nor the local name of an offer has a colon.
pub open spec fn is_plain(offer: OfferView) -> bool {
    !offer.provider_id.contains(':') && !offer.local_name.contains(':')
}

proof fn lemma_qualified_of_plain(a: OfferView, b: OfferView)
    requires
        is_plain(a),
        is_plain(b),
        qualified(a) == qualified(b),
    ensures
        a.provider_id == b.provider_id,
        a.local_name == b.local_name,
{
    reveal_strlit(":");
    let q = qualified(a);
    let m = a.provider_id.len() as int;
    let k = b.provider_id.len() as int;
    assert(q[m] == ':');
    assert(qualified(b)[k] == ':');
    if m < k {
        assert(qualified(b)[m] == b.provider_id[m]);
    } else if k < m {
        assert(qualified(a)[k] == a.provider_id[k]);
    }
    assert(a.provider_id =~= q.take(m));
    assert(b.provider_id =~= qualified(b).take(k));
    assert(a.local_name =~= q.skip(m + 1));
    assert(b.local_name =~= qualified(b).skip(k + 1));
}

/// Names without colons never clash: an offer that was not made before finds
/// its names free in every catalog of offers with such names.
pub proof fn plain_names_are_free(
    catalog: CatalogView,
    offers: Seq<OfferView>,
    offer: OfferView,
)
    requires
        exposes(catalog, offers),
        is_plain(offer),
        forall|i: int| 0 <= i < offers.len() ==> is_plain(#[trigger] offers[i]),
        forall|i: int|
            0 <= i < offers.len() ==> !((#[trigger] offers[i]).provider_id == offer.provider_id
                && offers[i].local_name == offer.local_name),
    ensures
        names_are_free(catalog, offer),
{
    let n = offer.local_name;
    reveal_strlit(":");
    assert forall|i: int| 0 <= i < offers.len() implies exposed_as(offers, #[trigger] offers[i])
        != qualified(offer) by {
        let o = offers[i];
        if qualified(o) == qualified(offer) {
            lemma_qualified_of_plain(o, offer);
        }
        if o.local_name == qualified(offer) {
            assert(o.local_name[offer.provider_id.len() as int] == ':');
        }
    }
    assert(!catalog.entries.contains_key(qualified(offer)));
    assert(catalog.shared.contains_key(n) <==> offered(offers, n));
    if !offered(offers, n) {
        if catalog.entries.contains_key(n) {
            let i = choose|i: int|
                0 <= i < offers.len() && exposed_as(offers, #[trigger] offers[i]) == n;
            if offers[i].local_name != n {
                assert(n[offers[i].provider_id.len() as int] == ':');
            }
        }
    } else if !catalog.shared[n] {
        assert(catalog.shared[n] <==> contested(offers, n));
        let at = choose|i: int| 0 <= i < offers.len() && (#[trigger] offers[i]).local_name == n;
        let first = offers[at];
        assert(exposed_as(offers, first) == n);
        assert(catalog.entries[n] == first);
        if qualified(first) == qualified(offer) {
            lemma_qualified_of_plain(first, offer);
        }
        if catalog.entries.contains_key(qualified(first)) {
            let i = choose|i: int|
                0 <= i < offers.len() && exposed_as(offers, #[trigger] offers[i]) == qualified(
                    first,
                );
            if contested(offers, offers[i].local_name) {
                lemma_qualified_of_plain(offers[i], first);
            } else {
                assert(offers[i].local_name[first.provider_id.len() as int] == ':');
            }
        }
    }
}

/// A provider whose id and names have no colons finds its names free: its id is
/// not yet used, it lists no name twice, and the offers before it have no colons
/// either. Its registration thus keeps the exposure correct.
pub proof fn plain_registration_keeps_exposure_correct(
    catalog: CatalogView,
    offers: Seq<OfferView>,
    id: Seq<char>,
    listings: Seq<ListingView>,
)
    requires
        exposes(catalog, offers),
        forall|i: int| 0 <= i < offers.len() ==> is_plain(#[trigger] offers[i]),
        forall|i: int| 0 <= i < offers.len() ==> (#[trigger] offers[i]).provider_id != id,
        forall|i: int|
            0 <= i < listings.len() ==> is_plain(listed_offer(id, #[trigger] listings[i])),
        first_repeat(listed_names(listings)) is None,
    ensures
        listing_names_are_free(catalog, id, listings),
        exposes(with_listings(catalog, id, listings), offers + listed_offers(id, listings)),
        forall|i: int|
            0 <= i < offers.len() + listings.len() ==> is_plain(
                #[trigger] (offers + listed_offers(id, listings))[i],
            ),
    decreases listings.len(),
{
    if listings.len() > 0 {
        let earlier = listings.drop_last();
        let last = listed_offer(id, listings.last());
        let names = listed_names(listings);
        assert(listed_names(earlier) =~= names.drop_last());
        assert forall|i: int| 0 <= i < earlier.len() implies is_plain(
            listed_offer(id, #[trigger] earlier[i]),
        ) by {
            assert(earlier[i] == listings[i]);
        }
        plain_registration_keeps_exposure_correct(catalog, offers, id, earlier);
        let before = offers + listed_offers(id, earlier);
        assert(is_plain(listed_offer(id, listings[listings.len() - 1])));
        assert forall|i: int| 0 <= i < before.len() implies !((
        #[trigger] before[i]).provider_id == last.provider_id && before[i].local_name
            == last.local_name) by {
            if i < offers.len() {
                assert(before[i] == offers[i]);
            } else {
                assert(names.drop_last()[i - offers.len()] == before[i].local_name);
            }
        }
        plain_names_are_free(with_listings(catalog, id, earlier), before, last);
    }
    registration_keeps_exposure_correct(catalog, offers, id, listings);
    assert forall|i: int| 0 <= i < offers.len() + listings.len() implies is_plain(
        #[trigger] (offers + listed_offers(id, listings))[i],
    ) by {
        if i < offers.len() {
            assert(is_plain(offers[i]));
        } else {
            assert(is_plain(listed_offer(id, listings[i - offers.len()])));
        }
    }
}

} // verus!
