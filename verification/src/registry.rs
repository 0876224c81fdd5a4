//! The provider registry, which serves the discovery catalog of all providers.
//!
//! A local name that exactly one provider offers is exposed as it is. A name
//! that two or more providers offer is exposed only in qualified form,
//! `<provider id>:<local name>`.

use vstd::prelude::*;
use vstd::string::*;
use vstd::utf8::{encode_utf8, is_ascii_chars, is_ascii_chars_encode_utf8};

use crate::capability::{
    any_permits, permits, CapabilitySet, CapabilityView, RuntimeCapability,
};
use crate::error::{outcome, Error, ErrorView};
use crate::proto::discovery::{
    CapabilityDetail, CapabilityDetailView, IndexEntry, IndexResponse,
};
use crate::provider::{
    first_repeat, lemma_first_repeat, listed_names, listing_outcome, listing_views,
    no_capability, repeats_are_found, CapabilityListing, CommandView, ListingView, Provider,
    ResolvedCommand,
};
use crate::text::{
    byte_len, concat_text, concat_three, decimal, decimal_text, has_char, is_white, lower_form, replace_char,
    same_text, to_lower, trim_text, trimmed, with_char_replaced,
};
use crate::textmap::TextMap;

verus! {

/// Minimum length of a capability description, in bytes.
pub const DESC_MIN_LEN: usize = 10;

/// Maximum length of a capability description, in bytes.
pub const DESC_MAX_LEN: usize = 120;

/// What is wrong with a description, where something is. `given` is the
/// description as it was given, `desc` the same without white space at its ends
/// and `lower` the lower-case form of that; the other two are the lower-case
/// forms of the capability name and of the name with spaces for underscores.
pub open spec fn description_fault(
    given: Seq<char>,
    desc: Seq<char>,
    lower: Seq<char>,
    name_lower: Seq<char>,
    spaced_lower: Seq<char>,
) -> Option<Seq<char>> {
    let len = encode_utf8(desc).len();
    if desc.len() == 0 {
        Some("description must not be empty"@)
    } else if len < DESC_MIN_LEN {
        Some("description is too short ("@ + decimal(len) + " chars); minimum is 10"@)
    } else if len > DESC_MAX_LEN {
        Some("description is too long ("@ + decimal(len) + " chars); maximum is 120"@)
    } else if lower == name_lower || lower == spaced_lower {
        Some("description must not merely echo the capability name"@)
    } else if given.contains('\n') || given.contains('\r') {
        Some("description must be a single line (no \\n or \\r)"@)
    } else {
        None
    }
}

/// What is wrong with a listed capability's description, where something is.
pub open spec fn listing_fault(listing: ListingView) -> Option<Seq<char>> {
    let desc = trimmed(listing.desc);
    description_fault(
        listing.desc,
        desc,
        lower_form(desc),
        lower_form(listing.name),
        lower_form(with_char_replaced(listing.name, '_', ' ')),
    )
}

/// A description in ASCII that is of another length than the name, within the
/// limits, without white space at its ends and on one line passes.
pub proof fn plain_description_passes(listing: ListingView)
    requires
        is_ascii_chars(listing.name),
        is_ascii_chars(listing.desc),
        DESC_MIN_LEN <= listing.desc.len() <= DESC_MAX_LEN,
        listing.desc.len() != listing.name.len(),
        !is_white(listing.desc[0]),
        !is_white(listing.desc.last()),
        !listing.desc.contains('\n'),
        !listing.desc.contains('\r'),
    ensures
        listing_fault(listing) is None,
{
    let spaced = with_char_replaced(listing.name, '_', ' ');
    assert(is_ascii_chars(spaced)) by {
        assert forall|i: int| 0 <= i < spaced.len() implies '\0' <= #[trigger] spaced[i]
            <= '\u{7f}' by {
            assert('\0' <= listing.name[i] <= '\u{7f}');
        }
    }
    assert(trimmed(listing.desc) == listing.desc);
    is_ascii_chars_encode_utf8(listing.desc);
    assert(lower_form(listing.desc).len() == listing.desc.len());
    assert(lower_form(listing.name).len() == listing.name.len());
    assert(lower_form(spaced).len() == listing.name.len());
}

/// The failure of the first listing whose description is faulty.
pub open spec fn first_description_fault(id: Seq<char>, listings: Seq<ListingView>) -> Option<
    ErrorView,
>
    decreases listings.len(),
{
    if listings.len() == 0 {
        None
    } else {
        match first_description_fault(id, listings.drop_last()) {
            Some(e) => Some(e),
            None => match listing_fault(listings.last()) {
                None => None,
                Some(reason) => Some(
                    ErrorView::DescriptionQuality {
                        provider: id,
                        capability: listings.last().name,
                        reason,
                    },
                ),
            },
        }
    }
}

proof fn lemma_first_description_fault(id: Seq<char>, listings: Seq<ListingView>, at: int)
    requires
        0 <= at <= listings.len(),
        first_description_fault(id, listings.take(at)) is Some,
    ensures
        first_description_fault(id, listings) == first_description_fault(id, listings.take(at)),
    decreases listings.len() - at,
{
    if at == listings.len() {
        assert(listings.take(at) =~= listings);
    } else {
        assert(listings.take(at + 1).drop_last() =~= listings.take(at));
        lemma_first_description_fault(id, listings, at + 1);
    }
}

/// Why a registration is rejected, where it is, given the ids already taken.
pub open spec fn registration_fault(
    taken: Seq<Seq<char>>,
    id: Seq<char>,
    listings: Seq<ListingView>,
) -> Option<ErrorView> {
    if taken.contains(id) {
        Some(ErrorView::DuplicateProvider { id })
    } else {
        match first_repeat(listed_names(listings)) {
            Some(name) => Some(ErrorView::DuplicateCapability { provider: id, name }),
            None => first_description_fault(id, listings),
        }
    }
}

/// Judge a description by the forms that [`description_fault`] names.
pub fn judge_description(
    given: &str,
    desc: &str,
    lower: &str,
    name_lower: &str,
    spaced_lower: &str,
) -> (r: Option<String>)
    ensures
        match r {
            None => description_fault(given@, desc@, lower@, name_lower@, spaced_lower@) is None,
            Some(reason) => description_fault(given@, desc@, lower@, name_lower@, spaced_lower@)
                == Some(reason@),
        },
{
    if desc.is_empty() {
        return Some("description must not be empty".to_owned());
    }
    let len: usize = byte_len(desc);
    if len < DESC_MIN_LEN {
        let digits = decimal_text(len as u64);
        return Some(
            concat_three("description is too short (", digits.as_str(), " chars); minimum is 10"),
        );
    }
    if len > DESC_MAX_LEN {
        let digits = decimal_text(len as u64);
        return Some(
            concat_three("description is too long (", digits.as_str(), " chars); maximum is 120"),
        );
    }
    if same_text(lower, name_lower) || same_text(lower, spaced_lower) {
        return Some("description must not merely echo the capability name".to_owned());
    }
    if has_char(given, '\n') || has_char(given, '\r') {
        return Some("description must be a single line (no \\n or \\r)".to_owned());
    }
    None
}

/// Check a capability description: it must be one line of 10 to 120 bytes that
/// does not merely echo the capability name. White space at its ends does not
/// count, but a line break anywhere is a fault.
pub fn check_description_quality(provider: &str, cap_name: &str, desc: &str) -> (r: Result<
    (),
    Error,
>)
    ensures
        match r {
            Ok(_) => listing_fault((ListingView { name: cap_name@, desc: desc@ })) is None,
            Err(e) => listing_fault((ListingView { name: cap_name@, desc: desc@ })) matches Some(
                reason,
            ) && e@ == (ErrorView::DescriptionQuality {
                provider: provider@,
                capability: cap_name@,
                reason,
            }),
        },
{
    let text = trim_text(desc);
    let lower = to_lower(text.as_str());
    let name_lower = to_lower(cap_name);
    let spaced = replace_char(cap_name, '_', ' ');
    let spaced_lower = to_lower(spaced.as_str());
    match judge_description(
        desc,
        text.as_str(),
        lower.as_str(),
        name_lower.as_str(),
        spaced_lower.as_str(),
    ) {
        None => Ok(()),
        Some(reason) => Err(
            Error::DescriptionQuality {
                provider: provider.to_owned(),
                capability: cap_name.to_owned(),
                reason,
            },
        ),
    }
}

/// What the catalog holds under an exposed name.
#[derive(Debug)]
pub struct CatalogEntry {
    /// The provider that owns the capability.
    provider_id: String,
    /// The local name within the owning provider.
    local_name: String,
    /// The one-line description.
    desc: String,
}

/// An offer of a capability: who offers it, under which local name, described how.
#[verifier::ext_equal]
pub struct OfferView {
    pub provider_id: Seq<char>,
    pub local_name: Seq<char>,
    pub desc: Seq<char>,
}

impl View for CatalogEntry {
    type V = OfferView;

    closed spec fn view(&self) -> OfferView {
        OfferView {
            provider_id: self.provider_id@,
            local_name: self.local_name@,
            desc: self.desc@,
        }
    }
}

/// The qualified form of an offer's name.
pub open spec fn qualified(offer: OfferView) -> Seq<char> {
    offer.provider_id + ":"@ + offer.local_name
}

/// A catalog: the offer under each exposed name, and for each local name that
/// is offered whether more than one provider offers it.
#[verifier::ext_equal]
pub struct CatalogView {
    pub entries: Map<Seq<char>, OfferView>,
    pub shared: Map<Seq<char>, bool>,
}

/// A catalog without offers.
pub open spec fn empty_catalog() -> CatalogView {
    CatalogView { entries: Map::empty(), shared: Map::empty() }
}

/// The catalog after one more offer. The first offer of a local name gets the
/// bare name; the second moves the first to its qualified name; it and every
/// later one get their qualified names.
pub open spec fn with_offer(catalog: CatalogView, offer: OfferView) -> CatalogView {
    let name = offer.local_name;
    if !catalog.shared.contains_key(name) {
        CatalogView {
            entries: catalog.entries.insert(name, offer),
            shared: catalog.shared.insert(name, false),
        }
    } else if !catalog.shared[name] {
        let moved = if catalog.entries.contains_key(name) {
            let first = catalog.entries[name];
            catalog.entries.remove(name).insert(qualified(first), first)
        } else {
            catalog.entries
        };
        CatalogView {
            entries: moved.insert(qualified(offer), offer),
            shared: catalog.shared.insert(name, true),
        }
    } else {
        CatalogView {
            entries: catalog.entries.insert(qualified(offer), offer),
            shared: catalog.shared,
        }
    }
}

/// The catalog after the offers of a listing, in order.
pub open spec fn with_listings(
    catalog: CatalogView,
    id: Seq<char>,
    listings: Seq<ListingView>,
) -> CatalogView
    decreases listings.len(),
{
    if listings.len() == 0 {
        catalog
    } else {
        with_offer(
            with_listings(catalog, id, listings.drop_last()),
            OfferView {
                provider_id: id,
                local_name: listings.last().name,
                desc: listings.last().desc,
            },
        )
    }
}

/// The provider ids of a list of providers.
pub open spec fn provider_ids<P: Provider>(providers: Seq<P>) -> Seq<Seq<char>> {
    Seq::new(providers.len(), |i: int| providers[i].provider_id())
}

/// Aggregates providers and serves the unified discovery catalog.
///
/// A rejected registration leaves the registry completely unchanged.
pub struct ProviderRegistry<P> {
    providers: Vec<P>,
    catalog: TextMap<CatalogEntry>,
    shared: TextMap<bool>,
}

/// The entries of an exec catalog by their views.
pub open spec fn entry_views(entries: Map<Seq<char>, CatalogEntry>) -> Map<Seq<char>, OfferView> {
    entries.map_values(|e: CatalogEntry| e@)
}

impl<P: Provider> ProviderRegistry<P> {
    /// The registered providers, in the order of their registration.
    pub closed spec fn registered(&self) -> Seq<P> {
        self.providers@
    }

    /// The ids of the registered providers.
    pub open spec fn ids(&self) -> Seq<Seq<char>> {
        provider_ids(self.registered())
    }

    /// The catalog.
    pub closed spec fn catalog(&self) -> CatalogView {
        CatalogView { entries: entry_views(self.catalog@), shared: self.shared@ }
    }

    /// What holds of every registry: the ids of its providers are distinct and
    /// every catalog entry belongs to one of them.
    pub closed spec fn wf(&self) -> bool {
        &&& self.catalog.wf()
        &&& self.shared.wf()
        &&& self.ids().no_duplicates()
        &&& forall|name: Seq<char>| #[trigger]
            self.catalog@.contains_key(name) ==> self.ids().contains(
                self.catalog@[name]@.provider_id,
            )
    }

    /// The ids of the providers of a well-formed registry are distinct.
    pub proof fn ids_are_distinct(&self)
        requires
            self.wf(),
        ensures
            self.ids().no_duplicates(),
    {
    }

    /// Create an empty registry.
    pub fn new() -> (r: Self)
        ensures
            r.wf(),
            r.registered() == Seq::<P>::empty(),
            r.catalog() == empty_catalog(),
    {
        let r = ProviderRegistry {
            providers: Vec::new(),
            catalog: TextMap::new(),
            shared: TextMap::new(),
        };
        proof {
            assert(r.ids() =~= Seq::<Seq<char>>::empty());
            assert(r.catalog().entries =~= Map::<Seq<char>, OfferView>::empty());
        }
        r
    }

    fn provider_position(&self, id: &str) -> (r: Option<usize>)
        ensures
            match r {
                Some(i) => i < self.providers@.len() && self.providers@[i as int].provider_id()
                    == id@,
                None => !self.ids().contains(id@),
            },
    {
        let mut i: usize = 0;
        while i < self.providers.len()
            invariant
                i <= self.providers@.len(),
                forall|k: int| 0 <= k < i ==> self.ids()[k] != id@,
            decreases self.providers@.len() - i,
        {
            if same_text(self.providers[i].id(), id) {
                return Some(i);
            }
            i = i + 1;
        }
        None
    }

    fn expose(&mut self, offer: CatalogEntry)
        requires
            old(self).catalog.wf(),
            old(self).shared.wf(),
        ensures
            final(self).catalog.wf(),
            final(self).shared.wf(),
            final(self).providers == old(self).providers,
            final(self).catalog() == with_offer(old(self).catalog(), offer@),
            forall|name: Seq<char>| #[trigger]
                final(self).catalog@.contains_key(name) ==> {
                    ||| final(self).catalog@[name]@.provider_id == offer@.provider_id
                    ||| exists|was: Seq<char>| #[trigger]
                        old(self).catalog@.contains_key(was)
                            && final(self).catalog@[name]@.provider_id
                            == old(self).catalog@[was]@.provider_id
                },
    {
        let ghost before = self.catalog();
        let ghost entries_before = self.catalog@;
        let name = offer.local_name.clone();
        let mut qualified_name = concat_text(offer.provider_id.as_str(), ":");
        qualified_name.append(name.as_str());
        assert(qualified_name@ =~= qualified(offer@));
        let offered: Option<bool> = match self.shared.get(name.as_str()) {
            Some(many) => Some(*many),
            None => None,
        };
        match offered {
            None => {
                let _ = self.shared.insert(name.clone(), false);
                let _ = self.catalog.insert(name, offer);
            },
            Some(false) => {
                if let Some(first) = self.catalog.remove(name.as_str()) {
                    let mut first_name = concat_text(first.provider_id.as_str(), ":");
                    first_name.append(first.local_name.as_str());
                    assert(first_name@ =~= qualified(first@));
                    let _ = self.catalog.insert(first_name, first);
                } else {
                    assert(entries_before.remove(name@) =~= entries_before);
                }
                let _ = self.catalog.insert(qualified_name, offer);
                let _ = self.shared.insert(name, true);
            },
            Some(true) => {
                let _ = self.catalog.insert(qualified_name, offer);
            },
        }
        assert(self.catalog().entries =~= with_offer(before, offer@).entries);
    }

    /// Register a provider whose index gave `listings`.
    ///
    /// A taken id, a local name that occurs twice and a faulty description are
    /// rejected, in this order; then the registry is left as it was.
    pub fn register_listed(&mut self, provider: P, listings: Vec<CapabilityListing>) -> (r:
        Result<(), Error>)
        requires
            old(self).wf(),
        ensures
            final(self).wf(),
            match registration_fault(
                old(self).ids(),
                provider.provider_id(),
                listing_views(listings@),
            ) {
                Some(fault) => {
                    &&& r matches Err(e) && e@ == fault
                    &&& final(self).registered() == old(self).registered()
                    &&& final(self).catalog() == old(self).catalog()
                },
                None => {
                    &&& r is Ok
                    &&& final(self).registered() == old(self).registered().push(provider)
                    &&& final(self).catalog() == with_listings(
                        old(self).catalog(),
                        provider.provider_id(),
                        listing_views(listings@),
                    )
                },
            },
    {
        let id = provider.id().to_owned();
        let ghost all = listing_views(listings@);
        let ghost names = listed_names(all);
        if let Some(_) = self.provider_position(id.as_str()) {
            assert(self.ids().contains(id@)) by {
                let k = choose|k: int|
                    0 <= k < self.providers@.len() && (#[trigger] self.providers@[k]).provider_id()
                        == id@;
                assert(self.ids()[k] == id@);
            }
            return Err(Error::DuplicateProvider { id });
        }
        let mut seen: TextMap<bool> = TextMap::new();
        assert(names.take(0) =~= Seq::<Seq<char>>::empty());
        let mut i: usize = 0;
        while i < listings.len()
            invariant
                i <= listings@.len(),
                id@ == provider.provider_id(),
                all == listing_views(listings@),
                names == listed_names(all),
                seen.wf(),
                first_repeat(names.take(i as int)) is None,
                forall|name: Seq<char>|
                    seen@.contains_key(name) <==> names.take(i as int).contains(name),
                !self.ids().contains(id@),
                *self == *old(self),
                old(self).wf(),
            decreases listings@.len() - i,
        {
            proof {
                assert(names.take(i + 1).drop_last() =~= names.take(i as int));
                assert(names.take(i + 1).last() == listings@[i as int].name@);
            }
            let name = listings[i].name.clone();
            if seen.contains_key(name.as_str()) {
                proof {
                    lemma_first_repeat(names, i + 1);
                }
                return Err(Error::DuplicateCapability { provider: id, name });
            }
            let ghost name_now = name@;
            let _ = seen.insert(name, true);
            proof {
                let now = names.take(i + 1);
                assert(now =~= names.take(i as int).push(name_now));
                assert forall|n: Seq<char>| seen@.contains_key(n) <==> now.contains(n) by {
                    if names.take(i as int).contains(n) {
                        let k = choose|k: int| 0 <= k < i && names.take(i as int)[k] == n;
                        assert(now[k] == n);
                    }
                    assert(now[i as int] == name_now);
                }
            }
            i = i + 1;
        }
        assert(names.take(names.len() as int) =~= names);
        assert(all.take(0) =~= Seq::<ListingView>::empty());
        let mut j: usize = 0;
        while j < listings.len()
            invariant
                j <= listings@.len(),
                id@ == provider.provider_id(),
                all == listing_views(listings@),
                first_repeat(listed_names(all)) is None,
                first_description_fault(id@, all.take(j as int)) is None,
                !self.ids().contains(id@),
                *self == *old(self),
                old(self).wf(),
            decreases listings@.len() - j,
        {
            proof {
                assert(all.take(j + 1).drop_last() =~= all.take(j as int));
                assert(all.take(j + 1).last() == listings@[j as int]@);
            }
            let listing = &listings[j];
            match check_description_quality(
                id.as_str(),
                listing.name.as_str(),
                listing.desc.as_str(),
            ) {
                Err(e) => {
                    proof {
                        lemma_first_description_fault(id@, all, j + 1);
                    }
                    return Err(e);
                },
                Ok(_) => {},
            }
            j = j + 1;
        }
        assert(all.take(all.len() as int) =~= all);
        let mut k: usize = 0;
        while k < listings.len()
            invariant
                k <= listings@.len(),
                id@ == provider.provider_id(),
                all == listing_views(listings@),
                self.catalog.wf(),
                self.shared.wf(),
                self.providers == old(self).providers,
                old(self).wf(),
                self.catalog() == with_listings(old(self).catalog(), id@, all.take(k as int)),
                forall|name: Seq<char>| #[trigger]
                    self.catalog@.contains_key(name) ==> {
                        ||| self.catalog@[name]@.provider_id == id@
                        ||| old(self).ids().contains(self.catalog@[name]@.provider_id)
                    },
            decreases listings@.len() - k,
        {
            proof {
                assert(all.take(k + 1).drop_last() =~= all.take(k as int));
                assert(all.take(k + 1).last() == listings@[k as int]@);
            }
            let listing = &listings[k];
            self.expose(
                CatalogEntry {
                    provider_id: id.clone(),
                    local_name: listing.name.clone(),
                    desc: listing.desc.clone(),
                },
            );
            k = k + 1;
        }
        let ghost ids_before = self.ids();
        self.providers.push(provider);
        proof {
            assert(all.take(all.len() as int) =~= all);
            assert(self.ids() =~= ids_before.push(id@));
            assert forall|name: Seq<char>| #[trigger]
                self.catalog@.contains_key(name) implies self.ids().contains(
                self.catalog@[name]@.provider_id,
            ) by {
                let owner = self.catalog@[name]@.provider_id;
                if ids_before.contains(owner) {
                    let m = choose|m: int| 0 <= m < ids_before.len() && ids_before[m] == owner;
                    assert(self.ids()[m] == owner);
                } else {
                    assert(self.ids()[ids_before.len() as int] == owner);
                }
            }
        }
        Ok(())
    }

    /// Register a provider: take the snapshot of its index and register it with that.
    ///
    /// A provider whose id is taken is not asked for its index; the failure of
    /// an index is handed on.
    pub fn register(&mut self, provider: P) -> (r: Result<(), Error>)
        requires
            old(self).wf(),
        ensures
            final(self).wf(),
            old(self).ids().contains(provider.provider_id()) ==> (r matches Err(e) && e@ == (
            ErrorView::DuplicateProvider { id: provider.provider_id() })),
            !old(self).ids().contains(provider.provider_id()) ==> exists|
                listed: Result<Seq<ListingView>, ErrorView>,
            | #[trigger]
                provider.lists(listed) && match listed {
                    Err(failure) => r matches Err(e) && e@ == failure,
                    Ok(listings) => {
                        &&& registration_fault(old(self).ids(), provider.provider_id(), listings)
                            matches Some(fault) ==> r matches Err(e) && e@ == fault
                        &&& registration_fault(old(self).ids(), provider.provider_id(), listings)
                            is None ==> r is Ok && final(self).catalog() == with_listings(
                            old(self).catalog(),
                            provider.provider_id(),
                            listings,
                        )
                    },
                },
            r is Err ==> final(self).registered() == old(self).registered()
                && final(self).catalog() == old(self).catalog(),
            r is Ok ==> final(self).registered() == old(self).registered().push(provider),
    {
        if let Some(_) = self.provider_position(provider.id()) {
            assert(self.ids().contains(provider.provider_id())) by {
                let k = choose|k: int|
                    0 <= k < self.providers@.len() && (#[trigger] self.providers@[k]).provider_id()
                        == provider.provider_id();
                assert(self.ids()[k] == provider.provider_id());
            }
            return Err(Error::DuplicateProvider { id: provider.id().to_owned() });
        }
        let listed = provider.index();
        assert(provider.lists(listing_outcome(listed)));
        match listed {
            Err(e) => Err(e),
            Ok(listings) => self.register_listed(provider, listings),
        }
    }

    /// The owning provider's place and local name of an exposed name.
    fn route(&self, name: &str) -> (r: Result<(usize, String), Error>)
        requires
            self.wf(),
        ensures
            match r {
                Ok((owner, local)) => {
                    &&& self.catalog().entries.contains_key(name@)
                    &&& owner < self.registered().len()
                    &&& self.ids()[owner as int] == self.catalog().entries[name@].provider_id
                    &&& local@ == self.catalog().entries[name@].local_name
                },
                Err(e) => !self.catalog().entries.contains_key(name@) && e@ == no_capability(name@),
            },
    {
        match self.catalog.get(name) {
            None => Err(Error::CapabilityNotFound { name: name.to_owned() }),
            Some(entry) => match self.provider_position(entry.provider_id.as_str()) {
                None => Err(Error::CapabilityNotFound { name: name.to_owned() }),
                Some(owner) => Ok((owner, entry.local_name.clone())),
            },
        }
    }

    /// Whether some registered provider owns an exposed name and gives `r` as
    /// its description.
    pub open spec fn described_by_owner(
        &self,
        name: Seq<char>,
        r: Result<CapabilityDetailView, ErrorView>,
    ) -> bool {
        exists|owner: int|
            0 <= owner < self.registered().len() && self.ids()[owner]
                == self.catalog().entries[name].provider_id
                && #[trigger] self.registered()[owner].describes(
                self.catalog().entries[name].local_name,
                r,
            )
    }

    /// Whether some registered provider owns an exposed name and gives `r` as
    /// the command of an invocation.
    pub open spec fn resolved_by_owner(
        &self,
        name: Seq<char>,
        params: serde_json::Value,
        r: Result<CommandView, ErrorView>,
    ) -> bool {
        exists|owner: int|
            0 <= owner < self.registered().len() && self.ids()[owner]
                == self.catalog().entries[name].provider_id
                && #[trigger] self.registered()[owner].resolves(
                self.catalog().entries[name].local_name,
                params,
                r,
            )
    }

    /// Full detail for an exposed name, as the owning provider describes it.
    pub fn describe(&self, name: &str) -> (r: Result<CapabilityDetail, Error>)
        requires
            self.wf(),
        ensures
            if self.catalog().entries.contains_key(name@) {
                self.described_by_owner(name@, outcome(r))
            } else {
                r matches Err(e) && e@ == no_capability(name@)
            },
    {
        match self.route(name) {
            Err(e) => Err(e),
            Ok((owner, local)) => {
                let r = self.providers[owner].describe(local.as_str());
                assert(self.registered()[owner as int].describes(local@, outcome(r)));
                r
            },
        }
    }

    /// The command of an invocation of an exposed name, as the owning provider
    /// resolves it.
    pub fn resolve(&self, name: &str, params: &serde_json::Value) -> (r: Result<
        ResolvedCommand,
        Error,
    >)
        requires
            self.wf(),
        ensures
            if self.catalog().entries.contains_key(name@) {
                self.resolved_by_owner(name@, *params, outcome(r))
            } else {
                r matches Err(e) && e@ == no_capability(name@)
            },
    {
        match self.route(name) {
            Err(e) => Err(e),
            Ok((owner, local)) => {
                let r = self.providers[owner].resolve(local.as_str(), params);
                assert(self.registered()[owner as int].resolves(local@, *params, outcome(r)));
                r
            },
        }
    }

    /// The full catalog: every exposed name once, with its description.
    pub fn index(&self) -> (r: Result<IndexResponse, Error>)
        requires
            self.wf(),
        ensures
            r matches Ok(response) && lists_exactly(
                response.entries@,
                self.catalog().entries,
                |name: Seq<char>| true,
            ),
    {
        let mut entries: Vec<IndexEntry> = Vec::new();
        let count: usize = self.catalog.len();
        let mut i: usize = 0;
        while i < count
            invariant
                self.catalog.wf(),
                count == self.catalog.order().len(),
                i <= count,
                entries@.len() == i,
                forall|k: int|
                    0 <= k < i ==> (#[trigger] entries@[k]).name@ == self.catalog.order()[k]
                        && self.catalog@.contains_key(self.catalog.order()[k])
                        && entries@[k].desc@ == self.catalog@[self.catalog.order()[k]]@.desc,
            decreases count - i,
        {
            let name = self.catalog.key_at(i).clone();
            let desc = self.catalog.value_at(i).desc.clone();
            entries.push(IndexEntry { name, desc });
            i = i + 1;
        }
        proof {
            self.catalog.order_lists_the_keys();
            let shown = exposed_names(entries@);
            assert(shown =~= self.catalog.order());
            assert forall|k: int| 0 <= k < entries@.len() implies (#[trigger] entries@[k]).desc@
                == self.catalog().entries[entries@[k].name@].desc by {}
        }
        Ok(IndexResponse { entries })
    }

    /// The catalog that a holder of `grants` may see: everything with
    /// `proc.spawn`, otherwise the names that a `tool:` grant names.
    pub fn index_for_capabilities(&self, grants: &CapabilitySet) -> (r: Result<
        IndexResponse,
        Error,
    >)
        requires
            self.wf(),
        ensures
            r matches Ok(response) && lists_exactly(
                response.entries@,
                self.catalog().entries,
                |name: Seq<char>| may_invoke(grants@, name),
            ),
    {
        let mut entries: Vec<IndexEntry> = Vec::new();
        let count: usize = self.catalog.len();
        let mut i: usize = 0;
        proof {
            self.catalog.order_lists_the_keys();
            assert(self.catalog.order().take(0) =~= Seq::empty());
            assert(exposed_names(entries@) =~= Seq::empty());
        }
        while i < count
            invariant
                self.catalog.wf(),
                self.catalog.order().no_duplicates(),
                count == self.catalog.order().len(),
                i <= count,
                exposed_names(entries@).no_duplicates(),
                forall|name: Seq<char>| #[trigger]
                    exposed_names(entries@).contains(name) <==> self.catalog.order().take(
                        i as int,
                    ).contains(name) && may_invoke(grants@, name),
                forall|k: int|
                    0 <= k < entries@.len() ==> (#[trigger] entries@[k]).desc@
                        == self.catalog().entries[entries@[k].name@].desc,
            decreases count - i,
        {
            let ghost order = self.catalog.order();
            let ghost shown = exposed_names(entries@);
            let name = self.catalog.key_at(i).clone();
            proof {
                lemma_take_grows(order, i as int);
            }
            assert(name@ == order[i as int]);
            if invocation_allowed(grants, name.as_str()) {
                let desc = self.catalog.value_at(i).desc.clone();
                let ghost shown_name = name@;
                entries.push(IndexEntry { name, desc });
                proof {
                    assert(exposed_names(entries@) =~= shown.push(shown_name));
                    assert(!order.take(i as int).contains(shown_name)) by {
                        if order.take(i as int).contains(shown_name) {
                            let k = choose|k: int|
                                0 <= k < i && order.take(i as int)[k] == shown_name;
                            assert(order[k] == order[i as int]);
                        }
                    }
                    assert forall|n: Seq<char>|
                        shown.push(shown_name).contains(n) <==> shown.contains(n) || n
                            == shown_name by {
                        if shown.contains(n) {
                            let k = choose|k: int| 0 <= k < shown.len() && shown[k] == n;
                            assert(shown.push(shown_name)[k] == n);
                        }
                        assert(shown.push(shown_name)[shown.len() as int] == shown_name);
                    }
                    assert(!shown.contains(shown_name));
                    assert(may_invoke(grants@, shown_name));
                    assert forall|n: Seq<char>| #[trigger]
                        exposed_names(entries@).contains(n) <==> order.take(i + 1).contains(n)
                            && may_invoke(grants@, n) by {
                        assert(shown.contains(n) <==> order.take(i as int).contains(n)
                            && may_invoke(grants@, n));
                    }
                }
            } else {
                assert forall|n: Seq<char>| #[trigger]
                    exposed_names(entries@).contains(n) <==> order.take(i + 1).contains(n)
                        && may_invoke(grants@, n) by {
                    assert(shown.contains(n) <==> order.take(i as int).contains(n) && may_invoke(
                        grants@,
                        n,
                    ));
                }
            }
            i = i + 1;
        }
        assert(self.catalog.order().take(count as int) =~= self.catalog.order());
        Ok(IndexResponse { entries })
    }

    /// Full detail for an exposed name that a holder of `grants` may see.
    pub fn describe_for_capabilities(&self, name: &str, grants: &CapabilitySet) -> (r: Result<
        CapabilityDetail,
        Error,
    >)
        requires
            self.wf(),
        ensures
            if self.catalog().entries.contains_key(name@) && may_invoke(grants@, name@) {
                self.described_by_owner(name@, outcome(r))
            } else {
                r matches Err(e) && e@ == no_capability(name@)
            },
    {
        if invocation_allowed(grants, name) {
            self.describe(name)
        } else {
            Err(Error::CapabilityNotFound { name: name.to_owned() })
        }
    }
}

impl<P: Provider> Default for ProviderRegistry<P> {
    fn default() -> (r: Self)
        ensures
            r.wf(),
            r.registered() == Seq::<P>::empty(),
            r.catalog() == empty_catalog(),
    {
        Self::new()
    }
}

/// Whether a holder of grants may see and invoke a capability of the catalog.
pub open spec fn may_invoke(grants: Seq<CapabilityView>, name: Seq<char>) -> bool {
    any_permits(grants, CapabilityView::ProcSpawn) || any_permits(
        grants,
        CapabilityView::Tool(name),
    )
}

/// Whether a holder of grants may see and invoke a capability of the catalog.
pub fn invocation_allowed(grants: &CapabilitySet, name: &str) -> (r: bool)
    ensures
        r == may_invoke(grants@, name@),
{
    grants.permits(&RuntimeCapability::ProcSpawn) || grants.permits(
        &RuntimeCapability::Tool(name.to_owned()),
    )
}

/// The names of catalog entries.
pub open spec fn exposed_names(entries: Seq<IndexEntry>) -> Seq<Seq<char>> {
    Seq::new(entries.len(), |i: int| entries[i].name@)
}

/// Whether a list shows exactly the visible names of a catalog, each once and
/// each with its description, in some order.
pub open spec fn lists_exactly(
    shown: Seq<IndexEntry>,
    entries: Map<Seq<char>, OfferView>,
    visible: spec_fn(Seq<char>) -> bool,
) -> bool {
    &&& exposed_names(shown).no_duplicates()
    &&& forall|name: Seq<char>|
        exposed_names(shown).contains(name) <==> entries.contains_key(name) && visible(name)
    &&& forall|i: int|
        0 <= i < shown.len() ==> (#[trigger] shown[i]).desc@ == entries[shown[i].name@].desc
}

proof fn lemma_take_grows(names: Seq<Seq<char>>, i: int)
    requires
        0 <= i < names.len(),
    ensures
        forall|n: Seq<char>|
            names.take(i + 1).contains(n) <==> names.take(i).contains(n) || n == names[i],
{
    let shorter = names.take(i);
    let longer = names.take(i + 1);
    assert forall|n: Seq<char>| longer.contains(n) <==> shorter.contains(n) || n == names[i] by {
        if longer.contains(n) {
            let k = choose|k: int| 0 <= k < longer.len() && longer[k] == n;
            if k < i {
                assert(shorter[k] == n);
            }
        }
        if shorter.contains(n) {
            let k = choose|k: int| 0 <= k < shorter.len() && shorter[k] == n;
            assert(longer[k] == n);
        }
        assert(longer[i] == names[i]);
    }
}

/// A capability is open to those who hold its very tool grant or may spawn at
/// will, and to nobody else.
pub proof fn tools_are_open_to_their_holders(grants: Seq<CapabilityView>, name: Seq<char>)
    ensures
        may_invoke(grants, name) <==> grants.contains(CapabilityView::ProcSpawn)
            || grants.contains(CapabilityView::Tool(name)),
{
    if any_permits(grants, CapabilityView::ProcSpawn) {
        let i = choose|i: int|
            0 <= i < grants.len() && permits(#[trigger] grants[i], CapabilityView::ProcSpawn);
        assert(grants[i] == CapabilityView::ProcSpawn);
    }
    if any_permits(grants, CapabilityView::Tool(name)) {
        let i = choose|i: int|
            0 <= i < grants.len() && permits(#[trigger] grants[i], CapabilityView::Tool(name));
        assert(grants[i] == CapabilityView::Tool(name));
    }
    if grants.contains(CapabilityView::ProcSpawn) {
        let i = choose|i: int| 0 <= i < grants.len() && grants[i] == CapabilityView::ProcSpawn;
        assert(permits(grants[i], CapabilityView::ProcSpawn));
    }
    if grants.contains(CapabilityView::Tool(name)) {
        let i = choose|i: int| 0 <= i < grants.len() && grants[i] == CapabilityView::Tool(name);
        assert(permits(grants[i], CapabilityView::Tool(name)));
    }
}

/// A description passes exactly where it has 10 to 120 bytes without the white
/// space at its ends, has no line break anywhere, and is not the capability's name
/// again, in whatever case and with underscores or spaces.
pub proof fn descriptions_pass_the_stated_rules(listing: ListingView)
    ensures
        listing_fault(listing) is None <==> {
            let text = trimmed(listing.desc);
            &&& 10 <= encode_utf8(text).len() <= 120
            &&& text.len() > 0
            &&& forall|i: int|
                0 <= i < listing.desc.len() ==> #[trigger] listing.desc[i] != '\n'
                    && listing.desc[i] != '\r'
            &&& lower_form(text) != lower_form(listing.name)
            &&& lower_form(text) != lower_form(with_char_replaced(listing.name, '_', ' '))
        },
{
    if listing_fault(listing) is None {
        assert forall|i: int| 0 <= i < listing.desc.len() implies #[trigger] listing.desc[i] != '\n'
            && listing.desc[i] != '\r' by {
            assert(listing.desc.contains(listing.desc[i]));
        }
    }
}

/// A registration is accepted exactly where the id is new, no name is listed twice
/// and every description passes; each refusal tells which provider it is about.
pub proof fn registrations_meet_the_stated_rules(
    taken: Seq<Seq<char>>,
    id: Seq<char>,
    listings: Seq<ListingView>,
)
    ensures
        registration_fault(taken, id, listings) is None <==> {
            &&& !taken.contains(id)
            &&& listed_names(listings).no_duplicates()
            &&& forall|i: int|
                0 <= i < listings.len() ==> listing_fault(#[trigger] listings[i]) is None
        },
        match registration_fault(taken, id, listings) {
            Some(ErrorView::DuplicateProvider { id: told }) => told == id && taken.contains(id),
            Some(ErrorView::DuplicateCapability { provider, name }) => provider == id
                && !taken.contains(id) && listed_names(listings).contains(name),
            Some(ErrorView::DescriptionQuality { provider, capability, .. }) => provider == id
                && !taken.contains(id) && listed_names(listings).contains(capability),
            Some(_) => false,
            None => true,
        },
{
    repeats_are_found(listed_names(listings));
    lemma_described(id, listings);
}

proof fn lemma_described(id: Seq<char>, listings: Seq<ListingView>)
    ensures
        first_description_fault(id, listings) is None <==> forall|i: int|
            0 <= i < listings.len() ==> listing_fault(#[trigger] listings[i]) is None,
        first_description_fault(id, listings) matches Some(e) ==> (
        e matches ErrorView::DescriptionQuality { provider, capability, .. } && provider == id
            && listed_names(listings).contains(capability)),
    decreases listings.len(),
{
    if listings.len() > 0 {
        let head = listings.drop_last();
        lemma_described(id, head);
        assert forall|i: int| 0 <= i < head.len() implies #[trigger] head[i] == listings[i] by {}
        assert(listings[listings.len() - 1] == listings.last());
        let names = listed_names(listings);
        if let Some(ErrorView::DescriptionQuality { capability, .. }) = first_description_fault(
            id,
            head,
        ) {
            let k = choose|k: int|
                0 <= k < listed_names(head).len() && listed_names(head)[k] == capability;
            assert(names[k] == capability);
        }
        assert(names[names.len() - 1] == listings.last().name);
        if first_description_fault(id, head) is None {
            assert forall|i: int| 0 <= i < head.len() implies listing_fault(#[trigger] listings[i]) is None by {
                assert(head[i] == listings[i]);
            }
        }
    }
}

impl<P: Provider> ProviderRegistry<P> {
    /// A capability is described and resolved by the one provider that offers it,
    /// under the name that it has there.
    pub proof fn owners_answer_for_their_offers(
        &self,
        name: Seq<char>,
        owner: int,
        params: serde_json::Value,
        detail: Result<CapabilityDetailView, ErrorView>,
        command: Result<CommandView, ErrorView>,
    )
        requires
            self.wf(),
            self.catalog().entries.contains_key(name),
            0 <= owner < self.registered().len(),
            self.registered()[owner].provider_id() == self.catalog().entries[name].provider_id,
        ensures
            self.described_by_owner(name, detail) <==> self.registered()[owner].describes(
                self.catalog().entries[name].local_name,
                detail,
            ),
            self.resolved_by_owner(name, params, command) <==> self.registered()[owner].resolves(
                self.catalog().entries[name].local_name,
                params,
                command,
            ),
    {
        let offer = self.catalog().entries[name];
        assert(self.ids()[owner] == offer.provider_id);
        if self.described_by_owner(name, detail) {
            let k = choose|k: int|
                0 <= k < self.registered().len() && self.ids()[k] == offer.provider_id
                    && #[trigger] self.registered()[k].describes(offer.local_name, detail);
            assert(k == owner);
        }
        if self.resolved_by_owner(name, params, command) {
            let k = choose|k: int|
                0 <= k < self.registered().len() && self.ids()[k] == offer.provider_id
                    && #[trigger] self.registered()[k].resolves(offer.local_name, params, command);
            assert(k == owner);
        }
    }
}

/// An index shows as many entries as the catalog has visible names, and each entry
/// with the description of the offer under its name.
pub proof fn index_shows_each_visible_offer(
    shown: Seq<IndexEntry>,
    entries: Map<Seq<char>, OfferView>,
    visible: spec_fn(Seq<char>) -> bool,
    name: Seq<char>,
)
    requires
        lists_exactly(shown, entries, visible),
    ensures
        entries.contains_key(name) && visible(name) ==> exists|i: int|
            0 <= i < shown.len() && (#[trigger] shown[i]).name@ == name && shown[i].desc@
                == entries[name].desc,
        forall|i: int|
            0 <= i < shown.len() ==> entries.contains_key((#[trigger] shown[i]).name@) && visible(
                shown[i].name@,
            ),
        forall|i: int, j: int|
            0 <= i < j < shown.len() ==> (#[trigger] shown[i]).name@ != (#[trigger] shown[j]).name@,
{
    let names = exposed_names(shown);
    if entries.contains_key(name) && visible(name) {
        assert(names.contains(name));
        let i = choose|i: int| 0 <= i < names.len() && names[i] == name;
        assert(shown[i].name@ == name);
    }
    assert forall|i: int| 0 <= i < shown.len() implies entries.contains_key(
        (#[trigger] shown[i]).name@,
    ) && visible(shown[i].name@) by {
        assert(names[i] == shown[i].name@);
        assert(names.contains(names[i]));
    }
    assert forall|i: int, j: int| 0 <= i < j < shown.len() implies (#[trigger] shown[i]).name@ != (
    #[trigger] shown[j]).name@ by {
        assert(names[i] != names[j]);
    }
}

} // verus!
