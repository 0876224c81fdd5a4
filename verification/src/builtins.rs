//! Built-in capability providers, part of every runtime by default.

use vstd::prelude::*;

use crate::catalog_provider::{
    backed, empty_catalog_is_backed, registration_keeps_the_catalog_backed, CatalogProvider,
};
use crate::error::ErrorView;
use crate::json::{closed_object, closed_object_schema};
use crate::provider::{
    descriptor_names, first_repeat, listed_names, ordered_listing, slot_views, ArgView, CapabilityArg,
    CapabilityDescriptor, ExecutionSpec, ListingView, NativeProvider, Provider,
};
use crate::registry::{
    empty_catalog, first_description_fault, plain_description_passes, registration_fault,
    with_listings, ProviderRegistry,
};

verus! {

/// The built-in capabilities, as they are listed.
pub open spec fn builtin_listing() -> Seq<ListingView> {
    seq![
        ListingView {
            name: "git_diff"@,
            desc: "Show uncommitted working-tree changes as a unified diff"@,
        },
        ListingView {
            name: "git_log"@,
            desc: "List recent commits in compact one-line summary form"@,
        },
    ]
}

/// Whether a descriptor is the given capability with the given git arguments.
pub open spec fn is_git_capability(
    d: CapabilityDescriptor,
    listing: ListingView,
    signature: Seq<char>,
    args: Seq<ArgView>,
) -> bool {
    &&& d.name@ == listing.name
    &&& d.desc@ == listing.desc
    &&& d.signature@ == signature
    &&& d.schema == closed_object()
    &&& d.execution.program@ == "git"@
    &&& slot_views(d.execution.args_template@) == args
}

/// Whether a provider is the built-in one.
pub open spec fn is_builtin(p: NativeProvider) -> bool {
    &&& p.given_id() == "native"@
    &&& p.order() == seq!["git_diff"@, "git_log"@]
    &&& forall|name: Seq<char>| #[trigger]
        p.offers().contains_key(name) <==> name == "git_diff"@ || name == "git_log"@
    &&& is_git_capability(
        p.offers()["git_diff"@],
        builtin_listing()[0],
        "git_diff(): string"@,
        seq![ArgView::Literal("diff"@)],
    )
    &&& is_git_capability(
        p.offers()["git_log"@],
        builtin_listing()[1],
        "git_log(): string"@,
        seq![ArgView::Literal("log"@), ArgView::Literal("--oneline"@)],
    )
}

/// The default in-process provider, `native`.
pub fn native_provider() -> (r: NativeProvider)
    ensures
        is_builtin(r),
{
    let diff_args: Vec<CapabilityArg> = vec![CapabilityArg::Literal("diff".to_owned())];
    let log_args: Vec<CapabilityArg> = vec![
        CapabilityArg::Literal("log".to_owned()),
        CapabilityArg::Literal("--oneline".to_owned()),
    ];
    proof {
        assert(slot_views(diff_args@) =~= seq![ArgView::Literal("diff"@)]);
        assert(slot_views(log_args@) =~= seq![
            ArgView::Literal("log"@),
            ArgView::Literal("--oneline"@),
        ]);
    }
    let diff = CapabilityDescriptor {
        name: "git_diff".to_owned(),
        desc: "Show uncommitted working-tree changes as a unified diff".to_owned(),
        signature: "git_diff(): string".to_owned(),
        schema: closed_object_schema(),
        execution: ExecutionSpec { program: "git".to_owned(), args_template: diff_args },
    };
    let log = CapabilityDescriptor {
        name: "git_log".to_owned(),
        desc: "List recent commits in compact one-line summary form".to_owned(),
        signature: "git_log(): string".to_owned(),
        schema: closed_object_schema(),
        execution: ExecutionSpec { program: "git".to_owned(), args_template: log_args },
    };
    let ghost first = diff;
    let ghost second = log;
    let descriptors: Vec<CapabilityDescriptor> = vec![diff, log];
    proof {
        let names = descriptor_names(descriptors@);
        reveal_strlit("git_diff");
        reveal_strlit("git_log");
        assert("git_diff"@.len() != "git_log"@.len());
        assert(names =~= seq!["git_diff"@, "git_log"@]);
        assert(descriptors@[0] == first && descriptors@[1] == second);
        reveal_with_fuel(first_repeat, 3);
        assert(names.drop_last() =~= seq!["git_diff"@]);
        assert(names.drop_last().drop_last() =~= Seq::<Seq<char>>::empty());
        assert(!names.drop_last().contains(names.last()));
        assert forall|name: Seq<char>| #[trigger]
            names.contains(name) <==> name == "git_diff"@ || name == "git_log"@ by {
            assert(names[0] == "git_diff"@ && names[1] == "git_log"@);
        }
    }
    let ghost given = descriptors@;
    let p = NativeProvider::new("native".to_owned(), descriptors).unwrap();
    proof {
        assert(p.offers()[descriptor_names(given)[0]] == given[0]);
        assert(p.offers()[descriptor_names(given)[1]] == given[1]);
        assert(p.order() =~= seq!["git_diff"@, "git_log"@]);
        assert forall|name: Seq<char>| #[trigger]
            p.offers().contains_key(name) <==> name == "git_diff"@ || name == "git_log"@ by {
            assert(descriptor_names(given).contains(name) <==> name == "git_diff"@ || name == "git_log"@);
        }
    }
    p
}

/// The built-in capabilities meet the rules of a registration.
pub proof fn builtin_listing_is_accepted()
    ensures
        registration_fault(Seq::empty(), "native"@, builtin_listing()) is None,
{
    let listing = builtin_listing();
    reveal_strlit("git_diff");
    reveal_strlit("git_log");
    reveal_strlit("Show uncommitted working-tree changes as a unified diff");
    reveal_strlit("List recent commits in compact one-line summary form");
    plain_description_passes(listing[0]);
    plain_description_passes(listing[1]);
    reveal_with_fuel(first_description_fault, 3);
    reveal_with_fuel(first_repeat, 3);
    let names = listed_names(listing);
    assert(names =~= seq!["git_diff"@, "git_log"@]);
    assert(names.drop_last() =~= seq!["git_diff"@]);
    assert(names.drop_last().drop_last() =~= Seq::<Seq<char>>::empty());
    assert(!names.drop_last().contains(names.last()));
    assert(listing.drop_last() =~= seq![listing[0]]);
    assert(listing.drop_last().drop_last() =~= Seq::<ListingView>::empty());
}

/// A registry with the built-in providers.
pub fn builtin_registry() -> (r: ProviderRegistry<CatalogProvider>)
    ensures
        r.wf(),
        r.registered().len() == 1,
        r.registered()[0] matches CatalogProvider::Native(p) && is_builtin(p),
        r.catalog() == with_listings(empty_catalog(), "native"@, builtin_listing()),
        backed(r.registered(), r.catalog()),
{
    let native = native_provider();
    let mut registry: ProviderRegistry<CatalogProvider> = ProviderRegistry::new();
    let provider = CatalogProvider::Native(native);
    proof {
        builtin_listing_is_accepted();
        assert(registry.ids() =~= Seq::<Seq<char>>::empty());
        assert(ordered_listing(native.order(), native.offers()) =~= builtin_listing());
        assert forall|listed: Result<Seq<ListingView>, ErrorView>| #[trigger]
            provider.lists(listed) implies listed == Ok::<Seq<ListingView>, ErrorView>(
            builtin_listing(),
        ) by {}
        empty_catalog_is_backed(registry.registered());
        registration_keeps_the_catalog_backed(
            registry.registered(),
            empty_catalog(),
            provider,
            builtin_listing(),
        );
    }
    registry.register(provider).unwrap();
    registry
}

/// Every built-in capability runs git, with the subcommand after which it is
/// named as its first argument, and takes nothing from its caller: no argument is
/// a parameter.
pub proof fn builtins_run_the_git_command_of_their_name(p: NativeProvider, name: Seq<char>)
    requires
        is_builtin(p),
        p.offers().contains_key(name),
    ensures
        p.order().contains(name),
        p.offers()[name].name@ == name,
        p.offers()[name].execution.program@ == "git"@,
        ({
            let args = slot_views(p.offers()[name].execution.args_template@);
            &&& args.len() > 0
            &&& args[0] matches ArgView::Literal(subcommand) && "git_"@ + subcommand == name
            &&& forall|i: int| 0 <= i < args.len() ==> #[trigger] args[i] is Literal
        }),
{
    reveal_strlit("git_");
    reveal_strlit("git_diff");
    reveal_strlit("git_log");
    reveal_strlit("diff");
    reveal_strlit("log");
    assert("git_"@ + "diff"@ =~= "git_diff"@);
    assert("git_"@ + "log"@ =~= "git_log"@);
    assert(p.order()[0] == "git_diff"@ && p.order()[1] == "git_log"@);
}

} // verus!
