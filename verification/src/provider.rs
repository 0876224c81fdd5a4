//! Capability providers: the trait behind discovery and the in-memory provider.
//!
//! Invocation parameters are bound into argument slots, never into a shell
//! string, so an invocation cannot inject shell code.

use vstd::prelude::*;

use crate::error::{outcome, Error, ErrorView};
use crate::json::{string_member, string_members};
use crate::proto::discovery::{CapabilityDetail, CapabilityDetailView};
use crate::text::texts;
use crate::textmap::TextMap;

verus! {

/// How a capability is executed: a program plus an argument template.
#[derive(Debug, Clone, PartialEq)]
pub struct ExecutionSpec {
    /// Executable name or path, started directly and not through a shell.
    pub program: String,
    /// Argument template; each slot is a literal or a named parameter.
    pub args_template: Vec<CapabilityArg>,
}

/// One slot in an argument template.
#[derive(Debug, Clone, PartialEq)]
pub enum CapabilityArg {
    /// A fixed argument string.
    Literal(String),
    /// A reference to a member of the invocation's JSON parameters, which has
    /// to be a JSON string.
    Param(String),
}

/// A fully resolved command: program and argument vector.
#[derive(Debug, PartialEq, Eq)]
pub struct ResolvedCommand {
    /// Executable name or path.
    pub program: String,
    /// Argument vector with all parameters bound in.
    pub args: Vec<String>,
}

/// A catalog entry of a provider: local name and one-line description.
#[derive(Debug, Clone, PartialEq, Eq)]
pub struct CapabilityListing {
    /// Local capability name within the provider.
    pub name: String,
    /// One-line human-readable description.
    pub desc: String,
}

/// Full descriptor from which a [`NativeProvider`] is made.
#[derive(Debug, Clone, PartialEq)]
pub struct CapabilityDescriptor {
    /// Local capability name within the provider.
    pub name: String,
    /// One-line human-readable description.
    pub desc: String,
    /// Signature string, for example `git_diff(): string`.
    pub signature: String,
    /// JSON Schema for the capability's parameters.
    pub schema: serde_json::Value,
    /// Program and argument template of an invocation.
    pub execution: ExecutionSpec,
}

/// A slot, with its text as a sequence.
#[verifier::ext_equal]
pub enum ArgView {
    Literal(Seq<char>),
    Param(Seq<char>),
}

impl View for CapabilityArg {
    type V = ArgView;

    open spec fn view(&self) -> ArgView {
        match self {
            CapabilityArg::Literal(s) => ArgView::Literal(s@),
            CapabilityArg::Param(field) => ArgView::Param(field@),
        }
    }
}

/// The slots of a template.
pub open spec fn slot_views(slots: Seq<CapabilityArg>) -> Seq<ArgView> {
    Seq::new(slots.len(), |i: int| slots[i]@)
}

/// A command, with its texts as sequences.
#[verifier::ext_equal]
pub struct CommandView {
    pub program: Seq<char>,
    pub args: Seq<Seq<char>>,
}

impl View for ResolvedCommand {
    type V = CommandView;

    open spec fn view(&self) -> CommandView {
        CommandView { program: self.program@, args: texts(self.args@) }
    }
}

impl Clone for ResolvedCommand {
    fn clone(&self) -> (r: Self)
        ensures
            r@ == self@,
    {
        let r = ResolvedCommand { program: self.program.clone(), args: self.args.clone() };
        assert(r@.args =~= self@.args);
        r
    }
}

/// A catalog entry, with its texts as sequences.
#[verifier::ext_equal]
pub struct ListingView {
    pub name: Seq<char>,
    pub desc: Seq<char>,
}

impl View for CapabilityListing {
    type V = ListingView;

    open spec fn view(&self) -> ListingView {
        ListingView { name: self.name@, desc: self.desc@ }
    }
}

/// The entries of a listing.
pub open spec fn listing_views(listings: Seq<CapabilityListing>) -> Seq<ListingView> {
    Seq::new(listings.len(), |i: int| listings[i]@)
}

/// The names of a listing.
pub open spec fn listed_names(listings: Seq<ListingView>) -> Seq<Seq<char>> {
    Seq::new(listings.len(), |i: int| listings[i].name)
}

/// The failure of a slot whose parameter is absent or no string.
pub open spec fn unbound(field: Seq<char>) -> ErrorView {
    ErrorView::CapabilityParse { raw: field, reason: "missing or non-string capability param"@ }
}

/// The argument of a slot, given the string members of the parameters.
pub open spec fn bound_slot(slot: ArgView, members: Map<Seq<char>, Seq<char>>) -> Result<
    Seq<char>,
    ErrorView,
> {
    match slot {
        ArgView::Literal(s) => Ok(s),
        ArgView::Param(field) => if members.contains_key(field) {
            Ok(members[field])
        } else {
            Err(unbound(field))
        },
    }
}

/// The arguments of a template, given the string members of the parameters; the
/// first slot that cannot be bound is the failure.
pub open spec fn bound_args(slots: Seq<ArgView>, members: Map<Seq<char>, Seq<char>>) -> Result<
    Seq<Seq<char>>,
    ErrorView,
>
    decreases slots.len(),
{
    if slots.len() == 0 {
        Ok(Seq::empty())
    } else {
        match bound_args(slots.drop_last(), members) {
            Err(e) => Err(e),
            Ok(before) => match bound_slot(slots.last(), members) {
                Err(e) => Err(e),
                Ok(arg) => Ok(before.push(arg)),
            },
        }
    }
}

proof fn lemma_first_unbound(slots: Seq<ArgView>, members: Map<Seq<char>, Seq<char>>, at: int)
    requires
        0 <= at <= slots.len(),
        bound_args(slots.take(at), members) is Err,
    ensures
        bound_args(slots, members) == bound_args(slots.take(at), members),
    decreases slots.len() - at,
{
    if at == slots.len() {
        assert(slots.take(at) =~= slots);
    } else {
        assert(slots.take(at + 1).drop_last() =~= slots.take(at));
        lemma_first_unbound(slots, members, at + 1);
    }
}

/// The argument of a slot, given what the parameters hold under its name.
pub fn bind_slot(slot: &CapabilityArg, value: Option<String>) -> (r: Result<String, Error>)
    ensures
        match slot@ {
            ArgView::Literal(s) => r matches Ok(arg) && arg@ == s,
            ArgView::Param(field) => match value {
                Some(text) => r matches Ok(arg) && arg@ == text@,
                None => r matches Err(e) && e@ == unbound(field),
            },
        },
{
    match slot {
        CapabilityArg::Literal(s) => Ok(s.clone()),
        CapabilityArg::Param(field) => match value {
            Some(text) => Ok(text),
            None => Err(
                Error::CapabilityParse {
                    raw: field.clone(),
                    reason: "missing or non-string capability param".to_owned(),
                },
            ),
        },
    }
}

/// The arguments of a template for the given parameters.
pub fn bind_args(slots: &Vec<CapabilityArg>, params: &serde_json::Value) -> (r: Result<
    Vec<String>,
    Error,
>)
    ensures
        match r {
            Ok(args) => bound_args(slot_views(slots@), string_members(*params)) == Ok::<
                Seq<Seq<char>>,
                ErrorView,
            >(texts(args@)),
            Err(e) => bound_args(slot_views(slots@), string_members(*params)) == Err::<
                Seq<Seq<char>>,
                ErrorView,
            >(e@),
        },
{
    let mut args: Vec<String> = Vec::with_capacity(slots.len());
    let ghost all = slot_views(slots@);
    let ghost members = string_members(*params);
    proof {
        assert(all.take(0) =~= Seq::empty());
        assert(texts(args@) =~= Seq::empty());
    }
    let mut i: usize = 0;
    while i < slots.len()
        invariant
            i <= slots@.len(),
            all == slot_views(slots@),
            members == string_members(*params),
            bound_args(all.take(i as int), members) == Ok::<Seq<Seq<char>>, ErrorView>(
                texts(args@),
            ),
        decreases slots@.len() - i,
    {
        let ghost before = texts(args@);
        proof {
            assert(all.take(i + 1).drop_last() =~= all.take(i as int));
            assert(all.take(i + 1).last() == slots@[i as int]@);
        }
        let value = match &slots[i] {
            CapabilityArg::Literal(_) => None,
            CapabilityArg::Param(field) => string_member(params, field.as_str()),
        };
        match bind_slot(&slots[i], value) {
            Err(e) => {
                proof {
                    lemma_first_unbound(all, members, i + 1);
                }
                return Err(e);
            },
            Ok(arg) => {
                args.push(arg);
                assert(texts(args@) =~= before.push(arg@));
            },
        }
        i = i + 1;
    }
    assert(all.take(slots@.len() as int) =~= all);
    Ok(args)
}

/// The outcome of an index call, by its views.
pub open spec fn listing_outcome(r: Result<Vec<CapabilityListing>, Error>) -> Result<
    Seq<ListingView>,
    ErrorView,
> {
    match r {
        Ok(listings) => Ok(listing_views(listings@)),
        Err(e) => Err(e@),
    }
}

/// A runtime capability provider, which a program may implement for itself.
///
/// `index` is cheap and takes no input; `describe` and `resolve` may do more
/// work. None of them panics. What a provider may answer is its own affair: the
/// relations `lists`, `describes` and `resolves` say it, and allow more than one
/// answer to the same question.
pub trait Provider: Send + Sync {
    /// The identifier that [`Provider::id`] returns.
    spec fn provider_id(&self) -> Seq<char>;

    /// Whether `r` is an answer of [`Provider::index`].
    spec fn lists(&self, r: Result<Seq<ListingView>, ErrorView>) -> bool;

    /// Whether `r` is an answer of [`Provider::describe`].
    spec fn describes(
        &self,
        local_name: Seq<char>,
        r: Result<CapabilityDetailView, ErrorView>,
    ) -> bool;

    /// Whether `r` is an answer of [`Provider::resolve`].
    spec fn resolves(
        &self,
        local_name: Seq<char>,
        params: serde_json::Value,
        r: Result<CommandView, ErrorView>,
    ) -> bool;

    /// Stable unique identifier of this provider, used as a namespace.
    fn id(&self) -> (r: &str)
        ensures
            r@ == self.provider_id(),
    ;

    /// A catalog of all capabilities: local name and one-line description.
    fn index(&self) -> (r: Result<Vec<CapabilityListing>, Error>)
        ensures
            self.lists(listing_outcome(r)),
    ;

    /// Full detail for the capability of a local name.
    fn describe(&self, local_name: &str) -> (r: Result<CapabilityDetail, Error>)
        ensures
            self.describes(local_name@, outcome(r)),
    ;

    /// The command of an invocation of the capability of a local name.
    fn resolve(&self, local_name: &str, params: &serde_json::Value) -> (r: Result<
        ResolvedCommand,
        Error,
    >)
        ensures
            self.resolves(local_name@, *params, outcome(r)),
    ;
}

/// An in-memory [`Provider`] made of descriptors with distinct names.
pub struct NativeProvider {
    id: String,
    descriptors: TextMap<CapabilityDescriptor>,
}

/// What is wrong with a list of names that have to be distinct, where something
/// is: the first name that stood there before.
pub open spec fn first_repeat(names: Seq<Seq<char>>) -> Option<Seq<char>>
    decreases names.len(),
{
    if names.len() == 0 {
        None
    } else {
        match first_repeat(names.drop_last()) {
            Some(name) => Some(name),
            None => if names.drop_last().contains(names.last()) {
                Some(names.last())
            } else {
                None
            },
        }
    }
}

/// A repeat in the first names is the repeat of them all.
pub proof fn lemma_first_repeat(names: Seq<Seq<char>>, at: int)
    requires
        0 <= at <= names.len(),
        first_repeat(names.take(at)) is Some,
    ensures
        first_repeat(names) == first_repeat(names.take(at)),
    decreases names.len() - at,
{
    if at == names.len() {
        assert(names.take(at) =~= names);
    } else {
        assert(names.take(at + 1).drop_last() =~= names.take(at));
        lemma_first_repeat(names, at + 1);
    }
}

/// The names of descriptors.
pub open spec fn descriptor_names(descriptors: Seq<CapabilityDescriptor>) -> Seq<Seq<char>> {
    Seq::new(descriptors.len(), |i: int| descriptors[i].name@)
}

/// The failure of a lookup by a name that nothing has.
pub open spec fn no_capability(name: Seq<char>) -> ErrorView {
    ErrorView::CapabilityNotFound { name }
}

/// The detail of a descriptor.
pub open spec fn descriptor_detail(d: CapabilityDescriptor) -> CapabilityDetailView {
    CapabilityDetailView { signature: d.signature@, schema: d.schema }
}

/// The command of an invocation of a descriptor.
pub open spec fn descriptor_command(d: CapabilityDescriptor, params: serde_json::Value) -> Result<
    CommandView,
    ErrorView,
> {
    match bound_args(slot_views(d.execution.args_template@), string_members(params)) {
        Err(e) => Err(e),
        Ok(args) => Ok(CommandView { program: d.execution.program@, args }),
    }
}

impl NativeProvider {
    /// The descriptors by their names.
    pub closed spec fn offers(&self) -> Map<Seq<char>, CapabilityDescriptor> {
        self.descriptors@
    }

    /// The names in the order in which the descriptors were given.
    pub closed spec fn order(&self) -> Seq<Seq<char>> {
        self.descriptors.order()
    }

    /// The identifier.
    pub closed spec fn given_id(&self) -> Seq<char> {
        self.id@
    }

    #[verifier::type_invariant]
    spec fn valid(self) -> bool {
        &&& self.descriptors.wf()
        &&& forall|name: Seq<char>| #[trigger]
            self.descriptors@.contains_key(name) ==> self.descriptors@[name].name@ == name
    }

    /// Make a provider of descriptors; a local name that occurs twice is rejected.
    pub fn new(id: String, descriptors: Vec<CapabilityDescriptor>) -> (r: Result<Self, Error>)
        ensures
            match r {
                Ok(p) => {
                    let names = descriptor_names(descriptors@);
                    &&& first_repeat(names) is None
                    &&& p.given_id() == id@
                    &&& p.order() == names
                    &&& forall|name: Seq<char>|
                        p.offers().contains_key(name) <==> names.contains(name)
                    &&& forall|i: int|
                        0 <= i < descriptors@.len() ==> p.offers()[names[i]] == (
                        #[trigger] descriptors@[i])
                },
                Err(e) => first_repeat(descriptor_names(descriptors@)) matches Some(name) && e@ == (
                ErrorView::DuplicateCapability { provider: id@, name }),
            },
    {
        let mut map: TextMap<CapabilityDescriptor> = TextMap::new();
        let ghost given = descriptors@;
        let ghost names = descriptor_names(given);
        let mut rest = descriptors;
        let count: usize = rest.len();
        let mut i: usize = 0;
        assert(names.take(0) =~= Seq::<Seq<char>>::empty());
        while i < count
            invariant
                i <= count == given.len(),
                given == descriptors@,
                rest@ == given.skip(i as int),
                names == descriptor_names(given),
                map.wf(),
                map.order() == names.take(i as int),
                first_repeat(names.take(i as int)) is None,
                forall|k: int| 0 <= k < i ==> map@[names[k]] == #[trigger] given[k],
                forall|name: Seq<char>|
                    map@.contains_key(name) <==> names.take(i as int).contains(name),
                forall|name: Seq<char>| #[trigger]
                    map@.contains_key(name) ==> map@[name].name@ == name,
            decreases count - i,
        {
            let descriptor = rest.remove(0);
            proof {
                assert(descriptor == given[i as int]);
                assert(rest@ =~= given.skip(i + 1));
                assert(names.take(i + 1).drop_last() =~= names.take(i as int));
                assert(names.take(i + 1).last() == descriptor.name@);
            }
            if map.contains_key(descriptor.name.as_str()) {
                proof {
                    lemma_first_repeat(names, i + 1);
                }
                return Err(
                    Error::DuplicateCapability { provider: id, name: descriptor.name },
                );
            }
            let ghost before = map@;
            let name = descriptor.name.clone();
            let _ = map.insert(name, descriptor);
            proof {
                let now = names.take(i + 1);
                assert(now =~= names.take(i as int).push(name@));
                assert forall|k: int| 0 <= k < i + 1 implies map@[names[k]] == #[trigger] given[k] by {
                    if k < i {
                        assert(names.take(i as int)[k] == names[k]);
                        assert(names.take(i as int).contains(names[k]));
                    }
                }
                assert forall|n: Seq<char>| map@.contains_key(n) <==> now.contains(n) by {
                    if names.take(i as int).contains(n) {
                        let k = choose|k: int|
                            0 <= k < i && names.take(i as int)[k] == n;
                        assert(now[k] == n);
                    }
                    assert(now[i as int] == name@);
                }
            }
            i = i + 1;
        }
        assert(names.take(count as int) =~= names);
        Ok(NativeProvider { id, descriptors: map })
    }
}

/// The index of a provider: every name in order, with its description.
pub open spec fn ordered_listing(
    order: Seq<Seq<char>>,
    offers: Map<Seq<char>, CapabilityDescriptor>,
) -> Seq<ListingView> {
    Seq::new(order.len(), |i: int| ListingView { name: order[i], desc: offers[order[i]].desc@ })
}

impl Provider for NativeProvider {
    open spec fn provider_id(&self) -> Seq<char> {
        self.given_id()
    }

    /// Every name in the order in which the descriptors were given.
    open spec fn lists(&self, r: Result<Seq<ListingView>, ErrorView>) -> bool {
        r == Ok::<Seq<ListingView>, ErrorView>(ordered_listing(self.order(), self.offers()))
    }

    /// The signature and schema of a descriptor.
    open spec fn describes(
        &self,
        local_name: Seq<char>,
        r: Result<CapabilityDetailView, ErrorView>,
    ) -> bool {
        if self.offers().contains_key(local_name) {
            r == Ok::<CapabilityDetailView, ErrorView>(
                descriptor_detail(self.offers()[local_name]),
            )
        } else {
            r == Err::<CapabilityDetailView, ErrorView>(no_capability(local_name))
        }
    }

    /// The program and bound arguments of a descriptor.
    open spec fn resolves(
        &self,
        local_name: Seq<char>,
        params: serde_json::Value,
        r: Result<CommandView, ErrorView>,
    ) -> bool {
        if self.offers().contains_key(local_name) {
            r == descriptor_command(self.offers()[local_name], params)
        } else {
            r == Err::<CommandView, ErrorView>(no_capability(local_name))
        }
    }

    fn id(&self) -> (r: &str) {
        self.id.as_str()
    }

    fn index(&self) -> (r: Result<Vec<CapabilityListing>, Error>) {
        proof {
            use_type_invariant(self);
        }
        let mut listings: Vec<CapabilityListing> = Vec::new();
        let count: usize = self.descriptors.len();
        let mut i: usize = 0;
        while i < count
            invariant
                self.descriptors.wf(),
                count == self.order().len(),
                i <= count,
                listings@.len() == i,
                forall|k: int|
                    0 <= k < i ==> (#[trigger] listings@[k])@ == ordered_listing(
                        self.order(),
                        self.offers(),
                    )[k],
            decreases count - i,
        {
            let name = self.descriptors.key_at(i).clone();
            let desc = self.descriptors.value_at(i).desc.clone();
            listings.push(CapabilityListing { name, desc });
            i = i + 1;
        }
        assert(listing_views(listings@) =~= ordered_listing(self.order(), self.offers()));
        Ok(listings)
    }

    fn describe(&self, local_name: &str) -> (r: Result<CapabilityDetail, Error>) {
        proof {
            use_type_invariant(self);
        }
        match self.descriptors.get(local_name) {
            Some(d) => Ok(
                CapabilityDetail { signature: d.signature.clone(), schema: d.schema.clone() },
            ),
            None => Err(Error::CapabilityNotFound { name: local_name.to_owned() }),
        }
    }

    fn resolve(&self, local_name: &str, params: &serde_json::Value) -> (r: Result<
        ResolvedCommand,
        Error,
    >) {
        proof {
            use_type_invariant(self);
        }
        match self.descriptors.get(local_name) {
            None => Err(Error::CapabilityNotFound { name: local_name.to_owned() }),
            Some(d) => match bind_args(&d.execution.args_template, params) {
                Err(e) => Err(e),
                Ok(args) => Ok(ResolvedCommand { program: d.execution.program.clone(), args }),
            },
        }
    }
}

/// A template binds slot by slot: where it can be bound, there are as many
/// arguments as slots, and at the position of each slot stands its literal text
/// or the string that the parameters hold under its name.
pub proof fn arguments_stand_in_their_slots(
    slots: Seq<ArgView>,
    members: Map<Seq<char>, Seq<char>>,
)
    ensures
        bound_args(slots, members) matches Ok(args) ==> {
            &&& args.len() == slots.len()
            &&& forall|i: int|
                0 <= i < slots.len() ==> match #[trigger] slots[i] {
                    ArgView::Literal(text) => args[i] == text,
                    ArgView::Param(field) => members.contains_key(field) && args[i]
                        == members[field],
                }
        },
    decreases slots.len(),
{
    if slots.len() > 0 {
        let earlier = slots.drop_last();
        arguments_stand_in_their_slots(earlier, members);
        if let Ok(args) = bound_args(slots, members) {
            let before = bound_args(earlier, members)->Ok_0;
            assert forall|i: int| 0 <= i < slots.len() implies match #[trigger] slots[i] {
                ArgView::Literal(text) => args[i] == text,
                ArgView::Param(field) => members.contains_key(field) && args[i] == members[field],
            } by {
                if i < earlier.len() {
                    assert(earlier[i] == slots[i]);
                    assert(args[i] == before[i]);
                }
            }
        }
    }
}

/// A template can be bound exactly where the parameters hold a string under the
/// name of every parameter slot; otherwise the first such slot that they leave
/// open is what the failure names.
pub proof fn binding_fails_at_the_first_open_slot(
    slots: Seq<ArgView>,
    members: Map<Seq<char>, Seq<char>>,
)
    ensures
        bound_args(slots, members) is Ok <==> forall|i: int|
            0 <= i < slots.len() ==> (#[trigger] slots[i] matches ArgView::Param(field)
                ==> members.contains_key(field)),
        bound_args(slots, members) matches Err(e) ==> exists|at: int|
            {
                &&& 0 <= at < slots.len()
                &&& #[trigger] slots[at] matches ArgView::Param(field) && !members.contains_key(
                    field,
                ) && e == (ErrorView::CapabilityParse {
                    raw: field,
                    reason: "missing or non-string capability param"@,
                })
                &&& forall|i: int|
                    0 <= i < at ==> (#[trigger] slots[i] matches ArgView::Param(field)
                        ==> members.contains_key(field))
            },
    decreases slots.len(),
{
    if slots.len() > 0 {
        let earlier = slots.drop_last();
        binding_fails_at_the_first_open_slot(earlier, members);
        assert forall|i: int| 0 <= i < earlier.len() implies #[trigger] earlier[i] == slots[i] by {}
        if bound_args(earlier, members) is Err {
            let at = choose|at: int|
                {
                    &&& 0 <= at < earlier.len()
                    &&& #[trigger] earlier[at] matches ArgView::Param(field)
                        && !members.contains_key(field) && bound_args(earlier, members)->Err_0 == (
                    ErrorView::CapabilityParse {
                        raw: field,
                        reason: "missing or non-string capability param"@,
                    })
                    &&& forall|i: int|
                        0 <= i < at ==> (#[trigger] earlier[i] matches ArgView::Param(field)
                            ==> members.contains_key(field))
                };
            assert(slots[at] == earlier[at]);
            assert forall|i: int| 0 <= i < at implies (#[trigger] slots[i] matches ArgView::Param(
                field,
            ) ==> members.contains_key(field)) by {
                assert(earlier[i] == slots[i]);
            }
        } else {
            assert(slots[slots.len() - 1] == slots.last());
            assert forall|i: int| 0 <= i < slots.len() - 1 implies (
            #[trigger] slots[i] matches ArgView::Param(field) ==> members.contains_key(field)) by {
                assert(earlier[i] == slots[i]);
            }
        }
    }
}

/// No name is reported as repeated exactly where all of them differ, and a name
/// that is reported stands at two places.
pub proof fn repeats_are_found(names: Seq<Seq<char>>)
    ensures
        first_repeat(names) is None <==> names.no_duplicates(),
        first_repeat(names) matches Some(name) ==> exists|i: int, j: int|
            0 <= i < j < names.len() && #[trigger] names[i] == name && #[trigger] names[j] == name,
    decreases names.len(),
{
    if names.len() > 0 {
        let head = names.drop_last();
        repeats_are_found(head);
        assert forall|i: int| 0 <= i < head.len() implies #[trigger] head[i] == names[i] by {}
        assert(names[names.len() - 1] == names.last());
        if first_repeat(head) is Some {
            let (i, j) = choose|i: int, j: int|
                0 <= i < j < head.len() && #[trigger] head[i] == first_repeat(head)->0
                    && #[trigger] head[j] == first_repeat(head)->0;
            assert(names[i] == head[i] && names[j] == head[j]);
        } else {
            if head.contains(names.last()) {
                let i = choose|i: int| 0 <= i < head.len() && head[i] == names.last();
                assert(names[i] == names[names.len() - 1]);
            } else {
                assert forall|i: int, j: int|
                    0 <= i < names.len() && 0 <= j < names.len() && i != j implies names[i]
                    != names[j] by {
                    if i < head.len() && j < head.len() {
                        assert(head[i] != head[j]);
                    } else if i < head.len() {
                        assert(head.contains(head[i]));
                    } else {
                        assert(head.contains(head[j]));
                    }
                }
            }
        }
    }
}

impl NativeProvider {
    /// The provider lists each of its descriptors under its own name and
    /// description, describes it by its own signature and schema, and runs its own
    /// program with one argument for each slot of its own template. It answers so
    /// for the names that it has, and tells any other that there is none.
    pub proof fn answers_come_from_the_descriptor(
        &self,
        name: Seq<char>,
        params: serde_json::Value,
        listed: Result<Seq<ListingView>, ErrorView>,
        detail: Result<CapabilityDetailView, ErrorView>,
        command: Result<CommandView, ErrorView>,
    )
        requires
            self.lists(listed),
            self.describes(name, detail),
            self.resolves(name, params, command),
        ensures
            listed matches Ok(listing) && listing.len() == self.order().len() && forall|i: int|
                0 <= i < listing.len() ==> (#[trigger] listing[i]).name == self.order()[i]
                    && listing[i].desc == self.offers()[self.order()[i]].desc@,
            detail is Ok <==> self.offers().contains_key(name),
            detail matches Ok(d) ==> d.signature == self.offers()[name].signature@ && d.schema
                == self.offers()[name].schema,
            command matches Ok(c) ==> {
                &&& self.offers().contains_key(name)
                &&& c.program == self.offers()[name].execution.program@
                &&& c.args.len() == self.offers()[name].execution.args_template@.len()
            },
            !self.offers().contains_key(name) ==> command == Err::<CommandView, ErrorView>(
                ErrorView::CapabilityNotFound { name },
            ) && detail == Err::<CapabilityDetailView, ErrorView>(
                ErrorView::CapabilityNotFound { name },
            ),
    {
        if self.offers().contains_key(name) {
            arguments_stand_in_their_slots(
                slot_views(self.offers()[name].execution.args_template@),
                string_members(params),
            );
        }
    }
}

/// A slot is seen as the literal or the parameter that it is, a template slot by
/// slot and a listing entry by entry, in order.
pub proof fn slots_are_seen_in_order(
    slots: Seq<CapabilityArg>,
    listings: Seq<CapabilityListing>,
    i: int,
)
    ensures
        slot_views(slots).len() == slots.len(),
        0 <= i < slots.len() ==> match slots[i] {
            CapabilityArg::Literal(text) => slot_views(slots)[i] == ArgView::Literal(text@),
            CapabilityArg::Param(field) => slot_views(slots)[i] == ArgView::Param(field@),
        },
        listing_views(listings).len() == listings.len() == listed_names(
            listing_views(listings),
        ).len(),
        0 <= i < listings.len() ==> {
            &&& listing_views(listings)[i].name == listings[i].name@
            &&& listing_views(listings)[i].desc == listings[i].desc@
            &&& listed_names(listing_views(listings))[i] == listings[i].name@
        },
{
}

} // verus!
