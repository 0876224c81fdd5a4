//! Runtime capability model.
//!
//! Verbs are orthogonal: an `fs.write` grant does not imply an `fs.read` grant.
//!
//! Attenuation only narrows: a grant permits an equal or smaller scope of its
//! own verb, never a broader one and never another verb.
//!
//! Tool names match exactly: `tool:git` does not permit `tool:gitx`.

use vstd::prelude::*;
use vstd::string::*;

use crate::error::{Error, ErrorView};
use crate::path::{
    climbs, components, has_parent_component, is_absolute, is_within,
    neighbours_lie_outside_each_other, path_parts, path_within, paths_below_lie_within, same_path,
    starts_at_root, within_is_reflexive, within_is_transitive,
};
use crate::proto::capability::{grant_texts, Capability};
use crate::text::{
    begins_with, chars_of, concat_text, concat_three, contains_text, finishes_with, has_char,
    has_prefix, has_suffix, has_white, has_white_char, holds_text, is_white, same_text, slice_text,
    stands_at, strip_prefix_text, texts,
};

verus! {

/// A structured representation of a single capability grant.
///
/// The wire form is `fs.read(<abs-path>)`, `fs.write(<abs-path>)`,
/// `net.connect(<domain>)`, `proc.spawn`, `pty.open`, `tool:<name>`, or a bare
/// tool name, whose canonical form is `tool:<name>`. Paths are compared by their
/// components: `/ws/` is `/ws`.
#[derive(Debug, Eq)]
pub enum RuntimeCapability {
    /// Read access to a filesystem subtree.
    FsRead(String),
    /// Write access to a filesystem subtree.
    FsWrite(String),
    /// Outbound connections to a domain and its sub-domains.
    NetConnect(String),
    /// Permission to spawn child processes.
    ProcSpawn,
    /// Permission to open a pseudo-terminal.
    PtyOpen,
    /// Permission to invoke a named tool.
    Tool(String),
}

/// A capability, with its scope as a sequence of characters.
#[verifier::ext_equal]
pub enum CapabilityView {
    FsRead(Seq<char>),
    FsWrite(Seq<char>),
    NetConnect(Seq<char>),
    ProcSpawn,
    PtyOpen,
    Tool(Seq<char>),
}

impl View for RuntimeCapability {
    type V = CapabilityView;

    open spec fn view(&self) -> CapabilityView {
        match self {
            RuntimeCapability::FsRead(p) => CapabilityView::FsRead(p@),
            RuntimeCapability::FsWrite(p) => CapabilityView::FsWrite(p@),
            RuntimeCapability::NetConnect(d) => CapabilityView::NetConnect(d@),
            RuntimeCapability::ProcSpawn => CapabilityView::ProcSpawn,
            RuntimeCapability::PtyOpen => CapabilityView::PtyOpen,
            RuntimeCapability::Tool(n) => CapabilityView::Tool(n@),
        }
    }
}

impl Clone for RuntimeCapability {
    fn clone(&self) -> (r: Self)
        ensures
            r == *self,
    {
        match self {
            RuntimeCapability::FsRead(p) => RuntimeCapability::FsRead(p.clone()),
            RuntimeCapability::FsWrite(p) => RuntimeCapability::FsWrite(p.clone()),
            RuntimeCapability::NetConnect(d) => RuntimeCapability::NetConnect(d.clone()),
            RuntimeCapability::ProcSpawn => RuntimeCapability::ProcSpawn,
            RuntimeCapability::PtyOpen => RuntimeCapability::PtyOpen,
            RuntimeCapability::Tool(n) => RuntimeCapability::Tool(n.clone()),
        }
    }
}

/// Whether two capabilities are the same: of one verb, and with the same scope,
/// where a path counts by its components.
pub open spec fn same_capability(a: CapabilityView, b: CapabilityView) -> bool {
    match (a, b) {
        (CapabilityView::FsRead(p), CapabilityView::FsRead(q)) => path_parts(p) == path_parts(q),
        (CapabilityView::FsWrite(p), CapabilityView::FsWrite(q)) => path_parts(p) == path_parts(q),
        (CapabilityView::NetConnect(d), CapabilityView::NetConnect(e)) => d == e,
        (CapabilityView::ProcSpawn, CapabilityView::ProcSpawn) => true,
        (CapabilityView::PtyOpen, CapabilityView::PtyOpen) => true,
        (CapabilityView::Tool(n), CapabilityView::Tool(m)) => n == m,
        _ => false,
    }
}

impl PartialEq for RuntimeCapability {
    fn eq(&self, other: &Self) -> (r: bool) {
        match (self, other) {
            (RuntimeCapability::FsRead(p), RuntimeCapability::FsRead(q)) => same_path(
                p.as_str(),
                q.as_str(),
            ),
            (RuntimeCapability::FsWrite(p), RuntimeCapability::FsWrite(q)) => same_path(
                p.as_str(),
                q.as_str(),
            ),
            (RuntimeCapability::NetConnect(d), RuntimeCapability::NetConnect(e)) => same_text(
                d.as_str(),
                e.as_str(),
            ),
            (RuntimeCapability::ProcSpawn, RuntimeCapability::ProcSpawn) => true,
            (RuntimeCapability::PtyOpen, RuntimeCapability::PtyOpen) => true,
            (RuntimeCapability::Tool(n), RuntimeCapability::Tool(m)) => same_text(
                n.as_str(),
                m.as_str(),
            ),
            _ => false,
        }
    }
}

impl vstd::std_specs::cmp::PartialEqSpecImpl for RuntimeCapability {
    open spec fn obeys_eq_spec() -> bool {
        true
    }

    open spec fn eq_spec(&self, other: &Self) -> bool {
        same_capability(self@, other@)
    }
}

/// The texts that a capability is hashed by: its verb, then its scope, a path by
/// its components.
pub open spec fn hash_key(cap: CapabilityView) -> Seq<Seq<char>> {
    match cap {
        CapabilityView::FsRead(p) => seq!["fs.read"@] + path_parts(p),
        CapabilityView::FsWrite(p) => seq!["fs.write"@] + path_parts(p),
        CapabilityView::NetConnect(d) => seq!["net.connect"@, d],
        CapabilityView::ProcSpawn => seq!["proc.spawn"@],
        CapabilityView::PtyOpen => seq!["pty.open"@],
        CapabilityView::Tool(n) => seq!["tool"@, n],
    }
}

/// `Hash::hash` of a list of texts: feeds them to the hasher. What that does to
/// the hasher's state is the hasher's own and is not stated.
#[verifier::external_body]
fn feed_hasher<H: std::hash::Hasher>(key: &Vec<String>, state: &mut H) {
    std::hash::Hash::hash(key, state)
}

impl RuntimeCapability {
    /// The texts that the capability is hashed by.
    pub fn hash_texts(&self) -> (r: Vec<String>)
        ensures
            texts(r@) == hash_key(self@),
    {
        let r = match self {
            RuntimeCapability::FsRead(p) => keyed("fs.read", components(p.as_str())),
            RuntimeCapability::FsWrite(p) => keyed("fs.write", components(p.as_str())),
            RuntimeCapability::NetConnect(d) => vec!["net.connect".to_owned(), d.clone()],
            RuntimeCapability::ProcSpawn => vec!["proc.spawn".to_owned()],
            RuntimeCapability::PtyOpen => vec!["pty.open".to_owned()],
            RuntimeCapability::Tool(n) => vec!["tool".to_owned(), n.clone()],
        };
        assert(texts(r@) =~= hash_key(self@));
        r
    }
}

/// A text before a list of texts.
fn keyed(first: &str, rest: Vec<String>) -> (r: Vec<String>)
    ensures
        texts(r@) == seq![first@] + texts(rest@),
{
    let mut rest = rest;
    let ghost given = rest@;
    rest.insert(0, first.to_owned());
    assert(texts(rest@) =~= seq![first@] + texts(given));
    rest
}

impl std::hash::Hash for RuntimeCapability {
    fn hash<H: std::hash::Hasher>(&self, state: &mut H) {
        feed_hasher(&self.hash_texts(), state)
    }
}

/// The same capabilities are hashed alike.
pub proof fn same_capabilities_hash_alike(a: CapabilityView, b: CapabilityView)
    requires
        same_capability(a, b),
    ensures
        hash_key(a) == hash_key(b),
{
}

/// The canonical wire form of a capability.
pub open spec fn wire_text(cap: CapabilityView) -> Seq<char> {
    match cap {
        CapabilityView::FsRead(p) => "fs.read("@ + p + ")"@,
        CapabilityView::FsWrite(p) => "fs.write("@ + p + ")"@,
        CapabilityView::NetConnect(d) => "net.connect("@ + d + ")"@,
        CapabilityView::ProcSpawn => "proc.spawn"@,
        CapabilityView::PtyOpen => "pty.open"@,
        CapabilityView::Tool(n) => "tool:"@ + n,
    }
}

/// The failure of a malformed capability text.
pub open spec fn malformed(raw: Seq<char>, reason: Seq<char>) -> ErrorView {
    ErrorView::CapabilityParse { raw, reason }
}

/// What stands between `prefix` and a closing parenthesis at the end.
pub open spec fn paren_inner(s: Seq<char>, prefix: Seq<char>) -> Option<Seq<char>> {
    if begins_with(s, prefix) && finishes_with(s.skip(prefix.len() as int), ")"@) {
        Some(s.subrange(prefix.len() as int, s.len() - 1))
    } else {
        None
    }
}

/// What is wrong with the path of a filesystem grant, where something is.
pub open spec fn path_fault(path: Seq<char>) -> Option<Seq<char>> {
    if !is_absolute(path) {
        Some("path must be absolute (start with `/`)"@)
    } else if climbs(path) {
        Some("path must not contain `..` components"@)
    } else {
        None
    }
}

/// What is wrong with the domain of a network grant, where something is.
pub open spec fn domain_fault(domain: Seq<char>) -> Option<Seq<char>> {
    if domain.len() == 0 {
        Some("domain must not be empty"@)
    } else if domain.contains('/') {
        Some("domain must not contain `/`"@)
    } else if has_white(domain) {
        Some("domain must not contain whitespace"@)
    } else if holds_text(domain, "://"@) {
        Some("domain must not contain `://` (bare domain expected, not a URL)"@)
    } else if domain.contains(':') {
        Some("port notation not supported (use bare domain without `:port`)"@)
    } else {
        None
    }
}

/// The capability that a text writes; or why it writes none.
///
/// A text that begins with the prefix of a verb has to be well-formed for that
/// verb: it is never taken for a bare tool name.
pub open spec fn parsed(s: Seq<char>) -> Result<CapabilityView, ErrorView> {
    if begins_with(s, "fs.read("@) {
        match paren_inner(s, "fs.read("@) {
            None => Err(malformed(s, "expected closing `)` for fs.read(...)"@)),
            Some(path) => match path_fault(path) {
                Some(reason) => Err(malformed(s, reason)),
                None => Ok(CapabilityView::FsRead(path)),
            },
        }
    } else if begins_with(s, "fs.write("@) {
        match paren_inner(s, "fs.write("@) {
            None => Err(malformed(s, "expected closing `)` for fs.write(...)"@)),
            Some(path) => match path_fault(path) {
                Some(reason) => Err(malformed(s, reason)),
                None => Ok(CapabilityView::FsWrite(path)),
            },
        }
    } else if begins_with(s, "net.connect("@) {
        match paren_inner(s, "net.connect("@) {
            None => Err(malformed(s, "expected closing `)` for net.connect(...)"@)),
            Some(domain) => match domain_fault(domain) {
                Some(reason) => Err(malformed(s, reason)),
                None => Ok(CapabilityView::NetConnect(domain)),
            },
        }
    } else if s == "proc.spawn"@ {
        Ok(CapabilityView::ProcSpawn)
    } else if s == "pty.open"@ {
        Ok(CapabilityView::PtyOpen)
    } else if begins_with(s, "tool:"@) {
        let name = s.skip("tool:"@.len() as int);
        if name.len() == 0 {
            Err(malformed(s, "tool name must not be empty after `tool:`"@))
        } else {
            Ok(CapabilityView::Tool(name))
        }
    } else if s.len() == 0 {
        Err(malformed(s, "empty capability string"@))
    } else if has_white(s) {
        Err(malformed(s, "bare tool name must not contain whitespace"@))
    } else {
        Ok(CapabilityView::Tool(s))
    }
}

/// Whether `child` is the domain `parent` or one of its sub-domains.
pub open spec fn domain_within(child: Seq<char>, parent: Seq<char>) -> bool {
    child == parent || finishes_with(child, seq!['.'] + parent)
}

/// Whether a grant authorises a request: the same verb, and an equal or smaller scope.
pub open spec fn permits(grant: CapabilityView, request: CapabilityView) -> bool {
    match (grant, request) {
        (CapabilityView::FsRead(base), CapabilityView::FsRead(path)) => path_within(path, base),
        (CapabilityView::FsWrite(base), CapabilityView::FsWrite(path)) => path_within(path, base),
        (CapabilityView::NetConnect(parent), CapabilityView::NetConnect(child)) => domain_within(
            child,
            parent,
        ),
        (CapabilityView::ProcSpawn, CapabilityView::ProcSpawn) => true,
        (CapabilityView::PtyOpen, CapabilityView::PtyOpen) => true,
        (CapabilityView::Tool(granted), CapabilityView::Tool(asked)) => granted == asked,
        _ => false,
    }
}

/// Capabilities that are the same permit, and are permitted by, the same.
pub proof fn same_capabilities_permit_alike(
    a: CapabilityView,
    b: CapabilityView,
    other: CapabilityView,
)
    requires
        same_capability(a, b),
    ensures
        permits(a, other) == permits(b, other),
        permits(other, a) == permits(other, b),
{
}

fn parse_failure(raw: &str, reason: &str) -> (e: Error)
    ensures
        e@ == malformed(raw@, reason@),
{
    Error::CapabilityParse { raw: raw.to_owned(), reason: reason.to_owned() }
}

/// What stands between `prefix`, with which `s` begins, and a closing
/// parenthesis at the end.
pub fn extract_paren_inner(s: &str, prefix: &str) -> (r: Option<String>)
    ensures
        match r {
            Some(inner) => paren_inner(s@, prefix@) == Some(inner@),
            None => paren_inner(s@, prefix@) is None,
        },
{
    match strip_prefix_text(s, prefix) {
        None => None,
        Some(rest) => {
            if has_suffix(rest.as_str(), ")") {
                proof {
                    reveal_strlit(")");
                }
                let v = chars_of(rest.as_str());
                let inner = slice_text(&v, 0, v.len() - 1);
                assert(inner@ =~= s@.subrange(prefix@.len() as int, s@.len() - 1));
                Some(inner)
            } else {
                None
            }
        },
    }
}

/// Check the path of a filesystem grant.
pub fn parse_abs_path(raw: &str, original: &str) -> (r: Result<String, Error>)
    ensures
        match r {
            Ok(path) => path_fault(raw@) is None && path@ == raw@,
            Err(e) => path_fault(raw@) matches Some(reason) && e@ == malformed(original@, reason),
        },
{
    if !starts_at_root(raw) {
        return Err(parse_failure(original, "path must be absolute (start with `/`)"));
    }
    if has_parent_component(raw) {
        return Err(parse_failure(original, "path must not contain `..` components"));
    }
    Ok(raw.to_owned())
}

/// Check the domain of a network grant.
pub fn parse_domain(raw: &str, original: &str) -> (r: Result<String, Error>)
    ensures
        match r {
            Ok(domain) => domain_fault(raw@) is None && domain@ == raw@,
            Err(e) => domain_fault(raw@) matches Some(reason) && e@ == malformed(
                original@,
                reason,
            ),
        },
{
    if raw.is_empty() {
        return Err(parse_failure(original, "domain must not be empty"));
    }
    if has_char(raw, '/') {
        return Err(parse_failure(original, "domain must not contain `/`"));
    }
    if has_white_char(raw) {
        return Err(parse_failure(original, "domain must not contain whitespace"));
    }
    if contains_text(raw, "://") {
        return Err(
            parse_failure(
                original,
                "domain must not contain `://` (bare domain expected, not a URL)",
            ),
        );
    }
    if has_char(raw, ':') {
        return Err(
            parse_failure(
                original,
                "port notation not supported (use bare domain without `:port`)",
            ),
        );
    }
    Ok(raw.to_owned())
}

/// Whether a parse result is the stated one.
pub open spec fn parse_is(
    r: Result<RuntimeCapability, Error>,
    stated: Result<CapabilityView, ErrorView>,
) -> bool {
    match r {
        Ok(cap) => stated == Ok::<CapabilityView, ErrorView>(cap@),
        Err(e) => stated == Err::<CapabilityView, ErrorView>(e@),
    }
}

impl RuntimeCapability {
    /// Parse a wire grant.
    pub fn parse(wire: &Capability) -> (r: Result<Self, Error>)
        ensures
            parse_is(r, parsed(wire@)),
    {
        Self::parse_str(wire.as_str())
    }

    /// Parse a capability text.
    pub fn parse_str(s: &str) -> (r: Result<Self, Error>)
        ensures
            parse_is(r, parsed(s@)),
    {
        if has_prefix(s, "fs.read(") {
            return match extract_paren_inner(s, "fs.read(") {
                None => Err(parse_failure(s, "expected closing `)` for fs.read(...)")),
                Some(inner) => match parse_abs_path(inner.as_str(), s) {
                    Ok(path) => Ok(RuntimeCapability::FsRead(path)),
                    Err(e) => Err(e),
                },
            };
        }
        if has_prefix(s, "fs.write(") {
            return match extract_paren_inner(s, "fs.write(") {
                None => Err(parse_failure(s, "expected closing `)` for fs.write(...)")),
                Some(inner) => match parse_abs_path(inner.as_str(), s) {
                    Ok(path) => Ok(RuntimeCapability::FsWrite(path)),
                    Err(e) => Err(e),
                },
            };
        }
        if has_prefix(s, "net.connect(") {
            return match extract_paren_inner(s, "net.connect(") {
                None => Err(parse_failure(s, "expected closing `)` for net.connect(...)")),
                Some(inner) => match parse_domain(inner.as_str(), s) {
                    Ok(domain) => Ok(RuntimeCapability::NetConnect(domain)),
                    Err(e) => Err(e),
                },
            };
        }
        if same_text(s, "proc.spawn") {
            return Ok(RuntimeCapability::ProcSpawn);
        }
        if same_text(s, "pty.open") {
            return Ok(RuntimeCapability::PtyOpen);
        }
        if let Some(name) = strip_prefix_text(s, "tool:") {
            if name.as_str().is_empty() {
                return Err(parse_failure(s, "tool name must not be empty after `tool:`"));
            }
            return Ok(RuntimeCapability::Tool(name));
        }
        if s.is_empty() {
            return Err(parse_failure(s, "empty capability string"));
        }
        if has_white_char(s) {
            return Err(parse_failure(s, "bare tool name must not contain whitespace"));
        }
        Ok(RuntimeCapability::Tool(s.to_owned()))
    }

    /// The canonical wire form as a text.
    pub fn text(&self) -> (r: String)
        ensures
            r@ == wire_text(self@),
    {
        match self {
            RuntimeCapability::FsRead(p) => concat_three("fs.read(", p.as_str(), ")"),
            RuntimeCapability::FsWrite(p) => concat_three("fs.write(", p.as_str(), ")"),
            RuntimeCapability::NetConnect(d) => concat_three("net.connect(", d.as_str(), ")"),
            RuntimeCapability::ProcSpawn => "proc.spawn".to_owned(),
            RuntimeCapability::PtyOpen => "pty.open".to_owned(),
            RuntimeCapability::Tool(n) => concat_text("tool:", n.as_str()),
        }
    }

    /// The canonical wire form.
    pub fn to_wire(&self) -> (r: Capability)
        ensures
            r@ == wire_text(self@),
    {
        Capability(self.text())
    }

    /// Whether this grant authorises `child`, which holds no more authority.
    pub fn permits(&self, child: &RuntimeCapability) -> (r: bool)
        ensures
            r == permits(self@, child@),
    {
        match (self, child) {
            (RuntimeCapability::FsRead(base), RuntimeCapability::FsRead(path)) => is_within(
                path.as_str(),
                base.as_str(),
            ),
            (RuntimeCapability::FsWrite(base), RuntimeCapability::FsWrite(path)) => is_within(
                path.as_str(),
                base.as_str(),
            ),
            (RuntimeCapability::NetConnect(parent), RuntimeCapability::NetConnect(domain)) => {
                if same_text(domain.as_str(), parent.as_str()) {
                    return true;
                }
                let dotted = concat_text(".", parent.as_str());
                proof {
                    reveal_strlit(".");
                    assert("."@ =~= seq!['.']);
                }
                has_suffix(domain.as_str(), dotted.as_str())
            },
            (RuntimeCapability::ProcSpawn, RuntimeCapability::ProcSpawn) => true,
            (RuntimeCapability::PtyOpen, RuntimeCapability::PtyOpen) => true,
            (RuntimeCapability::Tool(granted), RuntimeCapability::Tool(asked)) => same_text(
                granted.as_str(),
                asked.as_str(),
            ),
            _ => false,
        }
    }
}

/// The grants of a list, each by its view.
pub open spec fn grant_views(grants: Seq<RuntimeCapability>) -> Seq<CapabilityView> {
    Seq::new(grants.len(), |i: int| grants[i]@)
}

/// Whether some grant of a list permits a request.
pub open spec fn any_permits(grants: Seq<CapabilityView>, request: CapabilityView) -> bool {
    exists|i: int| 0 <= i < grants.len() && permits(#[trigger] grants[i], request)
}

/// The grants that a list of wire texts writes; or the failure of the first
/// text that writes none.
pub open spec fn all_parsed(wire: Seq<Seq<char>>) -> Result<Seq<CapabilityView>, ErrorView>
    decreases wire.len(),
{
    if wire.len() == 0 {
        Ok(Seq::empty())
    } else {
        match all_parsed(wire.drop_last()) {
            Err(e) => Err(e),
            Ok(before) => match parsed(wire.last()) {
                Err(e) => Err(e),
                Ok(cap) => Ok(before.push(cap)),
            },
        }
    }
}

/// An ordered collection of grants held by a session.
///
/// A request is permitted if any grant of the set permits it.
#[derive(Debug)]
pub struct CapabilitySet {
    grants: Vec<RuntimeCapability>,
}

impl View for CapabilitySet {
    type V = Seq<CapabilityView>;

    closed spec fn view(&self) -> Seq<CapabilityView> {
        grant_views(self.grants@)
    }
}

impl Clone for CapabilitySet {
    fn clone(&self) -> (r: Self)
        ensures
            r@ == self@,
    {
        let r = CapabilitySet { grants: self.grants.clone() };
        assert(r@ =~= self@);
        r
    }
}

impl Default for CapabilitySet {
    fn default() -> (r: Self)
        ensures
            r@ == Seq::<CapabilityView>::empty(),
    {
        let r = CapabilitySet { grants: Vec::new() };
        assert(r@ =~= Seq::<CapabilityView>::empty());
        r
    }
}

/// The failure of the first malformed grant is the failure of the whole list.
proof fn lemma_first_failure(wire: Seq<Seq<char>>, at: int)
    requires
        0 <= at <= wire.len(),
        all_parsed(wire.take(at)) is Err,
    ensures
        all_parsed(wire) == all_parsed(wire.take(at)),
    decreases wire.len() - at,
{
    if at == wire.len() {
        assert(wire.take(at) =~= wire);
    } else {
        assert(wire.take(at + 1).drop_last() =~= wire.take(at));
        lemma_first_failure(wire, at + 1);
    }
}

impl CapabilitySet {
    /// Create a set from a list of grants.
    pub fn new(grants: Vec<RuntimeCapability>) -> (r: Self)
        ensures
            r@ == grant_views(grants@),
    {
        CapabilitySet { grants }
    }

    /// Parse a list of wire grants; the first malformed one is the failure.
    pub fn from_wire(wire: &[Capability]) -> (r: Result<Self, Error>)
        ensures
            match r {
                Ok(set) => all_parsed(grant_texts(wire@)) == Ok::<Seq<CapabilityView>, ErrorView>(
                    set@,
                ),
                Err(e) => all_parsed(grant_texts(wire@)) == Err::<Seq<CapabilityView>, ErrorView>(
                    e@,
                ),
            },
    {
        let mut grants: Vec<RuntimeCapability> = Vec::new();
        let ghost all = grant_texts(wire@);
        proof {
            assert(all.take(0) =~= Seq::empty());
            assert(grant_views(grants@) =~= Seq::empty());
        }
        let mut i: usize = 0;
        while i < wire.len()
            invariant
                i <= wire@.len(),
                all == grant_texts(wire@),
                all_parsed(all.take(i as int)) == Ok::<Seq<CapabilityView>, ErrorView>(
                    grant_views(grants@),
                ),
            decreases wire@.len() - i,
        {
            let ghost before = grant_views(grants@);
            proof {
                assert(all.take(i + 1).drop_last() =~= all.take(i as int));
                assert(all.take(i + 1).last() == wire@[i as int]@);
            }
            match RuntimeCapability::parse(&wire[i]) {
                Err(e) => {
                    proof {
                        lemma_first_failure(all, i + 1);
                    }
                    return Err(e);
                },
                Ok(cap) => {
                    grants.push(cap);
                    assert(grant_views(grants@) =~= before.push(cap@));
                },
            }
            i = i + 1;
        }
        assert(all.take(wire@.len() as int) =~= all);
        Ok(CapabilitySet { grants })
    }

    /// The ordered list of grants held by this set.
    pub fn grants(&self) -> (r: &[RuntimeCapability])
        ensures
            grant_views(r@) == self@,
    {
        self.grants.as_slice()
    }

    /// Whether any grant in this set permits `requested`.
    pub fn permits(&self, requested: &RuntimeCapability) -> (r: bool)
        ensures
            r == any_permits(self@, requested@),
    {
        let mut i: usize = 0;
        while i < self.grants.len()
            invariant
                i <= self.grants@.len(),
                forall|k: int| 0 <= k < i ==> !permits(#[trigger] self@[k], requested@),
            decreases self.grants@.len() - i,
        {
            if self.grants[i].permits(requested) {
                assert(permits(self@[i as int], requested@));
                return true;
            }
            i = i + 1;
        }
        false
    }
}

/// Every grant permits itself.
pub proof fn permits_is_reflexive(cap: CapabilityView)
    ensures
        permits(cap, cap),
{
    match cap {
        CapabilityView::FsRead(p) => within_is_reflexive(p),
        CapabilityView::FsWrite(p) => within_is_reflexive(p),
        _ => {},
    }
}

/// Attenuation only narrows: what a permitted grant permits, the original
/// grant permits too, so no chain of attenuations gains authority.
pub proof fn attenuation_only_narrows(
    grant: CapabilityView,
    child: CapabilityView,
    grandchild: CapabilityView,
)
    requires
        permits(grant, child),
        permits(child, grandchild),
    ensures
        permits(grant, grandchild),
{
    match (grant, child, grandchild) {
        (
            CapabilityView::FsRead(a),
            CapabilityView::FsRead(b),
            CapabilityView::FsRead(c),
        ) => within_is_transitive(c, b, a),
        (
            CapabilityView::FsWrite(a),
            CapabilityView::FsWrite(b),
            CapabilityView::FsWrite(c),
        ) => within_is_transitive(c, b, a),
        (
            CapabilityView::NetConnect(a),
            CapabilityView::NetConnect(b),
            CapabilityView::NetConnect(c),
        ) => {
            if c != b && b != a {
                let da = seq!['.'] + a;
                let db = seq!['.'] + b;
                assert(c.skip(c.len() - da.len()) =~= da) by {
                    assert forall|i: int| 0 <= i < da.len() implies c[c.len() - da.len() + i]
                        == da[i] by {
                        assert(b.skip(b.len() - da.len())[i] == da[i]);
                        assert(c.skip(c.len() - db.len())[db.len() - da.len() + i] == db[db.len()
                            - da.len() + i]);
                    }
                }
            }
        },
        _ => {},
    }
}

/// A set that permits a grant permits all that the grant permits.
pub proof fn set_attenuation_only_narrows(
    grants: Seq<CapabilityView>,
    child: CapabilityView,
    grandchild: CapabilityView,
)
    requires
        any_permits(grants, child),
        permits(child, grandchild),
    ensures
        any_permits(grants, grandchild),
{
    let i = choose|i: int| 0 <= i < grants.len() && permits(#[trigger] grants[i], child);
    attenuation_only_narrows(grants[i], child, grandchild);
}

/// Verbs are orthogonal: a grant permits only requests of its own verb.
pub proof fn verbs_are_orthogonal(grant: CapabilityView, request: CapabilityView)
    requires
        permits(grant, request),
    ensures
        grant is FsRead <==> request is FsRead,
        grant is FsWrite <==> request is FsWrite,
        grant is NetConnect <==> request is NetConnect,
        grant is ProcSpawn <==> request is ProcSpawn,
        grant is PtyOpen <==> request is PtyOpen,
        grant is Tool <==> request is Tool,
{
}

/// The canonical form is stable: every capability that a text writes is the one
/// that its own wire form writes.
pub proof fn wire_form_parses_back(s: Seq<char>)
    requires
        parsed(s) is Ok,
    ensures
        parsed(wire_text(parsed(s)->Ok_0)) == parsed(s),
{
    reveal_strlit("fs.read(");
    reveal_strlit("fs.write(");
    reveal_strlit("net.connect(");
    reveal_strlit("proc.spawn");
    reveal_strlit("pty.open");
    reveal_strlit("tool:");
    reveal_strlit(")");
    let cap = parsed(s)->Ok_0;
    let w = wire_text(cap);
    match cap {
        CapabilityView::FsRead(p) => {
            lemma_parenthesised(p, "fs.read("@);
        },
        CapabilityView::FsWrite(p) => {
            lemma_parenthesised(p, "fs.write("@);
            assert(w[3] == 'w');
            assert(w.take(8)[3] != "fs.read("@[3]);
        },
        CapabilityView::NetConnect(d) => {
            lemma_parenthesised(d, "net.connect("@);
            assert(w[0] == 'n');
            assert(w.take(8)[0] != "fs.read("@[0]);
            assert(w.take(9)[0] != "fs.write("@[0]);
        },
        CapabilityView::ProcSpawn => {
            assert(w[0] == 'p');
            assert(w.take(8)[0] != "fs.read("@[0]);
            assert(w.take(9)[0] != "fs.write("@[0]);
        },
        CapabilityView::PtyOpen => {
            assert(w[0] == 'p');
            assert(w.take(8)[0] != "fs.read("@[0]);
        },
        CapabilityView::Tool(n) => {
            assert(w[0] == 't');
            assert(w.skip(5) =~= n);
            assert(w.take(5) =~= "tool:"@);
            if w.len() >= 8 {
                assert(w.take(8)[0] != "fs.read("@[0]);
            }
            if w.len() >= 9 {
                assert(w.take(9)[0] != "fs.write("@[0]);
            }
            if w.len() >= 12 {
                assert(w.take(12)[0] != "net.connect("@[0]);
            }
            assert(w[0] != "proc.spawn"@[0]);
            assert(w[0] != "pty.open"@[0]);
        },
    }
}

proof fn lemma_parenthesised(inner: Seq<char>, prefix: Seq<char>)
    ensures
        begins_with(prefix + inner + ")"@, prefix),
        paren_inner(prefix + inner + ")"@, prefix) == Some(inner),
{
    reveal_strlit(")");
    let s = prefix + inner + ")"@;
    let n = prefix.len() as int;
    assert(s.take(n) =~= prefix);
    assert(s.skip(n).skip(s.skip(n).len() - 1) =~= ")"@);
    assert(s.subrange(n, s.len() - 1) =~= inner);
}

/// A filesystem grant permits exactly the paths that begin with its components,
/// for writing as for reading.
pub proof fn path_grants_permit_what_lies_under_them(base: Seq<char>, path: Seq<char>)
    ensures
        permits(CapabilityView::FsRead(base), CapabilityView::FsRead(path)) <==> path_parts(
            base,
        ).is_prefix_of(path_parts(path)),
        permits(CapabilityView::FsWrite(base), CapabilityView::FsWrite(path)) <==> path_parts(
            base,
        ).is_prefix_of(path_parts(path)),
{
}

/// Every path below a granted one is permitted.
pub proof fn path_grants_reach_everything_below(base: Seq<char>, rest: Seq<char>)
    requires
        base.len() > 0,
    ensures
        permits(CapabilityView::FsRead(base), CapabilityView::FsRead(base + "/"@ + rest)),
        permits(CapabilityView::FsWrite(base), CapabilityView::FsWrite(base + "/"@ + rest)),
{
    paths_below_lie_within(base, rest);
}

/// A grant of one name below a path permits neither another name there nor the
/// path itself.
pub proof fn path_grants_stop_at_their_own_subtree(base: Seq<char>, a: Seq<char>, b: Seq<char>)
    requires
        base.len() > 0,
        a.len() > 0,
        b.len() > 0,
        a != "."@,
        b != "."@,
        !a.contains('/'),
        !b.contains('/'),
        a != b,
    ensures
        !permits(
            CapabilityView::FsRead(base + "/"@ + a),
            CapabilityView::FsRead(base + "/"@ + b),
        ),
        !permits(
            CapabilityView::FsWrite(base + "/"@ + a),
            CapabilityView::FsWrite(base + "/"@ + b),
        ),
        !permits(CapabilityView::FsRead(base + "/"@ + a), CapabilityView::FsRead(base)),
        !permits(CapabilityView::FsWrite(base + "/"@ + a), CapabilityView::FsWrite(base)),
{
    neighbours_lie_outside_each_other(base, b, a);
    neighbours_lie_outside_each_other(base, a, b);
}

/// A network grant permits exactly its domain and what ends in a dot and that
/// domain; so `evilexample.com` is no part of `example.com`.
pub proof fn network_grants_permit_their_subdomains(parent: Seq<char>, child: Seq<char>)
    ensures
        permits(CapabilityView::NetConnect(parent), CapabilityView::NetConnect(child)) <==> (child
            == parent || exists|label: Seq<char>| child == #[trigger] (label + "."@ + parent)),
{
    reveal_strlit(".");
    let tail = seq!['.'] + parent;
    if finishes_with(child, tail) {
        let label = child.take(child.len() - tail.len());
        assert(child =~= label + "."@ + parent) by {
            assert forall|i: int| 0 <= i < child.len() implies child[i] == (label + "."@
                + parent)[i] by {
                if i >= label.len() {
                    assert(child.skip(child.len() - tail.len())[i - label.len()] == tail[i
                        - label.len()]);
                }
            }
        }
    }
    if exists|label: Seq<char>| child == #[trigger] (label + "."@ + parent) {
        let label = choose|label: Seq<char>| child == #[trigger] (label + "."@ + parent);
        assert(child.skip(child.len() - tail.len()) =~= tail);
    }
}

/// The other grants permit exactly themselves: a tool grant the very tool that it
/// names, and the two without a scope each other's like.
pub proof fn other_grants_permit_themselves(granted: Seq<char>, asked: Seq<char>)
    ensures
        permits(CapabilityView::Tool(granted), CapabilityView::Tool(asked)) <==> granted == asked,
        permits(CapabilityView::ProcSpawn, CapabilityView::ProcSpawn),
        permits(CapabilityView::PtyOpen, CapabilityView::PtyOpen),
{
}

/// A set permits what any of its grants permits and nothing else, in whatever
/// order the grants stand.
pub proof fn set_permits_what_a_grant_permits(
    grants: Seq<CapabilityView>,
    more: Seq<CapabilityView>,
    grant: CapabilityView,
    request: CapabilityView,
)
    ensures
        !any_permits(Seq::empty(), request),
        any_permits(seq![grant], request) <==> permits(grant, request),
        any_permits(grants + more, request) <==> any_permits(grants, request) || any_permits(
            more,
            request,
        ),
        any_permits(grants + more, request) == any_permits(more + grants, request),
{
    assert(any_permits(seq![grant], request) <==> permits(grant, request)) by {
        assert(seq![grant][0] == grant);
    }
    lemma_union_permits(grants, more, request);
    lemma_union_permits(more, grants, request);
}

proof fn lemma_union_permits(
    a: Seq<CapabilityView>,
    b: Seq<CapabilityView>,
    request: CapabilityView,
)
    ensures
        any_permits(a + b, request) <==> any_permits(a, request) || any_permits(b, request),
{
    if any_permits(a, request) {
        let i = choose|i: int| 0 <= i < a.len() && permits(#[trigger] a[i], request);
        assert((a + b)[i] == a[i]);
    }
    if any_permits(b, request) {
        let i = choose|i: int| 0 <= i < b.len() && permits(#[trigger] b[i], request);
        assert((a + b)[a.len() + i] == b[i]);
    }
    if any_permits(a + b, request) {
        let i = choose|i: int| 0 <= i < (a + b).len() && permits(#[trigger] (a + b)[i], request);
        if i < a.len() {
            assert(a[i] == (a + b)[i]);
        } else {
            assert(b[i - a.len()] == (a + b)[i]);
        }
    }
}

/// Whether the scope of a capability is one that a text can write: an absolute
/// path that does not climb, a bare domain, a tool with a name.
pub open spec fn has_valid_scope(cap: CapabilityView) -> bool {
    match cap {
        CapabilityView::FsRead(path) => is_absolute(path) && !path_parts(path).contains(".."@),
        CapabilityView::FsWrite(path) => is_absolute(path) && !path_parts(path).contains(".."@),
        CapabilityView::NetConnect(domain) => domain.len() > 0 && forall|i: int|
            0 <= i < domain.len() ==> {
                let c = #[trigger] domain[i];
                c != '/' && c != ':' && !is_white(c)
            },
        CapabilityView::Tool(name) => name.len() > 0,
        _ => true,
    }
}

/// A parsed capability always has a valid scope, and every capability with a
/// valid scope is what its verb, written out around that scope, parses to.
pub proof fn grants_parse_to_what_they_write(s: Seq<char>, scope: Seq<char>)
    ensures
        parsed(s) matches Ok(cap) ==> has_valid_scope(cap),
        parsed("fs.read("@ + scope + ")"@) is Ok <==> has_valid_scope(
            CapabilityView::FsRead(scope),
        ),
        parsed("fs.read("@ + scope + ")"@) matches Ok(cap) ==> cap == CapabilityView::FsRead(
            scope,
        ),
        parsed("fs.write("@ + scope + ")"@) is Ok <==> has_valid_scope(
            CapabilityView::FsWrite(scope),
        ),
        parsed("fs.write("@ + scope + ")"@) matches Ok(cap) ==> cap == CapabilityView::FsWrite(
            scope,
        ),
        parsed("net.connect("@ + scope + ")"@) is Ok <==> has_valid_scope(
            CapabilityView::NetConnect(scope),
        ),
        parsed("net.connect("@ + scope + ")"@) matches Ok(cap) ==> cap
            == CapabilityView::NetConnect(scope),
        parsed("tool:"@ + scope) is Ok <==> scope.len() > 0,
        parsed("tool:"@ + scope) matches Ok(cap) ==> cap == CapabilityView::Tool(scope),
        parsed("proc.spawn"@) == Ok::<CapabilityView, ErrorView>(CapabilityView::ProcSpawn),
        parsed("pty.open"@) == Ok::<CapabilityView, ErrorView>(CapabilityView::PtyOpen),
{
    lemma_valid_domain(scope);
    if let Ok(CapabilityView::NetConnect(domain)) = parsed(s) {
        lemma_valid_domain(domain);
    }
    lemma_verb_texts(scope);
    lemma_parenthesised(scope, "fs.read("@);
    lemma_parenthesised(scope, "fs.write("@);
    lemma_parenthesised(scope, "net.connect("@);
}

/// The text of a verb begins with the prefix of no other verb.
proof fn lemma_verb_texts(scope: Seq<char>)
    ensures
        !begins_with("fs.write("@ + scope + ")"@, "fs.read("@),
        !begins_with("net.connect("@ + scope + ")"@, "fs.read("@),
        !begins_with("net.connect("@ + scope + ")"@, "fs.write("@),
        !begins_with("tool:"@ + scope, "fs.read("@),
        !begins_with("tool:"@ + scope, "fs.write("@),
        !begins_with("tool:"@ + scope, "net.connect("@),
        begins_with("tool:"@ + scope, "tool:"@),
        ("tool:"@ + scope).skip("tool:"@.len() as int) == scope,
        "tool:"@ + scope != "proc.spawn"@,
        "tool:"@ + scope != "pty.open"@,
        !begins_with("proc.spawn"@, "fs.read("@),
        !begins_with("proc.spawn"@, "fs.write("@),
        !begins_with("proc.spawn"@, "net.connect("@),
        !begins_with("pty.open"@, "fs.read("@),
        !begins_with("pty.open"@, "fs.write("@),
        !begins_with("pty.open"@, "net.connect("@),
        "pty.open"@ != "proc.spawn"@,
{
    reveal_strlit("fs.read(");
    reveal_strlit("fs.write(");
    reveal_strlit("net.connect(");
    reveal_strlit("proc.spawn");
    reveal_strlit("pty.open");
    reveal_strlit("tool:");
    reveal_strlit(")");
    let w = "fs.write("@ + scope + ")"@;
    assert(w.take(8)[3] != "fs.read("@[3]);
    let n = "net.connect("@ + scope + ")"@;
    assert(n.take(8)[0] != "fs.read("@[0]);
    assert(n.take(9)[0] != "fs.write("@[0]);
    let t = "tool:"@ + scope;
    assert(t[0] == 't');
    if t.len() >= 8 {
        assert(t.take(8)[0] != "fs.read("@[0]);
    }
    if t.len() >= 9 {
        assert(t.take(9)[0] != "fs.write("@[0]);
    }
    if t.len() >= 12 {
        assert(t.take(12)[0] != "net.connect("@[0]);
    }
    assert(t.take(5) =~= "tool:"@);
    assert(t.skip(5) =~= scope);
    assert("proc.spawn"@[0] == 'p' && "pty.open"@[0] == 'p');
    assert("proc.spawn"@.take(8)[0] != "fs.read("@[0]);
    assert("proc.spawn"@.take(9)[0] != "fs.write("@[0]);
    assert("pty.open"@.take(8)[0] != "fs.read("@[0]);
    assert("pty.open"@[1] != "proc.spawn"@[1]);
}

proof fn lemma_valid_domain(domain: Seq<char>)
    ensures
        domain_fault(domain) is None <==> has_valid_scope(CapabilityView::NetConnect(domain)),
{
    reveal_strlit("://");
    if domain_fault(domain) is None {
        assert forall|i: int| 0 <= i < domain.len() implies {
            let c = #[trigger] domain[i];
            c != '/' && c != ':' && !is_white(c)
        } by {
            assert(domain.contains(domain[i]));
        }
    }
    if has_valid_scope(CapabilityView::NetConnect(domain)) {
        if holds_text(domain, "://"@) {
            let at = choose|at: int| stands_at(domain, "://"@, at);
            assert(domain.subrange(at, at + 3)[0] == domain[at]);
            assert(domain[at] == ':');
        }
    }
}

/// A word that begins with no verb is the name of a tool, as long as it has no
/// white space.
pub proof fn bare_words_name_tools(s: Seq<char>)
    requires
        s.len() > 0,
        !begins_with(s, "fs.read("@),
        !begins_with(s, "fs.write("@),
        !begins_with(s, "net.connect("@),
        !begins_with(s, "tool:"@),
        s != "proc.spawn"@,
        s != "pty.open"@,
    ensures
        parsed(s) is Ok <==> forall|i: int| 0 <= i < s.len() ==> !is_white(#[trigger] s[i]),
        parsed(s) matches Ok(cap) ==> cap == CapabilityView::Tool(s),
{
}

/// A malformed grant is reported with the very text that was given.
pub proof fn malformed_grants_are_quoted(s: Seq<char>)
    ensures
        parsed(s) matches Err(e) ==> e matches ErrorView::CapabilityParse { raw, reason } && raw
            == s,
{
}

/// A list of grants is parsed grant by grant: each at its own position, and the
/// failure is that of the first text that writes none.
pub proof fn grants_keep_their_order(wire: Seq<Seq<char>>)
    ensures
        all_parsed(wire) is Ok <==> forall|i: int|
            0 <= i < wire.len() ==> parsed(#[trigger] wire[i]) is Ok,
        all_parsed(wire) matches Ok(caps) ==> caps.len() == wire.len() && forall|i: int|
            0 <= i < wire.len() ==> parsed(#[trigger] wire[i]) == Ok::<CapabilityView, ErrorView>(
                caps[i],
            ),
        all_parsed(wire) matches Err(e) ==> exists|at: int|
            {
                &&& 0 <= at < wire.len()
                &&& parsed(#[trigger] wire[at]) == Err::<CapabilityView, ErrorView>(e)
                &&& forall|i: int| 0 <= i < at ==> parsed(#[trigger] wire[i]) is Ok
            },
    decreases wire.len(),
{
    if wire.len() > 0 {
        let head = wire.drop_last();
        grants_keep_their_order(head);
        assert forall|i: int| 0 <= i < head.len() implies #[trigger] head[i] == wire[i] by {}
        assert(wire[wire.len() - 1] == wire.last());
        if let Err(e) = all_parsed(head) {
            let at = choose|at: int|
                {
                    &&& 0 <= at < head.len()
                    &&& parsed(#[trigger] head[at]) == Err::<CapabilityView, ErrorView>(e)
                    &&& forall|i: int| 0 <= i < at ==> parsed(#[trigger] head[i]) is Ok
                };
            assert(parsed(wire[at]) is Err);
            assert forall|i: int| 0 <= i < at implies parsed(#[trigger] wire[i]) is Ok by {
                assert(head[i] == wire[i]);
            }
        } else {
            assert forall|i: int| 0 <= i < head.len() implies parsed(#[trigger] wire[i]) is Ok by {
                assert(head[i] == wire[i]);
            }
            if let Ok(caps) = all_parsed(wire) {
                let before = all_parsed(head)->Ok_0;
                assert forall|i: int| 0 <= i < wire.len() implies parsed(#[trigger] wire[i])
                    == Ok::<CapabilityView, ErrorView>(caps[i]) by {
                    if i < head.len() {
                        assert(head[i] == wire[i]);
                        assert(caps[i] == before[i]);
                    }
                }
            }
        }
    }
}

/// Being the same is an equivalence of capabilities.
pub proof fn sameness_is_an_equivalence(a: CapabilityView, b: CapabilityView, c: CapabilityView)
    ensures
        same_capability(a, a),
        same_capability(a, b) == same_capability(b, a),
        same_capability(a, b) && same_capability(b, c) ==> same_capability(a, c),
        same_capability(a, b) ==> permits(a, b) && permits(b, a),
{
    permits_is_reflexive(a);
    permits_is_reflexive(b);
    if same_capability(a, b) {
        same_capabilities_permit_alike(a, b, a);
        same_capabilities_permit_alike(a, b, b);
    }
}

/// A text writes a capability only in its own form: the verb around the scope, or
/// a bare word for a tool. So what begins with a verb is never taken for a tool.
pub proof fn grants_are_written_in_their_own_form(s: Seq<char>)
    ensures
        match parsed(s) {
            Ok(CapabilityView::FsRead(path)) => s == "fs.read("@ + path + ")"@,
            Ok(CapabilityView::FsWrite(path)) => s == "fs.write("@ + path + ")"@,
            Ok(CapabilityView::NetConnect(domain)) => s == "net.connect("@ + domain + ")"@,
            Ok(CapabilityView::ProcSpawn) => s == "proc.spawn"@,
            Ok(CapabilityView::PtyOpen) => s == "pty.open"@,
            Ok(CapabilityView::Tool(name)) => s == "tool:"@ + name || (s == name && !begins_with(
                s,
                "tool:"@,
            )),
            Err(_) => true,
        },
        begins_with(s, "fs.read("@) && parsed(s) is Ok ==> parsed(s)->Ok_0 is FsRead,
        begins_with(s, "fs.write("@) && parsed(s) is Ok ==> parsed(s)->Ok_0 is FsWrite,
        begins_with(s, "net.connect("@) && parsed(s) is Ok ==> parsed(s)->Ok_0 is NetConnect,
{
    reveal_strlit(")");
    reveal_strlit("fs.read(");
    reveal_strlit("fs.write(");
    reveal_strlit("net.connect(");
    reveal_strlit("tool:");
    if begins_with(s, "fs.read("@) {
        lemma_inner_closes(s, "fs.read("@);
    }
    if begins_with(s, "fs.write("@) {
        lemma_inner_closes(s, "fs.write("@);
        if begins_with(s, "fs.read("@) {
            assert(s.take(9)[3] == s.take(8)[3]);
        }
    }
    if begins_with(s, "net.connect("@) {
        lemma_inner_closes(s, "net.connect("@);
        if begins_with(s, "fs.read("@) {
            assert(s.take(12)[0] == s.take(8)[0]);
        }
        if begins_with(s, "fs.write("@) {
            assert(s.take(12)[0] == s.take(9)[0]);
        }
    }
    if begins_with(s, "tool:"@) {
        assert(s =~= "tool:"@ + s.skip(5)) by {
            assert(s.take(5) + s.skip(5) =~= s);
        }
    }
}

proof fn lemma_inner_closes(s: Seq<char>, prefix: Seq<char>)
    requires
        begins_with(s, prefix),
    ensures
        paren_inner(s, prefix) matches Some(inner) ==> s == prefix + inner + ")"@,
{
    reveal_strlit(")");
    if let Some(inner) = paren_inner(s, prefix) {
        let rest = s.skip(prefix.len() as int);
        assert(rest.skip(rest.len() - 1)[0] == ')');
        assert(s =~= prefix + inner + ")"@) by {
            assert(s.take(prefix.len() as int) + s.skip(prefix.len() as int) =~= s);
        }
    }
}

/// A capability is seen as what it is, with its path, its domain or its name.
pub proof fn capabilities_are_seen_as_they_are(cap: RuntimeCapability)
    ensures
        cap is FsRead <==> cap@ is FsRead,
        cap is FsWrite <==> cap@ is FsWrite,
        cap is NetConnect <==> cap@ is NetConnect,
        cap is ProcSpawn <==> cap@ is ProcSpawn,
        cap is PtyOpen <==> cap@ is PtyOpen,
        cap is Tool <==> cap@ is Tool,
        cap matches RuntimeCapability::FsRead(path) ==> cap@ == CapabilityView::FsRead(path@),
        cap matches RuntimeCapability::FsWrite(path) ==> cap@ == CapabilityView::FsWrite(path@),
        cap matches RuntimeCapability::NetConnect(domain) ==> cap@ == CapabilityView::NetConnect(
            domain@,
        ),
        cap matches RuntimeCapability::Tool(name) ==> cap@ == CapabilityView::Tool(name@),
{
}

} // verus!
