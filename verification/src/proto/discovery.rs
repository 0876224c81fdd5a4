//! `axp.index` and `axp.describe` request and response types.

use vstd::prelude::*;

use crate::proto::ids::SessionId;

verus! {

/// One entry in the breadth catalog returned by `axp.index`.
#[derive(Debug, PartialEq, Eq)]
pub struct IndexEntry {
    /// The capability name.
    pub name: String,
    /// A one-line human-readable description.
    pub desc: String,
}

impl Clone for IndexEntry {
    fn clone(&self) -> (r: Self)
        ensures
            r == *self,
    {
        IndexEntry { name: self.name.clone(), desc: self.desc.clone() }
    }
}

/// A catalog entry, with its texts as sequences.
#[verifier::ext_equal]
pub struct IndexEntryView {
    pub name: Seq<char>,
    pub desc: Seq<char>,
}

impl View for IndexEntry {
    type V = IndexEntryView;

    open spec fn view(&self) -> IndexEntryView {
        IndexEntryView { name: self.name@, desc: self.desc@ }
    }
}

/// Full detail for one capability, returned by `axp.describe`.
#[derive(Debug, Clone, PartialEq)]
pub struct CapabilityDetail {
    /// Signature string, for example `git_diff(): string`.
    pub signature: String,
    /// JSON Schema for the capability's parameters, carried verbatim.
    pub schema: serde_json::Value,
}

/// Full detail for one capability, with its signature as a sequence.
#[verifier::ext_equal]
pub struct CapabilityDetailView {
    pub signature: Seq<char>,
    pub schema: serde_json::Value,
}

impl View for CapabilityDetail {
    type V = CapabilityDetailView;

    open spec fn view(&self) -> CapabilityDetailView {
        CapabilityDetailView { signature: self.signature@, schema: self.schema }
    }
}

/// `axp.index` request.
#[derive(Debug, Clone, PartialEq, Eq)]
pub struct IndexRequest {
    /// The session to query capabilities for.
    pub session_id: SessionId,
    /// Opaque capability token proving authority over the session.
    pub cap_token: String,
}

/// `axp.index` response.
#[derive(Debug, Clone, PartialEq, Eq)]
pub struct IndexResponse {
    /// All available capabilities in the session's catalog.
    pub entries: Vec<IndexEntry>,
}

/// `axp.describe` request.
#[derive(Debug, Clone, PartialEq, Eq)]
pub struct DescribeRequest {
    /// The session whose catalog to query.
    pub session_id: SessionId,
    /// Opaque capability token proving authority over the session.
    pub cap_token: String,
    /// The name of the capability to describe.
    pub name: String,
}

/// `axp.describe` response: the capability detail itself.
pub type DescribeResponse = CapabilityDetail;

} // verus!
