//! Compact MCP-side inputs for per-session tool-search feedback diagnostics.
//!
//! These records deliberately carry identities only. Schemas, descriptions,
//! metadata, auth state, and searchable text never enter this path.

use vstd::prelude::*;
use vstd::utf8::*;
use crate::digest;
use crate::order::{self, Ranked};
use crate::text;
use crate::tool_info::{ToolInfo, ToolInfoModel, ToolWithConnectorId, RawToolModel};

verus! {

pub const MAX_MCP_DIAGNOSTIC_IDENTITIES: usize = 256;

pub const MAX_IDENTITY_CHARS: usize = 160;

pub const MAX_PLUGIN_NAMES: usize = 4;

#[derive(Debug, PartialEq, Eq)]
pub struct ToolSearchDiagnosticIdentity {
    pub server_name: String,
    pub raw_tool_name: String,
    pub callable_namespace: Option<String>,
    pub callable_name: Option<String>,
    pub connector_id: Option<String>,
    pub connector_name: Option<String>,
    pub plugin_display_names: Vec<String>,
}

pub struct IdentityModel {
    pub server_name: Seq<char>,
    pub raw_tool_name: Seq<char>,
    pub callable_namespace: Option<Seq<char>>,
    pub callable_name: Option<Seq<char>>,
    pub connector_id: Option<Seq<char>>,
    pub connector_name: Option<Seq<char>>,
    pub plugin_display_names: Seq<Seq<char>>,
}

impl DeepView for ToolSearchDiagnosticIdentity {
    type V = IdentityModel;

    open spec fn deep_view(&self) -> IdentityModel {
        IdentityModel {
            server_name: self.server_name@,
            raw_tool_name: self.raw_tool_name@,
            callable_namespace: self.callable_namespace.deep_view(),
            callable_name: self.callable_name.deep_view(),
            connector_id: self.connector_id.deep_view(),
            connector_name: self.connector_name.deep_view(),
            plugin_display_names: self.plugin_display_names.deep_view(),
        }
    }
}

impl Clone for ToolSearchDiagnosticIdentity {
    fn clone(&self) -> (copy: Self)
        ensures
            copy.deep_view() == self.deep_view(),
    {
        let copy = ToolSearchDiagnosticIdentity {
            server_name: self.server_name.clone(),
            raw_tool_name: self.raw_tool_name.clone(),
            callable_namespace: self.callable_namespace.clone(),
            callable_name: self.callable_name.clone(),
            connector_id: self.connector_id.clone(),
            connector_name: self.connector_name.clone(),
            plugin_display_names: self.plugin_display_names.clone(),
        };
        assert(copy.plugin_display_names.deep_view() =~= self.plugin_display_names.deep_view());
        copy
    }
}

/// A name as a diagnostic record holds it.
pub open spec fn short(name: Seq<char>) -> Seq<char> {
    text::bounded_text(name, MAX_IDENTITY_CHARS as nat)
}

/// An optional name as a diagnostic record holds it.
pub open spec fn short_option(name: Option<Seq<char>>) -> Option<Seq<char>> {
    match name {
        Some(name) => Some(short(name)),
        None => None,
    }
}

/// The first few plugin names, as a diagnostic record holds them.
pub open spec fn short_names(names: Seq<Seq<char>>) -> Seq<Seq<char>> {
    let kept = if names.len() < MAX_PLUGIN_NAMES {
        names.len()
    } else {
        MAX_PLUGIN_NAMES as nat
    };
    Seq::new(kept, |i: int| short(names[i]))
}

/// The identity of a raw tool of the server `server_name`.
pub open spec fn raw_tool_identity(server_name: Seq<char>, tool: RawToolModel) -> IdentityModel {
    IdentityModel {
        server_name: short(server_name),
        raw_tool_name: short(tool.tool.name),
        callable_namespace: None,
        callable_name: None,
        connector_id: short_option(tool.connector_id),
        connector_name: short_option(tool.connector_name),
        plugin_display_names: Seq::empty(),
    }
}

/// The identity of a tool of the inventory.
pub open spec fn tool_identity(tool: ToolInfoModel) -> IdentityModel {
    IdentityModel {
        server_name: short(tool.server_name),
        raw_tool_name: short(tool.tool.name),
        callable_namespace: Some(short(tool.callable_namespace)),
        callable_name: Some(short(tool.callable_name)),
        connector_id: short_option(tool.connector_id),
        connector_name: short_option(tool.connector_name),
        plugin_display_names: short_names(tool.plugin_display_names),
    }
}

/// `value` cut down to the length that an identity may have.
pub fn bounded(value: String) -> (result: String)
    ensures
        result@ == short(value@),
{
    text::bounded_to(value.as_str(), MAX_IDENTITY_CHARS)
}

/// The optional `value` cut down to the length that an identity may have.
pub fn bounded_option(value: &Option<String>) -> (result: Option<String>)
    ensures
        result.deep_view() == short_option(value.deep_view()),
{
    match value {
        Some(value) => Some(text::bounded_to(value.as_str(), MAX_IDENTITY_CHARS)),
        None => None,
    }
}

/// The first few of `names`, each cut down to the length that an identity may
/// have.
pub fn bounded_names(names: &Vec<String>) -> (result: Vec<String>)
    ensures
        result.deep_view() == short_names(names.deep_view()),
{
    let mut result: Vec<String> = Vec::new();
    let mut i: usize = 0;
    while i < names.len() && i < MAX_PLUGIN_NAMES
        invariant
            i <= names@.len(),
            i <= MAX_PLUGIN_NAMES,
            result@.len() == i,
            forall|j: int| 0 <= j < i ==> (#[trigger] result@[j])@ == short(names@[j]@),
        decreases names@.len() - i,
    {
        result.push(text::bounded_to(names[i].as_str(), MAX_IDENTITY_CHARS));
        i += 1;
    }
    assert(result.deep_view() =~= short_names(names.deep_view()));
    result
}

impl ToolSearchDiagnosticIdentity {
    pub fn from_raw_tool(server_name: &str, tool: &ToolWithConnectorId) -> (identity: Self)
        ensures
            identity.deep_view() == raw_tool_identity(server_name@, tool.deep_view()),
    {
        let identity = ToolSearchDiagnosticIdentity {
            server_name: bounded(server_name.to_string()),
            raw_tool_name: bounded(tool.tool.name.clone()),
            callable_namespace: None,
            callable_name: None,
            connector_id: bounded_option(&tool.connector_id),
            connector_name: bounded_option(&tool.connector_name),
            plugin_display_names: Vec::new(),
        };
        assert(identity.plugin_display_names.deep_view() =~= Seq::<Seq<char>>::empty());
        identity
    }

    pub fn from_tool_info(tool: &ToolInfo) -> (identity: Self)
        ensures
            identity.deep_view() == tool_identity(tool.deep_view()),
    {
        ToolSearchDiagnosticIdentity {
            server_name: bounded(tool.server_name.clone()),
            raw_tool_name: bounded(tool.tool.name.clone()),
            callable_namespace: Some(bounded(tool.callable_namespace.clone())),
            callable_name: Some(bounded(tool.callable_name.clone())),
            connector_id: bounded_option(&tool.connector_id),
            connector_name: bounded_option(&tool.connector_name),
            plugin_display_names: bounded_names(&tool.plugin_display_names),
        }
    }
}

/// The fields of an identity in the order in which identities compare.
pub open spec fn identity_rank(identity: IdentityModel) -> Seq<Seq<u8>> {
    seq![
        encode_utf8(identity.server_name),
        encode_utf8(identity.raw_tool_name),
        order::optional_rank(identity.callable_namespace),
        order::optional_rank(identity.callable_name),
        order::optional_rank(identity.connector_id),
        order::optional_rank(identity.connector_name),
    ] + order::names_rank(identity.plugin_display_names)
}

proof fn lemma_identity_rank(a: IdentityModel, b: IdentityModel)
    requires
        identity_rank(a) == identity_rank(b),
    ensures
        a == b,
{
    let x = identity_rank(a);
    let y = identity_rank(b);
    assert(x[0] == y[0] && x[1] == y[1] && x[2] == y[2] && x[3] == y[3] && x[4] == y[4] && x[5]
        == y[5]);
    order::text_bytes_tell_apart(a.server_name, b.server_name);
    order::text_bytes_tell_apart(a.raw_tool_name, b.raw_tool_name);
    order::optional_ranks_tell_apart(a.callable_namespace, b.callable_namespace);
    order::optional_ranks_tell_apart(a.callable_name, b.callable_name);
    order::optional_ranks_tell_apart(a.connector_id, b.connector_id);
    order::optional_ranks_tell_apart(a.connector_name, b.connector_name);
    assert(order::names_rank(a.plugin_display_names) =~= x.skip(6));
    assert(order::names_rank(b.plugin_display_names) =~= y.skip(6));
    order::names_ranks_tell_apart(a.plugin_display_names, b.plugin_display_names);
}

impl Ranked for ToolSearchDiagnosticIdentity {
    open spec fn rank(model: IdentityModel) -> Seq<Seq<u8>> {
        identity_rank(model)
    }

    proof fn rank_tells_apart(a: IdentityModel, b: IdentityModel) {
        lemma_identity_rank(a, b);
    }

    fn rank_key(&self) -> (key: Vec<Vec<u8>>) {
        let mut key: Vec<Vec<u8>> = Vec::new();
        key.push(order::text_key(self.server_name.as_str()));
        key.push(order::text_key(self.raw_tool_name.as_str()));
        key.push(order::optional_key(&self.callable_namespace));
        key.push(order::optional_key(&self.callable_name));
        key.push(order::optional_key(&self.connector_id));
        key.push(order::optional_key(&self.connector_name));
        let mut names = order::names_key(&self.plugin_display_names);
        let ghost fixed = key@;
        let ghost listed = names@;
        key.append(&mut names);
        proof {
            let rank = identity_rank(self.deep_view());
            let seen = key.deep_view();
            assert(seen.len() == rank.len());
            assert forall|i: int| 0 <= i < seen.len() implies seen[i] == rank[i] by {
                assert(seen[i] =~= key@[i]@);
                if i >= 6 {
                    assert(key@[i] == listed[i - 6]);
                } else {
                    assert(key@[i] == fixed[i]);
                }
            }
            assert(seen =~= rank);
        }
        key
    }
}

/// Where the observed tools of a server came from.
#[derive(Clone, Copy, Debug, PartialEq, Eq, Structural)]
pub enum ToolSearchToolsListSource {
    LiveResponse,
    CachedToolsWithoutLiveResponse,
    NotObserved,
}

impl DeepView for ToolSearchToolsListSource {
    type V = ToolSearchToolsListSource;

    open spec fn deep_view(&self) -> ToolSearchToolsListSource {
        *self
    }
}

#[derive(Debug, PartialEq, Eq)]
pub struct ToolSearchToolsListResponseSnapshot {
    pub server_name: String,
    pub source: ToolSearchToolsListSource,
    pub total_count: usize,
    pub fingerprint: String,
    pub identities: Vec<ToolSearchDiagnosticIdentity>,
    pub identities_truncated: bool,
}

pub struct ResponseModel {
    pub server_name: Seq<char>,
    pub source: ToolSearchToolsListSource,
    pub total_count: usize,
    pub fingerprint: Seq<char>,
    pub identities: Seq<IdentityModel>,
    pub identities_truncated: bool,
}

impl DeepView for ToolSearchToolsListResponseSnapshot {
    type V = ResponseModel;

    open spec fn deep_view(&self) -> ResponseModel {
        ResponseModel {
            server_name: self.server_name@,
            source: self.source,
            total_count: self.total_count,
            fingerprint: self.fingerprint@,
            identities: self.identities.deep_view(),
            identities_truncated: self.identities_truncated,
        }
    }
}

/// The bytes by which one identity enters the fingerprint.
pub open spec fn identity_bytes(identity: IdentityModel) -> Seq<u8> {
    encode_utf8(identity.server_name).push(0) + encode_utf8(identity.raw_tool_name).push(0)
        + encode_utf8(identity.connector_id.unwrap_or(Seq::empty())).push(0)
}

/// The bytes that the fingerprint of `identities` covers.
pub open spec fn fingerprint_bytes(identities: Seq<IdentityModel>) -> Seq<u8>
    decreases identities.len(),
{
    if identities.len() == 0 {
        Seq::empty()
    } else {
        fingerprint_bytes(identities.drop_last()) + identity_bytes(identities.last())
    }
}

/// The fingerprint of `identities`, in the order given.
pub fn fingerprint(identities: &Vec<ToolSearchDiagnosticIdentity>) -> (result: String)
    ensures
        result@ == digest::fingerprint_text(fingerprint_bytes(identities.deep_view())),
{
    let mut data: Vec<u8> = Vec::new();
    let mut i: usize = 0;
    let ghost models = identities.deep_view();
    while i < identities.len()
        invariant
            i <= identities@.len(),
            models == identities.deep_view(),
            data@ == fingerprint_bytes(models.take(i as int)),
        decreases identities@.len() - i,
    {
        let identity = &identities[i];
        let mut server = order::text_key(identity.server_name.as_str());
        let mut tool = order::text_key(identity.raw_tool_name.as_str());
        let mut connector = match &identity.connector_id {
            Some(id) => order::text_key(id.as_str()),
            None => Vec::new(),
        };
        let ghost before = data@;
        data.append(&mut server);
        data.push(0);
        data.append(&mut tool);
        data.push(0);
        data.append(&mut connector);
        data.push(0);
        proof {
            let model = models[i as int];
            assert(encode_utf8(Seq::<char>::empty()) =~= Seq::<u8>::empty());
            assert(data@ =~= before + identity_bytes(model));
            assert(models.take(i + 1).drop_last() =~= models.take(i as int));
        }
        i += 1;
    }
    assert(models.take(models.len() as int) =~= models);
    digest::fingerprint_of(&data)
}

/// The snapshot of a response that held `identities`, in any order and with
/// any repetitions.
pub open spec fn response_snapshot(
    server_name: Seq<char>,
    source: ToolSearchToolsListSource,
    identities: Seq<IdentityModel>,
) -> ResponseModel {
    let listed = order::sorted_distinct::<ToolSearchDiagnosticIdentity>(identities);
    ResponseModel {
        server_name: short(server_name),
        source,
        total_count: listed.len() as usize,
        fingerprint: digest::fingerprint_text(fingerprint_bytes(listed)),
        identities: if listed.len() > MAX_MCP_DIAGNOSTIC_IDENTITIES {
            listed.take(MAX_MCP_DIAGNOSTIC_IDENTITIES as int)
        } else {
            listed
        },
        identities_truncated: listed.len() > MAX_MCP_DIAGNOSTIC_IDENTITIES,
    }
}

impl ToolSearchToolsListResponseSnapshot {
    pub fn from_live_response(server_name: &str, tools: &Vec<ToolWithConnectorId>) -> (snapshot:
        Self)
        ensures
            snapshot.deep_view() == response_snapshot(
                server_name@,
                ToolSearchToolsListSource::LiveResponse,
                tools.deep_view().map_values(
                    |tool: RawToolModel| raw_tool_identity(server_name@, tool),
                ),
            ),
    {
        let mut identities: Vec<ToolSearchDiagnosticIdentity> = Vec::new();
        let mut i: usize = 0;
        while i < tools.len()
            invariant
                i <= tools@.len(),
                identities@.len() == i,
                forall|j: int|
                    0 <= j < i ==> (#[trigger] identities@[j]).deep_view() == raw_tool_identity(
                        server_name@,
                        tools@[j].deep_view(),
                    ),
            decreases tools@.len() - i,
        {
            identities.push(ToolSearchDiagnosticIdentity::from_raw_tool(server_name, &tools[i]));
            i += 1;
        }
        assert(identities.deep_view() =~= tools.deep_view().map_values(
            |tool: RawToolModel| raw_tool_identity(server_name@, tool),
        ));
        Self::new(server_name, ToolSearchToolsListSource::LiveResponse, identities)
    }

    pub fn from_cached_tools(server_name: &str, tools: &Vec<ToolInfo>) -> (snapshot: Self)
        ensures
            snapshot.deep_view() == response_snapshot(
                server_name@,
                ToolSearchToolsListSource::CachedToolsWithoutLiveResponse,
                tools.deep_view().map_values(|tool: ToolInfoModel| tool_identity(tool)),
            ),
    {
        let mut identities: Vec<ToolSearchDiagnosticIdentity> = Vec::new();
        let mut i: usize = 0;
        while i < tools.len()
            invariant
                i <= tools@.len(),
                identities@.len() == i,
                forall|j: int|
                    0 <= j < i ==> (#[trigger] identities@[j]).deep_view() == tool_identity(
                        tools@[j].deep_view(),
                    ),
            decreases tools@.len() - i,
        {
            identities.push(ToolSearchDiagnosticIdentity::from_tool_info(&tools[i]));
            i += 1;
        }
        assert(identities.deep_view() =~= tools.deep_view().map_values(
            |tool: ToolInfoModel| tool_identity(tool),
        ));
        Self::new(
            server_name,
            ToolSearchToolsListSource::CachedToolsWithoutLiveResponse,
            identities,
        )
    }

    pub fn not_observed(server_name: &str) -> (snapshot: Self)
        ensures
            snapshot.deep_view() == response_snapshot(
                server_name@,
                ToolSearchToolsListSource::NotObserved,
                Seq::empty(),
            ),
    {
        let identities: Vec<ToolSearchDiagnosticIdentity> = Vec::new();
        assert(identities.deep_view() =~= Seq::<IdentityModel>::empty());
        Self::new(server_name, ToolSearchToolsListSource::NotObserved, identities)
    }

    pub fn new(
        server_name: &str,
        source: ToolSearchToolsListSource,
        identities: Vec<ToolSearchDiagnosticIdentity>,
    ) -> (snapshot: Self)
        ensures
            snapshot.deep_view() == response_snapshot(
                server_name@,
                source,
                identities.deep_view(),
            ),
    {
        let mut listed = order::sort_distinct(identities);
        let total_count = listed.len();
        let stamp = fingerprint(&listed);
        let identities_truncated = listed.len() > MAX_MCP_DIAGNOSTIC_IDENTITIES;
        let ghost all = listed.deep_view();
        listed.truncate(MAX_MCP_DIAGNOSTIC_IDENTITIES);
        assert(listed.deep_view() =~= if all.len() > MAX_MCP_DIAGNOSTIC_IDENTITIES {
            all.take(MAX_MCP_DIAGNOSTIC_IDENTITIES as int)
        } else {
            all
        });
        ToolSearchToolsListResponseSnapshot {
            server_name: bounded(server_name.to_string()),
            source,
            total_count,
            fingerprint: stamp,
            identities: listed,
            identities_truncated,
        }
    }
}

/// What the MCP side contributes to the diagnostics of one session.
#[derive(Debug, PartialEq, Eq)]
pub struct ToolSearchMcpDiagnosticsSnapshot {
    pub tools_list_responses: Vec<ToolSearchToolsListResponseSnapshot>,
    pub server_count: usize,
    pub cached_server_count: usize,
    pub startup_complete_server_count: usize,
}

pub struct McpDiagnosticsModel {
    pub tools_list_responses: Seq<ResponseModel>,
    pub server_count: usize,
    pub cached_server_count: usize,
    pub startup_complete_server_count: usize,
}

impl DeepView for ToolSearchMcpDiagnosticsSnapshot {
    type V = McpDiagnosticsModel;

    open spec fn deep_view(&self) -> McpDiagnosticsModel {
        McpDiagnosticsModel {
            tools_list_responses: self.tools_list_responses.deep_view(),
            server_count: self.server_count,
            cached_server_count: self.cached_server_count,
            startup_complete_server_count: self.startup_complete_server_count,
        }
    }
}

impl Default for ToolSearchMcpDiagnosticsSnapshot {
    fn default() -> (snapshot: Self)
        ensures
            snapshot.deep_view() == (McpDiagnosticsModel {
                tools_list_responses: Seq::empty(),
                server_count: 0,
                cached_server_count: 0,
                startup_complete_server_count: 0,
            }),
    {
        let tools_list_responses: Vec<ToolSearchToolsListResponseSnapshot> = Vec::new();
        assert(tools_list_responses.deep_view() =~= Seq::<ResponseModel>::empty());
        ToolSearchMcpDiagnosticsSnapshot {
            tools_list_responses,
            server_count: 0,
            cached_server_count: 0,
            startup_complete_server_count: 0,
        }
    }
}

}
