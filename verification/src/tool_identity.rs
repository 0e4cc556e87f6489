//! Compact tool identities, as the tool-search diagnostics keep them.

use vstd::prelude::*;
use vstd::string::*;
use vstd::utf8::*;
use crate::decimal;
use crate::mcp_diagnostics::{
    self, IdentityModel, ToolSearchDiagnosticIdentity, MAX_IDENTITY_CHARS,
};
use crate::order::{self, Ranked};
use crate::text;
use crate::tool_info::ToolInfo;

verus! {

/// The identity of a tool as the diagnostics keep it.
#[derive(Debug, PartialEq, Eq)]
pub struct DiagnosticToolIdentity {
    pub server_name: String,
    pub raw_tool_name: String,
    pub tool_name: Option<String>,
    pub connector_id: Option<String>,
    pub connector_name: Option<String>,
    pub plugin_display_names: Vec<String>,
}

pub struct DiagnosticModel {
    pub server_name: Seq<char>,
    pub raw_tool_name: Seq<char>,
    pub tool_name: Option<Seq<char>>,
    pub connector_id: Option<Seq<char>>,
    pub connector_name: Option<Seq<char>>,
    pub plugin_display_names: Seq<Seq<char>>,
}

impl DeepView for DiagnosticToolIdentity {
    type V = DiagnosticModel;

    open spec fn deep_view(&self) -> DiagnosticModel {
        DiagnosticModel {
            server_name: self.server_name@,
            raw_tool_name: self.raw_tool_name@,
            tool_name: self.tool_name.deep_view(),
            connector_id: self.connector_id.deep_view(),
            connector_name: self.connector_name.deep_view(),
            plugin_display_names: self.plugin_display_names.deep_view(),
        }
    }
}

impl Clone for DiagnosticToolIdentity {
    fn clone(&self) -> (copy: Self)
        ensures
            copy.deep_view() == self.deep_view(),
    {
        let copy = DiagnosticToolIdentity {
            server_name: self.server_name.clone(),
            raw_tool_name: self.raw_tool_name.clone(),
            tool_name: self.tool_name.clone(),
            connector_id: self.connector_id.clone(),
            connector_name: self.connector_name.clone(),
            plugin_display_names: self.plugin_display_names.clone(),
        };
        assert(copy.plugin_display_names.deep_view() =~= self.plugin_display_names.deep_view());
        copy
    }
}

/// The fields of an identity in the order in which identities compare.
pub open spec fn diagnostic_rank(identity: DiagnosticModel) -> Seq<Seq<u8>> {
    seq![
        encode_utf8(identity.server_name),
        encode_utf8(identity.raw_tool_name),
        order::optional_rank(identity.tool_name),
        order::optional_rank(identity.connector_id),
        order::optional_rank(identity.connector_name),
    ] + order::names_rank(identity.plugin_display_names)
}

proof fn lemma_diagnostic_rank(a: DiagnosticModel, b: DiagnosticModel)
    requires
        diagnostic_rank(a) == diagnostic_rank(b),
    ensures
        a == b,
{
    let x = diagnostic_rank(a);
    let y = diagnostic_rank(b);
    assert(x[0] == y[0] && x[1] == y[1] && x[2] == y[2] && x[3] == y[3] && x[4] == y[4]);
    order::text_bytes_tell_apart(a.server_name, b.server_name);
    order::text_bytes_tell_apart(a.raw_tool_name, b.raw_tool_name);
    order::optional_ranks_tell_apart(a.tool_name, b.tool_name);
    order::optional_ranks_tell_apart(a.connector_id, b.connector_id);
    order::optional_ranks_tell_apart(a.connector_name, b.connector_name);
    assert(order::names_rank(a.plugin_display_names) =~= x.skip(5));
    assert(order::names_rank(b.plugin_display_names) =~= y.skip(5));
    order::names_ranks_tell_apart(a.plugin_display_names, b.plugin_display_names);
}

impl Ranked for DiagnosticToolIdentity {
    open spec fn rank(model: DiagnosticModel) -> Seq<Seq<u8>> {
        diagnostic_rank(model)
    }

    proof fn rank_tells_apart(a: DiagnosticModel, b: DiagnosticModel) {
        lemma_diagnostic_rank(a, b);
    }

    fn rank_key(&self) -> (key: Vec<Vec<u8>>) {
        let mut key: Vec<Vec<u8>> = Vec::new();
        key.push(order::text_key(self.server_name.as_str()));
        key.push(order::text_key(self.raw_tool_name.as_str()));
        key.push(order::optional_key(&self.tool_name));
        key.push(order::optional_key(&self.connector_id));
        key.push(order::optional_key(&self.connector_name));
        let mut names = order::names_key(&self.plugin_display_names);
        let ghost fixed = key@;
        let ghost listed = names@;
        key.append(&mut names);
        proof {
            let rank = diagnostic_rank(self.deep_view());
            let seen = key.deep_view();
            assert(seen.len() == rank.len());
            assert forall|i: int| 0 <= i < seen.len() implies seen[i] == rank[i] by {
                assert(seen[i] =~= key@[i]@);
                if i >= 5 {
                    assert(key@[i] == listed[i - 5]);
                } else {
                    assert(key@[i] == fixed[i]);
                }
            }
            assert(seen =~= rank);
        }
        key
    }
}

/// The name by which the model calls a tool: namespace and name, joined by a
/// dot where both are known.
pub open spec fn joined_name(namespace: Option<Seq<char>>, name: Option<Seq<char>>) -> Option<
    Seq<char>,
> {
    match (namespace, name) {
        (Some(namespace), Some(name)) => Some(namespace + seq!['.'] + name),
        (None, None) => None,
        (Some(namespace), None) => Some(namespace),
        (None, Some(name)) => Some(name),
    }
}

/// The identity that the diagnostics keep of an MCP-side identity.
pub open spec fn diagnostic_identity(identity: IdentityModel) -> DiagnosticModel {
    DiagnosticModel {
        server_name: mcp_diagnostics::short(identity.server_name),
        raw_tool_name: mcp_diagnostics::short(identity.raw_tool_name),
        tool_name: mcp_diagnostics::short_option(
            joined_name(identity.callable_namespace, identity.callable_name),
        ),
        connector_id: mcp_diagnostics::short_option(identity.connector_id),
        connector_name: mcp_diagnostics::short_option(identity.connector_name),
        plugin_display_names: mcp_diagnostics::short_names(identity.plugin_display_names),
    }
}

/// A function of a namespace, or something else that a namespace holds.
#[derive(Debug, PartialEq, Eq)]
pub enum ResponsesApiNamespaceTool {
    Function { name: String },
    Other,
}

pub enum NamespaceToolModel {
    Function { name: Seq<char> },
    Other,
}

impl DeepView for ResponsesApiNamespaceTool {
    type V = NamespaceToolModel;

    open spec fn deep_view(&self) -> NamespaceToolModel {
        match self {
            ResponsesApiNamespaceTool::Function { name } => NamespaceToolModel::Function {
                name: name@,
            },
            ResponsesApiNamespaceTool::Other => NamespaceToolModel::Other,
        }
    }
}

/// What a search entry loads when it is picked.
#[derive(Debug, PartialEq, Eq)]
pub enum LoadableToolSpec {
    Function { name: String },
    Namespace { name: String, tools: Vec<ResponsesApiNamespaceTool> },
}

pub enum LoadableModel {
    Function { name: Seq<char> },
    Namespace { name: Seq<char>, tools: Seq<NamespaceToolModel> },
}

impl DeepView for LoadableToolSpec {
    type V = LoadableModel;

    open spec fn deep_view(&self) -> LoadableModel {
        match self {
            LoadableToolSpec::Function { name } => LoadableModel::Function { name: name@ },
            LoadableToolSpec::Namespace { name, tools } => LoadableModel::Namespace {
                name: name@,
                tools: tools.deep_view(),
            },
        }
    }
}

/// A searchable entry: what it loads, and the name of the source it is from.
#[derive(Debug, PartialEq, Eq)]
pub struct ToolSearchInfo {
    pub output: LoadableToolSpec,
    pub source_name: Option<String>,
}

pub struct SearchInfoModel {
    pub output: LoadableModel,
    pub source_name: Option<Seq<char>>,
}

impl DeepView for ToolSearchInfo {
    type V = SearchInfoModel;

    open spec fn deep_view(&self) -> SearchInfoModel {
        SearchInfoModel {
            output: self.output.deep_view(),
            source_name: self.source_name.deep_view(),
        }
    }
}

/// The name under which a search entry is recorded: a function's own name, a
/// namespace with its only function, or a namespace with the number of its
/// tools. A namespace that does not start with a function goes by its name.
pub open spec fn output_identity(output: LoadableModel) -> Seq<char> {
    match output {
        LoadableModel::Function { name } => name,
        LoadableModel::Namespace { name, tools } => {
            if tools.len() == 0 || !(tools[0] is Function) {
                name
            } else if tools.len() == 1 {
                name + seq!['.'] + tools[0]->Function_name
            } else {
                name + " (+"@ + decimal::numeral(tools.len()) + " tools)"@
            }
        },
    }
}

/// The identity that the diagnostics keep of a search entry.
pub open spec fn search_info_identity(info: SearchInfoModel) -> DiagnosticModel {
    DiagnosticModel {
        server_name: Seq::empty(),
        raw_tool_name: Seq::empty(),
        tool_name: Some(mcp_diagnostics::short(output_identity(info.output))),
        connector_id: None,
        connector_name: mcp_diagnostics::short_option(info.source_name),
        plugin_display_names: Seq::empty(),
    }
}

/// `value` cut down to `max_chars` characters.
pub fn bounded(value: String, max_chars: usize) -> (result: String)
    ensures
        result@ == text::bounded_text(value@, max_chars as nat),
{
    text::bounded_to(value.as_str(), max_chars)
}

/// The name under which `search_info` is recorded.
pub fn search_info_output_identity(search_info: &ToolSearchInfo) -> (result: String)
    ensures
        result@ == output_identity(search_info.output.deep_view()),
{
    match &search_info.output {
        LoadableToolSpec::Function { name } => name.clone(),
        LoadableToolSpec::Namespace { name, tools } => {
            let ghost models = tools.deep_view();
            if tools.len() == 0 {
                return name.clone();
            }
            assert(models[0] == tools@[0].deep_view());
            match &tools[0] {
                ResponsesApiNamespaceTool::Other => name.clone(),
                ResponsesApiNamespaceTool::Function { name: only } => {
                    let mut result = name.clone();
                    if tools.len() == 1 {
                        result.push('.');
                        result.append(only.as_str());
                        assert(result@ =~= name@ + seq!['.'] + only@);
                    } else {
                        result.append(" (+");
                        result.append(decimal::to_numeral(tools.len()).as_str());
                        result.append(" tools)");
                    }
                    result
                },
            }
        },
    }
}

/// The text by which an identity is recognised: server, raw tool name, tool
/// name and connector, separated by bars.
pub open spec fn identity_key(identity: DiagnosticModel) -> Seq<char> {
    identity.server_name + seq!['|'] + identity.raw_tool_name + seq!['|']
        + identity.tool_name.unwrap_or(Seq::empty()) + seq!['|'] + identity.connector_id.unwrap_or(
        Seq::empty(),
    )
}

impl DiagnosticToolIdentity {
    pub fn from_tool_info(tool: &ToolInfo) -> (identity: Self)
        ensures
            identity.deep_view() == diagnostic_identity(
                mcp_diagnostics::tool_identity(tool.deep_view()),
            ),
    {
        Self::from_mcp_identity(ToolSearchDiagnosticIdentity::from_tool_info(tool))
    }

    pub fn from_mcp_identity(identity: ToolSearchDiagnosticIdentity) -> (result: Self)
        ensures
            result.deep_view() == diagnostic_identity(identity.deep_view()),
    {
        let tool_name: Option<String> = match (
            &identity.callable_namespace,
            &identity.callable_name,
        ) {
            (Some(namespace), Some(name)) => {
                let mut joined = namespace.clone();
                joined.push('.');
                joined.append(name.as_str());
                assert(joined@ =~= namespace@ + seq!['.'] + name@);
                Some(joined)
            },
            (None, None) => None,
            (Some(namespace), None) => Some(namespace.clone()),
            (None, Some(name)) => Some(name.clone()),
        };
        assert(tool_name.deep_view() == joined_name(
            identity.callable_namespace.deep_view(),
            identity.callable_name.deep_view(),
        ));
        DiagnosticToolIdentity {
            server_name: bounded(identity.server_name, MAX_IDENTITY_CHARS),
            raw_tool_name: bounded(identity.raw_tool_name, MAX_IDENTITY_CHARS),
            tool_name: mcp_diagnostics::bounded_option(&tool_name),
            connector_id: mcp_diagnostics::bounded_option(&identity.connector_id),
            connector_name: mcp_diagnostics::bounded_option(&identity.connector_name),
            plugin_display_names: mcp_diagnostics::bounded_names(&identity.plugin_display_names),
        }
    }

    pub fn from_search_info(search_info: &ToolSearchInfo) -> (identity: Self)
        ensures
            identity.deep_view() == search_info_identity(search_info.deep_view()),
    {
        let identity = DiagnosticToolIdentity {
            server_name: String::new(),
            raw_tool_name: String::new(),
            tool_name: Some(
                bounded(search_info_output_identity(search_info), MAX_IDENTITY_CHARS),
            ),
            connector_id: None,
            connector_name: mcp_diagnostics::bounded_option(&search_info.source_name),
            plugin_display_names: Vec::new(),
        };
        assert(identity.plugin_display_names.deep_view() =~= Seq::<Seq<char>>::empty());
        identity
    }

    pub fn key(&self) -> (key: String)
        ensures
            key@ == identity_key(self.deep_view()),
    {
        let mut key = self.server_name.clone();
        key.push('|');
        key.append(self.raw_tool_name.as_str());
        key.push('|');
        match &self.tool_name {
            Some(name) => {
                key.append(name.as_str());
            },
            None => {},
        }
        key.push('|');
        match &self.connector_id {
            Some(id) => {
                key.append(id.as_str());
            },
            None => {},
        }
        assert(key@ =~= identity_key(self.deep_view()));
        key
    }
}

}
