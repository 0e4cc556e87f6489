//! Descriptions of the tools that MCP servers offer.

use vstd::prelude::*;

verus! {

#[derive(Clone, Copy, Debug, PartialEq, Eq)]
pub struct ToolAnnotations {
    pub destructive_hint: Option<bool>,
    pub open_world_hint: Option<bool>,
}

impl DeepView for ToolAnnotations {
    type V = ToolAnnotations;

    open spec fn deep_view(&self) -> ToolAnnotations {
        *self
    }
}

/// A tool as its server describes it.
#[derive(Debug, PartialEq, Eq)]
pub struct Tool {
    pub name: String,
    pub title: Option<String>,
    pub annotations: Option<ToolAnnotations>,
}

pub struct ToolModel {
    pub name: Seq<char>,
    pub title: Option<Seq<char>>,
    pub annotations: Option<ToolAnnotations>,
}

impl DeepView for Tool {
    type V = ToolModel;

    open spec fn deep_view(&self) -> ToolModel {
        ToolModel {
            name: self.name@,
            title: self.title.deep_view(),
            annotations: self.annotations,
        }
    }
}

impl Clone for Tool {
    fn clone(&self) -> (copy: Self)
        ensures
            copy.deep_view() == self.deep_view(),
    {
        Tool { name: self.name.clone(), title: self.title.clone(), annotations: self.annotations }
    }
}

/// A raw tool of a `tools/list` response, with the connector it belongs to.
#[derive(Debug, PartialEq, Eq)]
pub struct ToolWithConnectorId {
    pub tool: Tool,
    pub connector_id: Option<String>,
    pub connector_name: Option<String>,
}

pub struct RawToolModel {
    pub tool: ToolModel,
    pub connector_id: Option<Seq<char>>,
    pub connector_name: Option<Seq<char>>,
}

impl DeepView for ToolWithConnectorId {
    type V = RawToolModel;

    open spec fn deep_view(&self) -> RawToolModel {
        RawToolModel {
            tool: self.tool.deep_view(),
            connector_id: self.connector_id.deep_view(),
            connector_name: self.connector_name.deep_view(),
        }
    }
}

/// A tool of the inventory, under the name by which the model calls it. All else
/// that its server tells of it is carried along in `details`, in its serialized
/// form.
#[derive(Debug, PartialEq, Eq)]
pub struct ToolInfo {
    pub server_name: String,
    pub tool: Tool,
    pub callable_namespace: String,
    pub callable_name: String,
    pub connector_id: Option<String>,
    pub connector_name: Option<String>,
    pub plugin_display_names: Vec<String>,
    pub details: String,
}

pub struct ToolInfoModel {
    pub server_name: Seq<char>,
    pub tool: ToolModel,
    pub callable_namespace: Seq<char>,
    pub callable_name: Seq<char>,
    pub connector_id: Option<Seq<char>>,
    pub connector_name: Option<Seq<char>>,
    pub plugin_display_names: Seq<Seq<char>>,
    pub details: Seq<char>,
}

impl DeepView for ToolInfo {
    type V = ToolInfoModel;

    open spec fn deep_view(&self) -> ToolInfoModel {
        ToolInfoModel {
            server_name: self.server_name@,
            tool: self.tool.deep_view(),
            callable_namespace: self.callable_namespace@,
            callable_name: self.callable_name@,
            connector_id: self.connector_id.deep_view(),
            connector_name: self.connector_name.deep_view(),
            plugin_display_names: self.plugin_display_names.deep_view(),
            details: self.details@,
        }
    }
}

impl Clone for ToolInfo {
    fn clone(&self) -> (copy: Self)
        ensures
            copy.deep_view() == self.deep_view(),
    {
        let copy = ToolInfo {
            server_name: self.server_name.clone(),
            tool: self.tool.clone(),
            callable_namespace: self.callable_namespace.clone(),
            callable_name: self.callable_name.clone(),
            connector_id: self.connector_id.clone(),
            connector_name: self.connector_name.clone(),
            plugin_display_names: self.plugin_display_names.clone(),
            details: self.details.clone(),
        };
        assert(copy.plugin_display_names.deep_view() =~= self.plugin_display_names.deep_view());
        copy
    }
}

}
