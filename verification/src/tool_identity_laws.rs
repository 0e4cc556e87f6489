//! What holds of the identities that the diagnostics keep, and of their order.

use vstd::prelude::*;
use vstd::utf8::*;
use crate::decimal;
use crate::mcp_diagnostics::{
    self, IdentityModel, ToolSearchDiagnosticIdentity, ToolSearchToolsListSource,
};
use crate::order;
use crate::tool_identity::{
    self, DiagnosticModel, DiagnosticToolIdentity, LoadableModel, NamespaceToolModel,
    SearchInfoModel,
};
use crate::tool_info::{RawToolModel, ToolInfoModel};

verus! {

/// `kept` is the whole of `full` where that has at most `max` characters, else its
/// first `max` characters and an ellipsis.
pub open spec fn keeps(kept: Seq<char>, full: Seq<char>, max: int) -> bool {
    &&& full.len() <= max ==> kept == full
    &&& full.len() > max ==> {
        &&& kept.len() == max + 1
        &&& kept[max] == '\u{2026}'
        &&& forall|i: int| 0 <= i < max ==> #[trigger] kept[i] == full[i]
    }
}

/// An optional text is kept where there is one.
pub open spec fn keeps_option(
    kept: Option<Seq<char>>,
    full: Option<Seq<char>>,
    max: int,
) -> bool {
    &&& kept is Some <==> full is Some
    &&& full matches Some(text) ==> keeps(kept->Some_0, text, max)
}

/// The first four names are kept, in order.
pub open spec fn keeps_names(kept: Seq<Seq<char>>, full: Seq<Seq<char>>) -> bool {
    &&& kept.len() == (if full.len() < 4 {
        full.len() as int
    } else {
        4
    })
    &&& forall|i: int| 0 <= i < kept.len() ==> keeps(#[trigger] kept[i], full[i], 160)
}

/// The identity of a tool of the inventory tells its server, its name, its
/// connector and its plugins, each as far as it is kept.
pub proof fn inventory_identities_tell_the_tool(tool: ToolInfoModel)
    ensures
        ({
            let identity = mcp_diagnostics::tool_identity(tool);
            &&& keeps(identity.server_name, tool.server_name, 160)
            &&& keeps(identity.raw_tool_name, tool.tool.name, 160)
            &&& identity.callable_namespace matches Some(kept) && keeps(
                kept,
                tool.callable_namespace,
                160,
            )
            &&& identity.callable_name matches Some(kept) && keeps(kept, tool.callable_name, 160)
            &&& keeps_option(identity.connector_id, tool.connector_id, 160)
            &&& keeps_option(identity.connector_name, tool.connector_name, 160)
            &&& keeps_names(identity.plugin_display_names, tool.plugin_display_names)
        }),
{
}

/// The identity of a raw tool tells its server, its name and its connector, each as
/// far as it is kept, and nothing else.
pub proof fn raw_identities_tell_the_tool(server_name: Seq<char>, tool: RawToolModel)
    ensures
        ({
            let identity = mcp_diagnostics::raw_tool_identity(server_name, tool);
            &&& keeps(identity.server_name, server_name, 160)
            &&& keeps(identity.raw_tool_name, tool.tool.name, 160)
            &&& identity.callable_namespace is None
            &&& identity.callable_name is None
            &&& keeps_option(identity.connector_id, tool.connector_id, 160)
            &&& keeps_option(identity.connector_name, tool.connector_name, 160)
            &&& identity.plugin_display_names.len() == 0
        }),
{
}

/// What the diagnostics keep of an MCP-side identity: all of its fields, with the
/// namespace and the name joined by a dot, or the one of them that there is.
pub proof fn diagnostic_identities_keep_every_field(identity: IdentityModel)
    ensures
        ({
            let kept = tool_identity::diagnostic_identity(identity);
            &&& keeps(kept.server_name, identity.server_name, 160)
            &&& keeps(kept.raw_tool_name, identity.raw_tool_name, 160)
            &&& keeps_option(kept.connector_id, identity.connector_id, 160)
            &&& keeps_option(kept.connector_name, identity.connector_name, 160)
            &&& keeps_names(kept.plugin_display_names, identity.plugin_display_names)
            &&& kept.tool_name is None <==> identity.callable_namespace is None
                && identity.callable_name is None
            &&& identity.callable_namespace matches Some(space) ==> identity.callable_name
                matches Some(name) ==> keeps(
                kept.tool_name->Some_0,
                space + seq!['.'] + name,
                160,
            )
            &&& identity.callable_namespace matches Some(space) ==> identity.callable_name is None
                ==> keeps(kept.tool_name->Some_0, space, 160)
            &&& identity.callable_name matches Some(name) ==> identity.callable_namespace is None
                ==> keeps(kept.tool_name->Some_0, name, 160)
        }),
{
}

/// A tool whose texts are short enough is told whole: its server, its name, the name
/// by which the model calls it, its connector and its plugins.
pub proof fn short_tools_are_told_whole(tool: ToolInfoModel)
    requires
        tool.server_name.len() <= 160,
        tool.tool.name.len() <= 160,
        tool.callable_namespace.len() + tool.callable_name.len() < 160,
        tool.connector_id matches Some(id) ==> id.len() <= 160,
        tool.connector_name matches Some(name) ==> name.len() <= 160,
        tool.plugin_display_names.len() <= 4,
        forall|i: int|
            0 <= i < tool.plugin_display_names.len() ==> (
            #[trigger] tool.plugin_display_names[i]).len() <= 160,
    ensures
        ({
            let kept = tool_identity::diagnostic_identity(mcp_diagnostics::tool_identity(tool));
            &&& kept.server_name == tool.server_name
            &&& kept.raw_tool_name == tool.tool.name
            &&& kept.tool_name == Some(tool.callable_namespace + seq!['.'] + tool.callable_name)
            &&& kept.connector_id == tool.connector_id
            &&& kept.connector_name == tool.connector_name
            &&& kept.plugin_display_names == tool.plugin_display_names
        }),
{
    let kept = tool_identity::diagnostic_identity(mcp_diagnostics::tool_identity(tool));
    assert(kept.plugin_display_names =~= tool.plugin_display_names);
}

/// A search entry goes by its function, by its namespace and its only function, or
/// by its namespace and the number of its tools. A namespace that is empty or begins
/// with something else goes by its own name.
pub proof fn search_entries_go_by_their_output(
    name: Seq<char>,
    tools: Seq<NamespaceToolModel>,
    only: Seq<char>,
)
    ensures
        tool_identity::output_identity(LoadableModel::Function { name }) == name,
        ({
            let told = tool_identity::output_identity(LoadableModel::Namespace { name, tools });
            &&& tools.len() == 0 ==> told == name
            &&& tools.len() > 0 && tools[0] == NamespaceToolModel::Other ==> told == name
            &&& tools.len() == 1 && tools[0] == (NamespaceToolModel::Function { name: only })
                ==> told == name + seq!['.'] + only
            &&& tools.len() > 1 && tools[0] == (NamespaceToolModel::Function { name: only })
                ==> told == name + " (+"@ + decimal::numeral(tools.len()) + " tools)"@
        }),
{
}

/// The identity of a search entry tells the name that it goes by and its source, and
/// leaves open which server and connector it is of.
pub proof fn search_entries_leave_the_server_open(info: SearchInfoModel)
    ensures
        ({
            let identity = tool_identity::search_info_identity(info);
            &&& identity.server_name.len() == 0
            &&& identity.raw_tool_name.len() == 0
            &&& identity.tool_name matches Some(kept) && keeps(
                kept,
                tool_identity::output_identity(info.output),
                160,
            )
            &&& identity.connector_id is None
            &&& keeps_option(identity.connector_name, info.source_name, 160)
            &&& identity.plugin_display_names.len() == 0
        }),
{
}

/// A key tells server, raw name, tool name and connector, with bars between them, and
/// nothing for what is not known.
pub proof fn keys_tell_four_fields(identity: DiagnosticModel)
    ensures
        ({
            let named = match identity.tool_name {
                Some(name) => name,
                None => Seq::empty(),
            };
            let connected = match identity.connector_id {
                Some(id) => id,
                None => Seq::empty(),
            };
            tool_identity::identity_key(identity) == identity.server_name + seq!['|']
                + identity.raw_tool_name + seq!['|'] + named + seq!['|'] + connected
        }),
{
}

/// Bytes are ordered by the first that differs, and what is longer comes behind
/// what it begins with.
pub proof fn bytes_are_ordered_by_the_first_difference(
    common: Seq<u8>,
    a: u8,
    b: u8,
    more_a: Seq<u8>,
    more_b: Seq<u8>,
)
    ensures
        a < b ==> order::bytes_lt(common.push(a) + more_a, common.push(b) + more_b),
        a < b ==> !order::bytes_lt(common.push(b) + more_b, common.push(a) + more_a),
        order::bytes_lt(common, common.push(a) + more_a),
        !order::bytes_lt(common.push(a) + more_a, common),
    decreases common.len(),
{
    let x = common.push(a) + more_a;
    let y = common.push(b) + more_b;
    if common.len() > 0 {
        let rest = common.drop_first();
        bytes_are_ordered_by_the_first_difference(rest, a, b, more_a, more_b);
        assert(x.drop_first() =~= rest.push(a) + more_a);
        assert(y.drop_first() =~= rest.push(b) + more_b);
    }
}

/// Lists of fields are ordered by the first field that differs, and what is longer
/// comes behind what it begins with.
pub proof fn fields_are_ordered_by_the_first_difference(
    common: Seq<Seq<u8>>,
    a: Seq<u8>,
    b: Seq<u8>,
    more_a: Seq<Seq<u8>>,
    more_b: Seq<Seq<u8>>,
)
    ensures
        a != b ==> (order::rank_lt(common.push(a) + more_a, common.push(b) + more_b)
            <==> order::bytes_lt(a, b)),
        order::rank_lt(common, common.push(a) + more_a),
        !order::rank_lt(common.push(a) + more_a, common),
    decreases common.len(),
{
    let x = common.push(a) + more_a;
    let y = common.push(b) + more_b;
    if common.len() > 0 {
        let rest = common.drop_first();
        fields_are_ordered_by_the_first_difference(rest, a, b, more_a, more_b);
        assert(x.drop_first() =~= rest.push(a) + more_a);
        assert(y.drop_first() =~= rest.push(b) + more_b);
    }
}

/// Texts are ordered by their UTF-8 bytes.
pub proof fn texts_are_ordered_by_their_bytes(a: Seq<char>, b: Seq<char>)
    ensures
        order::precedes::<String>(a, b) <==> order::bytes_lt(encode_utf8(a), encode_utf8(b)),
{
    reveal_with_fuel(order::rank_lt, 3);
    order::bytes_lt_irreflexive(encode_utf8(a));
}

/// An optional text that is missing comes before every other, and two that are there
/// are ordered by their bytes.
pub proof fn missing_texts_come_first(a: Seq<char>, b: Seq<char>)
    ensures
        order::bytes_lt(order::optional_rank(None), order::optional_rank(Some(a))),
        !order::bytes_lt(order::optional_rank(Some(a)), order::optional_rank(None)),
        order::bytes_lt(order::optional_rank(Some(a)), order::optional_rank(Some(b)))
            <==> order::bytes_lt(encode_utf8(a), encode_utf8(b)),
{
    let x = order::optional_rank(Some(a));
    let y = order::optional_rank(Some(b));
    assert(x.drop_first() =~= encode_utf8(a));
    assert(y.drop_first() =~= encode_utf8(b));
}

/// Identities that the diagnostics keep are ordered by server, then by raw name, then
/// by tool name, connector and connector name, and then by their plugins.
pub proof fn identities_are_ordered_field_by_field(a: DiagnosticModel, b: DiagnosticModel)
    ensures
        ({
            let x = tool_identity::diagnostic_rank(a);
            let y = tool_identity::diagnostic_rank(b);
            &&& order::precedes::<DiagnosticToolIdentity>(a, b) <==> order::rank_lt(x, y)
            &&& x.len() == 5 + a.plugin_display_names.len()
            &&& x[0] == encode_utf8(a.server_name)
            &&& x[1] == encode_utf8(a.raw_tool_name)
            &&& x[2] == order::optional_rank(a.tool_name)
            &&& x[3] == order::optional_rank(a.connector_id)
            &&& x[4] == order::optional_rank(a.connector_name)
            &&& forall|i: int|
                5 <= i < x.len() ==> #[trigger] x[i] == encode_utf8(
                    a.plugin_display_names[i - 5],
                )
        }),
{
}

/// MCP-side identities are ordered by server, then by raw name, then by namespace and
/// name, connector and connector name, and then by their plugins.
pub proof fn mcp_identities_are_ordered_field_by_field(a: IdentityModel, b: IdentityModel)
    ensures
        ({
            let x = mcp_diagnostics::identity_rank(a);
            let y = mcp_diagnostics::identity_rank(b);
            &&& order::precedes::<ToolSearchDiagnosticIdentity>(a, b) <==> order::rank_lt(x, y)
            &&& x.len() == 6 + a.plugin_display_names.len()
            &&& x[0] == encode_utf8(a.server_name)
            &&& x[1] == encode_utf8(a.raw_tool_name)
            &&& x[2] == order::optional_rank(a.callable_namespace)
            &&& x[3] == order::optional_rank(a.callable_name)
            &&& x[4] == order::optional_rank(a.connector_id)
            &&& x[5] == order::optional_rank(a.connector_name)
            &&& forall|i: int|
                6 <= i < x.len() ==> #[trigger] x[i] == encode_utf8(
                    a.plugin_display_names[i - 6],
                )
        }),
{
}

/// A listing holds exactly what was given, and of any two of its values the one that
/// stands first comes first in the order.
pub proof fn listings_hold_what_was_given<T: order::Ranked>(items: Seq<T::V>)
    ensures
        ({
            let listing = order::sorted_distinct::<T>(items);
            &&& forall|x: T::V| #[trigger] listing.contains(x) <==> items.contains(x)
            &&& forall|i: int, j: int|
                0 <= i < j < listing.len() ==> order::rank_lt(
                    T::rank(#[trigger] listing[i]),
                    T::rank(#[trigger] listing[j]),
                )
            &&& listing.no_duplicates()
        }),
{
    order::every_sequence_has_a_listing::<T>(items);
    let listing = order::sorted_distinct::<T>(items);
    assert forall|i: int, j: int| 0 <= i < j < listing.len() implies order::rank_lt(
        T::rank(#[trigger] listing[i]),
        T::rank(#[trigger] listing[j]),
    ) by {
        assert(order::precedes::<T>(listing[i], listing[j]));
    }
    assert forall|i: int, j: int|
        0 <= i < listing.len() && 0 <= j < listing.len() && i != j implies listing[i]
        != listing[j] by {
        order::rank_lt_irreflexive(T::rank(listing[i]));
        if i < j {
            assert(order::rank_lt(T::rank(listing[i]), T::rank(listing[j])));
        } else {
            assert(order::rank_lt(T::rank(listing[j]), T::rank(listing[i])));
        }
    }
}

/// The snapshot of a response tells its server and where it came from, counts the
/// distinct identities that it held, and lists the first of them in order, as many as
/// there are up to 256.
pub proof fn responses_list_what_they_held(
    server_name: Seq<char>,
    source: ToolSearchToolsListSource,
    identities: Seq<IdentityModel>,
)
    requires
        identities.len() <= usize::MAX,
    ensures
        ({
            let listing = order::sorted_distinct::<ToolSearchDiagnosticIdentity>(identities);
            let snapshot = mcp_diagnostics::response_snapshot(server_name, source, identities);
            &&& keeps(snapshot.server_name, server_name, 160)
            &&& snapshot.source == source
            &&& snapshot.total_count == listing.len()
            &&& snapshot.identities.len() == (if listing.len() < 256 {
                listing.len() as int
            } else {
                256
            })
            &&& forall|i: int|
                0 <= i < snapshot.identities.len() ==> #[trigger] snapshot.identities[i]
                    == listing[i]
            &&& snapshot.identities_truncated <==> listing.len() > 256
            &&& listing.len() <= 256 ==> forall|x: IdentityModel| #[trigger]
                snapshot.identities.contains(x) <==> identities.contains(x)
        }),
{
    order::every_sequence_has_a_listing::<ToolSearchDiagnosticIdentity>(identities);
}

/// The bytes under a fingerprint: each identity adds its server, its raw name and
/// its connector, with a zero behind each.
pub proof fn each_identity_adds_its_bytes(
    identities: Seq<IdentityModel>,
    identity: IdentityModel,
)
    ensures
        mcp_diagnostics::fingerprint_bytes(Seq::empty()).len() == 0,
        ({
            let connected = match identity.connector_id {
                Some(id) => id,
                None => Seq::empty(),
            };
            mcp_diagnostics::fingerprint_bytes(identities.push(identity))
                == mcp_diagnostics::fingerprint_bytes(identities) + (encode_utf8(
                identity.server_name,
            ).push(0) + encode_utf8(identity.raw_tool_name).push(0) + encode_utf8(connected).push(
                0,
            ))
        }),
{
    assert(identities.push(identity).drop_last() =~= identities);
}

}
