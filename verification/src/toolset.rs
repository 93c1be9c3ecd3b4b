//! The passes over a provider's tool list: one adapter per listed tool, in
//! the order of the list, for all tools or for those on an allow-list; and
//! how a list of adapters reads as a collection keyed by tool name.

use crate::adapter::{AdapterView, McpToolAdapter, McpToolState, ToolDescriptor};
use crate::boundary::share;
use crate::connection::names;
use crate::error::{timeout_failure_view, McpRigIntegrationError};
use std::sync::Arc;
use vstd::prelude::*;

verus! {

/// How the enumeration of a provider's tools ended.
pub enum ToolListing {
    /// The provider could not be reached, or the exchange failed.
    Failed(mcp_client::Error),
    /// The enumeration took longer than the time allowed to it.
    TimedOut,
    /// The provider listed these tools, in this order.
    Listed(Vec<McpToolState>),
}

/// The descriptors in a list of tool records.
pub open spec fn descriptors(tools: Seq<McpToolState>) -> Seq<ToolDescriptor> {
    tools.map_values(|tool: McpToolState| tool@)
}

/// What each adapter in a list is.
pub open spec fn adapter_views<C>(adapters: Seq<McpToolAdapter<C>>) -> Seq<AdapterView<C>> {
    adapters.map_values(|adapter: McpToolAdapter<C>| adapter@)
}

/// One adapter per tool, in the order of the list, all on one provider.
pub open spec fn adapters_for<C>(client: Arc<C>, tools: Seq<ToolDescriptor>) -> Seq<
    AdapterView<C>,
> {
    tools.map_values(|tool: ToolDescriptor| AdapterView { client, tool })
}

/// The tools whose name is on the allow-list, in the order of the list. A
/// name is on the allow-list when it equals one of its entries, character
/// for character.
pub open spec fn allowed(tools: Seq<ToolDescriptor>, allow: Seq<Seq<char>>) -> Seq<
    ToolDescriptor,
> {
    tools.filter(|tool: ToolDescriptor| allow.contains(tool.name))
}

/// A list of adapters read as a collection keyed by tool name: of the
/// adapters that share a name, the one listed last stands under it.
pub open spec fn keyed<C>(adapters: Seq<AdapterView<C>>) -> Map<Seq<char>, AdapterView<C>>
    decreases adapters.len(),
{
    if adapters.len() == 0 {
        Map::empty()
    } else {
        keyed(adapters.drop_last()).insert(adapters.last().tool.name, adapters.last())
    }
}

/// Whether `r` is what a pass reports for an enumeration that did not list
/// any tools: an enumeration that took too long is reported as such, any
/// other failure as a provider error with the failure's own text.
pub open spec fn is_listing_failure(listing: ToolListing, r: McpRigIntegrationError) -> bool {
    match listing {
        ToolListing::Failed(_) => r@ is McpError,
        ToolListing::TimedOut => r@ == timeout_failure_view(),
        ToolListing::Listed(_) => false,
    }
}

/// A name is a key of the keyed reading exactly when an adapter of the list
/// has it.
pub proof fn lemma_keyed_names<C>(adapters: Seq<AdapterView<C>>, name: Seq<char>)
    ensures
        keyed(adapters).contains_key(name) <==> exists|i: int|
            0 <= i < adapters.len() && #[trigger] adapters[i].tool.name == name,
    decreases adapters.len(),
{
    if adapters.len() > 0 {
        let rest = adapters.drop_last();
        lemma_keyed_names(rest, name);
        if keyed(adapters).contains_key(name) {
            if adapters.last().tool.name == name {
                assert(adapters[adapters.len() - 1].tool.name == name);
            } else {
                let i = choose|i: int| 0 <= i < rest.len() && #[trigger] rest[i].tool.name == name;
                assert(adapters[i].tool.name == name);
            }
        }
        if exists|i: int| 0 <= i < adapters.len() && #[trigger] adapters[i].tool.name == name {
            let i = choose|i: int|
                0 <= i < adapters.len() && #[trigger] adapters[i].tool.name == name;
            if i < rest.len() {
                assert(rest[i].tool.name == name);
            }
        }
    }
}

/// Under a name stands the adapter after which the list holds no other of
/// that name.
pub proof fn lemma_keyed_holds_last<C>(adapters: Seq<AdapterView<C>>, at: int)
    requires
        0 <= at < adapters.len(),
        forall|j: int|
            at < j < adapters.len() ==> #[trigger] adapters[j].tool.name != adapters[at].tool.name,
    ensures
        keyed(adapters).contains_key(adapters[at].tool.name),
        keyed(adapters)[adapters[at].tool.name] == adapters[at],
    decreases adapters.len(),
{
    let rest = adapters.drop_last();
    if at < adapters.len() - 1 {
        assert(rest[at] == adapters[at]);
        assert forall|j: int| at < j < rest.len() implies #[trigger] rest[j].tool.name
            != rest[at].tool.name by {
            assert(rest[j] == adapters[j]);
        }
        lemma_keyed_holds_last(rest, at);
        assert(adapters[adapters.len() - 1].tool.name != adapters[at].tool.name);
    }
}

/// A list in which no name occurs twice holds as many adapters as its keyed
/// reading has keys.
pub proof fn lemma_keyed_len<C>(adapters: Seq<AdapterView<C>>)
    requires
        forall|i: int, j: int|
            0 <= i < j < adapters.len() ==> adapters[i].tool.name != adapters[j].tool.name,
    ensures
        keyed(adapters).dom().finite(),
        keyed(adapters).len() == adapters.len(),
    decreases adapters.len(),
{
    if adapters.len() > 0 {
        let rest = adapters.drop_last();
        assert forall|i: int, j: int| 0 <= i < j < rest.len() implies rest[i].tool.name
            != rest[j].tool.name by {
            assert(rest[i] == adapters[i] && rest[j] == adapters[j]);
        }
        lemma_keyed_len(rest);
        lemma_keyed_names(rest, adapters.last().tool.name);
        if keyed(rest).contains_key(adapters.last().tool.name) {
            let i = choose|i: int|
                0 <= i < rest.len() && #[trigger] rest[i].tool.name == adapters.last().tool.name;
            assert(adapters[i].tool.name == adapters[adapters.len() - 1].tool.name);
        }
    }
}

/// Adding a tool at the end of the list adds it at the end of the allowed
/// tools if its name is on the allow-list, and changes nothing otherwise.
proof fn lemma_allowed_push(tools: Seq<ToolDescriptor>, tool: ToolDescriptor, allow: Seq<Seq<char>>)
    ensures
        allowed(tools.push(tool), allow) == if allow.contains(tool.name) {
            allowed(tools, allow).push(tool)
        } else {
            allowed(tools, allow)
        },
{
    reveal(Seq::filter);
    assert(tools.push(tool).drop_last() =~= tools);
}

/// Where no listed tool has a name on the allow-list, no tool is allowed.
proof fn lemma_allowed_none(tools: Seq<ToolDescriptor>, allow: Seq<Seq<char>>)
    requires
        forall|j: int| 0 <= j < tools.len() ==> !allow.contains(#[trigger] tools[j].name),
    ensures
        allowed(tools, allow) == Seq::<ToolDescriptor>::empty(),
    decreases tools.len(),
{
    reveal(Seq::filter);
    if tools.len() > 0 {
        let rest = tools.drop_last();
        assert forall|j: int| 0 <= j < rest.len() implies !allow.contains(
            #[trigger] rest[j].name,
        ) by {
            assert(rest[j] == tools[j]);
        }
        lemma_allowed_none(rest, allow);
        assert(!allow.contains(tools[tools.len() - 1].name));
    }
}

/// Where the allow-list admits exactly one of the listed tools, the allowed
/// tools are exactly that one.
pub proof fn lemma_allowed_single(tools: Seq<ToolDescriptor>, allow: Seq<Seq<char>>, at: int)
    requires
        0 <= at < tools.len(),
        allow.contains(tools[at].name),
        forall|j: int|
            0 <= j < tools.len() && j != at ==> !allow.contains(#[trigger] tools[j].name),
    ensures
        allowed(tools, allow) == seq![tools[at]],
    decreases tools.len(),
{
    reveal(Seq::filter);
    let rest = tools.drop_last();
    assert forall|j: int| 0 <= j < rest.len() && j != at implies !allow.contains(
        #[trigger] rest[j].name,
    ) by {
        assert(rest[j] == tools[j]);
    }
    if at == tools.len() - 1 {
        lemma_allowed_none(rest, allow);
        assert(allowed(tools, allow) =~= seq![tools[at]]);
    } else {
        assert(rest[at] == tools[at]);
        lemma_allowed_single(rest, allow, at);
        assert(!allow.contains(tools[tools.len() - 1].name));
    }
}

/// Every allowed tool is a listed tool whose name is on the allow-list, and
/// every listed tool whose name is on the allow-list is allowed.
pub proof fn lemma_allowed_exact(tools: Seq<ToolDescriptor>, allow: Seq<Seq<char>>)
    ensures
        forall|tool: ToolDescriptor| #[trigger]
            allowed(tools, allow).contains(tool) <==> tools.contains(tool) && allow.contains(
                tool.name,
            ),
    decreases tools.len(),
{
    reveal(Seq::filter);
    if tools.len() == 0 {
        assert forall|tool: ToolDescriptor| #[trigger]
            allowed(tools, allow).contains(tool) <==> tools.contains(tool) && allow.contains(
                tool.name,
            ) by {}
    } else {
        let rest = tools.drop_last();
        let last = tools.last();
        lemma_allowed_exact(rest, allow);
        assert forall|tool: ToolDescriptor| #[trigger]
            allowed(tools, allow).contains(tool) <==> tools.contains(tool) && allow.contains(
                tool.name,
            ) by {
            let kept = allowed(rest, allow);
            let all = allowed(tools, allow);
            if all.contains(tool) {
                let i = choose|i: int| 0 <= i < all.len() && all[i] == tool;
                if allow.contains(last.name) && i == all.len() - 1 {
                    assert(tools[tools.len() - 1] == tool);
                } else {
                    assert(kept[i] == tool);
                    assert(kept.contains(tool));
                    let j = choose|j: int| 0 <= j < rest.len() && rest[j] == tool;
                    assert(tools[j] == tool);
                }
            }
            if tools.contains(tool) && allow.contains(tool.name) {
                let j = choose|j: int| 0 <= j < tools.len() && tools[j] == tool;
                if j == tools.len() - 1 {
                    assert(all[all.len() - 1] == tool);
                } else {
                    assert(rest[j] == tool);
                    assert(rest.contains(tool));
                    assert(kept.contains(tool));
                    let i = choose|i: int| 0 <= i < kept.len() && kept[i] == tool;
                    assert(all[i] == tool);
                }
            }
        }
    }
}

/// Whether `name` equals one of the entries of `allow`.
fn on_list(allow: &Vec<String>, name: &String) -> (r: bool)
    ensures
        r == names(allow@).contains(name@),
{
    let mut i: usize = 0;
    while i < allow.len()
        invariant
            i <= allow.len(),
            forall|j: int| 0 <= j < i ==> names(allow@)[j] != name@,
        decreases allow.len() - i,
    {
        if allow[i] == *name {
            assert(names(allow@)[i as int] == name@);
            return true;
        }
        i += 1;
    }
    false
}

/// The error that a pass reports for an enumeration that did not list any
/// tools.
fn listing_failure(listing: ToolListing) -> (r: McpRigIntegrationError)
    requires
        !(listing is Listed),
    ensures
        is_listing_failure(listing, r),
{
    match listing {
        ToolListing::Failed(e) => McpRigIntegrationError::from(e),
        _ => McpRigIntegrationError::timeout_failure(),
    }
}

/// Attaches one adapter per listed tool to `agent_tools`, in the order of
/// the list and without looking for names that occur twice. Where the
/// enumeration failed or took too long, nothing is attached and the failure
/// is reported as a provider error.
pub fn register_mcp_tools<C>(
    mcp_client: Arc<C>,
    listing: ToolListing,
    agent_tools: &mut Vec<McpToolAdapter<C>>,
) -> (r: Result<(), McpRigIntegrationError>)
    ensures
        match listing {
            ToolListing::Listed(tools) => r is Ok && adapter_views(final(agent_tools)@)
                == adapter_views(old(agent_tools)@) + adapters_for(
                mcp_client,
                descriptors(tools@),
            ),
            _ => r matches Err(failure) && is_listing_failure(listing, failure)
                && final(agent_tools)@ == old(agent_tools)@,
        },
{
    match listing {
        ToolListing::Listed(tools) => {
            let mut i: usize = 0;
            while i < tools.len()
                invariant
                    i <= tools.len(),
                    adapter_views(agent_tools@) == adapter_views(old(agent_tools)@) + adapters_for(
                        mcp_client,
                        descriptors(tools@.take(i as int)),
                    ),
                decreases tools.len() - i,
            {
                let tool = &tools[i];
                let adapter = McpToolAdapter::new(
                    share(&mcp_client),
                    tool.name.clone(),
                    tool.description.clone(),
                    tool.parameters.clone(),
                );
                proof {
                    assert(tools@.take(i + 1) =~= tools@.take(i as int).push(tools@[i as int]));
                    assert(adapter_views(agent_tools@.push(adapter)) =~= adapter_views(
                        agent_tools@,
                    ).push(adapter@));
                    assert(adapters_for(mcp_client, descriptors(tools@.take(i + 1)))
                        =~= adapters_for(mcp_client, descriptors(tools@.take(i as int))).push(
                        adapter@,
                    ));
                }
                agent_tools.push(adapter);
                i += 1;
            }
            assert(tools@.take(tools.len() as int) =~= tools@);
            Ok(())
        },
        failed => Err(listing_failure(failed)),
    }
}

/// The toolset for a provider: one adapter per listed tool, in the order of
/// the list, or the failure of the enumeration. Read by name, the toolset is
/// `keyed` of these adapters.
pub fn create_mcp_toolset<C>(mcp_client: Arc<C>, listing: ToolListing) -> (r: Result<
    Vec<McpToolAdapter<C>>,
    McpRigIntegrationError,
>)
    ensures
        match listing {
            ToolListing::Listed(tools) => r matches Ok(toolset) && adapter_views(toolset@)
                == adapters_for(mcp_client, descriptors(tools@)),
            _ => r matches Err(failure) && is_listing_failure(listing, failure),
        },
{
    let mut toolset: Vec<McpToolAdapter<C>> = Vec::new();
    match register_mcp_tools(mcp_client, listing, &mut toolset) {
        Ok(()) => {
            assert(adapter_views(Seq::<McpToolAdapter<C>>::empty()) =~= Seq::<
                AdapterView<C>,
            >::empty());
            Ok(toolset)
        },
        Err(failure) => Err(failure),
    }
}

/// The toolset for a provider, restricted to an allow-list: one adapter per
/// listed tool whose name is on the list, in the order of the enumeration,
/// or the failure of the enumeration. Read by name, the toolset is `keyed`
/// of these adapters.
pub fn create_filtered_mcp_toolset<C>(
    mcp_client: Arc<C>,
    listing: ToolListing,
    allow: &Vec<String>,
) -> (r: Result<Vec<McpToolAdapter<C>>, McpRigIntegrationError>)
    ensures
        match listing {
            ToolListing::Listed(tools) => r matches Ok(toolset) && adapter_views(toolset@)
                == adapters_for(mcp_client, allowed(descriptors(tools@), names(allow@))),
            _ => r matches Err(failure) && is_listing_failure(listing, failure),
        },
{
    match listing {
        ToolListing::Listed(tools) => {
            let mut toolset: Vec<McpToolAdapter<C>> = Vec::new();
            let mut i: usize = 0;
            assert(adapter_views(toolset@) =~= adapters_for(
                mcp_client,
                allowed(descriptors(tools@.take(0)), names(allow@)),
            ));
            while i < tools.len()
                invariant
                    i <= tools.len(),
                    adapter_views(toolset@) == adapters_for(
                        mcp_client,
                        allowed(descriptors(tools@.take(i as int)), names(allow@)),
                    ),
                decreases tools.len() - i,
            {
                let tool = &tools[i];
                proof {
                    assert(tools@.take(i + 1) =~= tools@.take(i as int).push(tools@[i as int]));
                    assert(descriptors(tools@.take(i + 1)) =~= descriptors(
                        tools@.take(i as int),
                    ).push(tool@));
                    lemma_allowed_push(descriptors(tools@.take(i as int)), tool@, names(allow@));
                }
                if on_list(allow, &tool.name) {
                    let adapter = McpToolAdapter::new(
                        share(&mcp_client),
                        tool.name.clone(),
                        tool.description.clone(),
                        tool.parameters.clone(),
                    );
                    proof {
                        assert(adapter_views(toolset@.push(adapter)) =~= adapter_views(
                            toolset@,
                        ).push(adapter@));
                        assert(adapters_for(
                            mcp_client,
                            allowed(descriptors(tools@.take(i as int)), names(allow@)).push(tool@),
                        ) =~= adapters_for(
                            mcp_client,
                            allowed(descriptors(tools@.take(i as int)), names(allow@)),
                        ).push(adapter@));
                    }
                    toolset.push(adapter);
                }
                i += 1;
            }
            assert(tools@.take(tools.len() as int) =~= tools@);
            Ok(toolset)
        },
        failed => Err(listing_failure(failed)),
    }
}

/// The adapter that stands under `name` when the toolset is read by name:
/// the last of that name in the list, if there is one.
pub fn find_tool<'a, C>(toolset: &'a Vec<McpToolAdapter<C>>, name: &str) -> (r: Option<
    &'a McpToolAdapter<C>,
>)
    ensures
        match r {
            Some(adapter) => keyed(adapter_views(toolset@)).contains_key(name@) && adapter@
                == keyed(adapter_views(toolset@))[name@],
            None => !keyed(adapter_views(toolset@)).contains_key(name@),
        },
{
    let key = name.to_owned();
    let ghost views = adapter_views(toolset@);
    let mut i: usize = toolset.len();
    while i > 0
        invariant
            i <= toolset.len(),
            key@ == name@,
            views == adapter_views(toolset@),
            forall|j: int| i <= j < toolset.len() ==> #[trigger] views[j].tool.name != name@,
        decreases i,
    {
        i -= 1;
        if toolset[i].is_named(&key) {
            proof {
                assert(views[i as int] == toolset@[i as int]@);
                lemma_keyed_holds_last(views, i as int);
            }
            return Some(&toolset[i]);
        }
        assert(views[i as int] == toolset@[i as int]@);
    }
    proof {
        lemma_keyed_names(views, name@);
    }
    None
}

} // verus!
