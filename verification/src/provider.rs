//! Compatibility of Responses API tool lists with the GrowthCircle endpoint,
//! which refuses tools without a name.

use vstd::prelude::*;
use crate::json::get_string_member;
use crate::json::string_member;
use crate::json::Json;
use crate::json::JsonValue;
use crate::text::contains_seq;
use crate::text::eq_ignore_ascii_case;
use crate::text::is_blank;
use crate::text::str_contains;
use crate::text::str_eq_ignore_ascii_case;
use crate::text::str_is_blank;

verus! {

/// A model provider: its name and the base URL of its API.
#[derive(Debug, Clone, PartialEq)]
pub struct Provider {
    pub name: String,
    pub base_url: String,
}

/// Whether a provider is GrowthCircle: named `growthcircle` in any ASCII case,
/// or served from `ai.growthcircle.id`.
pub open spec fn is_growthcircle(name: Seq<char>, base_url: Seq<char>) -> bool {
    eq_ignore_ascii_case(name, "growthcircle"@) || contains_seq(base_url, "ai.growthcircle.id"@)
}

/// Whether `provider` needs the GrowthCircle tool filter.
pub fn provider_uses_growthcircle_compat(provider: &Provider) -> (b: bool)
    ensures
        b == is_growthcircle(provider.name@, provider.base_url@),
{
    str_eq_ignore_ascii_case(provider.name.as_str(), "growthcircle") || str_contains(
        provider.base_url.as_str(),
        "ai.growthcircle.id",
    )
}

/// Whether a tool has a `name` member holding a string that is not blank.
pub open spec fn has_tool_name(tool: Json) -> bool {
    match string_member(tool, "name"@) {
        Some(n) => !is_blank(n),
        None => false,
    }
}

/// The tools that have a name, in order.
pub open spec fn named_tools(tools: Seq<Json>) -> Seq<Json>
    decreases tools.len(),
{
    if tools.len() == 0 {
        Seq::empty()
    } else {
        let rest = named_tools(tools.drop_last());
        if has_tool_name(tools.last()) {
            rest.push(tools.last())
        } else {
            rest
        }
    }
}

/// The mathematical forms of JSON values.
pub open spec fn json_views(s: Seq<JsonValue>) -> Seq<Json> {
    s.map_values(|v: JsonValue| v@)
}

/// The Responses API tools to send to `provider`: all of them, except that
/// for GrowthCircle the tools without a name are dropped.
pub fn create_tools_json_for_provider(provider: &Provider, tools: Vec<JsonValue>) -> (out: Vec<JsonValue>)
    ensures
        json_views(out@) == if is_growthcircle(provider.name@, provider.base_url@) {
            named_tools(json_views(tools@))
        } else {
            json_views(tools@)
        },
{
    if !provider_uses_growthcircle_compat(provider) {
        return tools;
    }
    let ghost tv = json_views(tools@);
    let mut out: Vec<JsonValue> = Vec::new();
    for tool in it: tools
        invariant
            tv == json_views(it.seq()),
            json_views(out@) == named_tools(tv.take(it.index())),
    {
        let ghost i = it.index();
        proof {
            assert(tv.take(i + 1).drop_last() =~= tv.take(i));
            assert(tv.take(i + 1).last() == tool@);
        }
        let keep = match get_string_member(&tool, "name") {
            Some(name) => !str_is_blank(name.as_str()),
            None => false,
        };
        if keep {
            let ghost before = json_views(out@);
            out.push(tool);
            proof {
                assert(json_views(out@) =~= before.push(tool@));
            }
        }
    }
    proof {
        assert(tv.take(tv.len() as int) =~= tv);
    }
    out
}

/// Every tool kept by the filter has a name.
pub proof fn law_named_tools_are_named(tools: Seq<Json>)
    ensures
        forall|i: int| 0 <= i < named_tools(tools).len() ==> has_tool_name(#[trigger] named_tools(tools)[i]),
    decreases tools.len(),
{
    if tools.len() > 0 {
        law_named_tools_are_named(tools.drop_last());
        let rest = named_tools(tools.drop_last());
        if has_tool_name(tools.last()) {
            assert forall|i: int| 0 <= i < named_tools(tools).len() implies has_tool_name(
                #[trigger] named_tools(tools)[i],
            ) by {
                if i < rest.len() {
                    assert(named_tools(tools)[i] == rest[i]);
                }
            }
        }
    }
}

/// Tools that all have a name pass the filter unchanged.
pub proof fn law_named_tools_keeps_named(tools: Seq<Json>)
    requires
        forall|i: int| 0 <= i < tools.len() ==> has_tool_name(#[trigger] tools[i]),
    ensures
        named_tools(tools) == tools,
    decreases tools.len(),
{
    if tools.len() > 0 {
        law_named_tools_keeps_named(tools.drop_last());
        assert(has_tool_name(tools[tools.len() - 1]));
        assert(tools.drop_last().push(tools.last()) =~= tools);
    }
}

/// Filtering twice is filtering once.
pub proof fn law_named_tools_idempotent(tools: Seq<Json>)
    ensures
        named_tools(named_tools(tools)) == named_tools(tools),
{
    law_named_tools_are_named(tools);
    law_named_tools_keeps_named(named_tools(tools));
}

} // verus!
