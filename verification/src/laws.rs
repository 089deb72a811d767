//! What holds of the library as a whole.

use vstd::prelude::*;
use crate::compact;
use crate::confidence;
use crate::config;
use crate::config::{
    ChatMessage, HybridProviderConfig, HybridRouteTarget, RouterConfig,
};
use crate::hybrid;
use crate::hybrid::{HybridError, HybridProvider, SelectedTarget};
use crate::prompt;
use crate::prompt::{ROUTER_HARD_MAX_CHARS, ROUTER_HARD_MAX_MESSAGES, ROUTER_MESSAGE_CHAR_BUDGET};
use crate::reply;
use crate::reply::{ReplyEvent, ReplyStep, RouterDecisionPayload, RouterReplyError};
use crate::router;
use crate::router::{
    DecisionView, HybridRouterRequest, RouteEvent, RouterOutcome, StepView,
    EDGE_PROMPT_BYPASS_CHARS, FRONTIER_ROUTE_LEASE_TURNS,
};
use crate::text;
use crate::text_lemmas;
use crate::tools;
use vstd::std_specs::convert::FromSpec;

verus! {

// Names of targets.

/// The name of a target is read back as that target, in any case and with white space around.
pub proof fn law_target_label_is_read_back(
    target: HybridRouteTarget,
    before: Seq<char>,
    name: Seq<char>,
    after: Seq<char>,
)
    requires
        text_lemmas::is_blank(before),
        text_lemmas::is_blank(after),
        text::lowercase(name) == config::target_label(target),
    ensures
        reply::named_target(before + name + after) == Some(target),
{
    reveal_strlit("edge");
    reveal_strlit("frontier");
    text_lemmas::lemma_trim_padding(before, name, after);
    let lower = text::lowercase(name);
    assert(name.len() == lower.len() > 0);
    assert(lower[0] == text::ascii_lower(name[0]));
    assert(lower[lower.len() - 1] == text::ascii_lower(name[name.len() - 1]));
    text_lemmas::lemma_trim_keeps(name);
}

/// A model name that stands for a target pins it, in any case and with white space around.
pub proof fn law_explicit_model_is_read_back(
    target: HybridRouteTarget,
    before: Seq<char>,
    model: Seq<char>,
    after: Seq<char>,
)
    requires
        text_lemmas::is_blank(before),
        text_lemmas::is_blank(after),
        text::lowercase(model) == "hybrid:"@ + config::target_label(target),
    ensures
        hybrid::explicit_target(before + model + after) == Some(target),
{
    reveal_strlit("edge");
    reveal_strlit("frontier");
    reveal_strlit("hybrid:");
    reveal_strlit("hybrid:edge");
    reveal_strlit("hybrid:frontier");
    text_lemmas::lemma_trim_padding(before, model, after);
    let lower = text::lowercase(model);
    match target {
        HybridRouteTarget::Edge => {
            assert(lower =~= "hybrid:edge"@);
        },
        HybridRouteTarget::Frontier => {
            assert(lower =~= "hybrid:frontier"@);
        },
    }
    assert(model.len() == lower.len() > 0);
    assert(lower[0] == text::ascii_lower(model[0]));
    assert(lower[lower.len() - 1] == text::ascii_lower(model[model.len() - 1]));
    text_lemmas::lemma_trim_keeps(model);
}

/// The two ways to write a target are converted into each other without loss, edge to edge.
pub proof fn law_target_conversions_are_inverse(target: HybridRouteTarget, selected: SelectedTarget)
    ensures
        <SelectedTarget as FromSpec<HybridRouteTarget>>::obeys_from_spec(),
        <HybridRouteTarget as FromSpec<SelectedTarget>>::obeys_from_spec(),
        <SelectedTarget as FromSpec<HybridRouteTarget>>::from_spec(target) is Edge
            <==> target is Edge,
        <HybridRouteTarget as FromSpec<SelectedTarget>>::from_spec(selected) is Edge
            <==> selected is Edge,
        <HybridRouteTarget as FromSpec<SelectedTarget>>::from_spec(
            <SelectedTarget as FromSpec<HybridRouteTarget>>::from_spec(target),
        ) == target,
        <SelectedTarget as FromSpec<HybridRouteTarget>>::from_spec(
            <HybridRouteTarget as FromSpec<SelectedTarget>>::from_spec(selected),
        ) == selected,
{
}

/// A request goes to the executor that its model names, and to the fallback where it names
/// none.
pub proof fn law_request_goes_to_named_executor<P>(
    provider: HybridProvider<P>,
    requested_model: Seq<char>,
)
    ensures
        match hybrid::explicit_target(requested_model) {
            Some(HybridRouteTarget::Edge) => provider.executor(provider.target_for(requested_model))
                == provider.edge,
            Some(HybridRouteTarget::Frontier) => provider.executor(
                provider.target_for(requested_model),
            ) == provider.frontier,
            None => provider.executor(provider.target_for(requested_model)) == provider.executor(
                provider.fallback_target,
            ),
        },
{
}

// Resolution of the configuration.

/// An executor resolves if and only if the hybrid provider is switched on and the executor
/// names a model and a provider other than the hybrid one. Its names are then those of the
/// configuration without white space around them, and its provider is not the hybrid one.
pub proof fn law_target_resolution(
    hybrid: HybridProviderConfig,
    target: HybridRouteTarget,
    global_api_key: Option<Seq<char>>,
)
    ensures
        ({
            let settings = hybrid.target_config(target);
            hybrid::hybrid_target(hybrid, target, global_api_key) is Ok <==> {
                &&& hybrid.enabled
                &&& !text_lemmas::is_blank(settings.provider@)
                &&& !hybrid::names_hybrid(settings.provider@)
                &&& !text_lemmas::is_blank(settings.model@)
            }
        }),
        hybrid::hybrid_target(hybrid, target, global_api_key) matches Ok(resolved) ==> {
            &&& resolved.target == target
            &&& text_lemmas::is_tight(resolved.provider_name)
            &&& text_lemmas::is_tight(resolved.model)
            &&& !hybrid::names_hybrid(resolved.provider_name)
        },
{
    let settings = hybrid.target_config(target);
    lemma_trim_blank(settings.provider@);
    lemma_trim_blank(settings.model@);
    text_lemmas::lemma_trim(settings.provider@);
    text_lemmas::lemma_trim(settings.model@);
    if text::trim(settings.provider@).len() > 0 {
        text_lemmas::lemma_trim_keeps(text::trim(settings.provider@));
    }
}

/// A text trims to nothing if and only if it is blank.
pub proof fn lemma_trim_blank(s: Seq<char>)
    ensures
        text::trim(s).len() == 0 <==> text_lemmas::is_blank(s),
{
    if text_lemmas::is_blank(s) {
        text_lemmas::lemma_trim_padding(s, Seq::empty(), Seq::empty());
        assert(s + Seq::<char>::empty() + Seq::<char>::empty() =~= s);
        assert(text::trim_start(Seq::<char>::empty()) =~= Seq::<char>::empty());
        assert(text::trim(Seq::<char>::empty()) =~= Seq::<char>::empty());
    } else {
        let front = text::trim_start(s);
        text_lemmas::lemma_trim_start(s);
        text_lemmas::lemma_trim_end(front);
        if front.len() == 0 {
            assert(s.take(s.len() as int) =~= s);
        } else if text::trim(s).len() == 0 {
            assert(front.skip(0) =~= front);
            assert(text::is_white_space(front[0]));
        }
    }
}

/// An executor's own key comes before the global one, and no key is made up.
pub proof fn law_own_key_comes_first(
    hybrid: HybridProviderConfig,
    target: HybridRouteTarget,
    global_api_key: Option<Seq<char>>,
)
    requires
        hybrid::hybrid_target(hybrid, target, global_api_key) is Ok,
    ensures
        ({
            let own = text::opt_text(hybrid.target_config(target).api_key);
            let resolved = hybrid::hybrid_target(hybrid, target, global_api_key)->Ok_0;
            if own is Some && !text_lemmas::is_blank(own->0) {
                resolved.api_key == Some(text::trim(own->0))
            } else {
                resolved.api_key == global_api_key
            }
        }),
{
    let own = text::opt_text(hybrid.target_config(target).api_key);
    if own is Some {
        lemma_trim_blank(own->0);
    }
}

/// A router without settings of its own is the edge executor's model.
pub proof fn law_router_inherits_edge(
    router: RouterConfig,
    hybrid: HybridProviderConfig,
    global_api_key: Option<Seq<char>>,
)
    requires
        hybrid::setting(text::opt_text(router.provider)) is None,
        hybrid::setting(text::opt_text(router.model)) is None,
        hybrid::setting(text::opt_text(router.api_key)) is None,
        hybrid::setting(text::opt_text(router.api_url)) is None,
    ensures
        match hybrid::hybrid_target(hybrid, HybridRouteTarget::Edge, global_api_key) {
            Ok(edge) => hybrid::router_target(router, hybrid, global_api_key) matches Ok(resolved)
                && resolved.provider_name == edge.provider_name && resolved.model == edge.model
                && resolved.api_key == edge.api_key && resolved.api_url == edge.api_url,
            Err(error) => hybrid::router_target(router, hybrid, global_api_key) == Err::<
                hybrid::ResolvedRouterView,
                HybridError,
            >(error),
        },
{
    law_target_resolution(hybrid, HybridRouteTarget::Edge, global_api_key);
    match hybrid::hybrid_target(hybrid, HybridRouteTarget::Edge, global_api_key) {
        Ok(edge) => {
            text_lemmas::lemma_trim_keeps(edge.model);
        },
        Err(_) => {},
    }
}

/// The router resolves if and only if the edge executor does and the router does not name
/// the hybrid provider; a model is always found. Its names have no white space around them,
/// and its provider is not the hybrid one.
pub proof fn law_router_resolution(
    router: RouterConfig,
    hybrid: HybridProviderConfig,
    global_api_key: Option<Seq<char>>,
)
    ensures
        hybrid::router_target(router, hybrid, global_api_key) is Ok <==> {
            &&& hybrid::hybrid_target(hybrid, HybridRouteTarget::Edge, global_api_key) is Ok
            &&& !(router.provider is Some && hybrid::names_hybrid(router.provider->0@))
        },
        hybrid::router_target(router, hybrid, global_api_key) != Err::<
            hybrid::ResolvedRouterView,
            HybridError,
        >(HybridError::UnresolvedRouterModel),
        hybrid::router_target(router, hybrid, global_api_key) matches Ok(resolved) ==> {
            &&& text_lemmas::is_tight(resolved.provider_name)
            &&& text_lemmas::is_tight(resolved.model)
            &&& !hybrid::names_hybrid(resolved.provider_name)
        },
{
    law_target_resolution(hybrid, HybridRouteTarget::Edge, global_api_key);
    reveal_strlit("hybrid");
    match hybrid::hybrid_target(hybrid, HybridRouteTarget::Edge, global_api_key) {
        Ok(edge) => {
            text_lemmas::lemma_trim_keeps(edge.model);
            if router.provider is Some {
                let provider = router.provider->0@;
                text_lemmas::lemma_trim(provider);
                if text::trim(provider).len() > 0 {
                    text_lemmas::lemma_trim_keeps(text::trim(provider));
                } else {
                    assert(text::lowercase(text::trim(provider)).len() == 0);
                }
            }
            if router.model is Some {
                let model = router.model->0@;
                text_lemmas::lemma_trim(model);
                if text::trim(model).len() > 0 {
                    text_lemmas::lemma_trim_keeps(text::trim(model));
                }
            }
        },
        Err(_) => {},
    }
}

// Tools kept from the frontier executor.

/// Every edge-only tool is excluded, whatever was excluded already stays so and in its
/// place, and nothing else is.
pub proof fn law_edge_only_tools_are_excluded(existing: Seq<Seq<char>>, tool: Seq<char>)
    ensures
        existing.is_prefix_of(tools::excluded_tools(existing)),
        tools::excluded_tools(existing).contains(tool) <==> existing.contains(tool)
            || tools::edge_only_tools().contains(tool),
{
    let added = tools::missing_tools(tools::edge_only_tools(), existing);
    assert(existing =~= (existing + added).subrange(0, existing.len() as int));
    tools::lemma_missing_contains(tools::edge_only_tools(), existing, tool);
    tools::lemma_concat_contains(existing, added, tool);
}

/// A list without duplicates is merged into one without duplicates.
pub proof fn law_excluding_brings_no_duplicates(existing: Seq<Seq<char>>)
    requires
        existing.no_duplicates(),
    ensures
        tools::excluded_tools(existing).no_duplicates(),
{
    let added = tools::missing_tools(tools::edge_only_tools(), existing);
    let all = existing + added;
    tools::lemma_edge_only_tools_distinct();
    lemma_missing_distinct(tools::edge_only_tools(), existing);
    assert forall|i: int, j: int| 0 <= i < j < all.len() implies all[i] != all[j] by {
        if j >= existing.len() {
            assert(all[j] == added[j - existing.len()]);
            if i < existing.len() {
                assert(added.contains(all[j]));
                tools::lemma_missing_contains(tools::edge_only_tools(), existing, all[j]);
                assert(existing.contains(all[i]));
            } else {
                assert(all[i] == added[i - existing.len()]);
            }
        }
    }
}

/// What is missing of a list without duplicates has none.
pub proof fn lemma_missing_distinct(tools: Seq<Seq<char>>, existing: Seq<Seq<char>>)
    requires
        tools.no_duplicates(),
    ensures
        tools::missing_tools(tools, existing).no_duplicates(),
    decreases tools.len(),
{
    reveal(Seq::filter);
    if tools.len() > 0 {
        let shorter = tools.drop_last();
        lemma_missing_distinct(shorter, existing);
        tools::lemma_missing_contains(shorter, existing, tools.last());
        if shorter.contains(tools.last()) {
            let i = shorter.index_of(tools.last());
            assert(tools[i] == tools[tools.len() - 1]);
        }
        let front = tools::missing_tools(shorter, existing);
        assert forall|i: int| 0 <= i < front.len() implies front[i] != tools.last() by {
            assert(front.contains(front[i]));
        }
    }
}

/// Excluding a second time changes nothing.
pub proof fn law_excluding_is_idempotent(existing: Seq<Seq<char>>)
    ensures
        tools::excluded_tools(tools::excluded_tools(existing)) == tools::excluded_tools(existing),
{
    let once = tools::excluded_tools(existing);
    let again = tools::missing_tools(tools::edge_only_tools(), once);
    if again.len() > 0 {
        let tool = again[0];
        assert(again.contains(tool));
        tools::lemma_missing_contains(tools::edge_only_tools(), once, tool);
        law_edge_only_tools_are_excluded(existing, tool);
    }
    assert(once + again =~= once);
}

/// The edge-only tools that are added keep their order.
pub proof fn law_added_tools_keep_their_order(existing: Seq<Seq<char>>, i: int, j: int)
    requires
        existing.len() <= i < j < tools::excluded_tools(existing).len(),
    ensures
        exists|p: int, q: int|
            0 <= p < q < tools::edge_only_tools().len() && #[trigger] tools::edge_only_tools()[p]
                == tools::excluded_tools(existing)[i] && #[trigger] tools::edge_only_tools()[q]
                == tools::excluded_tools(existing)[j],
{
    let n = existing.len() as int;
    lemma_missing_order(tools::edge_only_tools(), existing, i - n, j - n);
    let all = tools::edge_only_tools();
    let missing = tools::missing_tools(all, existing);
    assert(tools::excluded_tools(existing)[i] == missing[i - n]);
    assert(tools::excluded_tools(existing)[j] == missing[j - n]);
}

proof fn lemma_missing_order(all: Seq<Seq<char>>, existing: Seq<Seq<char>>, i: int, j: int)
    requires
        0 <= i < j < tools::missing_tools(all, existing).len(),
    ensures
        exists|p: int, q: int|
            0 <= p < q < all.len() && #[trigger] all[p] == tools::missing_tools(all, existing)[i]
                && #[trigger] all[q] == tools::missing_tools(all, existing)[j],
    decreases all.len(),
{
    reveal(Seq::filter);
    if all.len() > 0 {
        let shorter = all.drop_last();
        let front = tools::missing_tools(shorter, existing);
        let missing = tools::missing_tools(all, existing);
        if j < front.len() {
            lemma_missing_order(shorter, existing, i, j);
            let (p, q) = choose|p: int, q: int|
                0 <= p < q < shorter.len() && #[trigger] shorter[p] == front[i]
                    && #[trigger] shorter[q] == front[j];
            assert(all[p] == missing[i]);
            assert(all[q] == missing[j]);
        } else {
            tools::lemma_missing_contains(shorter, existing, front[i]);
            assert(front.contains(front[i]));
            let p = shorter.index_of(front[i]);
            assert(all[p] == missing[i]);
            assert(all[all.len() - 1] == missing[j]);
        }
    }
}

/// Each edge-only tool that was not excluded yet is added once, and no tool is added that was.
pub proof fn law_tools_are_added_once(existing: Seq<Seq<char>>, i: int, j: int)
    requires
        existing.len() <= i < tools::excluded_tools(existing).len(),
        0 <= j < tools::excluded_tools(existing).len(),
        i != j,
    ensures
        tools::excluded_tools(existing)[i] != tools::excluded_tools(existing)[j],
{
    let n = existing.len() as int;
    let all = tools::edge_only_tools();
    let missing = tools::missing_tools(all, existing);
    let merged = tools::excluded_tools(existing);
    assert(merged[i] == missing[i - n]);
    assert(missing.contains(merged[i]));
    tools::lemma_missing_contains(all, existing, merged[i]);
    if j < n {
        assert(existing.contains(merged[j]));
    } else {
        tools::lemma_edge_only_tools_distinct();
        lemma_missing_distinct(all, existing);
        assert(merged[j] == missing[j - n]);
    }
}

/// The edge-only tools are these, and all of them are excluded, whatever else is.
pub proof fn law_excluded_tools_by_name(existing: Seq<Seq<char>>, tool: Seq<char>)
    ensures
        tools::excluded_tools(existing).contains(tool) <==> {
            ||| existing.contains(tool)
            ||| tool == "shell"@
            ||| tool == "file_read"@
            ||| tool == "file_write"@
            ||| tool == "file_edit"@
            ||| tool == "glob_search"@
            ||| tool == "content_search"@
            ||| tool == "pdf_read"@
            ||| tool == "git_operations"@
            ||| tool == "browser"@
            ||| tool == "browser_open"@
            ||| tool == "screenshot"@
            ||| tool == "image_info"@
            ||| tool == "proxy_config"@
        },
{
    law_edge_only_tools_are_excluded(existing, tool);
    let all = tools::edge_only_tools();
    assert(all[0] == "shell"@ && all[1] == "file_read"@ && all[2] == "file_write"@ && all[3]
        == "file_edit"@ && all[4] == "glob_search"@ && all[5] == "content_search"@ && all[6]
        == "pdf_read"@ && all[7] == "git_operations"@ && all[8] == "browser"@ && all[9]
        == "browser_open"@ && all[10] == "screenshot"@ && all[11] == "image_info"@ && all[12]
        == "proxy_config"@);
}

/// A list that holds none of the edge-only tools gets all of them at its end, in this order.
pub proof fn law_all_tools_are_added_in_order(existing: Seq<Seq<char>>)
    requires
        forall|i: int|
            0 <= i < existing.len() ==> !tools::edge_only_tools().contains(#[trigger] existing[i]),
    ensures
        tools::excluded_tools(existing) == existing + seq![
            "shell"@,
            "file_read"@,
            "file_write"@,
            "file_edit"@,
            "glob_search"@,
            "content_search"@,
            "pdf_read"@,
            "git_operations"@,
            "browser"@,
            "browser_open"@,
            "screenshot"@,
            "image_info"@,
            "proxy_config"@,
        ],
{
    let all = tools::edge_only_tools();
    assert forall|k: int| 0 <= k < all.len() implies !existing.contains(#[trigger] all[k]) by {
        assert(all.contains(all[k]));
    }
    lemma_nothing_held(all, existing);
}

/// Where nothing is held already, everything is missing.
proof fn lemma_nothing_held(tools: Seq<Seq<char>>, existing: Seq<Seq<char>>)
    requires
        forall|k: int| 0 <= k < tools.len() ==> !existing.contains(#[trigger] tools[k]),
    ensures
        tools::missing_tools(tools, existing) == tools,
    decreases tools.len(),
{
    reveal(Seq::filter);
    if tools.len() > 0 {
        lemma_nothing_held(tools.drop_last(), existing);
        assert(tools =~= tools.drop_last().push(tools.last()));
    }
}

// Compaction.

/// A line that is kept holds text, and no white space around it.
pub proof fn lemma_without_tag(line: Seq<char>)
    requires
        text_lemmas::is_tight(line),
    ensures
        text_lemmas::is_tight(compact::without_tag(line)),
        compact::without_tag(line).len() <= line.len(),
        forall|c: char| text_lemmas::lacks(line, c) ==> text_lemmas::lacks(
            compact::without_tag(line),
            c,
        ),
{
    reveal_strlit("] ");
    text::lemma_first_match(line, "] "@);
    match text::first_match(line, "] "@) {
        Some(i) => {
            let tail = line.skip(i + 2);
            assert("] "@[1] == line.skip(i).subrange(0, 2)[1]);
            assert(line[i + 1] == ' ');
            assert(tail.len() > 0);
            assert(tail.last() == line.last());
            text_lemmas::lemma_trim_keeps(tail);
            text_lemmas::lemma_trim(tail);
            assert forall|c: char| text_lemmas::lacks(line, c) implies text_lemmas::lacks(
                text::trim(tail),
                c,
            ) by {
                text_lemmas::lemma_trim_lacks(tail, c);
            }
        },
        None => {},
    }
}

/// What is kept of lines is tight, and has no character that no line has.
pub proof fn lemma_kept_lines(lines: Seq<Seq<char>>, in_memory_block: bool, c: char)
    requires
        forall|k: int| 0 <= k < lines.len() ==> text_lemmas::lacks(#[trigger] lines[k], c),
    ensures
        ({
            let kept = compact::kept_lines(lines, in_memory_block);
            &&& forall|k: int| 0 <= k < kept.len() ==> text_lemmas::is_tight(#[trigger] kept[k])
            &&& forall|k: int| 0 <= k < kept.len() ==> text_lemmas::lacks(#[trigger] kept[k], c)
        }),
    decreases lines.len(),
{
    if lines.len() > 0 {
        let rest = lines.drop_first();
        assert forall|k: int| 0 <= k < rest.len() implies text_lemmas::lacks(
            #[trigger] rest[k],
            c,
        ) by {
            assert(rest[k] == lines[k + 1]);
        }
        lemma_kept_lines(rest, false, c);
        lemma_kept_lines(rest, true, c);
        assert(text_lemmas::lacks(lines[0], c));
        let line = text::trim(lines.first());
        text_lemmas::lemma_trim(lines.first());
        text_lemmas::lemma_trim_lacks(lines.first(), c);
        if line.len() > 0 {
            lemma_without_tag(line);
        }
        let kept = compact::kept_lines(lines, in_memory_block);
        let later = compact::kept_lines(rest, in_memory_block);
        if kept == seq![compact::without_tag(line)] + later {
            assert forall|k: int| 0 <= k < kept.len() implies text_lemmas::is_tight(
                #[trigger] kept[k],
            ) && text_lemmas::lacks(kept[k], c) by {
                if k > 0 {
                    assert(kept[k] == later[k - 1]);
                }
            }
        }
    }
}

/// What is kept of lines, joined by single characters, is no longer than the lines.
proof fn lemma_kept_length(lines: Seq<Seq<char>>, in_memory_block: bool, separator: Seq<char>)
    requires
        separator.len() == 1,
    ensures
        text::join(compact::kept_lines(lines, in_memory_block), separator).len() <= text::join(
            lines,
            separator,
        ).len(),
        lines.len() == 0 ==> compact::kept_lines(lines, in_memory_block).len() == 0,
    decreases lines.len(),
{
    if lines.len() > 0 {
        let rest = lines.drop_first();
        assert(lines =~= seq![lines.first()] + rest);
        text_lemmas::lemma_join_front(lines.first(), rest, separator);
        lemma_kept_length(rest, false, separator);
        lemma_kept_length(rest, true, separator);
        let line = text::trim(lines.first());
        text_lemmas::lemma_trim(lines.first());
        if line.len() > 0 {
            lemma_without_tag(line);
            let kept = compact::without_tag(line);
            text_lemmas::lemma_join_front(kept, compact::kept_lines(rest, false), separator);
            text_lemmas::lemma_join_front(kept, compact::kept_lines(rest, true), separator);
        }
    }
}

/// A compacted message is one line without white space around it, and no longer than the
/// message.
pub proof fn law_compacted_is_one_tight_line(content: Seq<char>)
    ensures
        text_lemmas::lacks(compact::compacted(content), '\n'),
        compact::compacted(content).len() > 0 ==> text_lemmas::is_tight(
            compact::compacted(content),
        ),
        compact::compacted(content).len() <= content.len(),
{
    reveal_strlit(" ");
    let lines = text::lines(content);
    let kept = compact::kept_lines(lines, false);
    text_lemmas::lemma_lines_lack_feed(content);
    lemma_kept_lines(lines, false, '\n');
    text_lemmas::lemma_join_lacks(kept, " "@, '\n');
    text_lemmas::lemma_join_tight(kept, " "@);
    text_lemmas::lemma_lines_length(content, " "@);
    lemma_kept_length(lines, false, " "@);
}

/// A message compacted for a small model is at most three characters over its budget.
pub proof fn law_compacted_message_fits_budget(content: Seq<char>, max_chars: nat)
    ensures
        text::shortened(compact::compacted(content), max_chars).len() <= max_chars + 3,
{
    text_lemmas::lemma_shortened(compact::compacted(content), max_chars);
}

/// A message of one line is compacted to that line without white space around it and
/// without its tag; to nothing where it is a memory heading or a tool trace.
pub proof fn law_single_line_message(content: Seq<char>)
    requires
        text_lemmas::lacks(content, '\n'),
        !text_lemmas::is_blank(content),
    ensures
        compact::compacted(content) == if compact::opens_memory_block(text::trim(content))
            || "[Used tools:"@.is_prefix_of(text::trim(content)) {
            Seq::<char>::empty()
        } else {
            compact::without_tag(text::trim(content))
        },
{
    let line = text::trim(content);
    text_lemmas::lemma_single_line(content);
    lemma_trim_blank(content);
    text_lemmas::lemma_trim(content);
    lemma_without_tag(line);
    let lines = text::lines(content);
    assert(lines.drop_first() =~= Seq::<Seq<char>>::empty());
    assert(compact::kept_lines(lines.drop_first(), false) =~= Seq::<Seq<char>>::empty());
    assert(compact::kept_lines(lines.drop_first(), true) =~= Seq::<Seq<char>>::empty());
    assert(seq![compact::without_tag(line)] + Seq::<Seq<char>>::empty() =~= seq![
        compact::without_tag(line),
    ]);
}

/// The lines of a text that ends with a line feed, and of what follows it, are apart.
pub proof fn lemma_lines_append(front: Seq<char>, rest: Seq<char>)
    requires
        front.len() > 0,
        front.last() == '\n',
    ensures
        text::lines(front + rest) == text::lines(front) + text::lines(rest),
    decreases front.len(),
{
    let all = front + rest;
    let end = text::first_index(front, '\n');
    text::lemma_first_index(front, '\n');
    text::lemma_first_index(all, '\n');
    if end == front.len() {
        assert(front[front.len() - 1] == '\n');
    }
    assert(all[end] == front[end]);
    assert(text::first_index(all, '\n') == end) by {
        let other = text::first_index(all, '\n');
        if other < end {
            assert(all[other] == front[other]);
        }
    }
    assert(all.take(end) =~= front.take(end));
    assert(all.skip(end + 1) =~= front.skip(end + 1) + rest);
    let first = text::without_carriage_return(front.take(end));
    if end + 1 == front.len() {
        assert(front.skip(end + 1) =~= Seq::<char>::empty());
        assert(front.skip(end + 1) + rest =~= rest);
        assert(text::lines(front.skip(end + 1)) =~= Seq::<Seq<char>>::empty());
        assert(text::lines(front) =~= seq![first]);
    } else {
        lemma_lines_append(front.skip(end + 1), rest);
        assert(seq![first] + (text::lines(front.skip(end + 1)) + text::lines(rest)) =~= seq![first]
            + text::lines(front.skip(end + 1)) + text::lines(rest));
    }
}

/// The list items of an open memory block, up to the blank line that closes it, leave nothing.
proof fn lemma_memory_items(lines: Seq<Seq<char>>, count: int)
    requires
        0 <= count < lines.len(),
        forall|k: int| 0 <= k < count ==> "- "@.is_prefix_of(text::trim(#[trigger] lines[k])),
        text::trim(lines[count]).len() == 0,
    ensures
        compact::kept_lines(lines, true) == compact::kept_lines(lines.skip(count + 1), false),
    decreases count,
{
    reveal_strlit("- ");
    reveal_strlit("[memory context]");
    let rest = lines.drop_first();
    if count == 0 {
        assert(lines.skip(1) =~= rest);
    } else {
        let line = text::trim(lines[0]);
        assert("- "@[0] == line.subrange(0, 2)[0]);
        assert(text::lowercase(line)[0] == text::ascii_lower(line[0]));
        assert(!compact::opens_memory_block(line));
        assert forall|k: int| 0 <= k < count - 1 implies "- "@.is_prefix_of(
            text::trim(#[trigger] rest[k]),
        ) by {
            assert(rest[k] == lines[k + 1]);
        }
        assert(rest[count - 1] == lines[count]);
        lemma_memory_items(rest, count - 1);
        assert(rest.skip(count) =~= lines.skip(count + 1));
    }
}

/// A block of remembered context in front of a message leaves no trace: a heading, list
/// items, and the blank line that closes it.
pub proof fn law_memory_block_leaves_no_trace(block: Seq<char>, message: Seq<char>)
    requires
        block.len() > 0,
        block.last() == '\n',
        text::lines(block).len() >= 2,
        compact::opens_memory_block(text::trim(text::lines(block).first())),
        forall|k: int|
            0 < k < text::lines(block).len() - 1 ==> "- "@.is_prefix_of(
                text::trim(#[trigger] text::lines(block)[k]),
            ),
        text_lemmas::is_blank(text::lines(block).last()),
    ensures
        compact::compacted(block + message) == compact::compacted(message),
{
    let head = text::lines(block);
    let all = head + text::lines(message);
    lemma_lines_append(block, message);
    lemma_trim_blank(head.last());
    reveal_strlit("[memory context]");
    assert(all.first() == head.first());
    assert(text::lowercase(text::trim(all.first())).len() == 16);
    let rest = all.drop_first();
    let count = head.len() - 2;
    assert forall|k: int| 0 <= k < count implies "- "@.is_prefix_of(
        text::trim(#[trigger] rest[k]),
    ) by {
        assert(rest[k] == head[k + 1]);
    }
    assert(rest[count] == head.last());
    lemma_memory_items(rest, count);
    assert(rest.skip(count + 1) =~= text::lines(message));
    assert(compact::kept_lines(all, false) == compact::kept_lines(rest, true));
}

/// A tool trace in front of a message leaves no trace.
pub proof fn law_tool_trace_leaves_no_trace(trace: Seq<char>, message: Seq<char>)
    requires
        trace.len() > 0,
        trace.last() == '\n',
        text::lines(trace).len() == 1,
        "[Used tools:"@.is_prefix_of(text::trim(text::lines(trace).first())),
    ensures
        compact::compacted(trace + message) == compact::compacted(message),
{
    let head = text::lines(trace);
    let all = head + text::lines(message);
    lemma_lines_append(trace, message);
    reveal_strlit("[Used tools:");
    reveal_strlit("[memory context]");
    let line = text::trim(all.first());
    assert(all.first() == head.first());
    assert("[Used tools:"@[1] == line.subrange(0, 12)[1]);
    assert(text::lowercase(line)[1] == text::ascii_lower(line[1]));
    assert(!compact::opens_memory_block(line));
    assert(all.drop_first() =~= text::lines(message));
}

// The prompt.

/// A message is quoted to the router if and only if it is not the system's and something is
/// left of it once it is compacted.
pub proof fn law_message_is_quoted_if_text_is_left(message: ChatMessage)
    ensures
        prompt::is_quoted(message) <==> message.role@ != "system"@ && compact::compacted(
            message.content@,
        ).len() > 0,
{
    reveal_strlit(": ");
    let compacted = compact::compacted(message.content@);
    let cut = text::shortened(compacted, ROUTER_MESSAGE_CHAR_BUDGET as nat);
    let line = prompt::transcript_line(message);
    law_compacted_is_one_tight_line(message.content@);
    text_lemmas::lemma_shortened(compacted, ROUTER_MESSAGE_CHAR_BUDGET as nat);
    if compacted.len() == 0 {
        assert(cut =~= Seq::<char>::empty());
        assert(": "@ =~= line.subrange(line.len() - 2, line.len() as int));
    } else {
        assert(line.last() == cut.last());
        assert(!text::is_white_space(cut.last()));
        if ": "@.is_suffix_of(line) {
            assert(": "@[1] == line.subrange(line.len() - 2, line.len() as int)[1]);
        }
    }
}

/// The router sees few messages, the latest ones, and little of them, whatever the
/// configuration says.
pub proof fn law_router_input_is_bounded(history: Seq<ChatMessage>, config: RouterConfig)
    ensures
        ({
            let lines = prompt::transcript_lines(history);
            let recent = prompt::recent_lines(history, config);
            &&& recent.len() <= ROUTER_HARD_MAX_MESSAGES
            &&& recent.len() <= config.max_messages
            &&& recent.is_suffix_of(lines)
            &&& recent.len() < lines.len() ==> recent.len() == config.max_messages
                || recent.len() == ROUTER_HARD_MAX_MESSAGES
            &&& prompt::turns_of(recent.len()) * 2 <= ROUTER_HARD_MAX_MESSAGES
        }),
        prompt::transcript(history, config).len() <= ROUTER_HARD_MAX_CHARS + 3,
        prompt::transcript(history, config).len() <= config.max_chars + 3,
{
    let lines = prompt::transcript_lines(history);
    let recent = prompt::recent_lines(history, config);
    assert(recent =~= lines.subrange(lines.len() - recent.len(), lines.len() as int));
    text_lemmas::lemma_shortened(
        text::join(recent, "\n"@),
        prompt::lesser(config.max_chars, ROUTER_HARD_MAX_CHARS) as nat,
    );
}

/// Messages of the system change nothing: neither the transcript nor the estimate.
pub proof fn law_system_messages_do_not_count(history: Seq<ChatMessage>, message: ChatMessage)
    requires
        message.role@ == "system"@,
    ensures
        prompt::transcript_lines(history.push(message)) == prompt::transcript_lines(history),
        compact::working_set_chars(history.push(message)) == compact::working_set_chars(history),
{
    assert(history.push(message).drop_last() =~= history);
}

/// A longer history has no smaller estimate.
pub proof fn law_estimate_grows(history: Seq<ChatMessage>, message: ChatMessage)
    ensures
        compact::estimated_chars(history) <= compact::estimated_chars(history.push(message)),
{
    assert(history.push(message).drop_last() =~= history);
}

// The reply of the router model.

/// An object in braces is found in the middle of other text, as long as no opening brace
/// stands before it and no closing one behind it.
pub proof fn law_embedded_object_is_found(before: Seq<char>, body: Seq<char>, after: Seq<char>)
    requires
        text_lemmas::lacks(before, '{'),
        text_lemmas::lacks(after, '}'),
    ensures
        reply::embedded_json(before + (seq!['{'] + body + seq!['}']) + after) == Some(
            seq!['{'] + body + seq!['}'],
        ),
{
    let object = seq!['{'] + body + seq!['}'];
    let raw = before + object + after;
    text::lemma_first_index(raw, '{');
    text::lemma_last_index(raw, '}');
    let start = text::first_index(raw, '{');
    let end = text::last_index(raw, '}');
    let close = before.len() + object.len() - 1;
    assert(raw[before.len() as int] == '{');
    assert(raw[close] == '}');
    if start < before.len() {
        assert(raw[start] == before[start]);
    }
    if end > close {
        assert(raw[end] == after[end - close - 1]);
    }
    assert(raw.subrange(start, end + 1) =~= object);
}

/// The part of a reply in braces is a part of it, opens and closes with a brace, and reaches
/// from the first opening brace to the last closing one. There is none if and only if no
/// closing brace follows an opening one.
pub proof fn law_embedded_part_spans_the_braces(raw: Seq<char>)
    ensures
        match reply::embedded_json(raw) {
            Some(part) => exists|start: int, end: int|
                {
                    &&& 0 <= start < end < raw.len()
                    &&& raw[start] == '{'
                    &&& raw[end] == '}'
                    &&& part == #[trigger] raw.subrange(start, end + 1)
                    &&& text_lemmas::lacks(raw.take(start), '{')
                    &&& text_lemmas::lacks(raw.skip(end + 1), '}')
                },
            None => forall|i: int, j: int|
                0 <= i < j < raw.len() && raw[i] == '{' ==> raw[j] != '}',
        },
{
    text::lemma_first_index(raw, '{');
    text::lemma_last_index(raw, '}');
    let start = text::first_index(raw, '{');
    let end = text::last_index(raw, '}');
    if start < end {
        assert(reply::embedded_json(raw) == Some(raw.subrange(start, end + 1)));
        assert(text_lemmas::lacks(raw.take(start), '{'));
        assert(text_lemmas::lacks(raw.skip(end + 1), '}'));
    }
}

/// A reply is read whole first. Where that fails, the text from its first opening brace to
/// its last closing one is read next, and what is read is the decision. Otherwise there is
/// none.
pub proof fn law_reply_is_read_whole_then_in_braces(
    before: Seq<char>,
    body: Seq<char>,
    after: Seq<char>,
    event: ReplyEvent,
    step: ReplyStep,
)
    requires
        text_lemmas::lacks(before, '{'),
        text_lemmas::lacks(after, '}'),
        reply::is_next_step(before + (seq!['{'] + body + seq!['}']) + after, event, step),
    ensures
        event is Received ==> {
            &&& step matches ReplyStep::ParseWhole(json)
            &&& json@ == before + (seq!['{'] + body + seq!['}']) + after
        },
        event is WholeRejected ==> {
            &&& step matches ReplyStep::ParseEmbedded(json)
            &&& json@ == seq!['{'] + body + seq!['}']
        },
        event matches ReplyEvent::WholeParsed(payload) ==> step == ReplyStep::Accepted(payload),
        event matches ReplyEvent::EmbeddedParsed(payload) ==> step == ReplyStep::Accepted(payload),
        event is EmbeddedRejected ==> step == ReplyStep::Rejected(
            RouterReplyError::InvalidEmbeddedJson,
        ),
{
    law_embedded_object_is_found(before, body, after);
}

/// A reply in which no closing brace follows an opening one is read whole and no further.
pub proof fn law_reply_without_braces(raw: Seq<char>, event: ReplyEvent, step: ReplyStep)
    requires
        forall|i: int, j: int| 0 <= i < j < raw.len() && raw[i] == '{' ==> raw[j] != '}',
        reply::is_next_step(raw, event, step),
    ensures
        event is Received ==> (step matches ReplyStep::ParseWhole(json) && json@ == raw),
        event matches ReplyEvent::WholeParsed(payload) ==> step == ReplyStep::Accepted(payload),
        event is WholeRejected ==> step == ReplyStep::Rejected(RouterReplyError::NoJson),
{
    law_embedded_part_spans_the_braces(raw);
}

/// The texts of a reply are those of its parts.
pub proof fn law_reply_view(payload: RouterDecisionPayload)
    ensures
        payload@.target == payload.target@,
        payload@.confidence_bits == payload.confidence_bits,
        payload@.reason_code == payload.reason_code@,
        payload@.summary == payload.summary@,
{
}

// Confidence.

/// Confidences are ordered as numbers are; what is not a number is below and above nothing.
pub proof fn law_confidence_order(a: u64, b: u64, c: u64)
    ensures
        confidence::is_number(a) ==> confidence::is_at_least(a, a),
        confidence::is_number(a) && confidence::is_number(b) ==> confidence::is_at_least(a, b)
            || confidence::is_at_least(b, a),
        confidence::is_at_least(a, b) && confidence::is_at_least(b, c)
            ==> confidence::is_at_least(a, c),
        confidence::is_same_value(a, b) <==> confidence::is_at_least(a, b)
            && confidence::is_at_least(b, a),
        !confidence::is_number(a) ==> !confidence::is_at_least(a, b)
            && !confidence::is_at_least(b, a),
{
}

/// The order of bit patterns, by sign and size: up to the pattern of infinity the positive
/// ones are ordered by size and the negative ones against it, the positive are above the
/// negative but for the zeros, and beyond infinity there is no order.
pub proof fn law_confidence_by_sign_and_size(a: u64, b: u64)
    requires
        a < 0x8000_0000_0000_0000,
        b < 0x8000_0000_0000_0000,
    ensures
        ({
            let minus_a = (a + 0x8000_0000_0000_0000) as u64;
            let minus_b = (b + 0x8000_0000_0000_0000) as u64;
            let numbers = a <= 0x7ff0_0000_0000_0000 && b <= 0x7ff0_0000_0000_0000;
            &&& confidence::is_at_least(a, b) <==> numbers && a >= b
            &&& confidence::is_at_least(minus_a, minus_b) <==> numbers && a <= b
            &&& confidence::is_at_least(a, minus_b) <==> numbers
            &&& confidence::is_at_least(minus_a, b) <==> numbers && a == 0 && b == 0
        }),
{
}

/// A bit pattern stands for a number up to the infinity of its sign, and two patterns stand
/// for the same number if and only if they are the same, or both are zeros.
pub proof fn law_confidence_as_a_number(a: u64, b: u64)
    ensures
        confidence::is_number(a) <==> a <= 0x7ff0_0000_0000_0000 || 0x8000_0000_0000_0000 <= a
            <= 0xfff0_0000_0000_0000,
        confidence::is_same_value(a, b) <==> {
            &&& confidence::is_number(a)
            &&& a == b || {
                &&& a == 0 || a == 0x8000_0000_0000_0000
                &&& b == 0 || b == 0x8000_0000_0000_0000
            }
        },
{
}

// Routing of a turn.

/// A turn of the hybrid provider, switched on, that neither its model nor an image pins.
pub open spec fn is_unpinned_turn(request: HybridRouterRequest) -> bool {
    &&& hybrid::names_hybrid(request.requested_provider@)
    &&& request.hybrid.enabled
    &&& hybrid::explicit_target(request.requested_model@) is None
    &&& request.image_markers == 0
}

/// What `target` resolves to in the configuration of a request.
pub open spec fn target_of(
    request: HybridRouterRequest,
    target: HybridRouteTarget,
) -> Result<hybrid::ResolvedTargetView, HybridError> {
    hybrid::hybrid_target(*request.hybrid, target, text::opt_str_text(request.global_api_key))
}

/// A turn of another provider is left alone, and only such a turn.
pub proof fn law_other_providers_are_left_alone(request: HybridRouterRequest)
    ensures
        router::first_step(request) == Ok::<StepView, HybridError>(StepView::NotHybrid)
            <==> !hybrid::names_hybrid(request.requested_provider@),
{
}

/// A model that names a target pins the turn to it, whatever the history, the images and the
/// lease; the router is not consulted.
pub proof fn law_explicit_model_pins_the_turn(request: HybridRouterRequest)
    requires
        hybrid::names_hybrid(request.requested_provider@),
        hybrid::explicit_target(request.requested_model@) is Some,
    ensures
        ({
            let target = hybrid::explicit_target(request.requested_model@)->0;
            match target_of(request, target) {
                Ok(resolved) => router::first_step(request) matches Ok(StepView::Decided(decision))
                    && decision.target == target && decision.reason_code == "explicit_model"@
                    && !decision.delegated_from_router,
                Err(error) => router::first_step(request) == Err::<StepView, HybridError>(error),
            }
        }),
{
}

/// Images, a lease or sheer size lead to the frontier executor without the router being
/// consulted, unless the model names a target.
pub proof fn law_large_or_leased_turns_bypass_the_router(request: HybridRouterRequest)
    requires
        hybrid::names_hybrid(request.requested_provider@),
        hybrid::explicit_target(request.requested_model@) is None,
        request.image_markers > 0 || request.conversation.frontier_lease_remaining > 0
            || compact::working_set_chars(request.history@) > EDGE_PROMPT_BYPASS_CHARS,
    ensures
        match target_of(request, HybridRouteTarget::Frontier) {
            Ok(resolved) => router::first_step(request) matches Ok(StepView::Decided(decision))
                && decision.target is Frontier && !decision.delegated_from_router,
            Err(error) => router::first_step(request) == Err::<StepView, HybridError>(error),
        },
{
}

/// The router is consulted only on a turn that nothing pins, that no lease covers and that
/// is small enough for the edge executor; and never on one whose router is the hybrid
/// provider.
pub proof fn law_router_is_consulted_on_small_open_turns(request: HybridRouterRequest)
    ensures
        router::first_step(request) matches Ok(StepView::Consult(question)) ==> {
            &&& is_unpinned_turn(request)
            &&& request.conversation.frontier_lease_remaining == 0
            &&& compact::working_set_chars(request.history@) <= EDGE_PROMPT_BYPASS_CHARS
            &&& !hybrid::names_hybrid(question.router.provider_name)
            &&& text_lemmas::is_tight(question.router.model)
        },
{
    law_router_resolution(
        *request.router,
        *request.hybrid,
        text::opt_str_text(request.global_api_key),
    );
}

/// The names in a decision are those that the configuration gives the chosen target.
pub proof fn law_decision_names_the_chosen_executor(
    request: HybridRouterRequest,
    event: RouteEvent,
)
    ensures
        router::step_after(request, event) matches Ok(StepView::Decided(decision)) ==> {
            &&& target_of(request, decision.target) matches Ok(resolved)
            &&& decision.provider_name == resolved.provider_name
            &&& decision.model == resolved.model
            &&& !hybrid::names_hybrid(decision.provider_name)
        },
{
    let key = text::opt_str_text(request.global_api_key);
    law_target_resolution(*request.hybrid, HybridRouteTarget::Edge, key);
    law_target_resolution(*request.hybrid, HybridRouteTarget::Frontier, key);
}

/// A turn goes to the edge executor only where its model says so, or where the router model
/// does with enough confidence.
pub proof fn law_edge_needs_a_clear_choice(request: HybridRouterRequest, event: RouteEvent)
    requires
        router::step_after(request, event) is Ok,
        router::step_after(request, event)->Ok_0 is Decided,
        router::step_after(request, event)->Ok_0->Decided_0.target is Edge,
    ensures
        match event {
            RouteEvent::TurnReceived => hybrid::explicit_target(request.requested_model@) == Some(
                HybridRouteTarget::Edge,
            ),
            RouteEvent::RouterConsulted(outcome) => {
                &&& outcome matches RouterOutcome::Replied { payload, .. }
                &&& confidence::is_at_least(
                    payload.confidence_bits,
                    request.router.confidence_threshold_bits,
                )
                &&& reply::named_target(payload.target@) == Some(HybridRouteTarget::Edge)
            },
        },
{
    lemma_fallback_target();
}

/// What takes the place of a decision of the router model leads to the frontier executor.
pub proof fn lemma_fallback_target()
    ensures
        reply::named_target("frontier"@) == Some(HybridRouteTarget::Frontier),
{
    reveal_strlit("frontier");
    let none = Seq::<char>::empty();
    assert(text::lowercase("frontier"@) =~= "frontier"@);
    law_target_label_is_read_back(HybridRouteTarget::Frontier, none, "frontier"@, none);
    assert(none + "frontier"@ + none =~= "frontier"@);
}

/// Whatever goes wrong with the router model, the turn goes to the frontier executor: no
/// answer in time, a failed call, an answer that cannot be read, or too little confidence.
/// The decision is not the router model's, and its reason code tells what went wrong.
pub proof fn law_router_trouble_leads_to_frontier(
    request: HybridRouterRequest,
    outcome: RouterOutcome,
)
    requires
        outcome matches RouterOutcome::Replied { payload, .. } ==> !confidence::is_at_least(
            payload.confidence_bits,
            request.router.confidence_threshold_bits,
        ),
    ensures
        match target_of(request, HybridRouteTarget::Frontier) {
            Ok(resolved) => {
                &&& router::concluded_decision(request, outcome) matches Ok(decision)
                &&& decision.target is Frontier
                &&& !decision.delegated_from_router
                &&& decision.reason_code == match outcome {
                    RouterOutcome::Replied { .. } => "low_confidence"@,
                    RouterOutcome::Unreadable { .. } => "router_invalid"@,
                    RouterOutcome::Failed { .. } => "router_error"@,
                    RouterOutcome::TimedOut => "router_timeout"@,
                }
            },
            Err(error) => router::concluded_decision(request, outcome) == Err::<
                DecisionView,
                HybridError,
            >(error),
        },
{
    lemma_fallback_target();
}

/// A decision of the router model with enough confidence is followed: its target, its
/// confidence, its reason and its summary. A target that it does not name is the frontier.
pub proof fn law_confident_router_is_followed(
    request: HybridRouterRequest,
    outcome: RouterOutcome,
)
    requires
        outcome is Replied,
        confidence::is_at_least(
            outcome->payload.confidence_bits,
            request.router.confidence_threshold_bits,
        ),
    ensures
        ({
            let payload = outcome->payload@;
            let target = match reply::named_target(payload.target) {
                Some(target) => target,
                None => HybridRouteTarget::Frontier,
            };
            match target_of(request, target) {
                Ok(resolved) => {
                    &&& router::concluded_decision(request, outcome) matches Ok(decision)
                    &&& decision.target == target
                    &&& decision.confidence_bits == payload.confidence_bits
                    &&& decision.reason_code == payload.reason_code
                    &&& decision.summary == payload.summary
                    &&& decision.delegated_from_router
                },
                Err(error) => router::concluded_decision(request, outcome) == Err::<
                    DecisionView,
                    HybridError,
                >(error),
            }
        }),
{
}

/// A decision is the router model's own if and only if it was followed.
pub proof fn law_delegated_means_followed(request: HybridRouterRequest, event: RouteEvent)
    ensures
        router::step_after(request, event) matches Ok(StepView::Decided(decision)) ==> (
        decision.delegated_from_router <==> {
            &&& event matches RouteEvent::RouterConsulted(outcome)
            &&& outcome matches RouterOutcome::Replied { payload, .. }
            &&& confidence::is_at_least(
                payload.confidence_bits,
                request.router.confidence_threshold_bits,
            )
        }),
{
}

/// Once the router model was consulted, the turn is settled: there is a decision, or the
/// chosen executor cannot be resolved. It is never consulted twice.
pub proof fn law_consultation_settles_the_turn(
    request: HybridRouterRequest,
    outcome: RouterOutcome,
)
    ensures
        match router::step_after(request, RouteEvent::RouterConsulted(outcome)) {
            Ok(step) => step is Decided,
            Err(error) => target_of(request, HybridRouteTarget::Edge) == Err::<
                hybrid::ResolvedTargetView,
                HybridError,
            >(error) || target_of(request, HybridRouteTarget::Frontier) == Err::<
                hybrid::ResolvedTargetView,
                HybridError,
            >(error),
        },
{
}

/// With both executors resolved and a router that does not name the hybrid provider, every
/// turn is routed without an error, whatever its history and whatever the router model says.
pub proof fn law_valid_configuration_never_fails(request: HybridRouterRequest, event: RouteEvent)
    requires
        target_of(request, HybridRouteTarget::Edge) is Ok,
        target_of(request, HybridRouteTarget::Frontier) is Ok,
        !(request.router.provider is Some && hybrid::names_hybrid(request.router.provider->0@)),
    ensures
        router::step_after(request, event) is Ok,
{
    law_router_resolution(
        *request.router,
        *request.hybrid,
        text::opt_str_text(request.global_api_key),
    );
}

/// Decisions are compared as numbers and texts are: a decision equals itself if and only if
/// its confidence is a number, and the order of the two does not matter.
pub proof fn law_decision_equality(a: DecisionView, b: DecisionView)
    ensures
        router::is_same_decision(a, a) <==> confidence::is_number(a.confidence_bits),
        router::is_same_decision(a, b) <==> router::is_same_decision(b, a),
        a == b && confidence::is_number(a.confidence_bits) ==> router::is_same_decision(a, b),
{
}

// The lease of the frontier executor.

/// A frontier decision that no lease made starts a lease, an edge decision ends it, and a
/// lease that is within its limit stays there.
pub proof fn law_lease_stays_within_its_limit(decision: DecisionView, previous: nat)
    ensures
        decision.target is Frontier && decision.reason_code != "frontier_lease"@
            ==> router::next_lease(decision, previous) == FRONTIER_ROUTE_LEASE_TURNS,
        decision.target is Edge && decision.reason_code != "frontier_lease"@ ==> router::next_lease(
            decision,
            previous,
        ) == 0,
        previous <= FRONTIER_ROUTE_LEASE_TURNS ==> router::next_lease(decision, previous)
            <= FRONTIER_ROUTE_LEASE_TURNS,
        decision.reason_code == "frontier_lease"@ ==> router::next_lease(decision, previous)
            <= previous,
{
}

/// The turn at position `i` follows the one before it: where that one was settled without
/// the router, its lease is what that one left.
pub open spec fn is_follow_up(requests: Seq<HybridRouterRequest>, i: int) -> bool {
    router::first_step(requests[i - 1]) matches Ok(StepView::Decided(decision))
        ==> requests[i].conversation.frontier_lease_remaining == router::next_lease(
        decision,
        requests[i - 1].conversation.frontier_lease_remaining as nat,
    )
}

/// A lease lasts as many follow-up turns as it was granted for: as long as nothing pins a
/// turn and the frontier executor resolves, each of them stays with the frontier executor
/// without the router being consulted, and uses up one turn.
pub proof fn law_lease_lasts_its_turns(requests: Seq<HybridRouterRequest>, granted: nat, i: int)
    requires
        0 <= i <= granted < requests.len(),
        requests[0].conversation.frontier_lease_remaining == granted,
        forall|k: int|
            0 <= k < requests.len() ==> is_unpinned_turn(#[trigger] requests[k]) && target_of(
                requests[k],
                HybridRouteTarget::Frontier,
            ) is Ok,
        forall|k: int| 0 < k <= granted ==> #[trigger] is_follow_up(requests, k),
    ensures
        requests[i].conversation.frontier_lease_remaining == granted - i,
        i < granted ==> {
            &&& router::first_step(requests[i]) matches Ok(StepView::Decided(decision))
            &&& decision.target is Frontier
            &&& decision.reason_code == "frontier_lease"@
            &&& !decision.delegated_from_router
        },
    decreases i,
{
    assert(is_unpinned_turn(requests[i]));
    if i > 0 {
        law_lease_lasts_its_turns(requests, granted, i - 1);
        assert(is_follow_up(requests, i));
    }
}

/// After a frontier decision that no lease made, the next turns stay with the frontier
/// executor, as many as a lease has; then the lease is used up.
pub proof fn law_frontier_decision_grants_a_lease(
    decision: DecisionView,
    previous: nat,
    requests: Seq<HybridRouterRequest>,
    i: int,
)
    requires
        decision.target is Frontier,
        decision.reason_code != "frontier_lease"@,
        0 <= i <= FRONTIER_ROUTE_LEASE_TURNS < requests.len(),
        requests[0].conversation.frontier_lease_remaining == router::next_lease(decision, previous),
        forall|k: int|
            0 <= k < requests.len() ==> is_unpinned_turn(#[trigger] requests[k]) && target_of(
                requests[k],
                HybridRouteTarget::Frontier,
            ) is Ok,
        forall|k: int|
            0 < k <= FRONTIER_ROUTE_LEASE_TURNS ==> #[trigger] is_follow_up(requests, k),
    ensures
        i < FRONTIER_ROUTE_LEASE_TURNS ==> {
            &&& router::first_step(requests[i]) matches Ok(StepView::Decided(leased))
            &&& leased.target is Frontier
            &&& leased.reason_code == "frontier_lease"@
        },
        i == FRONTIER_ROUTE_LEASE_TURNS ==> requests[i].conversation.frontier_lease_remaining == 0,
{
    law_lease_lasts_its_turns(requests, FRONTIER_ROUTE_LEASE_TURNS as nat, i);
}

} // verus!
