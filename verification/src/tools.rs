//! Tools that act on the local host and are kept from the frontier executor.

use vstd::prelude::*;
use crate::text;

verus! {

/// The tools that only the edge executor may use.
pub open spec fn edge_only_tools() -> Seq<Seq<char>> {
    seq![
        "shell"@,
        "file_read"@,
        "file_write"@,
        "file_edit"@,
        "glob_search"@,
        "content_search"@,
        "pdf_read"@,
        "git_operations"@,
        "browser"@,
        "browser_open"@,
        "screenshot"@,
        "image_info"@,
        "proxy_config"@,
    ]
}

/// `tools` without those that `existing` holds, in order.
pub open spec fn missing_tools(tools: Seq<Seq<char>>, existing: Seq<Seq<char>>) -> Seq<Seq<char>> {
    tools.filter(|tool: Seq<char>| !existing.contains(tool))
}

/// The tools that the frontier executor goes without: those already excluded, then the
/// edge-only ones that are not among them.
pub open spec fn excluded_tools(existing: Seq<Seq<char>>) -> Seq<Seq<char>> {
    existing + missing_tools(edge_only_tools(), existing)
}

/// No edge-only tool is listed twice.
pub proof fn lemma_edge_only_tools_distinct()
    ensures
        edge_only_tools().no_duplicates(),
{
    reveal_strlit("shell");
    reveal_strlit("file_read");
    reveal_strlit("file_write");
    reveal_strlit("file_edit");
    reveal_strlit("glob_search");
    reveal_strlit("content_search");
    reveal_strlit("pdf_read");
    reveal_strlit("git_operations");
    reveal_strlit("browser");
    reveal_strlit("browser_open");
    reveal_strlit("screenshot");
    reveal_strlit("image_info");
    reveal_strlit("proxy_config");
    let tools = edge_only_tools();
    assert forall|i: int, j: int| 0 <= i < j < tools.len() implies tools[i] != tools[j] by {
        assert(tools[i].len() == tools[j].len() ==> tools[i][0] != tools[j][0] || tools[i][1]
            != tools[j][1] || tools[i][5] != tools[j][5] || tools[i][6] != tools[j][6]);
    }
}

/// A tool that the list before it lacks is missing in the end; any other changes nothing.
proof fn lemma_missing_push(tools: Seq<Seq<char>>, next: Seq<char>, existing: Seq<Seq<char>>)
    ensures
        missing_tools(tools.push(next), existing) == if existing.contains(next) {
            missing_tools(tools, existing)
        } else {
            missing_tools(tools, existing).push(next)
        },
{
    reveal(Seq::filter);
    assert(tools.push(next).drop_last() =~= tools);
}

/// Whether one of `list` is the text `item`.
fn lists(list: &Vec<String>, item: &str) -> (res: bool)
    ensures
        res == text::texts(list@).contains(item@),
{
    let mut i: usize = 0;
    while i < list.len()
        invariant
            i <= list.len(),
            forall|k: int| 0 <= k < i ==> (#[trigger] list@[k])@ != item@,
        decreases list.len() - i,
    {
        if text::same_text(list[i].as_str(), item) {
            assert(text::texts(list@)[i as int] == item@);
            return true;
        }
        i = i + 1;
    }
    assert forall|k: int| 0 <= k < text::texts(list@).len() implies text::texts(list@)[k]
        != item@ by {
        assert(text::texts(list@)[k] == list@[k]@);
    }
    false
}

/// The tools that the frontier executor goes without, given those already excluded.
pub fn frontier_edge_only_excluded_tools(existing: &[String]) -> (res: Vec<String>)
    ensures
        text::texts(res@) == excluded_tools(text::texts(existing@)),
{
    let tools: [&'static str; 13] = [
        "shell",
        "file_read",
        "file_write",
        "file_edit",
        "glob_search",
        "content_search",
        "pdf_read",
        "git_operations",
        "browser",
        "browser_open",
        "screenshot",
        "image_info",
        "proxy_config",
    ];
    let ghost before = text::texts(existing@);
    let mut merged: Vec<String> = Vec::new();
    let mut i: usize = 0;
    while i < existing.len()
        invariant
            i <= existing.len(),
            before == text::texts(existing@),
            text::texts(merged@) == before.take(i as int),
        decreases existing.len() - i,
    {
        let ghost done = merged@;
        merged.push(existing[i].clone());
        assert(text::texts(merged@) =~= text::texts(done).push(existing@[i as int]@));
        i = i + 1;
    }
    let ghost all = edge_only_tools();
    proof {
        lemma_edge_only_tools_distinct();
        reveal(Seq::filter);
        assert(text::texts(merged@) =~= before + missing_tools(all.take(0), before));
    }
    let mut n: usize = 0;
    while n < tools.len()
        invariant
            n <= tools.len(),
            tools.len() == all.len(),
            all.no_duplicates(),
            forall|k: int| 0 <= k < all.len() ==> all[k] == (#[trigger] tools@[k])@,
            text::texts(merged@) == before + missing_tools(all.take(n as int), before),
        decreases tools.len() - n,
    {
        let tool = tools[n];
        assert(tool@ == all[n as int]);
        proof {
            assert(all.take(n + 1) =~= all.take(n as int).push(all[n as int]));
            lemma_missing_push(all.take(n as int), all[n as int], before);
            lemma_missing_contains(all.take(n as int), before, all[n as int]);
            assert(!all.take(n as int).contains(all[n as int]));
            lemma_concat_contains(before, missing_tools(all.take(n as int), before), all[n as int]);
        }
        if !lists(&merged, tool) {
            let ghost done = merged@;
            merged.push(tool.to_owned());
            assert(text::texts(merged@) =~= text::texts(done).push(tool@));
        }
        assert(text::texts(merged@) =~= before + missing_tools(all.take(n + 1), before));
        n = n + 1;
    }
    assert(all.take(all.len() as int) =~= all);
    merged
}

/// What is missing comes from the list and is not held already.
pub proof fn lemma_missing_contains(
    tools: Seq<Seq<char>>,
    existing: Seq<Seq<char>>,
    tool: Seq<char>,
)
    ensures
        missing_tools(tools, existing).contains(tool) <==> tools.contains(tool)
            && !existing.contains(tool),
    decreases tools.len(),
{
    reveal(Seq::filter);
    if tools.len() > 0 {
        let shorter = tools.drop_last();
        lemma_missing_contains(shorter, existing, tool);
        lemma_missing_push(shorter, tools.last(), existing);
        assert(shorter.push(tools.last()) =~= tools);
        lemma_push_contains(shorter, tools.last(), tool);
        lemma_push_contains(missing_tools(shorter, existing), tools.last(), tool);
    }
}

proof fn lemma_push_contains(list: Seq<Seq<char>>, next: Seq<char>, item: Seq<char>)
    ensures
        list.push(next).contains(item) <==> list.contains(item) || next == item,
{
    if list.contains(item) {
        let i = list.index_of(item);
        assert(list.push(next)[i] == item);
    }
    if next == item {
        assert(list.push(next)[list.len() as int] == item);
    }
}

/// Two lists together hold what either does.
pub proof fn lemma_concat_contains(a: Seq<Seq<char>>, b: Seq<Seq<char>>, item: Seq<char>)
    ensures
        (a + b).contains(item) <==> a.contains(item) || b.contains(item),
{
    if a.contains(item) {
        let i = a.index_of(item);
        assert((a + b)[i] == item);
    }
    if b.contains(item) {
        let i = b.index_of(item);
        assert((a + b)[a.len() + i] == item);
    }
}

} // verus!
