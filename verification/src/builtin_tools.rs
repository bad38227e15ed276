//! The tools that come with the runtime: which are registered, which are
//! enabled, and which the model sees.

use vstd::prelude::*;

use crate::json::{Json, JsonView};
use crate::text::{occurs_at, same_text, starts_with};

verus! {

/// A tool as the model sees it.
#[derive(Debug)]
pub struct ToolDef {
    pub name: String,
    pub spec: Json,
}

/// What a [`ToolDef`] holds.
pub struct ToolDefView {
    pub name: Seq<char>,
    pub spec: JsonView,
}

impl DeepView for ToolDef {
    type V = ToolDefView;

    open spec fn deep_view(&self) -> ToolDefView {
        ToolDefView { name: self.name@, spec: self.spec.deep_view() }
    }
}

impl Clone for ToolDef {
    fn clone(&self) -> (r: Self)
        ensures
            r.deep_view() == self.deep_view(),
    {
        ToolDef { name: self.name.clone(), spec: self.spec.clone() }
    }
}

/// A registered tool.
#[derive(Debug)]
pub struct BuiltinToolEntry {
    pub tool: ToolDef,
    pub enabled: bool,
}

/// What a [`BuiltinToolEntry`] holds.
pub struct BuiltinView {
    pub tool: ToolDefView,
    pub enabled: bool,
}

impl DeepView for BuiltinToolEntry {
    type V = BuiltinView;

    open spec fn deep_view(&self) -> BuiltinView {
        BuiltinView { tool: self.tool.deep_view(), enabled: self.enabled }
    }
}

impl Clone for BuiltinToolEntry {
    fn clone(&self) -> (r: Self)
        ensures
            r.deep_view() == self.deep_view(),
    {
        BuiltinToolEntry { tool: self.tool.clone(), enabled: self.enabled }
    }
}

/// A user's wish to have a tool on or off.
#[derive(Debug)]
pub struct AgentToolEntry {
    pub name: String,
    pub enabled: bool,
}

/// What an [`AgentToolEntry`] holds.
pub struct ToolFlagView {
    pub name: Seq<char>,
    pub enabled: bool,
}

impl DeepView for AgentToolEntry {
    type V = ToolFlagView;

    open spec fn deep_view(&self) -> ToolFlagView {
        ToolFlagView { name: self.name@, enabled: self.enabled }
    }
}

impl Clone for AgentToolEntry {
    fn clone(&self) -> (r: Self)
        ensures
            r.deep_view() == self.deep_view(),
    {
        AgentToolEntry { name: self.name.clone(), enabled: self.enabled }
    }
}

// ── Enabling ────────────────────────────────────────────────────────────

/// The tools that manage the context are not the user's to disable.
pub open spec fn platform_protected(name: Seq<char>) -> bool {
    name == "context_retrieve"@ || name == "context_abandon"@
}

/// Whether a tool manages the context.
pub fn is_platform_protected(name: &str) -> (r: bool)
    ensures
        r == platform_protected(name@),
{
    same_text(name, "context_retrieve") || same_text(name, "context_abandon")
}

/// The last wish for a tool among the first `n`.
pub open spec fn last_flag(entries: Seq<ToolFlagView>, name: Seq<char>, n: int) -> Option<bool>
    decreases n,
{
    if n <= 0 {
        None
    } else if entries[n - 1].name == name {
        Some(entries[n - 1].enabled)
    } else {
        last_flag(entries, name, n - 1)
    }
}

/// A tool after the user's wishes.
pub open spec fn flagged(t: BuiltinView, entries: Seq<ToolFlagView>) -> BuiltinView {
    if platform_protected(t.tool.name) {
        BuiltinView { enabled: true, ..t }
    } else {
        match last_flag(entries, t.tool.name, entries.len() as int) {
            Some(e) => BuiltinView { enabled: e, ..t },
            None => t,
        }
    }
}

/// The tools after the user's wishes. Wishes for tools that are not registered
/// are dropped.
pub open spec fn all_flagged(tools: Seq<BuiltinView>, entries: Seq<ToolFlagView>) -> Seq<
    BuiltinView,
> {
    tools.map_values(|t: BuiltinView| flagged(t, entries))
}

fn find_flag(entries: &Vec<AgentToolEntry>, name: &str) -> (r: Option<bool>)
    ensures
        r == last_flag(entries.deep_view(), name@, entries.len() as int),
{
    let ghost views = entries.deep_view();
    let mut n: usize = entries.len();
    while n > 0
        invariant
            n <= entries.len(),
            views == entries.deep_view(),
            last_flag(views, name@, entries.len() as int) == last_flag(views, name@, n as int),
        decreases n,
    {
        assert(views[n - 1] == entries@[n - 1].deep_view());
        if same_text(entries[n - 1].name.as_str(), name) {
            return Some(entries[n - 1].enabled);
        }
        n = n - 1;
    }
    None
}

/// Switches tools on and off as the user wishes.
pub fn apply_builtin_enabled_entries(
    tools: &mut Vec<BuiltinToolEntry>,
    entries: &Vec<AgentToolEntry>,
)
    ensures
        final(tools).deep_view() == all_flagged(old(tools).deep_view(), entries.deep_view()),
{
    let ghost before = tools.deep_view();
    let ghost flags = entries.deep_view();
    let ghost after = all_flagged(before, flags);
    let n: usize = tools.len();
    let mut i: usize = 0;
    while i < n
        invariant
            i <= n,
            n == tools.len(),
            n == before.len(),
            flags == entries.deep_view(),
            after == all_flagged(before, flags),
            forall|k: int| 0 <= k < i ==> (#[trigger] tools@[k]).deep_view() == after[k],
            forall|k: int| i <= k < n ==> (#[trigger] tools@[k]).deep_view() == before[k],
        decreases n - i,
    {
        assert(tools@[i as int].deep_view() == before[i as int]);
        let enabled = if is_platform_protected(tools[i].tool.name.as_str()) {
            true
        } else {
            match find_flag(entries, tools[i].tool.name.as_str()) {
                Some(e) => e,
                None => tools[i].enabled,
            }
        };
        tools[i].enabled = enabled;
        assert(flagged(before[i as int], flags) == tools@[i as int].deep_view());
        i = i + 1;
    }
    assert(tools.deep_view() =~= after);
}

// ── Adding and removing ─────────────────────────────────────────────────

/// Where the first tool of a name stands, from `from` on.
pub open spec fn first_named(tools: Seq<BuiltinView>, name: Seq<char>, from: int) -> Option<int>
    decreases tools.len() - from,
{
    if from < 0 || from >= tools.len() {
        None
    } else if tools[from].tool.name == name {
        Some(from)
    } else {
        first_named(tools, name, from + 1)
    }
}

/// The tools with one more, in the place of the first of its name where there
/// is one.
pub open spec fn with_tool(tools: Seq<BuiltinView>, entry: BuiltinView) -> Seq<BuiltinView> {
    match first_named(tools, entry.tool.name, 0) {
        Some(i) => tools.update(i, entry),
        None => tools.push(entry),
    }
}

/// The tools with the first `n` of a list added.
pub open spec fn with_tools(tools: Seq<BuiltinView>, more: Seq<BuiltinView>, n: int) -> Seq<
    BuiltinView,
>
    decreases n,
{
    if n <= 0 {
        tools
    } else {
        with_tool(with_tools(tools, more, n - 1), more[n - 1])
    }
}

/// The tools without those of a name.
pub open spec fn without_tool(tools: Seq<BuiltinView>, name: Seq<char>) -> Seq<BuiltinView>
    decreases tools.len(),
{
    if tools.len() == 0 {
        tools
    } else if tools.last().tool.name == name {
        without_tool(tools.drop_last(), name)
    } else {
        without_tool(tools.drop_last(), name).push(tools.last())
    }
}

/// Where the first tool of a name stands.
pub fn position_of(tools: &Vec<BuiltinToolEntry>, name: &str) -> (r: Option<usize>)
    ensures
        match r {
            Some(i) => i < tools.len() && first_named(tools.deep_view(), name@, 0) == Some(
                i as int,
            ),
            None => first_named(tools.deep_view(), name@, 0) is None,
        },
{
    let ghost views = tools.deep_view();
    let mut i: usize = 0;
    while i < tools.len()
        invariant
            i <= tools.len(),
            views == tools.deep_view(),
            first_named(views, name@, 0) == first_named(views, name@, i as int),
        decreases tools.len() - i,
    {
        assert(views[i as int] == tools@[i as int].deep_view());
        if same_text(tools[i].tool.name.as_str(), name) {
            return Some(i);
        }
        i = i + 1;
    }
    None
}

/// Adds a tool, in the place of the first of its name where there is one.
/// Whether there was one.
pub fn add_tool(tools: &mut Vec<BuiltinToolEntry>, entry: BuiltinToolEntry) -> (replaced: bool)
    ensures
        final(tools).deep_view() == with_tool(old(tools).deep_view(), entry.deep_view()),
        replaced == (first_named(old(tools).deep_view(), entry.tool.name@, 0) is Some),
{
    let ghost before = tools.deep_view();
    match position_of(tools, entry.tool.name.as_str()) {
        Some(i) => {
            tools.set(i, entry);
            assert(tools.deep_view() =~= before.update(i as int, entry.deep_view()));
            true
        },
        None => {
            tools.push(entry);
            assert(tools.deep_view() =~= before.push(entry.deep_view()));
            false
        },
    }
}

/// Adds tools one after the other.
pub fn add_tools(tools: &mut Vec<BuiltinToolEntry>, more: &Vec<BuiltinToolEntry>)
    ensures
        final(tools).deep_view() == with_tools(
            old(tools).deep_view(),
            more.deep_view(),
            more.len() as int,
        ),
{
    let ghost before = tools.deep_view();
    let ghost views = more.deep_view();
    let mut i: usize = 0;
    while i < more.len()
        invariant
            i <= more.len(),
            views == more.deep_view(),
            tools.deep_view() == with_tools(before, views, i as int),
        decreases more.len() - i,
    {
        assert(views[i as int] == more@[i as int].deep_view());
        let copy = more[i].clone();
        let _ = add_tool(tools, copy);
        i = i + 1;
    }
}

/// Takes the tools of a name out. Whether there was one.
pub fn remove_tool(tools: &mut Vec<BuiltinToolEntry>, name: &str) -> (removed: bool)
    ensures
        final(tools).deep_view() == without_tool(old(tools).deep_view(), name@),
        removed == (first_named(old(tools).deep_view(), name@, 0) is Some),
{
    let ghost before = tools.deep_view();
    let removed = position_of(tools, name).is_some();
    let mut out: Vec<BuiltinToolEntry> = Vec::new();
    let mut i: usize = 0;
    assert(before.take(0) =~= Seq::empty());
    assert(out.deep_view() =~= without_tool(before.take(0), name@));
    while i < tools.len()
        invariant
            i <= tools.len(),
            before == tools.deep_view(),
            out.deep_view() == without_tool(before.take(i as int), name@),
        decreases tools.len() - i,
    {
        assert(before[i as int] == tools@[i as int].deep_view());
        assert(before.take(i + 1).drop_last() =~= before.take(i as int));
        assert(before.take(i + 1).last() == before[i as int]);
        if !same_text(tools[i].tool.name.as_str(), name) {
            let ghost sofar = out.deep_view();
            let copy = tools[i].clone();
            out.push(copy);
            assert(out.deep_view() =~= sofar.push(before[i as int]));
        }
        i = i + 1;
    }
    assert(before.take(tools.len() as int) =~= before);
    *tools = out;
    removed
}

/// The tools without those that manage the context.
pub open spec fn without_platform(tools: Seq<BuiltinView>) -> Seq<BuiltinView> {
    without_tool(without_tool(tools, "context_retrieve"@), "context_abandon"@)
}

/// The tools with the first `n` of those that manage the context, each added
/// where no tool has its name.
pub open spec fn with_platform(
    tools: Seq<BuiltinView>,
    platform: Seq<BuiltinView>,
    n: int,
) -> Seq<BuiltinView>
    decreases n,
{
    if n <= 0 {
        tools
    } else {
        let before = with_platform(tools, platform, n - 1);
        if first_named(before, platform[n - 1].tool.name, 0) is Some {
            before
        } else {
            before.push(platform[n - 1])
        }
    }
}

/// Registers the tools that manage the context, or takes them out.
pub fn sync_platform_tools(
    tools: &mut Vec<BuiltinToolEntry>,
    platform: &Vec<BuiltinToolEntry>,
    enabled: bool,
)
    ensures
        final(tools).deep_view() == (if enabled {
            with_platform(old(tools).deep_view(), platform.deep_view(), platform.len() as int)
        } else {
            without_platform(old(tools).deep_view())
        }),
{
    if !enabled {
        let _ = remove_tool(tools, "context_retrieve");
        let _ = remove_tool(tools, "context_abandon");
        return;
    }
    let ghost before = tools.deep_view();
    let ghost views = platform.deep_view();
    let mut i: usize = 0;
    while i < platform.len()
        invariant
            i <= platform.len(),
            views == platform.deep_view(),
            tools.deep_view() == with_platform(before, views, i as int),
        decreases platform.len() - i,
    {
        assert(views[i as int] == platform@[i as int].deep_view());
        if position_of(tools, platform[i].tool.name.as_str()).is_none() {
            let ghost sofar = tools.deep_view();
            let copy = platform[i].clone();
            tools.push(copy);
            assert(tools.deep_view() =~= sofar.push(views[i as int]));
        }
        i = i + 1;
    }
}

// ── What the model sees ─────────────────────────────────────────────────

/// The definitions of the enabled tools, in order.
pub open spec fn visible_specs(tools: Seq<BuiltinView>) -> Seq<JsonView>
    decreases tools.len(),
{
    if tools.len() == 0 {
        Seq::empty()
    } else if tools.last().enabled {
        visible_specs(tools.drop_last()).push(tools.last().tool.spec)
    } else {
        visible_specs(tools.drop_last())
    }
}

/// Rebuild the tool definitions that the model sees from the enabled tools.
pub fn rebuild_context_tool_definitions(tools: &Vec<BuiltinToolEntry>) -> (r: Vec<Json>)
    ensures
        r.deep_view() == visible_specs(tools.deep_view()),
{
    let ghost all = tools.deep_view();
    let mut r: Vec<Json> = Vec::new();
    let mut i: usize = 0;
    assert(all.take(0) =~= Seq::empty());
    assert(r.deep_view() =~= visible_specs(all.take(0)));
    while i < tools.len()
        invariant
            i <= tools.len(),
            all == tools.deep_view(),
            r.deep_view() == visible_specs(all.take(i as int)),
        decreases tools.len() - i,
    {
        assert(all[i as int] == tools@[i as int].deep_view());
        assert(all.take(i + 1).drop_last() =~= all.take(i as int));
        assert(all.take(i + 1).last() == all[i as int]);
        if tools[i].enabled {
            let ghost before = r.deep_view();
            let copy = tools[i].tool.spec.clone();
            r.push(copy);
            assert(r.deep_view() =~= before.push(all[i as int].tool.spec));
        }
        i = i + 1;
    }
    assert(all.take(tools.len() as int) =~= all);
    r
}

/// The specs without those of MCP tools.
pub open spec fn own_specs(specs: Seq<ToolDefView>) -> Seq<ToolDefView>
    decreases specs.len(),
{
    if specs.len() == 0 {
        specs
    } else if occurs_at(specs.last().name, "mcp_"@, 0) {
        own_specs(specs.drop_last())
    } else {
        own_specs(specs.drop_last()).push(specs.last())
    }
}

/// The specs after the connected MCP tools changed: those that were there of
/// earlier ones are dropped, those that are there now come last.
pub open spec fn specs_with_mcp(
    specs: Seq<ToolDefView>,
    mcp_tools: Option<Seq<ToolDefView>>,
) -> Seq<ToolDefView> {
    match mcp_tools {
        Some(tools) => own_specs(specs) + tools,
        None => own_specs(specs),
    }
}

/// Rebuild the list of all tool specs by merging those of the runtime with
/// those of the connected MCP servers.
pub fn rebuild_full_tool_specs_with_mcp(
    specs: &mut Vec<ToolDef>,
    mcp_tools: &Option<Vec<ToolDef>>,
)
    ensures
        final(specs).deep_view() == specs_with_mcp(
            old(specs).deep_view(),
            mcp_tools.deep_view(),
        ),
{
    let ghost before = specs.deep_view();
    let mut out: Vec<ToolDef> = Vec::new();
    let mut i: usize = 0;
    assert(before.take(0) =~= Seq::empty());
    assert(out.deep_view() =~= own_specs(before.take(0)));
    while i < specs.len()
        invariant
            i <= specs.len(),
            before == specs.deep_view(),
            out.deep_view() == own_specs(before.take(i as int)),
        decreases specs.len() - i,
    {
        assert(before[i as int] == specs@[i as int].deep_view());
        assert(before.take(i + 1).drop_last() =~= before.take(i as int));
        assert(before.take(i + 1).last() == before[i as int]);
        if !starts_with(specs[i].name.as_str(), "mcp_") {
            let ghost sofar = out.deep_view();
            let copy = specs[i].clone();
            out.push(copy);
            assert(out.deep_view() =~= sofar.push(before[i as int]));
        }
        i = i + 1;
    }
    assert(before.take(specs.len() as int) =~= before);
    match mcp_tools {
        Some(tools) => {
            let ghost own = out.deep_view();
            let mut copy = tools.clone();
            assert(copy.deep_view() =~= tools.deep_view());
            out.append(&mut copy);
            assert(out.deep_view() =~= own + tools.deep_view());
        },
        None => {},
    }
    *specs = out;
}

// ── Laws ────────────────────────────────────────────────────────────────

/// No wish of the user disables a tool that manages the context, and no wish
/// registers a tool: only the flags of registered tools change.
pub proof fn protected_tools_stay_enabled(
    tools: Seq<BuiltinView>,
    entries: Seq<ToolFlagView>,
    i: int,
)
    requires
        0 <= i < tools.len(),
    ensures
        all_flagged(tools, entries).len() == tools.len(),
        all_flagged(tools, entries)[i].tool == tools[i].tool,
        platform_protected(tools[i].tool.name) ==> all_flagged(tools, entries)[i].enabled,
{
}

/// Adding a tool twice is the same as adding it once, so pushing a sidecar's
/// tool again changes nothing.
pub proof fn adding_a_tool_is_idempotent(tools: Seq<BuiltinView>, entry: BuiltinView)
    ensures
        with_tool(with_tool(tools, entry), entry) == with_tool(tools, entry),
{
    let once = with_tool(tools, entry);
    lemma_first_named(tools, entry.tool.name, 0);
    lemma_first_named(once, entry.tool.name, 0);
    match first_named(tools, entry.tool.name, 0) {
        Some(i) => {
            let j = first_named(once, entry.tool.name, 0);
            assert(once[i].tool.name == entry.tool.name);
            assert(j is Some);
            assert(j->0 == i);
            assert(once.update(i, entry) =~= once);
        },
        None => {
            let n = tools.len() as int;
            assert(once[n].tool.name == entry.tool.name);
            let j = first_named(once, entry.tool.name, 0);
            assert(j is Some);
            if j->0 < n {
                assert(tools[j->0].tool.name == entry.tool.name);
            }
            assert(once.update(n, entry) =~= once);
        },
    }
}

proof fn lemma_first_named(tools: Seq<BuiltinView>, name: Seq<char>, from: int)
    requires
        0 <= from,
    ensures
        first_named(tools, name, from) matches Some(i) ==> {
            &&& from <= i < tools.len()
            &&& tools[i].tool.name == name
            &&& forall|k: int| from <= k < i ==> (#[trigger] tools[k]).tool.name != name
        },
        first_named(tools, name, from) is None ==> forall|k: int|
            from <= k < tools.len() ==> (#[trigger] tools[k]).tool.name != name,
    decreases tools.len() - from,
{
    if from < tools.len() && tools[from].tool.name != name {
        lemma_first_named(tools, name, from + 1);
    }
}

/// Where no tool has a name, there is nothing to remove.
pub proof fn lemma_nothing_to_remove(tools: Seq<BuiltinView>, name: Seq<char>)
    ensures
        first_named(tools, name, 0) is None ==> without_tool(tools, name) == tools,
    decreases tools.len(),
{
    if tools.len() > 0 && first_named(tools, name, 0) is None {
        let rest = tools.drop_last();
        lemma_first_named(tools, name, 0);
        lemma_first_named(rest, name, 0);
        if first_named(rest, name, 0) is Some {
            let i = first_named(rest, name, 0)->0;
            assert(tools[i].tool.name == name);
        }
        lemma_nothing_to_remove(rest, name);
        assert(rest.push(tools.last()) =~= tools);
    }
}

/// A removed tool is gone, and removing it again changes nothing.
pub proof fn removed_tools_are_gone(tools: Seq<BuiltinView>, name: Seq<char>)
    ensures
        forall|i: int|
            0 <= i < without_tool(tools, name).len() ==> (#[trigger] without_tool(
                tools,
                name,
            )[i]).tool.name != name,
        without_tool(without_tool(tools, name), name) == without_tool(tools, name),
    decreases tools.len(),
{
    if tools.len() > 0 {
        let before = without_tool(tools.drop_last(), name);
        removed_tools_are_gone(tools.drop_last(), name);
        if tools.last().tool.name != name {
            assert(before.push(tools.last()).drop_last() =~= before);
        }
    }
}

/// Switching the context tools off hides them from the model: no registered
/// tool bears their names.
pub proof fn compression_off_removes_platform_tools(tools: Seq<BuiltinView>, i: int)
    requires
        0 <= i < without_platform(tools).len(),
    ensures
        !platform_protected(without_platform(tools)[i].tool.name),
{
    let once = without_tool(tools, "context_retrieve"@);
    removed_tools_are_gone(tools, "context_retrieve"@);
    removed_tools_are_gone(once, "context_abandon"@);
    lemma_without_is_part(once, "context_abandon"@, i);
}

proof fn lemma_without_is_part(tools: Seq<BuiltinView>, name: Seq<char>, i: int)
    requires
        0 <= i < without_tool(tools, name).len(),
    ensures
        exists|k: int|
            0 <= k < tools.len() && #[trigger] tools[k] == without_tool(tools, name)[i],
    decreases tools.len(),
{
    if tools.len() > 0 {
        let rest = tools.drop_last();
        let before = without_tool(rest, name);
        if i < before.len() {
            lemma_without_is_part(rest, name, i);
            let k = choose|k: int| 0 <= k < rest.len() && #[trigger] rest[k] == before[i];
            assert(tools[k] == before[i]);
        } else {
            assert(tools[tools.len() - 1] == without_tool(tools, name)[i]);
        }
    }
}

/// The two context tools are protected, and no other.
pub proof fn context_tools_are_protected(name: Seq<char>)
    ensures
        platform_protected("context_retrieve"@),
        platform_protected("context_abandon"@),
        platform_protected(name) ==> name == "context_retrieve"@ || name == "context_abandon"@,
{
}

/// What the settings say last of a tool decides whether it is enabled; a tool of
/// which they say nothing stays as it was.
pub proof fn last_setting_decides(
    tools: Seq<BuiltinView>,
    entries: Seq<ToolFlagView>,
    i: int,
    k: int,
)
    requires
        0 <= i < tools.len(),
        !platform_protected(tools[i].tool.name),
        -1 <= k < entries.len(),
        k >= 0 ==> entries[k].name == tools[i].tool.name,
        forall|j: int| k < j < entries.len() ==> (#[trigger] entries[j]).name != tools[i].tool.name,
    ensures
        k >= 0 ==> all_flagged(tools, entries)[i].enabled == entries[k].enabled,
        k < 0 ==> all_flagged(tools, entries)[i] == tools[i],
{
    lemma_last_flag(entries, tools[i].tool.name, k, entries.len() as int);
}

proof fn lemma_last_flag(entries: Seq<ToolFlagView>, name: Seq<char>, k: int, n: int)
    requires
        -1 <= k < n <= entries.len() || (k == -1 && n == 0),
        k >= 0 ==> entries[k].name == name,
        forall|j: int| k < j < n ==> (#[trigger] entries[j]).name != name,
    ensures
        last_flag(entries, name, n) == (if k >= 0 {
            Some(entries[k].enabled)
        } else {
            None
        }),
    decreases n,
{
    if n > 0 && k < n - 1 {
        lemma_last_flag(entries, name, k, n - 1);
    }
}

/// A tool is found where its name first stands.
pub proof fn tools_are_found_by_name(tools: Seq<BuiltinView>, name: Seq<char>, i: int)
    requires
        0 <= i <= tools.len(),
        forall|j: int| 0 <= j < i ==> (#[trigger] tools[j]).tool.name != name,
    ensures
        i < tools.len() && tools[i].tool.name == name ==> first_named(tools, name, 0) == Some(i),
        i == tools.len() ==> first_named(tools, name, 0) is None,
{
    lemma_first_place(tools, name, i, 0);
}

proof fn lemma_first_place(tools: Seq<BuiltinView>, name: Seq<char>, i: int, from: int)
    requires
        0 <= from <= i <= tools.len(),
        forall|j: int| 0 <= j < i ==> (#[trigger] tools[j]).tool.name != name,
    ensures
        i < tools.len() && tools[i].tool.name == name ==> first_named(tools, name, from) == Some(i),
        i == tools.len() ==> first_named(tools, name, from) is None,
    decreases i - from,
{
    if from < i {
        lemma_first_place(tools, name, i, from + 1);
    }
}

/// A tool that is added takes the place of the first of its name, else the last
/// place; the others stay where they are.
pub proof fn added_tools_take_their_place(tools: Seq<BuiltinView>, entry: BuiltinView, i: int)
    requires
        0 <= i <= tools.len(),
        forall|j: int| 0 <= j < i ==> (#[trigger] tools[j]).tool.name != entry.tool.name,
        i < tools.len() ==> tools[i].tool.name == entry.tool.name,
    ensures
        with_tool(tools, entry)[i] == entry,
        with_tool(tools, entry).len() == (if i < tools.len() {
            tools.len()
        } else {
            tools.len() + 1
        }),
        forall|j: int|
            0 <= j < tools.len() && j != i ==> #[trigger] with_tool(tools, entry)[j] == tools[j],
{
    tools_are_found_by_name(tools, entry.tool.name, i);
}

/// Of several tools that are added each is there afterwards, unless a later one
/// has its name.
pub proof fn added_tools_are_there(
    tools: Seq<BuiltinView>,
    more: Seq<BuiltinView>,
    n: int,
    i: int,
)
    requires
        0 <= i < n <= more.len(),
        forall|j: int| i < j < n ==> (#[trigger] more[j]).tool.name != more[i].tool.name,
    ensures
        with_tools(tools, more, n).contains(more[i]),
    decreases n,
{
    let before = with_tools(tools, more, n - 1);
    let entry = more[n - 1];
    let at = lemma_place_of(before, entry.tool.name, 0);
    added_tools_take_their_place(before, entry, at);
    if i == n - 1 {
        assert(with_tools(tools, more, n)[at] == entry);
    } else {
        added_tools_are_there(tools, more, n - 1, i);
        let k = choose|k: int| 0 <= k < before.len() && before[k] == more[i];
        assert(k != at);
        assert(with_tools(tools, more, n)[k] == more[i]);
    }
}

proof fn lemma_place_of(tools: Seq<BuiltinView>, name: Seq<char>, from: int) -> (i: int)
    requires
        0 <= from <= tools.len(),
        forall|j: int| 0 <= j < from ==> (#[trigger] tools[j]).tool.name != name,
    ensures
        from <= i <= tools.len(),
        forall|j: int| 0 <= j < i ==> (#[trigger] tools[j]).tool.name != name,
        i < tools.len() ==> tools[i].tool.name == name,
    decreases tools.len() - from,
{
    if from == tools.len() || tools[from].tool.name == name {
        from
    } else {
        lemma_place_of(tools, name, from + 1)
    }
}

/// Removing a name takes the tools of that name and no others, and keeps the
/// order.
pub proof fn only_the_named_tools_are_removed(
    a: Seq<BuiltinView>,
    b: Seq<BuiltinView>,
    t: BuiltinView,
    name: Seq<char>,
)
    ensures
        without_tool(a + b, name) == without_tool(a, name) + without_tool(b, name),
        t.tool.name == name ==> without_tool(seq![t], name).len() == 0,
        t.tool.name != name ==> without_tool(seq![t], name) == seq![t],
    decreases b.len(),
{
    reveal_with_fuel(without_tool, 3);
    assert(seq![t].drop_last() =~= Seq::<BuiltinView>::empty());
    if b.len() == 0 {
        assert(a + b =~= a);
    } else {
        assert((a + b).drop_last() =~= a + b.drop_last());
        only_the_named_tools_are_removed(a, b.drop_last(), t, name);
        assert(without_tool(a + b, name) =~= without_tool(a, name) + without_tool(b, name));
    }
}

/// Where the context tools are switched off, they go and all others stay, in
/// order.
pub proof fn only_the_context_tools_are_switched_off(
    a: Seq<BuiltinView>,
    b: Seq<BuiltinView>,
    t: BuiltinView,
)
    ensures
        without_platform(a + b) == without_platform(a) + without_platform(b),
        platform_protected(t.tool.name) ==> without_platform(seq![t]).len() == 0,
        !platform_protected(t.tool.name) ==> without_platform(seq![t]) == seq![t],
{
    let first = "context_retrieve"@;
    let second = "context_abandon"@;
    only_the_named_tools_are_removed(a, b, t, first);
    only_the_named_tools_are_removed(without_tool(a, first), without_tool(b, first), t, second);
    if t.tool.name == first {
        assert(without_tool(without_tool(seq![t], first), second).len() == 0);
    }
}

/// Where the context tools are switched on, each is there; the tools that were
/// there stay as they were, and in front.
pub proof fn context_tools_are_switched_on(
    tools: Seq<BuiltinView>,
    platform: Seq<BuiltinView>,
    n: int,
    i: int,
)
    requires
        0 <= i < n <= platform.len(),
    ensures
        ({
            let after = with_platform(tools, platform, n);
            &&& after.len() >= tools.len()
            &&& after.take(tools.len() as int) == tools
            &&& exists|k: int|
                0 <= k < after.len() && (#[trigger] after[k]).tool.name == platform[i].tool.name
            &&& forall|k: int|
                tools.len() <= k < after.len() ==> platform.contains(#[trigger] after[k])
        }),
    decreases n,
{
    let before = with_platform(tools, platform, n - 1);
    let after = with_platform(tools, platform, n);
    let name = platform[n - 1].tool.name;
    lemma_platform_behind(tools, platform, n);
    if i < n - 1 {
        context_tools_are_switched_on(tools, platform, n - 1, i);
        let k = choose|k: int|
            0 <= k < before.len() && (#[trigger] before[k]).tool.name == platform[i].tool.name;
        assert(after[k] == before[k]);
    } else {
        let at = lemma_place_of(before, name, 0);
        tools_are_found_by_name(before, name, at);
        assert(after[at].tool.name == name);
    }
}

proof fn lemma_platform_behind(tools: Seq<BuiltinView>, platform: Seq<BuiltinView>, n: int)
    requires
        0 <= n <= platform.len(),
    ensures
        ({
            let after = with_platform(tools, platform, n);
            &&& after.len() >= tools.len()
            &&& after.take(tools.len() as int) == tools
            &&& forall|k: int|
                tools.len() <= k < after.len() ==> platform.contains(#[trigger] after[k])
        }),
    decreases n,
{
    let after = with_platform(tools, platform, n);
    if n > 0 {
        lemma_platform_behind(tools, platform, n - 1);
        let before = with_platform(tools, platform, n - 1);
        assert(platform.contains(platform[n - 1]));
        assert(after.take(tools.len() as int) =~= before.take(tools.len() as int));
    } else {
        assert(after.take(tools.len() as int) =~= tools);
    }
}

/// The model sees the enabled tools, in order, and no others.
pub proof fn enabled_tools_are_seen(a: Seq<BuiltinView>, b: Seq<BuiltinView>, t: BuiltinView)
    ensures
        visible_specs(a + b) == visible_specs(a) + visible_specs(b),
        t.enabled ==> visible_specs(seq![t]) == seq![t.tool.spec],
        !t.enabled ==> visible_specs(seq![t]).len() == 0,
    decreases b.len(),
{
    reveal_with_fuel(visible_specs, 3);
    assert(seq![t].drop_last() =~= Seq::<BuiltinView>::empty());
    if b.len() == 0 {
        assert(a + b =~= a);
    } else {
        assert((a + b).drop_last() =~= a + b.drop_last());
        enabled_tools_are_seen(a, b.drop_last(), t);
        assert(visible_specs(a + b) =~= visible_specs(a) + visible_specs(b));
    }
}

/// The tools of the servers stand behind the runtime's own, as they came; what
/// they were before is gone, and each of the runtime's own stays.
pub proof fn server_tools_are_replaced(
    a: Seq<ToolDefView>,
    b: Seq<ToolDefView>,
    t: ToolDefView,
    mcp: Seq<ToolDefView>,
)
    ensures
        own_specs(a + b) == own_specs(a) + own_specs(b),
        occurs_at(t.name, "mcp_"@, 0) ==> own_specs(seq![t]).len() == 0,
        !occurs_at(t.name, "mcp_"@, 0) ==> own_specs(seq![t]) == seq![t],
        specs_with_mcp(a, Some(mcp)) == specs_with_mcp(a, None) + mcp,
        specs_with_mcp(a, None) == own_specs(a),
    decreases b.len(),
{
    reveal_with_fuel(own_specs, 3);
    assert(seq![t].drop_last() =~= Seq::<ToolDefView>::empty());
    if b.len() == 0 {
        assert(a + b =~= a);
    } else {
        assert((a + b).drop_last() =~= a + b.drop_last());
        server_tools_are_replaced(a, b.drop_last(), t, mcp);
        assert(own_specs(a + b) =~= own_specs(a) + own_specs(b));
    }
}

} // verus!
