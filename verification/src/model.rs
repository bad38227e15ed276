//! Models and the providers that offer them.

use vstd::prelude::*;

use crate::text::same_text;

verus! {

/// What a provider says of one of its models.
#[derive(Debug, PartialEq, Eq)]
pub struct ModelCapabilitiesInfo {
    pub context_window: u64,
    pub max_output_tokens: u64,
    pub max_input_tokens: Option<u64>,
    pub supports_tool_calling: bool,
    pub supports_reasoning: Option<bool>,
    pub supports_attachment: Option<bool>,
    pub supports_temperature: Option<bool>,
    pub name: Option<String>,
    pub family: Option<String>,
    pub knowledge_cutoff: Option<String>,
    pub default_reasoning_effort: Option<String>,
    pub thinking_mode: Option<String>,
}

fn copy_text(text: &Option<String>) -> (r: Option<String>)
    ensures
        r == *text,
{
    match text {
        Some(t) => Some(t.clone()),
        None => None,
    }
}

impl Clone for ModelCapabilitiesInfo {
    fn clone(&self) -> (r: Self)
        ensures
            r == *self,
    {
        ModelCapabilitiesInfo {
            context_window: self.context_window,
            max_output_tokens: self.max_output_tokens,
            max_input_tokens: self.max_input_tokens,
            supports_tool_calling: self.supports_tool_calling,
            supports_reasoning: self.supports_reasoning,
            supports_attachment: self.supports_attachment,
            supports_temperature: self.supports_temperature,
            name: copy_text(&self.name),
            family: copy_text(&self.family),
            knowledge_cutoff: copy_text(&self.knowledge_cutoff),
            default_reasoning_effort: copy_text(&self.default_reasoning_effort),
            thinking_mode: copy_text(&self.thinking_mode),
        }
    }
}

/// A model in a provider's list.
#[derive(Debug)]
pub struct ProviderModelEntry {
    pub id: String,
    pub capabilities: ModelCapabilitiesInfo,
    pub max_output_tokens_limit: u64,
}

/// A configured provider.
#[derive(Debug)]
pub struct ProviderListItem {
    pub id: String,
    pub base_url: String,
    /// Whether the provider runs on this machine and needs no key.
    pub local: bool,
    pub compact_model: Option<String>,
    pub custom: bool,
    pub models: Vec<ProviderModelEntry>,
}

/// The first model `id` of a provider, from `from` on.
pub open spec fn model_in(models: Seq<ProviderModelEntry>, id: Seq<char>, from: int) -> Option<
    ProviderModelEntry,
>
    decreases models.len() - from,
{
    if from < 0 || from >= models.len() {
        None
    } else if models[from].id@ == id {
        Some(models[from])
    } else {
        model_in(models, id, from + 1)
    }
}

/// The first model `id` of the first provider that has it, from `from` on.
pub open spec fn find_model(list: Seq<ProviderListItem>, id: Seq<char>, from: int) -> Option<
    ProviderModelEntry,
>
    decreases list.len() - from,
{
    if from < 0 || from >= list.len() {
        None
    } else {
        match model_in(list[from].models@, id, 0) {
            Some(m) => Some(m),
            None => find_model(list, id, from + 1),
        }
    }
}

/// The first provider `id`, from `from` on.
pub open spec fn find_provider(list: Seq<ProviderListItem>, id: Seq<char>, from: int) -> Option<
    ProviderListItem,
>
    decreases list.len() - from,
{
    if from < 0 || from >= list.len() {
        None
    } else if list[from].id@ == id {
        Some(list[from])
    } else {
        find_provider(list, id, from + 1)
    }
}

fn lookup_in<'a>(models: &'a Vec<ProviderModelEntry>, id: &str) -> (r: Option<
    &'a ProviderModelEntry,
>)
    ensures
        match r {
            Some(m) => model_in(models@, id@, 0) == Some(*m),
            None => model_in(models@, id@, 0) is None,
        },
{
    let mut i: usize = 0;
    while i < models.len()
        invariant
            i <= models.len(),
            model_in(models@, id@, 0) == model_in(models@, id@, i as int),
        decreases models.len() - i,
    {
        if same_text(models[i].id.as_str(), id) {
            return Some(&models[i]);
        }
        i = i + 1;
    }
    None
}

/// The first model `id` of the first provider that has it.
pub fn lookup_model<'a>(list: &'a Vec<ProviderListItem>, id: &str) -> (r: Option<
    &'a ProviderModelEntry,
>)
    ensures
        match r {
            Some(m) => find_model(list@, id@, 0) == Some(*m),
            None => find_model(list@, id@, 0) is None,
        },
{
    let mut i: usize = 0;
    while i < list.len()
        invariant
            i <= list.len(),
            find_model(list@, id@, 0) == find_model(list@, id@, i as int),
        decreases list.len() - i,
    {
        if let Some(m) = lookup_in(&list[i].models, id) {
            return Some(m);
        }
        i = i + 1;
    }
    None
}

/// The first provider `id`.
pub fn lookup_provider<'a>(list: &'a Vec<ProviderListItem>, id: &str) -> (r: Option<
    &'a ProviderListItem,
>)
    ensures
        match r {
            Some(p) => find_provider(list@, id@, 0) == Some(*p),
            None => find_provider(list@, id@, 0) is None,
        },
{
    let mut i: usize = 0;
    while i < list.len()
        invariant
            i <= list.len(),
            find_provider(list@, id@, 0) == find_provider(list@, id@, i as int),
        decreases list.len() - i,
    {
        if same_text(list[i].id.as_str(), id) {
            return Some(&list[i]);
        }
        i = i + 1;
    }
    None
}

/// A model `id` stands at place `p` of the list, and is the `m`-th of its
/// provider.
pub open spec fn lists_model(
    list: Seq<ProviderListItem>,
    id: Seq<char>,
    p: int,
    m: int,
) -> bool {
    0 <= p < list.len() && 0 <= m < list[p].models@.len() && list[p].models@[m].id@ == id
}

/// A model is found where it is first listed: of the first provider that has it,
/// and there the first entry under its name.
pub proof fn first_listed_model_is_found(
    list: Seq<ProviderListItem>,
    id: Seq<char>,
    p: int,
    m: int,
)
    requires
        lists_model(list, id, p, m),
        forall|q: int, n: int| 0 <= q < p ==> !#[trigger] lists_model(list, id, q, n),
        forall|n: int| 0 <= n < m ==> !#[trigger] lists_model(list, id, p, n),
    ensures
        find_model(list, id, 0) == Some(list[p].models@[m]),
{
    lemma_model_found(list, id, p, m, 0);
}

proof fn lemma_model_in_found(models: Seq<ProviderModelEntry>, id: Seq<char>, m: int, from: int)
    requires
        0 <= from <= m < models.len(),
        models[m].id@ == id,
        forall|n: int| from <= n < m ==> (#[trigger] models[n]).id@ != id,
    ensures
        model_in(models, id, from) == Some(models[m]),
    decreases m - from,
{
    if from < m {
        lemma_model_in_found(models, id, m, from + 1);
    }
}

proof fn lemma_model_in_none(models: Seq<ProviderModelEntry>, id: Seq<char>, from: int)
    requires
        0 <= from <= models.len(),
        forall|n: int| from <= n < models.len() ==> (#[trigger] models[n]).id@ != id,
    ensures
        model_in(models, id, from) is None,
    decreases models.len() - from,
{
    if from < models.len() {
        lemma_model_in_none(models, id, from + 1);
    }
}

proof fn lemma_model_found(
    list: Seq<ProviderListItem>,
    id: Seq<char>,
    p: int,
    m: int,
    from: int,
)
    requires
        0 <= from <= p,
        lists_model(list, id, p, m),
        forall|q: int, n: int| 0 <= q < p ==> !#[trigger] lists_model(list, id, q, n),
        forall|n: int| 0 <= n < m ==> !#[trigger] lists_model(list, id, p, n),
    ensures
        find_model(list, id, from) == Some(list[p].models@[m]),
    decreases p - from,
{
    if from < p {
        assert forall|n: int| 0 <= n < list[from].models@.len() implies (
        #[trigger] list[from].models@[n]).id@ != id by {
            assert(!lists_model(list, id, from, n));
        }
        lemma_model_in_none(list[from].models@, id, 0);
        lemma_model_found(list, id, p, m, from + 1);
    } else {
        assert forall|n: int| 0 <= n < m implies (#[trigger] list[p].models@[n]).id@ != id by {
            assert(!lists_model(list, id, p, n));
        }
        lemma_model_in_found(list[p].models@, id, m, 0);
    }
}

/// A model that no provider lists is not found.
pub proof fn unlisted_models_are_not_found(list: Seq<ProviderListItem>, id: Seq<char>)
    requires
        forall|q: int, n: int| !#[trigger] lists_model(list, id, q, n),
    ensures
        find_model(list, id, 0) is None,
{
    lemma_model_not_found(list, id, 0);
}

proof fn lemma_model_not_found(list: Seq<ProviderListItem>, id: Seq<char>, from: int)
    requires
        0 <= from <= list.len(),
        forall|q: int, n: int| !#[trigger] lists_model(list, id, q, n),
    ensures
        find_model(list, id, from) is None,
    decreases list.len() - from,
{
    if from < list.len() {
        assert forall|n: int| 0 <= n < list[from].models@.len() implies (
        #[trigger] list[from].models@[n]).id@ != id by {
            assert(!lists_model(list, id, from, n));
        }
        lemma_model_in_none(list[from].models@, id, 0);
        lemma_model_not_found(list, id, from + 1);
    }
}

/// A provider is found where it is first listed, and only where it is listed.
pub proof fn first_listed_provider_is_found(list: Seq<ProviderListItem>, id: Seq<char>, p: int)
    requires
        0 <= p <= list.len(),
        forall|q: int| 0 <= q < p ==> (#[trigger] list[q]).id@ != id,
    ensures
        p < list.len() && list[p].id@ == id ==> find_provider(list, id, 0) == Some(list[p]),
        p == list.len() ==> find_provider(list, id, 0) is None,
{
    if p == list.len() || list[p].id@ == id {
        lemma_provider_found(list, id, p, 0);
    }
}

proof fn lemma_provider_found(list: Seq<ProviderListItem>, id: Seq<char>, p: int, from: int)
    requires
        0 <= from <= p <= list.len(),
        forall|q: int| 0 <= q < p ==> (#[trigger] list[q]).id@ != id,
        p < list.len() ==> list[p].id@ == id,
    ensures
        p < list.len() ==> find_provider(list, id, from) == Some(list[p]),
        p == list.len() ==> find_provider(list, id, from) is None,
    decreases p - from,
{
    if from < p {
        lemma_provider_found(list, id, p, from + 1);
    }
}

} // verus!
