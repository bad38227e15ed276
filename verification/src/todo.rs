//! The `todo_write` tool: reading the list that the model writes.

use vstd::prelude::*;

use crate::agent_loop::AgentLoop;
use crate::json::{
    items_view, lemma_array_view, parse_json, parsed_json, Json, JsonView,
};
use crate::message::ToolCall;
use crate::session::{
    ChunkEvent, ChunkView, SessionCore, SessionState, TodoItem, TodoStatus, TodoView,
};
use crate::text::{decimal, decimal_spec, same_text};

verus! {

/// A list that the model wrote.
#[derive(Debug)]
pub struct TodoWrite {
    pub items: Vec<TodoItem>,
    /// Whether the items are merged into the list that stands, or replace it.
    pub merge: bool,
}

/// What a [`TodoWrite`] holds.
pub struct TodoWriteView {
    pub items: Seq<TodoView>,
    pub merge: bool,
}

impl DeepView for TodoWrite {
    type V = TodoWriteView;

    open spec fn deep_view(&self) -> TodoWriteView {
        TodoWriteView { items: self.items.deep_view(), merge: self.merge }
    }
}

/// The status that a word stands for.
pub open spec fn status_of(word: Seq<char>) -> Option<TodoStatus> {
    if word == "pending"@ {
        Some(TodoStatus::Pending)
    } else if word == "in_progress"@ {
        Some(TodoStatus::InProgress)
    } else if word == "completed"@ {
        Some(TodoStatus::Completed)
    } else {
        None
    }
}

/// One entry: its id, content and status, or what is wrong with it.
pub open spec fn todo_entry(item: JsonView) -> Result<TodoView, Seq<char>> {
    match item.text_at("id"@) {
        None => Err("Error: each todo item must have a string 'id' field"@),
        Some(id) => match item.text_at("content"@) {
            None => Err("Error: todo item '"@ + id + "' missing required 'content' field"@),
            Some(content) => match item.text_at("status"@) {
                None => Err("Error: todo item '"@ + id + "' missing required 'status' field"@),
                Some(word) => match status_of(word) {
                    Some(status) => Ok(TodoView { id, content, status }),
                    None => Err(
                        "Error: todo item '"@ + id + "' has invalid status '"@ + word
                            + "'. Must be one of: pending, in_progress, completed"@,
                    ),
                },
            },
        },
    }
}

/// The first `n` entries, or what is wrong with the first bad one.
pub open spec fn todo_entries(items: Seq<JsonView>, n: int) -> Result<Seq<TodoView>, Seq<char>>
    decreases n,
{
    if n <= 0 {
        Ok(Seq::empty())
    } else {
        match todo_entries(items, n - 1) {
            Err(e) => Err(e),
            Ok(before) => match todo_entry(items[n - 1]) {
                Ok(t) => Ok(before.push(t)),
                Err(e) => Err(e),
            },
        }
    }
}

/// The list in parsed parameters, or what is wrong with them.
pub open spec fn todo_list(params: JsonView) -> Result<TodoWriteView, Seq<char>> {
    match params.get("todos"@) {
        Some(JsonView::Array(items)) => match todo_entries(items, items.len() as int) {
            Ok(entries) => Ok(
                TodoWriteView {
                    items: entries,
                    merge: params.get("merge"@) == Some(JsonView::Bool(true)),
                },
            ),
            Err(e) => Err(e),
        },
        _ => Err("Error: todo_write requires a 'todos' array parameter"@),
    }
}

fn read_entry(item: &Json) -> (r: Result<TodoItem, String>)
    ensures
        match r {
            Ok(t) => todo_entry(item.deep_view()) == Ok::<TodoView, Seq<char>>(t.deep_view()),
            Err(e) => todo_entry(item.deep_view()) == Err::<TodoView, Seq<char>>(e@),
        },
{
    let id = match item.get_str("id") {
        Some(s) => s,
        None => {
            return Err("Error: each todo item must have a string 'id' field".to_owned());
        },
    };
    let content = match item.get_str("content") {
        Some(s) => s,
        None => {
            return Err(
                crate::text::join3(
                    "Error: todo item '",
                    id,
                    "' missing required 'content' field",
                ),
            );
        },
    };
    let word = match item.get_str("status") {
        Some(s) => s,
        None => {
            return Err(
                crate::text::join3("Error: todo item '", id, "' missing required 'status' field"),
            );
        },
    };
    let status = if same_text(word, "pending") {
        TodoStatus::Pending
    } else if same_text(word, "in_progress") {
        TodoStatus::InProgress
    } else if same_text(word, "completed") {
        TodoStatus::Completed
    } else {
        let mut s = "Error: todo item '".to_owned();
        s.append(id);
        s.append("' has invalid status '");
        s.append(word);
        s.append("'. Must be one of: pending, in_progress, completed");
        return Err(s);
    };
    Ok(TodoItem { id: id.to_owned(), content: content.to_owned(), status })
}

/// Once an entry is bad, the list is.
proof fn lemma_bad_entry(items: Seq<JsonView>, i: int, n: int)
    requires
        0 <= i <= n,
        todo_entries(items, i) is Err,
    ensures
        todo_entries(items, n) == todo_entries(items, i),
    decreases n,
{
    if i < n {
        lemma_bad_entry(items, i, n - 1);
    }
}

/// The list in parsed parameters, or what is wrong with them.
pub fn read_todo_list(params: &Json) -> (r: Result<TodoWrite, String>)
    ensures
        match r {
            Ok(t) => todo_list(params.deep_view()) == Ok::<TodoWriteView, Seq<char>>(t.deep_view()),
            Err(e) => todo_list(params.deep_view()) == Err::<TodoWriteView, Seq<char>>(e@),
        },
{
    let merge = match params.get("merge") {
        Some(Json::Bool(b)) => *b,
        _ => false,
    };
    match params.get("todos") {
        Some(list) => match list {
            Json::Array(array) => {
                proof {
                    lemma_array_view(list);
                }
                let ghost views = items_view(array@);
                let mut items: Vec<TodoItem> = Vec::new();
                let mut i: usize = 0;
                assert(items.deep_view() =~= Seq::empty());
                while i < array.len()
                    invariant
                        i <= array.len(),
                        views == items_view(array@),
                        params.deep_view().get("todos"@) == Some(JsonView::Array(views)),
                        todo_entries(views, i as int) == Ok::<Seq<TodoView>, Seq<char>>(
                            items.deep_view(),
                        ),
                    decreases array.len() - i,
                {
                    assert(views[i as int] == array@[i as int].deep_view());
                    match read_entry(&array[i]) {
                        Ok(t) => {
                            let ghost before = items.deep_view();
                            items.push(t);
                            assert(items.deep_view() =~= before.push(t.deep_view()));
                        },
                        Err(e) => {
                            proof {
                                assert(todo_entries(views, i + 1) == Err::<
                                    Seq<TodoView>,
                                    Seq<char>,
                                >(e@));
                                lemma_bad_entry(views, i + 1, views.len() as int);
                            }
                            return Err(e);
                        },
                    }
                    i = i + 1;
                }
                Ok(TodoWrite { items, merge })
            },
            _ => Err("Error: todo_write requires a 'todos' array parameter".to_owned()),
        },
        None => Err("Error: todo_write requires a 'todos' array parameter".to_owned()),
    }
}

/// Reads the list that a `todo_write` call writes; where it cannot be read,
/// the error is what the model is told.
pub fn handle_todo_write(tc: &ToolCall) -> (r: Result<TodoWrite, String>)
    ensures
        match parsed_json(tc.function.arguments@) {
            Ok(params) => match r {
                Ok(t) => todo_list(params) == Ok::<TodoWriteView, Seq<char>>(t.deep_view()),
                Err(e) => todo_list(params) == Err::<TodoWriteView, Seq<char>>(e@),
            },
            Err(e) => r matches Err(text) && text@
                == "Error: todo_write arguments are not valid JSON: "@ + e,
        },
{
    match parse_json(tc.function.arguments.as_str()) {
        Ok(params) => read_todo_list(&params),
        Err(e) => Err(
            crate::text::join2("Error: todo_write arguments are not valid JSON: ", e.as_str()),
        ),
    }
}

/// What the model is told of a list of `count` entries that was written.
pub open spec fn reply_text(count: nat, merge: bool, formatted: Option<Seq<char>>) -> Seq<char> {
    match formatted {
        Some(list) => "Todo list updated ("@ + decimal_spec(count) + " items, merge="@ + (
        if merge {
            "true"@
        } else {
            "false"@
        }) + "):\n"@ + list,
        None => "Todo list is now empty."@,
    }
}

/// What the model is told of a list that was written: `formatted` is the list
/// as it now stands, if there is anything in it.
pub fn todo_reply(count: usize, merge: bool, formatted: Option<&str>) -> (r: String)
    ensures
        r@ == reply_text(
            count as nat,
            merge,
            match formatted {
                Some(list) => Some(list@),
                None => None,
            },
        ),
{
    match formatted {
        Some(list) => {
            let mut s = "Todo list updated (".to_owned();
            s.append(decimal(count as u64).as_str());
            s.append(" items, merge=");
            if merge {
                s.append("true");
            } else {
                s.append("false");
            }
            s.append("):\n");
            s.append(list);
            s
        },
        None => "Todo list is now empty.".to_owned(),
    }
}

impl AgentLoop {
    /// Finishes a `todo_write` call, once the entries have been put into the
    /// list of the session: `todos` is the list as it now stands, `formatted`
    /// its text. Keeps the list, shows it to the frontend, and gives what the
    /// model is told.
    pub fn finish_todo_write(
        &mut self,
        todos: Vec<TodoItem>,
        merge: bool,
        formatted: Option<&str>,
    ) -> (r: String)
        ensures
            r@ == reply_text(
                todos.len() as nat,
                merge,
                match formatted {
                    Some(list) => Some(list@),
                    None => None,
                },
            ),
            final(self).session.todos == todos,
            final(self).session_core.outbox.deep_view() == old(
                self,
            ).session_core.outbox.deep_view().push(
                ChunkView::TodoListUpdated { todos: todos.deep_view() },
            ),
            *final(self) == (AgentLoop {
                session: SessionState { todos: final(self).session.todos, ..old(self).session },
                session_core: SessionCore {
                    outbox: final(self).session_core.outbox,
                    ..old(self).session_core
                },
                ..*old(self)
            }),
    {
        let shown = todos.clone();
        assert(shown.deep_view() =~= todos.deep_view());
        let reply = todo_reply(todos.len(), merge, formatted);
        self.session.todos = todos;
        self.session_core.send(ChunkEvent::TodoListUpdated { todos: shown });
        reply
    }
}

// ── Laws ────────────────────────────────────────────────────────────────

/// A list is taken whole or not at all: it is read exactly when each of its
/// entries is, and then holds one entry for each, in order.
pub proof fn todo_list_is_all_or_nothing(items: Seq<JsonView>, n: int)
    requires
        0 <= n <= items.len(),
    ensures
        todo_entries(items, n) is Ok <==> forall|i: int|
            0 <= i < n ==> todo_entry(#[trigger] items[i]) is Ok,
        todo_entries(items, n) matches Ok(entries) ==> entries.len() == n && forall|i: int|
            0 <= i < n ==> todo_entry(#[trigger] items[i]) == Ok::<TodoView, Seq<char>>(entries[i]),
    decreases n,
{
    if n > 0 {
        todo_list_is_all_or_nothing(items, n - 1);
        if todo_entries(items, n) is Ok {
            assert forall|i: int| 0 <= i < n implies todo_entry(#[trigger] items[i]) is Ok by {
                if i == n - 1 {
                    assert(todo_entry(items[n - 1]) is Ok);
                }
            }
        }
    }
}

/// The three words for where a todo stands; every other word is refused.
pub proof fn todos_stand_in_three_words(word: Seq<char>)
    ensures
        status_of("pending"@) == Some(TodoStatus::Pending),
        status_of("in_progress"@) == Some(TodoStatus::InProgress),
        status_of("completed"@) == Some(TodoStatus::Completed),
        status_of(word) is Some ==> word == "pending"@ || word == "in_progress"@ || word
            == "completed"@,
{
    reveal_strlit("pending");
    reveal_strlit("in_progress");
    reveal_strlit("completed");
    assert("pending"@.len() == 7 && "in_progress"@.len() == 11 && "completed"@.len() == 9);
}

/// An entry needs an id, a text and a known word for where it stands, and is
/// read as these say; where one is missing, the first that is missing is named.
pub proof fn todo_entries_need_their_fields(item: JsonView)
    ensures
        ({
            let id = item.text_at("id"@);
            let content = item.text_at("content"@);
            let word = item.text_at("status"@);
            &&& todo_entry(item) is Ok <==> id is Some && content is Some && word is Some
                && status_of(word->0) is Some
            &&& todo_entry(item) matches Ok(t) ==> Some(t.id) == id && Some(t.content) == content
                && Some(t.status) == status_of(word->0)
            &&& id is None ==> todo_entry(item) == Err::<TodoView, Seq<char>>(
                "Error: each todo item must have a string 'id' field"@,
            )
            &&& id is Some && content is None ==> todo_entry(item) == Err::<TodoView, Seq<char>>(
                "Error: todo item '"@ + id->0 + "' missing required 'content' field"@,
            )
            &&& id is Some && content is Some && word is None ==> todo_entry(item) == Err::<
                TodoView,
                Seq<char>,
            >("Error: todo item '"@ + id->0 + "' missing required 'status' field"@)
            &&& id is Some && content is Some && word is Some && status_of(word->0) is None
                ==> todo_entry(item) == Err::<TodoView, Seq<char>>(
                "Error: todo item '"@ + id->0 + "' has invalid status '"@ + word->0
                    + "'. Must be one of: pending, in_progress, completed"@,
            )
        }),
{
}

/// A list is read entry by entry, in order; a bad entry is the error of the
/// list. It is merged with the old one only where the parameters say so.
pub proof fn todo_lists_are_read_in_order(params: JsonView, items: Seq<JsonView>, i: int)
    requires
        params.get("todos"@) == Some(JsonView::Array(items)),
        0 <= i < items.len(),
    ensures
        todo_list(params) matches Ok(list) ==> {
            &&& list.items.len() == items.len()
            &&& todo_entry(items[i]) == Ok::<TodoView, Seq<char>>(list.items[i])
            &&& list.merge <==> params.get("merge"@) == Some(JsonView::Bool(true))
        },
        todo_entry(items[i]) is Err && (forall|j: int|
            0 <= j < i ==> todo_entry(#[trigger] items[j]) is Ok) ==> todo_list(params) == Err::<
            TodoWriteView,
            Seq<char>,
        >(todo_entry(items[i])->Err_0),
{
    let n = items.len() as int;
    if todo_entries(items, n) is Ok {
        lemma_entries_in_order(items, n, i);
    }
    if todo_entry(items[i]) is Err && (forall|j: int|
        0 <= j < i ==> todo_entry(#[trigger] items[j]) is Ok) {
        lemma_good_entries(items, i);
        lemma_bad_entry(items, i + 1, n);
    }
}

proof fn lemma_entries_in_order(items: Seq<JsonView>, n: int, i: int)
    requires
        0 <= i < n,
        todo_entries(items, n) is Ok,
    ensures
        todo_entries(items, n)->Ok_0.len() == n,
        todo_entry(items[i]) == Ok::<TodoView, Seq<char>>(todo_entries(items, n)->Ok_0[i]),
    decreases n,
{
    if i < n - 1 {
        lemma_entries_in_order(items, n - 1, i);
    } else if n > 1 {
        lemma_entries_in_order(items, n - 1, 0);
    }
}

proof fn lemma_good_entries(items: Seq<JsonView>, n: int)
    requires
        0 <= n,
        forall|j: int| 0 <= j < n ==> todo_entry(#[trigger] items[j]) is Ok,
    ensures
        todo_entries(items, n) is Ok,
    decreases n,
{
    if n > 0 {
        lemma_good_entries(items, n - 1);
        assert(todo_entry(items[n - 1]) is Ok);
    }
}

/// Parameters without a list are refused.
pub proof fn todo_lists_are_needed(params: JsonView)
    requires
        !(params.get("todos"@) matches Some(JsonView::Array(_))),
    ensures
        todo_list(params) == Err::<TodoWriteView, Seq<char>>(
            "Error: todo_write requires a 'todos' array parameter"@,
        ),
{
}

/// The model is told how many entries came, whether they were merged, and the
/// list as it is now, or that it is empty.
pub proof fn todo_replies_show_the_list(count: nat, merge: bool, list: Seq<char>)
    ensures
        reply_text(count, merge, None) == "Todo list is now empty."@,
        reply_text(count, true, Some(list)) == "Todo list updated ("@ + decimal_spec(count)
            + " items, merge="@ + "true"@ + "):\n"@ + list,
        reply_text(count, false, Some(list)) == "Todo list updated ("@ + decimal_spec(count)
            + " items, merge="@ + "false"@ + "):\n"@ + list,
{
}

} // verus!
