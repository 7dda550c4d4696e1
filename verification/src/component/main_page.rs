//! The state of the main page as a machine: events come in, the state
//! changes, and at most one remote call goes out for each.

use vstd::prelude::*;
use crate::model::{todo_views, Todo, TodoView};
use crate::service::todo_service::ServerFnError;

verus! {

/// What the page holds.
#[derive(Debug)]
pub struct MainPage {
    /// The list as last fetched; `None` while a fetch is under way.
    pub todos: Option<Vec<Todo>>,
    /// Whether the form is shown.
    pub show_modal: bool,
    /// The Todo that the form edits; `None` where it creates one.
    pub edit_todo_item: Option<Todo>,
    /// How often the list was asked to be fetched again. Every change of it
    /// starts a fetch, and nothing else does after the first one.
    pub todos_refresh: u64,
}

/// The page's state as a mathematical value.
pub struct MainPageView {
    pub todos: Option<Seq<TodoView>>,
    pub show_modal: bool,
    pub edit_todo_item: Option<TodoView>,
    pub todos_refresh: nat,
}

impl View for MainPage {
    type V = MainPageView;

    open spec fn view(&self) -> MainPageView {
        MainPageView {
            todos: match self.todos {
                Some(todos) => Some(todo_views(todos@)),
                None => None,
            },
            show_modal: self.show_modal,
            edit_todo_item: match self.edit_todo_item {
                Some(todo) => Some(todo@),
                None => None,
            },
            todos_refresh: self.todos_refresh as nat,
        }
    }
}

/// What can happen to the page.
#[derive(Debug)]
pub enum Event {
    /// The button that opens the form for a new Todo was pressed.
    ShowModalAdd,
    /// The edit button of a row was pressed.
    EditTodo(Todo),
    /// The form was submitted with this Todo.
    Submit(Todo),
    /// The form was cancelled.
    Cancel,
    /// The delete button of a row was pressed.
    DeleteTodo(Todo),
    /// The call that a submission started has ended; `true` for success.
    Submitted(bool),
    /// The call that a deletion started has ended; `true` for success.
    Deleted(bool),
    /// A fetch of the list has ended.
    Loaded(Result<Vec<Todo>, ServerFnError>),
}

/// An event as a mathematical value. Of a failed fetch only the failure
/// itself counts.
pub enum EventView {
    ShowModalAdd,
    EditTodo(TodoView),
    Submit(TodoView),
    Cancel,
    DeleteTodo(TodoView),
    Submitted(bool),
    Deleted(bool),
    Loaded(Option<Seq<TodoView>>),
}

impl View for Event {
    type V = EventView;

    open spec fn view(&self) -> EventView {
        match self {
            Event::ShowModalAdd => EventView::ShowModalAdd,
            Event::EditTodo(todo) => EventView::EditTodo(todo@),
            Event::Submit(todo) => EventView::Submit(todo@),
            Event::Cancel => EventView::Cancel,
            Event::DeleteTodo(todo) => EventView::DeleteTodo(todo@),
            Event::Submitted(ok) => EventView::Submitted(*ok),
            Event::Deleted(ok) => EventView::Deleted(*ok),
            Event::Loaded(Ok(todos)) => EventView::Loaded(Some(todo_views(todos@))),
            Event::Loaded(Err(_)) => EventView::Loaded(None),
        }
    }
}

/// The remote call that the page asks for, if any.
#[derive(Debug)]
pub enum Action {
    /// No call.
    Nothing,
    /// Store this new Todo.
    InsertTodo(Todo),
    /// Set the title and the description of this stored Todo.
    EditTodo(Todo),
    /// Remove the Todo with this key.
    DeleteTodo(String),
    /// Fetch the list.
    GetTodos,
}

/// An action as a mathematical value.
pub enum ActionView {
    Nothing,
    InsertTodo(TodoView),
    EditTodo(TodoView),
    DeleteTodo(Seq<char>),
    GetTodos,
}

impl View for Action {
    type V = ActionView;

    open spec fn view(&self) -> ActionView {
        match self {
            Action::Nothing => ActionView::Nothing,
            Action::InsertTodo(todo) => ActionView::InsertTodo(todo@),
            Action::EditTodo(todo) => ActionView::EditTodo(todo@),
            Action::DeleteTodo(id) => ActionView::DeleteTodo(id@),
            Action::GetTodos => ActionView::GetTodos,
        }
    }
}

/// The state in which the page starts: the list is being fetched, the form
/// is hidden, nothing is being edited.
pub open spec fn initial() -> MainPageView {
    MainPageView { todos: None, show_modal: false, edit_todo_item: None, todos_refresh: 0 }
}

/// The state after the list was asked to be fetched again: the counter is
/// one higher and the list is under way.
pub open spec fn refreshed(state: MainPageView) -> MainPageView {
    MainPageView { todos: None, todos_refresh: state.todos_refresh + 1, ..state }
}

/// The state after `event`.
pub open spec fn next_state(state: MainPageView, event: EventView) -> MainPageView {
    match event {
        EventView::ShowModalAdd => MainPageView {
            edit_todo_item: None,
            show_modal: true,
            ..state
        },
        EventView::EditTodo(todo) => MainPageView {
            edit_todo_item: Some(todo),
            show_modal: true,
            ..state
        },
        EventView::Submit(_) => state,
        EventView::Cancel => MainPageView { edit_todo_item: None, show_modal: false, ..state },
        EventView::DeleteTodo(_) => state,
        EventView::Submitted(ok) => if ok {
            MainPageView { show_modal: false, ..refreshed(state) }
        } else {
            state
        },
        EventView::Deleted(ok) => if ok {
            refreshed(state)
        } else {
            state
        },
        EventView::Loaded(Some(todos)) => MainPageView { todos: Some(todos), ..state },
        EventView::Loaded(None) => MainPageView { todos: Some(Seq::empty()), ..state },
    }
}

/// The call that `event` asks for in `state`.
pub open spec fn action_of(state: MainPageView, event: EventView) -> ActionView {
    match event {
        EventView::Submit(todo) => if state.edit_todo_item is Some {
            ActionView::EditTodo(todo)
        } else {
            ActionView::InsertTodo(todo)
        },
        EventView::DeleteTodo(todo) => ActionView::DeleteTodo(todo.id),
        EventView::Submitted(ok) => if ok {
            ActionView::GetTodos
        } else {
            ActionView::Nothing
        },
        EventView::Deleted(ok) => if ok {
            ActionView::GetTodos
        } else {
            ActionView::Nothing
        },
        _ => ActionView::Nothing,
    }
}

/// Whether `event` raises the refresh counter.
pub open spec fn raises_counter(event: EventView) -> bool {
    event == EventView::Submitted(true) || event == EventView::Deleted(true)
}

/// One row of the list as shown.
#[derive(Debug)]
pub struct Row {
    /// What tells the row from the others: the key and the description.
    pub key: (String, String),
    pub todo: Todo,
}

/// A row as a mathematical value.
pub struct RowView {
    pub key: (Seq<char>, Seq<char>),
    pub todo: TodoView,
}

impl View for Row {
    type V = RowView;

    open spec fn view(&self) -> RowView {
        RowView { key: (self.key.0@, self.key.1@), todo: self.todo@ }
    }
}

/// What the list panel shows.
#[derive(Debug)]
pub enum ListPanel {
    /// A fetch is under way.
    Loading,
    /// The list was fetched and holds nothing.
    Empty,
    /// The list was fetched; one row for each Todo, in the list's order.
    Populated(Vec<Row>),
}

/// What the list panel shows, as a mathematical value.
pub enum ListPanelView {
    Loading,
    Empty,
    Populated(Seq<RowView>),
}

impl View for ListPanel {
    type V = ListPanelView;

    open spec fn view(&self) -> ListPanelView {
        match self {
            ListPanel::Loading => ListPanelView::Loading,
            ListPanel::Empty => ListPanelView::Empty,
            ListPanel::Populated(rows) => ListPanelView::Populated(
                Seq::new(rows@.len(), |i: int| rows@[i]@),
            ),
        }
    }
}

/// The row that shows `todo`.
pub open spec fn row_of(todo: TodoView) -> RowView {
    RowView { key: (todo.id, todo.description), todo }
}

/// What the list panel shows for a list: that it is loading while there is
/// none, that it is empty where it holds nothing, its rows otherwise.
pub open spec fn panel_of(todos: Option<Seq<TodoView>>) -> ListPanelView {
    match todos {
        None => ListPanelView::Loading,
        Some(todos) => if todos.len() == 0 {
            ListPanelView::Empty
        } else {
            ListPanelView::Populated(Seq::new(todos.len(), |i: int| row_of(todos[i])))
        },
    }
}

/// What the form shows.
#[derive(Debug)]
pub enum Modal {
    /// The form is not shown.
    Hidden,
    /// The form is shown for a new Todo.
    Create,
    /// The form is shown for this stored Todo.
    Edit(Todo),
}

/// What the form shows, as a mathematical value.
pub enum ModalView {
    Hidden,
    Create,
    Edit(TodoView),
}

impl View for Modal {
    type V = ModalView;

    open spec fn view(&self) -> ModalView {
        match self {
            Modal::Hidden => ModalView::Hidden,
            Modal::Create => ModalView::Create,
            Modal::Edit(todo) => ModalView::Edit(todo@),
        }
    }
}

/// What the form shows in `state`.
pub open spec fn modal_of(state: MainPageView) -> ModalView {
    if !state.show_modal {
        ModalView::Hidden
    } else {
        match state.edit_todo_item {
            Some(todo) => ModalView::Edit(todo),
            None => ModalView::Create,
        }
    }
}

impl MainPage {
    /// The page as it starts. The first fetch of the list is then due.
    pub fn new() -> (page: MainPage)
        ensures
            page@ == initial(),
    {
        MainPage { todos: None, show_modal: false, edit_todo_item: None, todos_refresh: 0 }
    }

    /// Takes in `event`: changes the state and says which remote call is to
    /// be made for it. The counter can be raised as long as it is below the
    /// largest number that it can hold.
    pub fn handle(&mut self, event: Event) -> (action: Action)
        requires
            raises_counter(event@) ==> old(self).todos_refresh < u64::MAX,
        ensures
            final(self)@ == next_state(old(self)@, event@),
            action@ == action_of(old(self)@, event@),
    {
        match event {
            Event::ShowModalAdd => {
                self.edit_todo_item = None;
                self.show_modal = true;
                Action::Nothing
            },
            Event::EditTodo(todo) => {
                self.edit_todo_item = Some(todo);
                self.show_modal = true;
                Action::Nothing
            },
            Event::Submit(todo) => {
                if self.edit_todo_item.is_some() {
                    Action::EditTodo(todo)
                } else {
                    Action::InsertTodo(todo)
                }
            },
            Event::Cancel => {
                self.edit_todo_item = None;
                self.show_modal = false;
                Action::Nothing
            },
            Event::DeleteTodo(todo) => Action::DeleteTodo(todo.id),
            Event::Submitted(ok) => {
                if ok {
                    self.show_modal = false;
                    self.todos_refresh = self.todos_refresh + 1;
                    self.todos = None;
                    Action::GetTodos
                } else {
                    Action::Nothing
                }
            },
            Event::Deleted(ok) => {
                if ok {
                    self.todos_refresh = self.todos_refresh + 1;
                    self.todos = None;
                    Action::GetTodos
                } else {
                    Action::Nothing
                }
            },
            Event::Loaded(result) => {
                match result {
                    Ok(todos) => {
                        self.todos = Some(todos);
                    },
                    Err(_) => {
                        let nothing: Vec<Todo> = Vec::new();
                        assert(todo_views(nothing@) =~= Seq::<TodoView>::empty());
                        self.todos = Some(nothing);
                    },
                }
                Action::Nothing
            },
        }
    }

    /// What the list panel shows.
    pub fn list_panel(&self) -> (panel: ListPanel)
        ensures
            panel@ == panel_of(self@.todos),
    {
        match &self.todos {
            None => ListPanel::Loading,
            Some(todos) => {
                if todos.len() == 0 {
                    ListPanel::Empty
                } else {
                    let mut rows: Vec<Row> = Vec::new();
                    let mut i: usize = 0;
                    while i < todos.len()
                        invariant
                            i <= todos.len(),
                            rows.len() == i,
                            forall|j: int|
                                0 <= j < i ==> (#[trigger] rows@[j])@ == row_of(todos@[j]@),
                        decreases todos.len() - i,
                    {
                        let todo = todos[i].clone();
                        rows.push(
                            Row { key: (todo.id.clone(), todo.description.clone()), todo },
                        );
                        i += 1;
                    }
                    let panel = ListPanel::Populated(rows);
                    assert(panel@ =~= panel_of(self@.todos)) by {
                        let shown = Seq::new(rows@.len(), |i: int| rows@[i]@);
                        let views = todo_views(todos@);
                        let expected = Seq::new(views.len(), |i: int| row_of(views[i]));
                        assert(shown =~= expected);
                    }
                    panel
                }
            },
        }
    }

    /// What the form shows.
    pub fn modal(&self) -> (modal: Modal)
        ensures
            modal@ == modal_of(self@),
    {
        if !self.show_modal {
            Modal::Hidden
        } else {
            match &self.edit_todo_item {
                Some(todo) => Modal::Edit(todo.clone()),
                None => Modal::Create,
            }
        }
    }
}

/// The refresh counter never falls, and rises by one exactly where a fetch
/// is asked for.
pub proof fn law_counter_rises_with_each_fetch(state: MainPageView, event: EventView)
    ensures
        next_state(state, event).todos_refresh >= state.todos_refresh,
        action_of(state, event) == ActionView::GetTodos <==> next_state(state, event).todos_refresh
            == state.todos_refresh + 1,
        action_of(state, event) != ActionView::GetTodos ==> next_state(state, event).todos_refresh
            == state.todos_refresh,
{
}

/// Once a fetch has ended the panel does not show that it is loading: it
/// shows that the list is empty where nothing came, also where the fetch
/// failed.
pub proof fn law_fetched_list_is_not_loading(state: MainPageView, fetched: Option<Seq<TodoView>>)
    ensures
        panel_of(next_state(state, EventView::Loaded(fetched)).todos) != ListPanelView::Loading,
        fetched == Some(Seq::<TodoView>::empty()) || fetched is None ==> panel_of(
            next_state(state, EventView::Loaded(fetched)).todos,
        ) == ListPanelView::Empty,
{
}

/// A failed call leaves the page as it was.
pub proof fn law_failure_changes_nothing(state: MainPageView)
    ensures
        next_state(state, EventView::Submitted(false)) == state,
        next_state(state, EventView::Deleted(false)) == state,
{
}

} // verus!
