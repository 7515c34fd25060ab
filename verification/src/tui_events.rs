//! What each key does in the configuration manager: the moves within and between
//! panes, and the prompt that a key asks the caller to run.
use vstd::prelude::*;
use crate::config_editor::EditTaskSpec;
use crate::kdl_tree::opt_string;
use crate::tui_app::{App, FIELD_COUNT, Pane, TaskEntry, last_index};
use crate::text::{cat, chars_of, contains, contains_seq, owned, str_eq, views};
use crate::update::{trim, trim_end, trim_start};

verus! {

/// A key press, as the manager reads it.
#[derive(Debug, Clone, Copy, PartialEq, Eq, Structural)]
pub enum Key {
    Up,
    Down,
    CtrlUp,
    CtrlDown,
    Tab,
    Enter,
    Esc,
    Char(char),
    Other,
}

/// A prompt the caller runs for a key, outside the manager's screen, before it hands
/// the outcome to `finish_prompt`.
#[derive(Debug, PartialEq, Eq)]
pub enum KeyAction {
    Nothing,
    AddTask,
    AddRemote,
    AddCall,
    DeleteTask,
    DeleteRemote,
    DeleteCall,
    MoveCallUp(usize),
    MoveCallDown(usize),
    EditField,
    EditTask,
    EditRemote,
    OpenEditor,
    TestRemote,
    SetDefault(String),
}

/// The pane that Tab moves to.
pub open spec fn next_pane(p: Pane) -> Pane {
    match p {
        Pane::Tasks => Pane::Fields,
        Pane::Fields => Pane::Remotes,
        Pane::Remotes => Pane::Calls,
        Pane::Calls => Pane::Tasks,
    }
}

/// The app is unchanged but for the selections.
pub open spec fn same_but_selection(a: App, b: App) -> bool {
    &&& a.tasks == b.tasks
    &&& a.focused_pane == b.focused_pane
    &&& a.config_path == b.config_path
    &&& a.should_quit == b.should_quit
    &&& a.status_message == b.status_message
    &&& a.status_expires_at == b.status_expires_at
    &&& a.needs_clear == b.needs_clear
    &&& a.default_task == b.default_task
}

/// Moves the selection of the focused pane up one item; moving to another task
/// selects the first field, remote and call of it.
pub fn navigate_up(app: &mut App)
    ensures
        same_but_selection(*final(app), *old(app)),
        match old(app).focused_pane {
            Pane::Tasks => if old(app).selected_task > 0 {
                final(app).selected_task == old(app).selected_task - 1 && final(app).selected_remote == 0
                    && final(app).selected_field == 0 && final(app).selected_call == 0
            } else {
                *final(app) == *old(app)
            },
            Pane::Fields => final(app).selected_field == (if old(app).selected_field > 0 {
                old(app).selected_field - 1 } else { 0 })
                && final(app).selected_task == old(app).selected_task
                && final(app).selected_remote == old(app).selected_remote
                && final(app).selected_call == old(app).selected_call,
            Pane::Remotes => final(app).selected_remote == (if old(app).selected_remote > 0 {
                old(app).selected_remote - 1 } else { 0 })
                && final(app).selected_task == old(app).selected_task
                && final(app).selected_field == old(app).selected_field
                && final(app).selected_call == old(app).selected_call,
            Pane::Calls => final(app).selected_call == (if old(app).selected_call > 0 {
                old(app).selected_call - 1 } else { 0 })
                && final(app).selected_task == old(app).selected_task
                && final(app).selected_field == old(app).selected_field
                && final(app).selected_remote == old(app).selected_remote,
        },
{
    match app.focused_pane {
        Pane::Tasks => {
            if app.selected_task > 0 {
                app.selected_task = app.selected_task - 1;
                app.selected_remote = 0;
                app.selected_field = 0;
                app.selected_call = 0;
            }
        },
        Pane::Fields => {
            if app.selected_field > 0 {
                app.selected_field = app.selected_field - 1;
            }
        },
        Pane::Remotes => {
            if app.selected_remote > 0 {
                app.selected_remote = app.selected_remote - 1;
            }
        },
        Pane::Calls => {
            if app.selected_call > 0 {
                app.selected_call = app.selected_call - 1;
            }
        },
    }
}

/// Moves the selection of the focused pane down one item where there is one;
/// moving to another task selects the first field, remote and call of it.
pub fn navigate_down(app: &mut App)
    ensures
        same_but_selection(*final(app), *old(app)),
        match old(app).focused_pane {
            Pane::Tasks => if old(app).selected_task + 1 < old(app).tasks@.len() {
                final(app).selected_task == old(app).selected_task + 1 && final(app).selected_remote == 0
                    && final(app).selected_field == 0 && final(app).selected_call == 0
            } else {
                *final(app) == *old(app)
            },
            Pane::Fields => final(app).selected_field == (if old(app).selected_field + 1 < FIELD_COUNT {
                old(app).selected_field + 1 } else { old(app).selected_field as int })
                && final(app).selected_task == old(app).selected_task
                && final(app).selected_remote == old(app).selected_remote
                && final(app).selected_call == old(app).selected_call,
            Pane::Remotes => final(app).selected_remote == (if old(app).selected_remote < last_index(
                old(app).remotes_shown().len()) { old(app).selected_remote + 1 } else { old(app).selected_remote as int })
                && final(app).selected_task == old(app).selected_task
                && final(app).selected_field == old(app).selected_field
                && final(app).selected_call == old(app).selected_call,
            Pane::Calls => final(app).selected_call == (if old(app).selected_call < last_index(
                old(app).calls_shown().len()) { old(app).selected_call + 1 } else { old(app).selected_call as int })
                && final(app).selected_task == old(app).selected_task
                && final(app).selected_field == old(app).selected_field
                && final(app).selected_remote == old(app).selected_remote,
        },
{
    match app.focused_pane {
        Pane::Tasks => {
            if app.selected_task < app.tasks.len() && app.selected_task + 1 < app.tasks.len() {
                app.selected_task = app.selected_task + 1;
                app.selected_remote = 0;
                app.selected_field = 0;
                app.selected_call = 0;
            }
        },
        Pane::Fields => {
            if app.selected_field < FIELD_COUNT && app.selected_field + 1 < FIELD_COUNT {
                app.selected_field = app.selected_field + 1;
            }
        },
        Pane::Remotes => {
            let max = app.current_remotes().len().saturating_sub(1);
            if app.selected_remote < max {
                app.selected_remote = app.selected_remote + 1;
            }
        },
        Pane::Calls => {
            let max = app.current_calls().len().saturating_sub(1);
            if app.selected_call < max {
                app.selected_call = app.selected_call + 1;
            }
        },
    }
}

/// Moving up or down keeps every selection within its list.
pub proof fn navigation_keeps_selections_in_bounds(before: App, after: App, up: bool)
    requires
        before.selections_in_bounds(),
        same_but_selection(after, before),
        up ==> match before.focused_pane {
            Pane::Tasks => if before.selected_task > 0 {
                after.selected_task == before.selected_task - 1 && after.selected_remote == 0
                    && after.selected_field == 0 && after.selected_call == 0
            } else {
                after == before
            },
            Pane::Fields => after.selected_field == (if before.selected_field > 0 {
                before.selected_field - 1 } else { 0 })
                && after.selected_task == before.selected_task
                && after.selected_remote == before.selected_remote
                && after.selected_call == before.selected_call,
            Pane::Remotes => after.selected_remote == (if before.selected_remote > 0 {
                before.selected_remote - 1 } else { 0 })
                && after.selected_task == before.selected_task
                && after.selected_field == before.selected_field
                && after.selected_call == before.selected_call,
            Pane::Calls => after.selected_call == (if before.selected_call > 0 {
                before.selected_call - 1 } else { 0 })
                && after.selected_task == before.selected_task
                && after.selected_field == before.selected_field
                && after.selected_remote == before.selected_remote,
        },
        !up ==> match before.focused_pane {
            Pane::Tasks => if before.selected_task + 1 < before.tasks@.len() {
                after.selected_task == before.selected_task + 1 && after.selected_remote == 0
                    && after.selected_field == 0 && after.selected_call == 0
            } else {
                after == before
            },
            Pane::Fields => after.selected_field == (if before.selected_field + 1 < FIELD_COUNT {
                before.selected_field + 1 } else { before.selected_field as int })
                && after.selected_task == before.selected_task
                && after.selected_remote == before.selected_remote
                && after.selected_call == before.selected_call,
            Pane::Remotes => after.selected_remote == (if before.selected_remote < last_index(
                before.remotes_shown().len()) { before.selected_remote + 1 } else { before.selected_remote as int })
                && after.selected_task == before.selected_task
                && after.selected_field == before.selected_field
                && after.selected_call == before.selected_call,
            Pane::Calls => after.selected_call == (if before.selected_call < last_index(
                before.calls_shown().len()) { before.selected_call + 1 } else { before.selected_call as int })
                && after.selected_task == before.selected_task
                && after.selected_field == before.selected_field
                && after.selected_remote == before.selected_remote,
        },
    ensures
        after.selections_in_bounds(),
{
}

/// What a key does: quitting, switching panes and moving selections happen here;
/// every other key names the prompt to run, or nothing where the focused pane has
/// nothing for it. `now` is the time, for a status shown at once.
pub fn handle_key(app: &mut App, key: Key, now: u64) -> (r: KeyAction)
    ensures
        (key == Key::Char('q') || key == Key::Esc) ==> final(app).should_quit && r == KeyAction::Nothing,
        key == Key::Tab ==> final(app).focused_pane == next_pane(old(app).focused_pane)
            && final(app).status_message is None && r == KeyAction::Nothing,
        key == Key::Enter ==> r == (if old(app).focused_pane == Pane::Fields { KeyAction::EditField } else {
            KeyAction::Nothing }),
        key == Key::CtrlUp ==> r == (if old(app).focused_pane == Pane::Calls && old(app).selected_call > 0 {
            KeyAction::MoveCallUp(old(app).selected_call) } else { KeyAction::Nothing }),
        key == Key::CtrlDown ==> r == (if old(app).focused_pane == Pane::Calls && old(app).selected_call + 1
            < old(app).calls_shown().len() { KeyAction::MoveCallDown(old(app).selected_call) } else {
            KeyAction::Nothing }),
        key == Key::Char('a') ==> r == match old(app).focused_pane {
            Pane::Tasks | Pane::Fields => KeyAction::AddTask,
            Pane::Remotes => KeyAction::AddRemote,
            Pane::Calls => KeyAction::AddCall,
        },
        key == Key::Char('d') ==> r == match old(app).focused_pane {
            Pane::Tasks | Pane::Fields => KeyAction::DeleteTask,
            Pane::Remotes => if old(app).remotes_shown().len() == 0 { KeyAction::Nothing } else {
                KeyAction::DeleteRemote },
            Pane::Calls => if old(app).calls_shown().len() == 0 { KeyAction::Nothing } else { KeyAction::DeleteCall },
        },
        key == Key::Char('e') ==> r == match old(app).focused_pane {
            Pane::Fields => KeyAction::EditField,
            Pane::Tasks => KeyAction::EditTask,
            Pane::Remotes => if old(app).remotes_shown().len() == 0 { KeyAction::Nothing } else {
                KeyAction::EditRemote },
            Pane::Calls => KeyAction::Nothing,
        },
        key == Key::Char('o') ==> r == KeyAction::OpenEditor,
        key == Key::Char('t') ==> r == (if old(app).focused_pane == Pane::Remotes
            && old(app).remotes_shown().len() > 0 { KeyAction::TestRemote } else { KeyAction::Nothing }),
        key == Key::Char('s') ==> (if old(app).focused_pane == Pane::Tasks && old(app).selected_task
            < old(app).tasks@.len() {
            let name = old(app).tasks@[old(app).selected_task as int].name;
            if name@ == old(app).default_task@ {
                r == KeyAction::Nothing && (final(app).status_message matches Some(m)
                    && m@ == "Already the default task."@)
            } else {
                r matches KeyAction::SetDefault(n) && n@ == name@
            }
        } else {
            r == KeyAction::Nothing
        }),
        (key == Key::Up || key == Key::Down) ==> r == KeyAction::Nothing,
        old(app).selections_in_bounds() ==> final(app).selections_in_bounds(),
        final(app).tasks == old(app).tasks,
{
    match key {
        Key::CtrlUp => {
            if app.focused_pane == Pane::Calls && app.selected_call > 0 {
                KeyAction::MoveCallUp(app.selected_call)
            } else {
                KeyAction::Nothing
            }
        },
        Key::CtrlDown => {
            let n = app.current_calls().len();
            if app.focused_pane == Pane::Calls && app.selected_call < n && app.selected_call + 1 < n {
                KeyAction::MoveCallDown(app.selected_call)
            } else {
                KeyAction::Nothing
            }
        },
        Key::Char('q') | Key::Esc => {
            app.should_quit = true;
            KeyAction::Nothing
        },
        Key::Tab => {
            app.focused_pane = match app.focused_pane {
                Pane::Tasks => Pane::Fields,
                Pane::Fields => Pane::Remotes,
                Pane::Remotes => Pane::Calls,
                Pane::Calls => Pane::Tasks,
            };
            app.status_message = None;
            KeyAction::Nothing
        },
        Key::Enter => {
            if app.focused_pane == Pane::Fields {
                KeyAction::EditField
            } else {
                KeyAction::Nothing
            }
        },
        Key::Up => {
            let ghost before = *app;
            navigate_up(app);
            proof {
                navigation_keeps_selections_in_bounds_if(before, *app, true);
            }
            KeyAction::Nothing
        },
        Key::Down => {
            let ghost before = *app;
            navigate_down(app);
            proof {
                navigation_keeps_selections_in_bounds_if(before, *app, false);
            }
            KeyAction::Nothing
        },
        Key::Char('a') => match app.focused_pane {
            Pane::Tasks | Pane::Fields => KeyAction::AddTask,
            Pane::Remotes => KeyAction::AddRemote,
            Pane::Calls => KeyAction::AddCall,
        },
        Key::Char('d') => match app.focused_pane {
            Pane::Tasks | Pane::Fields => KeyAction::DeleteTask,
            Pane::Remotes => if app.current_remotes().len() == 0 { KeyAction::Nothing } else { KeyAction::DeleteRemote },
            Pane::Calls => if app.current_calls().len() == 0 { KeyAction::Nothing } else { KeyAction::DeleteCall },
        },
        Key::Char('e') => match app.focused_pane {
            Pane::Fields => KeyAction::EditField,
            Pane::Tasks => KeyAction::EditTask,
            Pane::Remotes => if app.current_remotes().len() == 0 { KeyAction::Nothing } else { KeyAction::EditRemote },
            Pane::Calls => KeyAction::Nothing,
        },
        Key::Char('o') => KeyAction::OpenEditor,
        Key::Char('t') => {
            if app.focused_pane == Pane::Remotes && app.current_remotes().len() > 0 {
                KeyAction::TestRemote
            } else {
                KeyAction::Nothing
            }
        },
        Key::Char('s') => {
            if app.focused_pane != Pane::Tasks || app.selected_task >= app.tasks.len() {
                return KeyAction::Nothing;
            }
            let name = app.tasks[app.selected_task].name.clone();
            if str_eq(name.as_str(), app.default_task.as_str()) {
                app.set_status(owned("Already the default task."), now);
                KeyAction::Nothing
            } else {
                KeyAction::SetDefault(name)
            }
        },
        _ => KeyAction::Nothing,
    }
}

proof fn navigation_keeps_selections_in_bounds_if(before: App, after: App, up: bool)
    requires
        same_but_selection(after, before),
        up ==> match before.focused_pane {
            Pane::Tasks => if before.selected_task > 0 {
                after.selected_task == before.selected_task - 1 && after.selected_remote == 0
                    && after.selected_field == 0 && after.selected_call == 0
            } else {
                after == before
            },
            Pane::Fields => after.selected_field == (if before.selected_field > 0 {
                before.selected_field - 1 } else { 0 })
                && after.selected_task == before.selected_task
                && after.selected_remote == before.selected_remote
                && after.selected_call == before.selected_call,
            Pane::Remotes => after.selected_remote == (if before.selected_remote > 0 {
                before.selected_remote - 1 } else { 0 })
                && after.selected_task == before.selected_task
                && after.selected_field == before.selected_field
                && after.selected_call == before.selected_call,
            Pane::Calls => after.selected_call == (if before.selected_call > 0 {
                before.selected_call - 1 } else { 0 })
                && after.selected_task == before.selected_task
                && after.selected_field == before.selected_field
                && after.selected_remote == before.selected_remote,
        },
        !up ==> match before.focused_pane {
            Pane::Tasks => if before.selected_task + 1 < before.tasks@.len() {
                after.selected_task == before.selected_task + 1 && after.selected_remote == 0
                    && after.selected_field == 0 && after.selected_call == 0
            } else {
                after == before
            },
            Pane::Fields => after.selected_field == (if before.selected_field + 1 < FIELD_COUNT {
                before.selected_field + 1 } else { before.selected_field as int })
                && after.selected_task == before.selected_task
                && after.selected_remote == before.selected_remote
                && after.selected_call == before.selected_call,
            Pane::Remotes => after.selected_remote == (if before.selected_remote < last_index(
                before.remotes_shown().len()) { before.selected_remote + 1 } else { before.selected_remote as int })
                && after.selected_task == before.selected_task
                && after.selected_field == before.selected_field
                && after.selected_call == before.selected_call,
            Pane::Calls => after.selected_call == (if before.selected_call < last_index(
                before.calls_shown().len()) { before.selected_call + 1 } else { before.selected_call as int })
                && after.selected_task == before.selected_task
                && after.selected_field == before.selected_field
                && after.selected_remote == before.selected_remote,
        },
    ensures
        before.selections_in_bounds() ==> after.selections_in_bounds(),
{
    if before.selections_in_bounds() {
        navigation_keeps_selections_in_bounds(before, after, up);
    }
}

/// Where a moved call ends up selected: one up after a move up, one down after a
/// move down, unless the move failed.
pub fn after_move_call(app: &mut App, up: bool, failed: bool)
    ensures
        same_but_selection(*final(app), *old(app)),
        final(app).selected_task == old(app).selected_task,
        final(app).selected_remote == old(app).selected_remote,
        final(app).selected_field == old(app).selected_field,
        final(app).selected_call == (if failed {
            old(app).selected_call as int
        } else if up {
            if old(app).selected_call > 0 { old(app).selected_call - 1 } else { 0 }
        } else if old(app).selected_call < usize::MAX {
            old(app).selected_call + 1
        } else {
            old(app).selected_call as int
        }),
{
    if !failed {
        if up {
            if app.selected_call > 0 {
                app.selected_call = app.selected_call - 1;
            }
        } else if app.selected_call < usize::MAX {
            app.selected_call = app.selected_call + 1;
        }
    }
}

/// The status a prompt's outcome is reported with: an error, prefixed; a message as
/// it is; nothing for an empty message.
pub open spec fn prompt_status(result: Result<String, String>) -> Option<Seq<char>> {
    match result {
        Ok(m) => if m@.len() == 0 { None } else { Some(m@) },
        Err(e) => Some("error: "@ + e@),
    }
}

/// Takes in the outcome of a prompt at `now`: on success, the configuration read
/// again (if the prompt changed it and it could be read); then the status; and the
/// screen is redrawn in full.
pub fn finish_prompt(app: &mut App, result: Result<String, String>,
    reloaded: Option<&crate::backup_config::BackupConfig>, now: u64)
    ensures
        final(app).needs_clear,
        match prompt_status(result) {
            Some(s) => final(app).status_message matches Some(m) && m@ == s,
            None => final(app).status_message == old(app).status_message,
        },
        (result is Err || reloaded is None) ==> final(app).tasks == old(app).tasks,
        old(app).selections_in_bounds() ==> final(app).selections_in_bounds(),
{
    match result {
        Ok(msg) => {
            match reloaded {
                Some(cfg) => app.reload(cfg),
                None => {},
            }
            if msg.unicode_len() > 0 {
                app.set_status(msg, now);
            }
        },
        Err(e) => {
            app.set_status(cat("error: ", e.as_str()), now);
        },
    }
    app.needs_clear = true;
}

/// restic's output says that no repository exists at the location.
pub open spec fn needs_init(output: Seq<char>) -> bool {
    contains_seq(output, "Is there a repository"@)
}

/// Whether restic's output says that no repository exists at the location.
pub fn repo_needs_init(output: &str) -> (r: bool)
    ensures
        r == needs_init(output@),
{
    contains(output, "Is there a repository")
}

/// The names a task can add calls to: every other task it does not call yet, in order.
pub open spec fn call_options_of(names: Seq<Seq<char>>, me: Seq<char>, calls: Seq<Seq<char>>) -> Seq<Seq<char>>
    decreases names.len(),
{
    if names.len() == 0 {
        Seq::empty()
    } else {
        let rest = call_options_of(names.drop_last(), me, calls);
        if names.last() != me && !calls.contains(names.last()) {
            rest.push(names.last())
        } else {
            rest
        }
    }
}

/// The call picker offers exactly the other tasks that are not called yet: never the
/// task itself, never a task it calls already, and every other task.
pub proof fn call_options_are_the_uncalled_others(names: Seq<Seq<char>>, me: Seq<char>, calls: Seq<Seq<char>>)
    ensures
        forall|x: Seq<char>| call_options_of(names, me, calls).contains(x)
            <==> (names.contains(x) && x != me && !calls.contains(x)),
    decreases names.len(),
{
    if names.len() > 0 {
        call_options_are_the_uncalled_others(names.drop_last(), me, calls);
        let rest = call_options_of(names.drop_last(), me, calls);
        assert forall|x: Seq<char>| call_options_of(names, me, calls).contains(x)
            <==> (names.contains(x) && x != me && !calls.contains(x)) by {
            if names.contains(x) {
                let k = choose|k: int| 0 <= k < names.len() && names[k] == x;
                if k < names.len() - 1 {
                    assert(names.drop_last()[k] == x);
                }
            }
            if names.drop_last().contains(x) {
                let k = choose|k: int| 0 <= k < names.drop_last().len() && names.drop_last()[k] == x;
                assert(names[k] == x);
            }
            if names.last() != me && !calls.contains(names.last()) {
                assert(rest.push(names.last()).contains(x) <==> (rest.contains(x) || x == names.last())) by {
                    if rest.push(names.last()).contains(x) {
                        let k = choose|k: int| 0 <= k < rest.push(names.last()).len() && rest.push(names.last())[k] == x;
                        if k < rest.len() {
                            assert(rest[k] == x);
                        }
                    }
                    if rest.contains(x) {
                        let k = choose|k: int| 0 <= k < rest.len() && rest[k] == x;
                        assert(rest.push(names.last())[k] == x);
                    }
                    if x == names.last() {
                        assert(rest.push(names.last())[rest.len() as int] == x);
                    }
                }
            }
            if x == names.last() {
                assert(names[names.len() - 1] == x);
            }
        }
    }
}

/// The tasks that the selected task can add a call to.
pub fn call_options(app: &App) -> (r: Vec<String>)
    requires
        app.selected_task < app.tasks@.len(),
    ensures
        views(r@) == call_options_of(app.tasks@.map_values(|t: crate::tui_app::TaskEntry| t.name@),
            app.tasks@[app.selected_task as int].name@, views(app.tasks@[app.selected_task as int].calls@)),
{
    let ghost names = app.tasks@.map_values(|t: crate::tui_app::TaskEntry| t.name@);
    let me = &app.tasks[app.selected_task];
    let ghost calls = views(me.calls@);
    let mut out: Vec<String> = Vec::new();
    let mut i: usize = 0;
    while i < app.tasks.len()
        invariant
            i <= app.tasks@.len(),
            names == app.tasks@.map_values(|t: crate::tui_app::TaskEntry| t.name@),
            calls == views(me.calls@),
            views(out@) == call_options_of(names.take(i as int), me.name@, calls),
        decreases app.tasks.len() - i,
    {
        assert(names.take(i + 1).drop_last() =~= names.take(i as int));
        let t = &app.tasks[i];
        assert(names[i as int] == t.name@);
        let mut called = false;
        let mut k: usize = 0;
        while k < me.calls.len()
            invariant
                k <= me.calls@.len(),
                calls == views(me.calls@),
                called == views(me.calls@).take(k as int).contains(t.name@),
            decreases me.calls.len() - k,
        {
            let hit = str_eq(me.calls[k].as_str(), t.name.as_str());
            proof {
                let s = views(me.calls@);
                assert(s.take(k + 1) =~= s.take(k as int).push(s[k as int]));
                if s.take(k as int).contains(t.name@) {
                    let w = choose|w: int| 0 <= w < s.take(k as int).len() && s.take(k as int)[w] == t.name@;
                    assert(s.take(k + 1)[w] == t.name@);
                }
                if hit {
                    assert(s.take(k + 1)[k as int] == t.name@);
                }
            }
            called = called || hit;
            k = k + 1;
        }
        assert(views(me.calls@).take(me.calls@.len() as int) =~= views(me.calls@));
        if !str_eq(t.name.as_str(), me.name.as_str()) && !called {
            let ghost before = views(out@);
            out.push(t.name.clone());
            assert(views(out@) =~= before.push(t.name@));
        }
        i = i + 1;
    }
    assert(names.take(app.tasks@.len() as int) =~= names);
    out
}

/// A value typed into a prompt, where a blank answer means none.
pub open spec fn blank_is_none(v: Seq<char>) -> Option<Seq<char>> {
    if v.len() == 0 { None } else { Some(v) }
}

/// A value typed into a prompt: `None` where the answer is blank.
pub fn blank_to_none(v: String) -> (r: Option<String>)
    ensures
        opt_string(r) == blank_is_none(v@),
{
    if v.unicode_len() == 0 { None } else { Some(v) }
}

/// The edit of one field of a task, from the value typed for it: the field at
/// position `field` of the Fields pane takes the value (a blank value clears an
/// optional field), every other field keeps its value. A blank name, or a backup
/// field of a task without a repository, is refused; `None` for a position past the
/// fields.
pub fn edit_spec_for_field(t: &TaskEntry, field: usize, value: String) -> (r: Option<Result<EditTaskSpec, String>>)
    ensures
        field >= 3 && t.repo is None ==> (r matches Some(Err(m)) && m@ == "set a repo path first"@),
        !(field >= 3 && t.repo is None) ==> match field {
            0 => if trim_end(trim_start(value@)).len() == 0 {
                r matches Some(Err(m)) && m@ == "task name cannot be empty"@
            } else {
                r matches Some(Ok(e)) && e.name@ == value@ && opt_string(e.description) == opt_string(t.description)
                    && opt_string(e.repo) == opt_string(t.repo) && opt_string(e.directory) == opt_string(t.directory)
                    && opt_string(e.exclude_file) == opt_string(t.exclude_file)
                    && opt_string(e.files_from) == opt_string(t.files_from)
            },
            1 => r matches Some(Ok(e)) && e.name@ == t.name@ && opt_string(e.description) == blank_is_none(value@)
                && opt_string(e.repo) == opt_string(t.repo) && opt_string(e.directory) == opt_string(t.directory)
                && opt_string(e.exclude_file) == opt_string(t.exclude_file)
                && opt_string(e.files_from) == opt_string(t.files_from),
            2 => r matches Some(Ok(e)) && e.name@ == t.name@ && opt_string(e.description) == opt_string(t.description)
                && opt_string(e.repo) == blank_is_none(value@) && opt_string(e.directory) == opt_string(t.directory)
                && opt_string(e.exclude_file) == opt_string(t.exclude_file)
                && opt_string(e.files_from) == opt_string(t.files_from),
            3 => r matches Some(Ok(e)) && e.name@ == t.name@ && opt_string(e.description) == opt_string(t.description)
                && opt_string(e.repo) == opt_string(t.repo) && opt_string(e.directory) == blank_is_none(value@)
                && opt_string(e.exclude_file) == opt_string(t.exclude_file)
                && opt_string(e.files_from) == opt_string(t.files_from),
            4 => r matches Some(Ok(e)) && e.name@ == t.name@ && opt_string(e.description) == opt_string(t.description)
                && opt_string(e.repo) == opt_string(t.repo) && opt_string(e.directory) == opt_string(t.directory)
                && opt_string(e.exclude_file) == blank_is_none(value@)
                && opt_string(e.files_from) == opt_string(t.files_from),
            5 => r matches Some(Ok(e)) && e.name@ == t.name@ && opt_string(e.description) == opt_string(t.description)
                && opt_string(e.repo) == opt_string(t.repo) && opt_string(e.directory) == opt_string(t.directory)
                && opt_string(e.exclude_file) == opt_string(t.exclude_file)
                && opt_string(e.files_from) == blank_is_none(value@),
            _ => r is None,
        },
{
    if field >= 3 && t.repo.is_none() {
        return Some(Err(owned("set a repo path first")));
    }
    let mut e = EditTaskSpec {
        name: t.name.clone(),
        description: t.description.clone(),
        repo: t.repo.clone(),
        directory: t.directory.clone(),
        exclude_file: t.exclude_file.clone(),
        files_from: t.files_from.clone(),
    };
    if field == 0 {
        if trim(&chars_of(value.as_str())).len() == 0 {
            return Some(Err(owned("task name cannot be empty")));
        }
        e.name = value;
    } else if field == 1 {
        e.description = blank_to_none(value);
    } else if field == 2 {
        e.repo = blank_to_none(value);
    } else if field == 3 {
        e.directory = blank_to_none(value);
    } else if field == 4 {
        e.exclude_file = blank_to_none(value);
    } else if field == 5 {
        e.files_from = blank_to_none(value);
    } else {
        return None;
    }
    Some(Ok(e))
}

} // verus!
