//! What the viewer is asked to do, by a key or by the answer to earlier
//! work, and how keys become such requests.
use vstd::prelude::*;
use crate::keys::Key;
use crate::state::{StateMode, Summary};
use crate::transport::{Command, TransportType};
use crate::viewer::{App, ServerResponse, TabView};

verus! {

/// What the session's data stream answered: whether the answer was empty,
/// and what it read as.
pub struct ServerData {
    pub empty: bool,
    pub parsed: Result<ServerResponse, String>,
}

/// What the session's state answered: whether the answer was empty, and
/// what it read as.
pub struct StateData {
    pub empty: bool,
    pub parsed: Result<Summary, String>,
}

/// A request to the viewer.
pub enum Action {
    Tick,
    Quit,
    NextDevice,
    PreviousDevice,
    NextStream,
    PreviousStream,
    SetXAxis,
    SetYAxis,
    ClearAxes,
    SwitchTab,
    TogglePopup,
    KillServer,
    PauseServer,
    ResumeServer,
    StartNewRun,
    StateNextPrimary,
    StatePreviousPrimary,
    StateNextSecondary,
    StatePreviousSecondary,
    StateToggleFocus,
    StateStartEdit,
    StateCommitEdit,
    StateCancelEdit,
    StateEditInput(char),
    StateEditBackspace,
    StateEditDelete,
    StateMoveCursorLeft,
    StateMoveCursorRight,
    StateMoveCursorStart,
    StateMoveCursorEnd,
    StateStartConfigPicker,
    StateFilePickerKey(Key),
    /// The server's scripts: their base directory and paths, or an error.
    RemoteScriptsFetched(Result<(String, Vec<String>), String>),
    ServerDataFetched(Result<ServerData, String>),
    StateDataFetched(Result<StateData, String>),
    NewRunStarted(Result<(), String>),
    StateStartRunArgsEditor,
    StateRunArgsNextField,
    StateRunArgsPreviousField,
    StateRunArgsEditCurrent,
    StateRunArgsEditInput(char),
    StateRunArgsEditBackspace,
    StateRunArgsEditDelete,
    StateRunArgsCommitEdit,
    StateRunArgsCancelEdit,
    StateRunArgsConfirm,
    StateRunArgsCancel,
    /// The output directories the server allows, or an error.
    OutputDirFetched(Result<Vec<String>, String>),
}

/// The action of a key while a value is being edited.
pub open spec fn edit_key_actions(key: Key) -> Seq<Action> {
    match key {
        Key::Char(c) => seq![Action::StateEditInput(c)],
        Key::Backspace => seq![Action::StateEditBackspace],
        Key::Delete => seq![Action::StateEditDelete],
        Key::Left => seq![Action::StateMoveCursorLeft],
        Key::Right => seq![Action::StateMoveCursorRight],
        Key::Home => seq![Action::StateMoveCursorStart],
        Key::End => seq![Action::StateMoveCursorEnd],
        Key::Enter => seq![Action::StateCommitEdit],
        Key::Esc => seq![Action::StateCancelEdit],
        _ => Seq::empty(),
    }
}

/// The action of a key on the chart tab.
pub open spec fn chart_key_actions(key: Key) -> Seq<Action> {
    match key {
        Key::Down => seq![Action::NextDevice],
        Key::Up => seq![Action::PreviousDevice],
        Key::Right => seq![Action::NextStream],
        Key::Left => seq![Action::PreviousStream],
        Key::Char(c) => if c == 'x' {
            seq![Action::SetXAxis]
        } else if c == 'y' {
            seq![Action::SetYAxis]
        } else if c == 'k' {
            seq![Action::KillServer]
        } else if c == 'c' {
            seq![Action::ClearAxes]
        } else if c == 'p' {
            seq![Action::PauseServer]
        } else if c == 'r' {
            seq![Action::ResumeServer]
        } else if c == 'n' {
            seq![Action::StartNewRun]
        } else {
            Seq::empty()
        },
        _ => Seq::empty(),
    }
}

/// The action of a key on the state tab. Editing and loading files are
/// refused while a session runs (a remote TCP session lets them through
/// with a warning).
pub open spec fn state_key_actions(app: App, key: Key) -> Seq<Action> {
    match key {
        Key::Down => seq![Action::StateNextPrimary],
        Key::Up => seq![Action::StatePreviousPrimary],
        Key::Right => seq![Action::StateNextSecondary],
        Key::Left => seq![Action::StatePreviousSecondary],
        Key::Char(c) => if c == 'f' {
            seq![Action::StateToggleFocus]
        } else if c == 'e' {
            if app.session_running {
                Seq::empty()
            } else {
                seq![Action::StateStartEdit]
            }
        } else if c == 'l' {
            if app.session_running {
                Seq::empty()
            } else {
                seq![Action::StateStartConfigPicker]
            }
        } else if c == 'n' {
            seq![Action::StartNewRun]
        } else if c == 'k' {
            seq![Action::KillServer]
        } else if c == 'p' {
            seq![Action::PauseServer]
        } else if c == 'r' {
            seq![Action::ResumeServer]
        } else {
            Seq::empty()
        },
        _ => Seq::empty(),
    }
}

/// The actions of a key: an open file picker takes every key, an edit in
/// progress its editing keys; otherwise `q` quits, Tab switches tabs, `m`
/// toggles the help, and the tab on screen reads the rest.
pub open spec fn key_actions(app: App, key: Key) -> Seq<Action> {
    if app.active_tab == TabView::State && (app.state_tab.mode == StateMode::PickingConfig
        || app.state_tab.mode == StateMode::PickingScript) {
        seq![Action::StateFilePickerKey(key)]
    } else if app.active_tab == TabView::State && app.state_tab.editing {
        edit_key_actions(key)
    } else if key == Key::Char('q') {
        seq![Action::Quit]
    } else if key == Key::Tab {
        seq![Action::SwitchTab]
    } else if key == Key::Char('m') {
        seq![Action::TogglePopup]
    } else if app.active_tab == TabView::Chart {
        chart_key_actions(key)
    } else {
        state_key_actions(app, key)
    }
}

fn one(a: Action) -> (r: Vec<Action>)
    ensures
        r@ == seq![a],
{
    let mut v: Vec<Action> = Vec::new();
    v.push(a);
    assert(v@ =~= seq![a]);
    v
}

fn none() -> (r: Vec<Action>)
    ensures
        r@ == Seq::<Action>::empty(),
{
    let v: Vec<Action> = Vec::new();
    assert(v@ =~= Seq::<Action>::empty());
    v
}

fn handle_edit_keys(key: Key) -> (r: Vec<Action>)
    ensures
        r@ == edit_key_actions(key),
{
    match key {
        Key::Char(c) => one(Action::StateEditInput(c)),
        Key::Backspace => one(Action::StateEditBackspace),
        Key::Delete => one(Action::StateEditDelete),
        Key::Left => one(Action::StateMoveCursorLeft),
        Key::Right => one(Action::StateMoveCursorRight),
        Key::Home => one(Action::StateMoveCursorStart),
        Key::End => one(Action::StateMoveCursorEnd),
        Key::Enter => one(Action::StateCommitEdit),
        Key::Esc => one(Action::StateCancelEdit),
        _ => none(),
    }
}

/// The actions of a key on the chart tab.
pub fn handle_chart_keys(key: Key) -> (r: Vec<Action>)
    ensures
        r@ == chart_key_actions(key),
{
    match key {
        Key::Down => one(Action::NextDevice),
        Key::Up => one(Action::PreviousDevice),
        Key::Right => one(Action::NextStream),
        Key::Left => one(Action::PreviousStream),
        Key::Char(c) => {
            if c == 'x' {
                one(Action::SetXAxis)
            } else if c == 'y' {
                one(Action::SetYAxis)
            } else if c == 'k' {
                one(Action::KillServer)
            } else if c == 'c' {
                one(Action::ClearAxes)
            } else if c == 'p' {
                one(Action::PauseServer)
            } else if c == 'r' {
                one(Action::ResumeServer)
            } else if c == 'n' {
                one(Action::StartNewRun)
            } else {
                none()
            }
        },
        _ => none(),
    }
}

/// On the chart tab, `x` chooses the X axis and `y` the Y axis, and no two
/// keys do the same thing: every key that does something has an action
/// list of its own.
pub proof fn lemma_chart_keys_distinct(app: App, k1: Key, k2: Key)
    requires
        app.active_tab == TabView::Chart,
    ensures
        key_actions(app, Key::Char('x')) == seq![Action::SetXAxis],
        key_actions(app, Key::Char('y')) == seq![Action::SetYAxis],
        k1 != k2 && key_actions(app, k1).len() > 0 ==> key_actions(app, k1) != key_actions(app, k2),
{
    let a1 = key_actions(app, k1);
    let a2 = key_actions(app, k2);
    if k1 != k2 && a1.len() > 0 && a1 == a2 {
        assert(a1.len() == 1);
        assert(a1[0] == a2[0]);
        match k1 {
            Key::Char(c1) => {
                match k2 {
                    Key::Char(c2) => {
                        assert(c1 != c2);
                    },
                    _ => {},
                }
            },
            _ => {},
        }
    }
}

/// The actions of a key on the state tab.
pub fn handle_state_keys(key: Key, app: &App) -> (r: Vec<Action>)
    ensures
        r@ == state_key_actions(*app, key),
{
    match key {
        Key::Down => one(Action::StateNextPrimary),
        Key::Up => one(Action::StatePreviousPrimary),
        Key::Right => one(Action::StateNextSecondary),
        Key::Left => one(Action::StatePreviousSecondary),
        Key::Char(c) => {
            if c == 'f' {
                one(Action::StateToggleFocus)
            } else if c == 'e' {
                if app.session_running {
                    none()
                } else {
                    one(Action::StateStartEdit)
                }
            } else if c == 'l' {
                if app.session_running {
                    none()
                } else {
                    one(Action::StateStartConfigPicker)
                }
            } else if c == 'n' {
                one(Action::StartNewRun)
            } else if c == 'k' {
                one(Action::KillServer)
            } else if c == 'p' {
                one(Action::PauseServer)
            } else if c == 'r' {
                one(Action::ResumeServer)
            } else {
                none()
            }
        },
        _ => none(),
    }
}

/// The actions of a key pressed in the viewer.
pub fn handle_key_event(app: &App, key: Key) -> (r: Vec<Action>)
    ensures
        r@ == key_actions(*app, key),
{
    if app.active_tab == TabView::State {
        if app.state_tab.mode == StateMode::PickingConfig || app.state_tab.mode
            == StateMode::PickingScript {
            return one(Action::StateFilePickerKey(key));
        }
        if app.state_tab.editing {
            return handle_edit_keys(key);
        }
    }
    if key == Key::Char('q') {
        one(Action::Quit)
    } else if key == Key::Tab {
        one(Action::SwitchTab)
    } else if key == Key::Char('m') {
        one(Action::TogglePopup)
    } else if app.active_tab == TabView::Chart {
        handle_chart_keys(key)
    } else {
        handle_state_keys(key, app)
    }
}

/// Work that the viewer hands to its surroundings after an action.
pub enum Effect {
    /// Send `GET_DATASTREAM` and hand the answer back as `ServerDataFetched`.
    PollData,
    /// Send `STATE` and hand the answer back as `StateDataFetched`.
    PollState,
    /// Send a command and only log the answer.
    Send(Command),
    /// Ask the server for its scripts; hand them back as
    /// `RemoteScriptsFetched`.
    FetchRemoteScripts,
    /// Ask the server for its output directories; hand them back as
    /// `OutputDirFetched`.
    FetchOutputDirs,
    /// Read the local directories under the home directory and hand them
    /// to the state tab's `open_output_dir_picker`.
    PickLocalOutputDir,
    /// Read the current directory and hand it to the state tab's
    /// `start_config_picker`.
    OpenConfigPicker,
    /// Read the open picker's directory again and hand the paths to its
    /// `set_files`.
    Rescan,
    /// Read this configuration file and hand it to the state tab's
    /// `apply_loaded_config`.
    LoadConfig(String),
    /// Read the current directory and hand it to the state tab's
    /// `open_script_picker`.
    PickLocalScript,
    /// Read the edit buffer as a float and hand it to the state tab's
    /// `commit_edit`.
    CommitEdit,
    /// Gather what a run needs and hand it to `start_new_run`.
    PrepareRun,
    /// Shut down: end the local rerun first when asked, then stop the
    /// session when asked.
    Shutdown { cleanup_rerun: bool, kill: bool },
}

} // verus!
