//! How the viewer takes in an action: the new state, and the work it hands
//! to its surroundings.
use vstd::prelude::*;
use crate::action::{Action, Effect, ServerData, StateData};
use crate::keys::Key;
use crate::viewer::{
    App, TabView, devices_from_response, devices_match, device_row_ok, axis_ok, next_device_post,
    previous_device_post, next_stream_post, previous_stream_post, set_x_axis_post, set_y_axis_post,
    switch_tab_post, transport_error_post,
};
use crate::state::{
    StateTab, StateMode, PickerOutcome, info_wf, devices_wf, script_of, run_args_for,
    update_from_json_post, next_primary_post, previous_primary_post, next_secondary_post,
    previous_secondary_post, toggle_focus_post, start_edit_post, edit_input_post,
    edit_backspace_post, edit_delete_post, cursor_left_post, cursor_right_post, cursor_start_post,
    cursor_end_post, cancel_edit_post, picker_key_post, remote_scripts_post, run_args_editor_opened,
    run_args_next_field_post, run_args_previous_field_post, run_args_edit_current_post,
    run_args_edit_input_post, run_args_edit_backspace_post, run_args_edit_delete_post,
    run_args_commit_edit_post, run_args_cancel_edit_post, run_args_confirm_post,
    run_args_cancel_post, offer_output_dirs_post, rerun_ready,
};
use crate::run_args::{RunArgs, RunArgsEditor, RunArgsField};
use crate::transport::{Command, TransportType};
use crate::file_picker::{paths_fit, path_starts_with};

verus! {

/// Only the state tab changed.
pub open spec fn tab_step(old: App, new: App) -> bool {
    new == (App { state_tab: new.state_tab, ..old })
}

/// What a tick asks for: the data stream while the chart shows, the
/// session's state while the state tab shows and the session answers.
pub open spec fn tick_effects(app: App) -> Seq<Effect> {
    if app.active_tab == TabView::Chart {
        seq![Effect::PollData]
    } else if app.connection_status {
        seq![Effect::PollState]
    } else {
        Seq::empty()
    }
}

/// A failed exchange: the connection is marked as `handle_transport_error`
/// does, and no session is taken to run.
pub open spec fn fetch_failed_post(old: App, new: App, message: Seq<char>) -> bool {
    &&& transport_error_post(old, App { session_running: old.session_running, ..new }, message)
    &&& !new.session_running
}

/// Taking in what the data stream answered: the connection is back (a
/// reconnection clearing the chart), a session runs exactly when the
/// answer is not empty, and a readable answer replaces the devices.
pub open spec fn server_data_post(old: App, new: App, d: ServerData) -> bool {
    let reconnected = !old.connection_status;
    &&& new == (App {
        devices: new.devices,
        devices_state: new.devices_state,
        streams_state: new.streams_state,
        x_axis_stream: new.x_axis_stream,
        y_axis_stream: new.y_axis_stream,
        current_device_streams: new.current_device_streams,
        connection_status: true,
        has_warned_disconnected: if reconnected {
            false
        } else {
            old.has_warned_disconnected
        },
        session_running: !d.empty,
        ..old
    })
    &&& reconnected ==> {
        &&& new.x_axis_stream is None
        &&& new.y_axis_stream is None
        &&& new.devices_state is None
        &&& new.streams_state is None
        &&& new.current_device_streams@.len() == 0
    }
    &&& !reconnected ==> {
        &&& new.x_axis_stream == old.x_axis_stream
        &&& new.y_axis_stream == old.y_axis_stream
        &&& new.devices_state == old.devices_state
        &&& new.streams_state == old.streams_state
        &&& new.current_device_streams == old.current_device_streams
    }
    &&& if !d.empty && d.parsed is Ok {
        devices_match(new.devices@, d.parsed->Ok_0.response@)
    } else if reconnected {
        new.devices@.len() == 0
    } else {
        new.devices == old.devices
    }
}

/// What `update_from_json` answers for a parse result.
pub open spec fn parse_outcome(p: Result<crate::state::Summary, String>) -> Result<(), String> {
    match p {
        Ok(_) => Ok(()),
        Err(e) => Err(e),
    }
}

/// Taking in what the session's state answered: the connection is back,
/// a session runs exactly when the answer is not empty, and then the
/// state tab takes the answer in.
pub open spec fn state_data_post(old: App, new: App, d: StateData) -> bool {
    &&& new == (App {
        state_tab: new.state_tab,
        connection_status: true,
        has_warned_disconnected: if !old.connection_status {
            false
        } else {
            old.has_warned_disconnected
        },
        session_running: !d.empty,
        ..old
    })
    &&& if !d.empty {
        update_from_json_post(old.state_tab, new.state_tab, d.parsed, parse_outcome(d.parsed))
    } else {
        new.state_tab == old.state_tab
    }
}

/// The work that a file picker's answer to a key asks for; a request for
/// the server's scripts is only passed on when `fetch_allowed`.
pub open spec fn outcome_effects(r: PickerOutcome, fetch_allowed: bool) -> Seq<Effect> {
    (if r.rescan {
        seq![Effect::Rescan]
    } else {
        Seq::empty()
    }) + (match r.load_config {
        Some(p) => seq![Effect::LoadConfig(p)],
        None => Seq::empty(),
    }) + (if r.fetch_remote_scripts && fetch_allowed {
        seq![Effect::FetchRemoteScripts]
    } else {
        Seq::empty()
    }) + (if r.pick_local_script {
        seq![Effect::PickLocalScript]
    } else {
        Seq::empty()
    })
}

/// A key for the file picker. While an output directory is picked, Enter
/// puts the selection in the run-arguments popup and Esc goes back to it;
/// otherwise the state tab handles the key, and only while a configuration
/// is picked over HTTP does a request for the server's scripts go out.
pub open spec fn picker_action_post(old: App, new: App, key: Key, effects: Seq<Effect>) -> bool {
    &&& tab_step(old, new)
    &&& if old.state_tab.mode == StateMode::PickingOutputDir {
        match old.state_tab.file_picker {
            None => new == old && effects.len() == 0,
            Some(p) => if key == Key::Enter {
                &&& effects.len() == 0
                &&& if p.selected_index < p.filtered_files@.len() {
                    new.state_tab == (StateTab {
                        run_args_editor: match old.state_tab.run_args_editor {
                            Some(e) => Some(
                                RunArgsEditor {
                                    temp_output: p.filtered_files@[p.selected_index as int],
                                    ..e
                                },
                            ),
                            None => None,
                        },
                        mode: StateMode::EditingRunArgs,
                        file_picker: None,
                        ..old.state_tab
                    })
                } else {
                    new == old
                }
            } else if key == Key::Esc {
                &&& effects.len() == 0
                &&& new.state_tab == (StateTab {
                    file_picker: None,
                    mode: StateMode::EditingRunArgs,
                    ..old.state_tab
                })
            } else {
                exists|r: PickerOutcome|
                    picker_key_post(old.state_tab, new.state_tab, key, old.transport_type, r)
                        && effects == outcome_effects(r, false)
            },
        }
    } else {
        exists|r: PickerOutcome|
            picker_key_post(old.state_tab, new.state_tab, key, old.transport_type, r) && effects
                == outcome_effects(
                r,
                old.state_tab.mode == StateMode::PickingConfig && old.transport_type
                    == TransportType::Http,
            )
    }
}

/// Whether a new run may be set up: no session runs, and a script is known
/// (over HTTP or WebSocket) or everything a local run needs is (over TCP).
pub open spec fn new_run_allowed(app: App) -> bool {
    &&& !app.session_running
    &&& if app.transport_type == TransportType::Tcp {
        rerun_ready(app.state_tab)
    } else {
        script_of(app.state_tab) is Some
    }
}

/// The run-arguments popup asked for the output directory to be picked:
/// whether it was, given the popup as it was.
pub open spec fn picks_output_dir(tab: StateTab) -> bool {
    tab.run_args_editor matches Some(e) && e.focus_field == RunArgsField::OutputDir
}

/// What an action does to the viewer and the work it hands out.
pub open spec fn update_post(old: App, new: App, action: Action, effects: Seq<Effect>) -> bool {
    match action {
        Action::Tick => new == old && effects == tick_effects(old),
        Action::ServerDataFetched(Ok(d)) => server_data_post(old, new, d) && effects.len() == 0,
        Action::ServerDataFetched(Err(e)) => fetch_failed_post(old, new, e@) && effects.len() == 0,
        Action::StateDataFetched(Ok(d)) => state_data_post(old, new, d) && effects.len() == 0,
        Action::StateDataFetched(Err(e)) => fetch_failed_post(old, new, e@) && effects.len() == 0,
        Action::NextDevice => next_device_post(old, new) && effects.len() == 0,
        Action::PreviousDevice => previous_device_post(old, new) && effects.len() == 0,
        Action::NextStream => next_stream_post(old, new) && effects.len() == 0,
        Action::PreviousStream => previous_stream_post(old, new) && effects.len() == 0,
        Action::SetXAxis => set_x_axis_post(old, new) && effects.len() == 0,
        Action::SetYAxis => set_y_axis_post(old, new) && effects.len() == 0,
        Action::ClearAxes => new == (App { x_axis_stream: None, y_axis_stream: None, ..old })
            && effects.len() == 0,
        Action::StateNextPrimary => tab_step(old, new) && next_primary_post(
            old.state_tab,
            new.state_tab,
        ) && effects.len() == 0,
        Action::StatePreviousPrimary => tab_step(old, new) && previous_primary_post(
            old.state_tab,
            new.state_tab,
        ) && effects.len() == 0,
        Action::StateNextSecondary => tab_step(old, new) && next_secondary_post(
            old.state_tab,
            new.state_tab,
        ) && effects.len() == 0,
        Action::StatePreviousSecondary => tab_step(old, new) && previous_secondary_post(
            old.state_tab,
            new.state_tab,
        ) && effects.len() == 0,
        Action::StateToggleFocus => tab_step(old, new) && toggle_focus_post(
            old.state_tab,
            new.state_tab,
        ) && effects.len() == 0,
        Action::StateStartEdit => tab_step(old, new) && start_edit_post(old.state_tab, new.state_tab)
            && effects.len() == 0,
        Action::StateCommitEdit => new == old && effects == seq![Effect::CommitEdit],
        Action::StateCancelEdit => tab_step(old, new) && cancel_edit_post(old.state_tab, new.state_tab)
            && effects.len() == 0,
        Action::StateEditInput(c) => tab_step(old, new) && edit_input_post(
            old.state_tab,
            new.state_tab,
            c,
        ) && effects.len() == 0,
        Action::StateEditBackspace => tab_step(old, new) && edit_backspace_post(
            old.state_tab,
            new.state_tab,
        ) && effects.len() == 0,
        Action::StateEditDelete => tab_step(old, new) && edit_delete_post(old.state_tab, new.state_tab)
            && effects.len() == 0,
        Action::StateMoveCursorLeft => tab_step(old, new) && cursor_left_post(
            old.state_tab,
            new.state_tab,
        ) && effects.len() == 0,
        Action::StateMoveCursorRight => tab_step(old, new) && cursor_right_post(
            old.state_tab,
            new.state_tab,
        ) && effects.len() == 0,
        Action::StateMoveCursorStart => tab_step(old, new) && cursor_start_post(
            old.state_tab,
            new.state_tab,
        ) && effects.len() == 0,
        Action::StateMoveCursorEnd => tab_step(old, new) && cursor_end_post(
            old.state_tab,
            new.state_tab,
        ) && effects.len() == 0,
        Action::StateStartConfigPicker => new == old && effects == seq![Effect::OpenConfigPicker],
        Action::StateFilePickerKey(key) => picker_action_post(old, new, key, effects),
        Action::RemoteScriptsFetched(Ok((base, files))) => tab_step(old, new) && remote_scripts_post(
            old.state_tab,
            new.state_tab,
            base,
            files,
        ) && effects.len() == 0,
        Action::RemoteScriptsFetched(Err(_)) => new == (App {
            state_tab: StateTab { mode: StateMode::Normal, file_picker: None, ..old.state_tab },
            ..old
        }) && effects.len() == 0,
        Action::StateStartRunArgsEditor => tab_step(old, new) && run_args_editor_opened(
            old.state_tab,
            new.state_tab,
        ) && effects.len() == 0,
        Action::StateRunArgsNextField => tab_step(old, new) && run_args_next_field_post(
            old.state_tab,
            new.state_tab,
        ) && effects.len() == 0,
        Action::StateRunArgsPreviousField => tab_step(old, new) && run_args_previous_field_post(
            old.state_tab,
            new.state_tab,
        ) && effects.len() == 0,
        Action::StateRunArgsEditCurrent => {
            let picks = picks_output_dir(old.state_tab);
            &&& tab_step(old, new)
            &&& run_args_edit_current_post(old.state_tab, new.state_tab, picks)
            &&& effects == if !picks {
                Seq::empty()
            } else if old.transport_type == TransportType::Http {
                seq![Effect::FetchOutputDirs]
            } else {
                seq![Effect::PickLocalOutputDir]
            }
        },
        Action::StateRunArgsEditInput(c) => tab_step(old, new) && run_args_edit_input_post(
            old.state_tab,
            new.state_tab,
            c,
        ) && effects.len() == 0,
        Action::StateRunArgsEditBackspace => tab_step(old, new) && run_args_edit_backspace_post(
            old.state_tab,
            new.state_tab,
        ) && effects.len() == 0,
        Action::StateRunArgsEditDelete => tab_step(old, new) && run_args_edit_delete_post(
            old.state_tab,
            new.state_tab,
        ) && effects.len() == 0,
        Action::StateRunArgsCommitEdit => tab_step(old, new) && run_args_commit_edit_post(
            old.state_tab,
            new.state_tab,
        ) && effects.len() == 0,
        Action::StateRunArgsCancelEdit => tab_step(old, new) && run_args_cancel_edit_post(
            old.state_tab,
            new.state_tab,
        ) && effects.len() == 0,
        Action::StateRunArgsConfirm => tab_step(old, new) && run_args_confirm_post(
            old.state_tab,
            new.state_tab,
        ) && effects == seq![Effect::PrepareRun],
        Action::StateRunArgsCancel => tab_step(old, new) && run_args_cancel_post(
            old.state_tab,
            new.state_tab,
        ) && effects.len() == 0,
        Action::OutputDirFetched(Ok(dirs)) => tab_step(old, new) && offer_output_dirs_post(
            old.state_tab,
            new.state_tab,
            dirs,
        ) && effects.len() == 0,
        Action::OutputDirFetched(Err(_)) => new == (App {
            state_tab: StateTab { mode: StateMode::EditingRunArgs, ..old.state_tab },
            ..old
        }) && effects.len() == 0,
        Action::SwitchTab => switch_tab_post(old, new) && effects.len() == 0,
        Action::TogglePopup => new == (App { show_popup: !old.show_popup, ..old }) && effects.len()
            == 0,
        Action::StartNewRun => effects.len() == 0 && if new_run_allowed(old) {
            tab_step(old, new) && run_args_editor_opened(old.state_tab, new.state_tab)
        } else {
            new == old
        },
        Action::NewRunStarted(Ok(())) => new == (App { session_running: true, in_rerun: true, ..old })
            && effects.len() == 0,
        Action::NewRunStarted(Err(_)) => new == (App { in_rerun: false, ..old }) && effects.len()
            == 0,
        Action::KillServer => new == old && effects == seq![Effect::Send(Command::Kill)],
        Action::PauseServer => new == old && effects == seq![Effect::Send(Command::PauseState)],
        Action::ResumeServer => new == old && effects == seq![Effect::Send(Command::ResumeState)],
        Action::Quit => new == (App { should_quit: true, ..old }) && effects == seq![
            Effect::Shutdown {
                cleanup_rerun: old.in_rerun && old.transport_type == TransportType::Tcp,
                kill: !old.state_tab.remote,
            },
        ],
    }
}

/// The inputs on which the viewer's actions do not fail: the chart
/// selections that an action reads name existing devices and streams, the
/// paths handed to a picker fit it, and a session report is well formed.
pub open spec fn action_ok(app: App, action: Action) -> bool {
    match action {
        Action::NextDevice => device_row_ok(app),
        Action::PreviousDevice => app.devices_state == Some(0usize) ==> app.devices@.len() > 0,
        Action::NextStream => app.devices_state matches Some(d) ==> d < app.devices@.len(),
        Action::PreviousStream => app.devices_state matches Some(d) ==> d < app.devices@.len(),
        Action::SetXAxis => axis_ok(app),
        Action::SetYAxis => axis_ok(app),
        Action::RemoteScriptsFetched(Ok((_, files))) => paths_fit(files@),
        Action::OutputDirFetched(Ok(dirs)) => paths_fit(dirs@),
        Action::StateDataFetched(Ok(d)) => d.parsed matches Ok(s) ==> info_wf(s.info) && devices_wf(
            s.devices@,
        ),
        _ => true,
    }
}

fn no_effects() -> (r: Vec<Effect>)
    ensures
        r@ == Seq::<Effect>::empty(),
{
    let v: Vec<Effect> = Vec::new();
    assert(v@ =~= Seq::<Effect>::empty());
    v
}

fn one_effect(e: Effect) -> (r: Vec<Effect>)
    ensures
        r@ == seq![e],
{
    let mut v: Vec<Effect> = Vec::new();
    v.push(e);
    assert(v@ =~= seq![e]);
    v
}

fn outcome_to_effects(out: PickerOutcome, fetch_allowed: bool) -> (r: Vec<Effect>)
    ensures
        r@ == outcome_effects(out, fetch_allowed),
{
    let ghost g = out;
    let mut v: Vec<Effect> = Vec::new();
    if out.rescan {
        v.push(Effect::Rescan);
    }
    let ghost a = v@;
    match out.load_config {
        Some(p) => v.push(Effect::LoadConfig(p)),
        None => {},
    }
    let ghost b = v@;
    if out.fetch_remote_scripts && fetch_allowed {
        v.push(Effect::FetchRemoteScripts);
    }
    let ghost c = v@;
    if out.pick_local_script {
        v.push(Effect::PickLocalScript);
    }
    assert(v@ =~= outcome_effects(g, fetch_allowed));
    v
}

/// What a tick asks for.
fn handle_tick(app: &App) -> (r: Vec<Effect>)
    ensures
        r@ == tick_effects(*app),
{
    match app.active_tab {
        TabView::Chart => one_effect(Effect::PollData),
        TabView::State => {
            if app.connection_status {
                one_effect(Effect::PollState)
            } else {
                no_effects()
            }
        },
    }
}

/// Takes in what the data stream answered.
pub fn handle_server_data_fetched(app: &mut App, data: ServerData)
    ensures
        server_data_post(*old(app), *final(app), data),
{
    if !app.connection_status {
        app.clear_chart_state();
        app.connection_status = true;
        app.has_warned_disconnected = false;
    }
    if !data.empty {
        app.session_running = true;
        match data.parsed {
            Ok(resp) => {
                app.devices = devices_from_response(resp);
            },
            Err(_) => {},
        }
    } else {
        app.session_running = false;
    }
}

/// Takes in what the session's state answered.
pub fn handle_state_data_fetched(app: &mut App, data: StateData)
    requires
        old(app).state_tab.wf(),
        data.parsed matches Ok(s) ==> info_wf(s.info) && devices_wf(s.devices@),
    ensures
        final(app).state_tab.wf(),
        state_data_post(*old(app), *final(app), data),
{
    if !app.connection_status {
        app.connection_status = true;
        app.has_warned_disconnected = false;
    }
    if !data.empty {
        app.session_running = true;
        let ghost p = data.parsed;
        let _ = app.state_tab.update_from_json(data.parsed);
        assert(update_from_json_post(old(app).state_tab, app.state_tab, p, parse_outcome(p)));
    } else {
        app.session_running = false;
    }
}

#[verifier::rlimit(60)]
#[verifier::spinoff_prover]
fn handle_picker_key(app: &mut App, key: Key) -> (r: Vec<Effect>)
    requires
        old(app).state_tab.wf(),
    ensures
        final(app).state_tab.wf(),
        picker_action_post(*old(app), *final(app), key, r@),
{
    let transport = app.transport_type;
    match app.state_tab.mode {
        StateMode::PickingOutputDir => {
            if app.state_tab.file_picker.is_none() {
                return no_effects();
            }
            match key {
                Key::Enter => {
                    let selected = match &app.state_tab.file_picker {
                        Some(p) => p.get_selected(),
                        None => None,
                    };
                    match selected {
                        Some(s) => {
                            app.state_tab.set_output_dir(s);
                            app.state_tab.file_picker = None;
                        },
                        None => {},
                    }
                    no_effects()
                },
                Key::Esc => {
                    app.state_tab.file_picker = None;
                    app.state_tab.mode = StateMode::EditingRunArgs;
                    no_effects()
                },
                _ => {
                    let out = app.state_tab.handle_file_picker_key(key, transport);
                    let ghost g = out;
                    let r = outcome_to_effects(out, false);
                    assert(picker_key_post(old(app).state_tab, app.state_tab, key, transport, g));
                    r
                },
            }
        },
        StateMode::PickingConfig => {
            let out = app.state_tab.handle_file_picker_key(key, transport);
            let ghost g = out;
            let r = outcome_to_effects(out, transport == TransportType::Http);
            assert(picker_key_post(old(app).state_tab, app.state_tab, key, transport, g));
            r
        },
        _ => {
            let out = app.state_tab.handle_file_picker_key(key, transport);
            let ghost g = out;
            let r = outcome_to_effects(out, false);
            assert(picker_key_post(old(app).state_tab, app.state_tab, key, transport, g));
            r
        },
    }
}

fn request_new_run(app: &mut App)
    requires
        old(app).state_tab.wf(),
    ensures
        final(app).state_tab.wf(),
        if new_run_allowed(*old(app)) {
            tab_step(*old(app), *final(app)) && run_args_editor_opened(
                old(app).state_tab,
                final(app).state_tab,
            )
        } else {
            *final(app) == *old(app)
        },
{
    if app.session_running {
        return ;
    }
    match app.transport_type {
        TransportType::Http | TransportType::Ws => {
            if app.state_tab.loaded_script_path.is_none() && app.state_tab.server_script_path.is_none() {
                return ;
            }
        },
        TransportType::Tcp => {
            if !app.state_tab.can_rerun() {
                return ;
            }
        },
    }
    app.state_tab.start_run_args_editor();
}

/// An action about the chart, the connection and the session.
pub open spec fn chart_action(action: Action) -> bool {
    match action {
        Action::Tick => true,
        Action::ServerDataFetched(..) => true,
        Action::StateDataFetched(..) => true,
        Action::NextDevice => true,
        Action::PreviousDevice => true,
        Action::NextStream => true,
        Action::PreviousStream => true,
        Action::SetXAxis => true,
        Action::SetYAxis => true,
        Action::ClearAxes => true,
        Action::SwitchTab => true,
        Action::TogglePopup => true,
        Action::NewRunStarted(..) => true,
        Action::KillServer => true,
        Action::PauseServer => true,
        Action::ResumeServer => true,
        Action::Quit => true,
        _ => false,
    }
}

#[verifier::rlimit(60)]
#[verifier::spinoff_prover]
fn update_chart(app: &mut App, action: Action) -> (effects: Vec<Effect>)
    requires
        old(app).state_tab.wf(),
        action_ok(*old(app), action),
        chart_action(action),
    ensures
        final(app).state_tab.wf(),
        update_post(*old(app), *final(app), action, effects@),
{
    match action {
        Action::Tick => handle_tick(app),
        Action::ServerDataFetched(Ok(d)) => {
            handle_server_data_fetched(app, d);
            no_effects()
        },
        Action::ServerDataFetched(Err(e)) => {
            app.handle_transport_error(e.as_str());
            app.session_running = false;
            no_effects()
        },
        Action::StateDataFetched(Ok(d)) => {
            handle_state_data_fetched(app, d);
            no_effects()
        },
        Action::StateDataFetched(Err(e)) => {
            app.handle_transport_error(e.as_str());
            app.session_running = false;
            no_effects()
        },
        Action::NextDevice => {
            app.next_device();
            no_effects()
        },
        Action::PreviousDevice => {
            app.previous_device();
            no_effects()
        },
        Action::NextStream => {
            app.next_stream();
            no_effects()
        },
        Action::PreviousStream => {
            app.previous_stream();
            no_effects()
        },
        Action::SetXAxis => {
            app.set_x_axis();
            no_effects()
        },
        Action::SetYAxis => {
            app.set_y_axis();
            no_effects()
        },
        Action::ClearAxes => {
            app.x_axis_stream = None;
            app.y_axis_stream = None;
            no_effects()
        },
        Action::SwitchTab => {
            app.switch_tab();
            no_effects()
        },
        Action::TogglePopup => {
            app.show_popup = !app.show_popup;
            no_effects()
        },
        Action::NewRunStarted(Ok(())) => {
            app.session_running = true;
            app.in_rerun = true;
            no_effects()
        },
        Action::NewRunStarted(Err(_)) => {
            app.in_rerun = false;
            no_effects()
        },
        Action::KillServer => one_effect(Effect::Send(Command::Kill)),
        Action::PauseServer => one_effect(Effect::Send(Command::PauseState)),
        Action::ResumeServer => one_effect(Effect::Send(Command::ResumeState)),
        Action::Quit => {
            let cleanup_rerun = app.in_rerun && app.transport_type == TransportType::Tcp;
            let kill = !app.state_tab.remote;
            app.should_quit = true;
            one_effect(Effect::Shutdown { cleanup_rerun, kill })
        },

        _ => no_effects(),
    }
}

/// An action about the state tab's lists, editor and pickers.
pub open spec fn tab_action(action: Action) -> bool {
    match action {
        Action::StateNextPrimary => true,
        Action::StatePreviousPrimary => true,
        Action::StateNextSecondary => true,
        Action::StatePreviousSecondary => true,
        Action::StateToggleFocus => true,
        Action::StateStartEdit => true,
        Action::StateCommitEdit => true,
        Action::StateCancelEdit => true,
        Action::StateEditInput(..) => true,
        Action::StateEditBackspace => true,
        Action::StateEditDelete => true,
        Action::StateMoveCursorLeft => true,
        Action::StateMoveCursorRight => true,
        Action::StateMoveCursorStart => true,
        Action::StateMoveCursorEnd => true,
        Action::StateStartConfigPicker => true,
        Action::StateFilePickerKey(..) => true,
        Action::RemoteScriptsFetched(..) => true,
        _ => false,
    }
}

#[verifier::rlimit(60)]
#[verifier::spinoff_prover]
fn update_tab(app: &mut App, action: Action) -> (effects: Vec<Effect>)
    requires
        old(app).state_tab.wf(),
        action_ok(*old(app), action),
        tab_action(action),
    ensures
        final(app).state_tab.wf(),
        update_post(*old(app), *final(app), action, effects@),
{
    match action {
        Action::StateNextPrimary => {
            app.state_tab.next_primary();
            no_effects()
        },
        Action::StatePreviousPrimary => {
            app.state_tab.previous_primary();
            no_effects()
        },
        Action::StateNextSecondary => {
            app.state_tab.next_secondary();
            no_effects()
        },
        Action::StatePreviousSecondary => {
            app.state_tab.previous_secondary();
            no_effects()
        },
        Action::StateToggleFocus => {
            app.state_tab.toggle_focus();
            no_effects()
        },
        Action::StateStartEdit => {
            app.state_tab.start_edit();
            no_effects()
        },
        Action::StateCommitEdit => one_effect(Effect::CommitEdit),
        Action::StateCancelEdit => {
            app.state_tab.cancel_edit();
            no_effects()
        },
        Action::StateEditInput(c) => {
            app.state_tab.handle_edit_input(c);
            no_effects()
        },
        Action::StateEditBackspace => {
            app.state_tab.handle_edit_backspace();
            no_effects()
        },
        Action::StateEditDelete => {
            app.state_tab.handle_edit_delete();
            no_effects()
        },
        Action::StateMoveCursorLeft => {
            app.state_tab.move_cursor_left();
            no_effects()
        },
        Action::StateMoveCursorRight => {
            app.state_tab.move_cursor_right();
            no_effects()
        },
        Action::StateMoveCursorStart => {
            app.state_tab.move_cursor_start();
            no_effects()
        },
        Action::StateMoveCursorEnd => {
            app.state_tab.move_cursor_end();
            no_effects()
        },
        Action::StateStartConfigPicker => one_effect(Effect::OpenConfigPicker),
        Action::StateFilePickerKey(key) => handle_picker_key(app, key),
        Action::RemoteScriptsFetched(Ok((base, files))) => {
            app.state_tab.set_remote_scripts(base, files);
            no_effects()
        },
        Action::RemoteScriptsFetched(Err(_)) => {
            app.state_tab.mode = StateMode::Normal;
            app.state_tab.file_picker = None;
            no_effects()
        },
        _ => no_effects(),
    }
}

/// An action about the arguments and start of a new run.
pub open spec fn run_action(action: Action) -> bool {
    match action {
        Action::StateStartRunArgsEditor => true,
        Action::StateRunArgsNextField => true,
        Action::StateRunArgsPreviousField => true,
        Action::StateRunArgsEditCurrent => true,
        Action::StateRunArgsEditInput(..) => true,
        Action::StateRunArgsEditBackspace => true,
        Action::StateRunArgsEditDelete => true,
        Action::StateRunArgsCommitEdit => true,
        Action::StateRunArgsCancelEdit => true,
        Action::StateRunArgsConfirm => true,
        Action::StateRunArgsCancel => true,
        Action::OutputDirFetched(..) => true,
        Action::StartNewRun => true,
        _ => false,
    }
}

#[verifier::rlimit(60)]
#[verifier::spinoff_prover]
fn update_run(app: &mut App, action: Action) -> (effects: Vec<Effect>)
    requires
        old(app).state_tab.wf(),
        action_ok(*old(app), action),
        run_action(action),
    ensures
        final(app).state_tab.wf(),
        update_post(*old(app), *final(app), action, effects@),
{
    match action {
        Action::StateStartRunArgsEditor => {
            app.state_tab.start_run_args_editor();
            no_effects()
        },
        Action::StateRunArgsNextField => {
            app.state_tab.run_args_next_field();
            no_effects()
        },
        Action::StateRunArgsPreviousField => {
            app.state_tab.run_args_previous_field();
            no_effects()
        },
        Action::StateRunArgsEditCurrent => {
            let picks = app.state_tab.run_args_edit_current();
            if !picks {
                no_effects()
            } else if app.transport_type == TransportType::Http {
                one_effect(Effect::FetchOutputDirs)
            } else {
                one_effect(Effect::PickLocalOutputDir)
            }
        },
        Action::StateRunArgsEditInput(c) => {
            app.state_tab.run_args_edit_input(c);
            no_effects()
        },
        Action::StateRunArgsEditBackspace => {
            app.state_tab.run_args_edit_backspace();
            no_effects()
        },
        Action::StateRunArgsEditDelete => {
            app.state_tab.run_args_edit_delete();
            no_effects()
        },
        Action::StateRunArgsCommitEdit => {
            app.state_tab.run_args_commit_edit();
            no_effects()
        },
        Action::StateRunArgsCancelEdit => {
            app.state_tab.run_args_cancel_edit();
            no_effects()
        },
        Action::StateRunArgsConfirm => {
            app.state_tab.run_args_confirm();
            one_effect(Effect::PrepareRun)
        },
        Action::StateRunArgsCancel => {
            app.state_tab.run_args_cancel();
            no_effects()
        },
        Action::OutputDirFetched(Ok(dirs)) => {
            app.state_tab.offer_output_dirs(dirs);
            no_effects()
        },
        Action::OutputDirFetched(Err(_)) => {
            app.state_tab.mode = StateMode::EditingRunArgs;
            no_effects()
        },
        Action::StartNewRun => {
            request_new_run(app);
            no_effects()
        },
        _ => no_effects(),
    }
}

fn is_chart_action(action: &Action) -> (r: bool)
    ensures
        r == chart_action(*action),
{
    match action {
        Action::Tick | Action::ServerDataFetched(..) | Action::StateDataFetched(..) | Action::NextDevice | Action::PreviousDevice | Action::NextStream | Action::PreviousStream | Action::SetXAxis | Action::SetYAxis | Action::ClearAxes | Action::SwitchTab | Action::TogglePopup | Action::NewRunStarted(..) | Action::KillServer | Action::PauseServer | Action::ResumeServer | Action::Quit => true,
        _ => false,
    }
}

fn is_run_action(action: &Action) -> (r: bool)
    ensures
        r == run_action(*action),
{
    match action {
        Action::StateStartRunArgsEditor | Action::StateRunArgsNextField | Action::StateRunArgsPreviousField | Action::StateRunArgsEditCurrent | Action::StateRunArgsEditInput(..) | Action::StateRunArgsEditBackspace | Action::StateRunArgsEditDelete | Action::StateRunArgsCommitEdit | Action::StateRunArgsCancelEdit | Action::StateRunArgsConfirm | Action::StateRunArgsCancel | Action::OutputDirFetched(..) | Action::StartNewRun => true,
        _ => false,
    }
}

/// Takes in an action: the viewer's new state, and the work it hands out.
pub fn update(app: &mut App, action: Action) -> (effects: Vec<Effect>)
    requires
        old(app).state_tab.wf(),
        action_ok(*old(app), action),
    ensures
        final(app).state_tab.wf(),
        update_post(*old(app), *final(app), action, effects@),
{
    if is_chart_action(&action) {
        update_chart(app, action)
    } else if is_run_action(&action) {
        update_run(app, action)
    } else {
        update_tab(app, action)
    }
}

/// What was gathered for a new run: for a local run, where the
/// configuration was saved (or why it could not be); for a run on a
/// server, the configuration as JSON and the server's scripts directory
/// (or why each could not be had).
pub enum RunPreparation {
    Local(Result<String, String>),
    Remote { config_json: Result<String, String>, allowed_dir: Result<String, String> },
}

/// The arguments that a preparation yields for the state tab, if any.
pub open spec fn prepared_run_args(tab: StateTab, prep: RunPreparation) -> Option<RunArgs> {
    match script_of(tab) {
        None => None,
        Some(path) => match prep {
            RunPreparation::Local(Ok(c)) => Some(run_args_for(tab, c)),
            RunPreparation::Local(Err(_)) => None,
            RunPreparation::Remote { config_json, allowed_dir } => match config_json {
                Err(_) => None,
                Ok(j) => match allowed_dir {
                    Err(_) => None,
                    Ok(d) => if path_starts_with(path@, d@) {
                        Some(run_args_for(tab, j))
                    } else {
                        None
                    },
                },
            },
        },
    }
}

/// Starts a new run from what was gathered for it: the arguments are built
/// and handed back to be sent, and the viewer marks itself as rerunning;
/// when they cannot be built nothing changes.
pub fn start_new_run(app: &mut App, prep: RunPreparation) -> (r: Option<RunArgs>)
    requires
        (prep is Local) == (old(app).transport_type == TransportType::Tcp),
    ensures
        r == prepared_run_args(old(app).state_tab, prep),
        r is Some ==> *final(app) == (App { in_rerun: true, ..*old(app) }),
        r is None ==> *final(app) == *old(app),
{
    let built = match prep {
        RunPreparation::Local(temp) => app.state_tab.build_run_args(temp),
        RunPreparation::Remote { config_json, allowed_dir } => app.state_tab.build_http_run_args(
            config_json,
            allowed_dir,
        ),
    };
    match built {
        Ok(args) => {
            app.in_rerun = true;
            Some(args)
        },
        Err(_) => None,
    }
}

} // verus!
