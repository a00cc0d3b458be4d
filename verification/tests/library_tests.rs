use rex_core::action::{handle_key_event, Action, Effect, ServerData, StateData};
use rex_core::file_picker::FilePicker;
use rex_core::http::{HTTPTransport, HttpReply, SendFailure};
use rex_core::keys::Key;
use rex_core::run_args::{EditStart, RunArgsEditor, RunArgsField};
use rex_core::server::{
    json_reply, listen_address, run_response, session_address, session_status_code, start_run,
    tcp_line_for, text_reply, ws_reply, JsonReply,
};
use rex_core::sort::{sort_by_name, sort_by_score_desc};
use rex_core::state::{
    choose_default_output, FocusSection, SessionInfo, SessionMetadata, StateMode, StateTab, Summary,
};
use rex_core::text::{
    escape_toml_string, i64_to_string, insert_char_at, parse_i64, parse_u64, parse_u8,
    remove_char_at, str_less, trim, u64_to_string,
};
use rex_core::transport::{
    base_url, classify_status, endpoint_url, Command, Endpoint, StatusOutcome, TransportType,
};
use rex_core::update::{start_new_run, update, RunPreparation};
use rex_core::value::{
    format_value, parse_value, set_nested_value, toml_value_to_string, ConfigTable, ConfigValue,
};
use rex_core::viewer::{devices_from_response, text_contains, App, ServerResponse, TabView};

fn info() -> SessionInfo {
    SessionInfo {
        name: "Ada".to_string(),
        email: "ada@example.org".to_string(),
        session_name: "Run".to_string(),
        session_description: "A \"quoted\" run".to_string(),
        meta: None,
    }
}

fn devices() -> ConfigTable {
    let mut daq = ConfigTable::new();
    daq.insert("gate_time".to_string(), ConfigValue::Integer(1000));
    let mut inner = ConfigTable::new();
    inner.insert("x".to_string(), ConfigValue::Boolean(false));
    daq.insert("sub".to_string(), ConfigValue::Table(inner));
    let mut t = ConfigTable::new();
    t.insert("daq".to_string(), ConfigValue::Table(daq));
    t
}

fn tab_with_session() -> StateTab {
    let mut tab = StateTab::new(false, None, Some("/out".to_string()));
    tab.apply_loaded_config(Some(info()), devices());
    tab
}

// ----- text -----

#[test]
fn escape_then_read_back_gives_the_text() {
    assert_eq!(escape_toml_string("a\"b\\c\nd\re\tf"), "a\\\"b\\\\c\\nd\\re\\tf");
    let text = "x = \"a\\\\\"b\"";
    let escaped = escape_toml_string(text);
    let doc: toml::Value = toml::from_str(&format!("k = \"{}\"", escaped)).unwrap();
    assert_eq!(doc["k"].as_str(), Some(text));
}

#[test]
fn integer_text_round_trips() {
    for i in [0i64, 7, -7, 1234567, i64::MIN, i64::MAX] {
        assert_eq!(i64_to_string(i), i.to_string());
        assert_eq!(parse_i64(&i64_to_string(i)), Some(i));
        let shown = format_value(&ConfigValue::Integer(i));
        assert_eq!(parse_value(&shown, None), ConfigValue::Integer(i));
    }
    assert_eq!(u64_to_string(u64::MAX), "18446744073709551615");
}

#[test]
fn integer_parsing_follows_from_str() {
    assert_eq!(parse_i64("+12"), Some(12));
    assert_eq!(parse_i64("9223372036854775808"), None);
    assert_eq!(parse_i64(""), None);
    assert_eq!(parse_i64("-"), None);
    assert_eq!(parse_i64("1 "), None);
    assert_eq!(parse_u8("255"), Some(255));
    assert_eq!(parse_u8("256"), None);
    assert_eq!(parse_u8("-1"), None);
    assert_eq!(parse_u64("18446744073709551615"), Some(u64::MAX));
    assert_eq!(parse_u64("18446744073709551616"), None);
}

#[test]
fn text_order_and_editing() {
    assert!(str_less("abc", "abd"));
    assert!(str_less("ab", "abc"));
    assert!(!str_less("abc", "abc"));
    assert_eq!(insert_char_at("héllo", 2, 'X'), "héXllo");
    assert_eq!(remove_char_at("héllo", 1), "hllo");
    assert_eq!(remove_char_at(&insert_char_at("abc", 1, 'z'), 1), "abc");
    assert_eq!(trim("  KILL \n"), "KILL");
    assert!(text_contains("Error: No active session", "No active session"));
    assert!(!text_contains("abc", "abcd"));
}

// ----- values -----

#[test]
fn float_text_always_reads_back_as_float() {
    let cases = [("2", "2.0"), ("0.5", "0.5"), ("1e100", "1e100"), ("-3", "-3.0"), ("inf", "inf.0")];
    for (shown, written) in cases {
        assert_eq!(toml_value_to_string(&ConfigValue::Float(shown.to_string())), written);
    }
}

#[test]
fn toml_value_to_string_of_compound_values() {
    let arr = ConfigValue::Array(vec![
        ConfigValue::String("a\"b".to_string()),
        ConfigValue::Integer(-1),
        ConfigValue::Datetime("1979-05-27T07:32:00Z".to_string()),
    ]);
    assert_eq!(toml_value_to_string(&arr), "[\"a\\\"b\", -1, \"1979-05-27T07:32:00Z\"]");
    let mut t = ConfigTable::new();
    t.insert("b".to_string(), ConfigValue::Boolean(false));
    t.insert("a".to_string(), ConfigValue::Integer(1));
    assert_eq!(toml_value_to_string(&ConfigValue::Table(t)), "{ a = 1, b = false }");
    let mut t2 = ConfigTable::new();
    t2.insert("k".to_string(), ConfigValue::String("v".to_string()));
    assert_eq!(format_value(&ConfigValue::Table(t2)), "{k: v}");
}

#[test]
fn table_keeps_keys_sorted_and_unique() {
    let mut t = ConfigTable::new();
    t.insert("b".to_string(), ConfigValue::Integer(1));
    t.insert("a".to_string(), ConfigValue::Integer(2));
    t.insert("b".to_string(), ConfigValue::Integer(3));
    assert_eq!(t.keys(), vec!["a".to_string(), "b".to_string()]);
    assert_eq!(t.get("b"), Some(&ConfigValue::Integer(3)));
    assert_eq!(t.find("c"), Err(2));
    assert_eq!(t.find("a"), Ok(0));
}

#[test]
fn set_nested_reads_back_and_leaves_the_rest() {
    let mut t = devices();
    set_nested_value(&mut t, "daq.sub.x", ConfigValue::Boolean(true));
    set_nested_value(&mut t, "other", ConfigValue::Integer(5));
    let daq = match t.get("daq") {
        Some(ConfigValue::Table(d)) => d,
        _ => panic!("daq is a table"),
    };
    let sub = match daq.get("sub") {
        Some(ConfigValue::Table(s)) => s,
        _ => panic!("sub is a table"),
    };
    assert_eq!(sub.get("x"), Some(&ConfigValue::Boolean(true)));
    assert_eq!(daq.get("gate_time"), Some(&ConfigValue::Integer(1000)));
    assert_eq!(t.get("other"), Some(&ConfigValue::Integer(5)));
    // A plain value on the way stops the change.
    let before = devices();
    let mut t3 = devices();
    set_nested_value(&mut t3, "daq.gate_time.deeper", ConfigValue::Integer(1));
    assert_eq!(t3, before);
}

// ----- sorting -----

#[test]
fn sorting_by_name_is_stable() {
    let mut v = vec![
        ("b".to_string(), "1".to_string()),
        ("a".to_string(), "2".to_string()),
        ("b".to_string(), "0".to_string()),
    ];
    sort_by_name(&mut v);
    assert_eq!(
        v,
        vec![
            ("a".to_string(), "2".to_string()),
            ("b".to_string(), "1".to_string()),
            ("b".to_string(), "0".to_string()),
        ]
    );
    let mut s = vec![("x".to_string(), 3u16), ("y".to_string(), 9u16), ("z".to_string(), 3u16)];
    sort_by_score_desc(&mut s);
    assert_eq!(s, vec![("y".to_string(), 9), ("x".to_string(), 3), ("z".to_string(), 3)]);
}

// ----- file picker -----

#[test]
fn picker_filters_by_fuzzy_query_and_shows_relative_paths() {
    let files = vec!["/w/config.toml".to_string(), "/w/notes.txt".to_string()];
    let mut p = FilePicker::new("/w".to_string(), vec![".toml".to_string()], "t".to_string(), files);
    assert_eq!(p.filtered_files.len(), 2);
    p.handle_char('c');
    p.handle_char('f');
    p.handle_char('g');
    assert_eq!(p.filtered_files, vec!["/w/config.toml".to_string()]);
    assert_eq!(p.get_selected(), Some("/w/config.toml".to_string()));
    assert_eq!(p.display_path("/w/config.toml"), "config.toml");
    assert_eq!(p.display_path("/w"), ".");
    p.handle_backspace();
    assert_eq!(p.query, "cf");
    assert!(p.accepts_entry(false, true, false, Some("TOML")));
    assert!(!p.accepts_entry(false, true, false, Some("txt")));
}

#[test]
fn picker_moves_between_directories() {
    let files = vec!["/w/sub/a.toml".to_string()];
    let mut p = FilePicker::new("/w".to_string(), vec![".toml".to_string()], "t".to_string(), files);
    assert!(p.navigate_down());
    assert_eq!(p.current_dir, "/w/sub");
    assert!(p.navigate_up());
    assert_eq!(p.current_dir, "/w");
    let mut r = FilePicker::new_remote("/srv".to_string(), vec![], vec![], "t".to_string());
    assert!(!r.navigate_up());
    assert_eq!(r.current_dir, "/srv");
}

// ----- run arguments -----

#[test]
fn run_args_fields_cycle() {
    let fields = [RunArgsField::OutputDir, RunArgsField::Loops, RunArgsField::Delay, RunArgsField::DryRun];
    for f in fields {
        assert_eq!(f.next().previous(), f);
        assert_eq!(f.previous().next(), f);
        assert_eq!(f.next().next().next().next(), f);
    }
    assert_eq!(RunArgsField::DryRun.next(), RunArgsField::OutputDir);
}

#[test]
fn run_args_editor_clamps_numbers() {
    let mut e = RunArgsEditor::new("/o".to_string(), 3, 10, false);
    e.focus_field = RunArgsField::Loops;
    assert_eq!(e.edit_current(), EditStart::InPlace);
    assert_eq!(e.edit_buffer, "3");
    e.edit_backspace();
    e.edit_input('0');
    e.commit_edit();
    assert_eq!(e.temp_loops, 1);
    e.focus_field = RunArgsField::Delay;
    e.edit_current();
    e.edit_input('0');
    e.edit_input('0');
    e.edit_input('0');
    e.commit_edit();
    assert_eq!(e.temp_delay, 3600);
    e.edit_current();
    e.edit_input('x');
    e.commit_edit();
    assert_eq!(e.temp_delay, 3600);
    e.focus_field = RunArgsField::DryRun;
    e.edit_current();
    assert!(e.temp_dry_run);
    e.focus_field = RunArgsField::OutputDir;
    assert_eq!(e.edit_current(), EditStart::PickOutputDir);
}

// ----- state tab -----

#[test]
fn session_list_shows_fields_and_metadata() {
    let mut i = info();
    let mut meta = ConfigTable::new();
    meta.insert("temp".to_string(), ConfigValue::Integer(20));
    i.meta = Some(SessionMetadata { meta });
    let mut tab = StateTab::new(false, None, Some(".".to_string()));
    tab.apply_loaded_config(Some(i), ConfigTable::new());
    assert_eq!(
        tab.session_field_names,
        vec!["Name", "Email", "Session Name", "Description", "meta.temp"]
    );
    assert_eq!(tab.session_field_values[4], "20");
    // Edit the metadata row.
    tab.session_fields_state = Some(4);
    tab.start_edit();
    assert_eq!(tab.edit_buffer, "20");
    tab.handle_edit_input('5');
    tab.commit_edit(Some("205".to_string()));
    assert_eq!(tab.session_field_values[4], "205");
    assert!(!tab.editing);
}

#[test]
fn editing_a_device_field_changes_the_configuration() {
    let mut tab = tab_with_session();
    assert_eq!(tab.device_names, vec!["daq".to_string()]);
    assert_eq!(tab.device_list_state, Some(0));
    assert_eq!(tab.device_field_names, vec!["gate_time".to_string(), "sub.x".to_string()]);
    tab.toggle_focus();
    assert_eq!(tab.focus, FocusSection::Device);
    tab.next_secondary();
    tab.start_edit();
    assert_eq!(tab.edit_buffer, "false");
    tab.move_cursor_start();
    tab.handle_edit_delete();
    tab.move_cursor_end();
    tab.cancel_edit();
    assert_eq!(tab.edit_buffer, "");
    tab.start_edit();
    for _ in 0..5 {
        tab.handle_edit_backspace();
    }
    for c in "true".chars() {
        tab.handle_edit_input(c);
    }
    tab.commit_edit(None);
    assert_eq!(tab.device_field_values, vec!["1000".to_string(), "true".to_string()]);
}

#[test]
fn input_then_backspace_restores_the_buffer() {
    let mut tab = tab_with_session();
    tab.start_edit();
    let before = (tab.edit_buffer.clone(), tab.cursor_position);
    tab.handle_edit_input('z');
    tab.handle_edit_backspace();
    assert_eq!((tab.edit_buffer.clone(), tab.cursor_position), before);
}

#[test]
fn lists_wrap_both_ways() {
    let mut tab = tab_with_session();
    tab.session_fields_state = Some(0);
    tab.previous_primary();
    assert_eq!(tab.session_fields_state, Some(3));
    tab.next_primary();
    assert_eq!(tab.session_fields_state, Some(0));
    tab.toggle_focus();
    tab.toggle_focus();
    assert_eq!(tab.focus, FocusSection::Session);
}

#[test]
fn config_file_text_writes_session_and_devices() {
    let tab = tab_with_session();
    assert_eq!(
        tab.config_file_text(),
        "[session.info]\nname = \"Ada\"\nemail = \"ada@example.org\"\nsession_name = \"Run\"\nsession_description = \"A \\\"quoted\\\" run\"\n\n[device.daq]\ngate_time = 1000\n\n[device.daq.sub]\nx = false\n"
    );
}

#[test]
fn update_from_json_takes_a_report_or_hands_back_the_error() {
    let mut tab = StateTab::new(true, None, Some(".".to_string()));
    assert_eq!(tab.update_from_json(Err("bad json".to_string())), Err("bad json".to_string()));
    assert!(tab.session_info.is_none());
    let report = Summary { info: info(), devices: devices(), run_file: "/s/run.py".to_string() };
    assert_eq!(tab.update_from_json(Ok(report)), Ok(()));
    assert_eq!(tab.server_script_path, Some("/s/run.py".to_string()));
    assert_eq!(tab.session_field_values[0], "Ada");
}

#[test]
fn run_arguments_need_a_script_and_a_session() {
    let mut tab = tab_with_session();
    assert!(matches!(tab.build_run_args(Ok("/tmp/c.toml".to_string())), Err(e) if e == "No script file available"));
    assert!(matches!(tab.build_run_args(Err("disk full".to_string())), Err(e) if e == "disk full"));
    tab.loaded_script_path = Some("/home/u/.config/rex/scripts/a.py".to_string());
    let args = tab.build_run_args(Ok("/tmp/c.toml".to_string())).unwrap();
    assert_eq!(args.path, "/home/u/.config/rex/scripts/a.py");
    assert_eq!(args.config, Some("/tmp/c.toml".to_string()));
    assert_eq!(args.output, "/out");
    assert_eq!(args.loops, 1);
    let remote = tab.build_http_run_args(Ok("{}".to_string()), Ok("/home/u/.config/rex/scripts".to_string()));
    assert!(remote.is_ok());
    let outside = tab.build_http_run_args(Ok("{}".to_string()), Ok("/elsewhere".to_string()));
    assert!(matches!(outside, Err(e) if e == "Script must be from allowed scripts directory"));
    let no_dir = tab.build_http_run_args(Ok("{}".to_string()), Err("no home".to_string()));
    assert!(matches!(no_dir, Err(e) if e == "Cannot verify script location: no home"));
    let no_json = tab.build_http_run_args(Err("No session info".to_string()), Ok("/".to_string()));
    assert!(matches!(no_json, Err(e) if e == "No session info"));
    let empty = StateTab::new(false, None, Some(".".to_string()));
    assert!(matches!(empty.build_config_json(), Err(e) if e == "No session info"));
    let m = tab.build_config_json().unwrap();
    assert_eq!(m.name, "Ada");
    assert!(m.devices.is_some());
    assert!(tab.can_rerun());
}

#[test]
fn picker_keys_choose_a_config_then_a_script() {
    let mut tab = StateTab::new(false, None, Some(".".to_string()));
    tab.start_config_picker("/w".to_string(), vec!["/w/a.toml".to_string()]);
    assert_eq!(tab.mode, StateMode::PickingConfig);
    let out = tab.handle_file_picker_key(Key::Enter, TransportType::Tcp);
    assert_eq!(out.load_config, Some("/w/a.toml".to_string()));
    assert!(out.pick_local_script && !out.fetch_remote_scripts);
    assert_eq!(tab.loaded_config_path, Some("/w/a.toml".to_string()));
    tab.open_script_picker("/w".to_string(), vec!["/w/run.py".to_string()]);
    let out = tab.handle_file_picker_key(Key::Enter, TransportType::Tcp);
    assert!(out.load_config.is_none());
    assert_eq!(tab.loaded_script_path, Some("/w/run.py".to_string()));
    assert_eq!(tab.mode, StateMode::Normal);
    assert!(tab.file_picker.is_none());
    // Over HTTP the server's scripts are fetched; Esc asks for them too.
    tab.start_config_picker("/w".to_string(), vec!["/w/a.toml".to_string()]);
    let out = tab.handle_file_picker_key(Key::Enter, TransportType::Http);
    assert!(out.fetch_remote_scripts);
    assert_eq!(tab.mode, StateMode::FetchingScripts);
    tab.start_config_picker("/w".to_string(), vec![]);
    let out = tab.handle_file_picker_key(Key::Esc, TransportType::Http);
    assert!(out.fetch_remote_scripts);
    assert_eq!(tab.mode, StateMode::Normal);
}

// ----- transport, HTTP, server -----

#[test]
fn commands_and_endpoints() {
    assert_eq!(Command::parse(" STATE\n"), Some(Command::State));
    assert_eq!(Command::parse("STATUS"), None);
    assert_eq!(Command::PauseState.line(), "PAUSE_STATE\n");
    assert_eq!(Endpoint::for_command(Command::ResumeState), Endpoint::Continue);
    assert!(Endpoint::Kill.is_post());
    assert!(!Endpoint::Datastream.is_post());
    assert_eq!(base_url("localhost:8080/"), "http://localhost:8080");
    assert_eq!(base_url("https://h//"), "https://h");
    assert_eq!(endpoint_url("http://h", Endpoint::Status), "http://h/status");
    assert_eq!(classify_status(502), StatusOutcome::NoActiveSession);
    assert_eq!(classify_status(204), StatusOutcome::Success);
    assert_eq!(classify_status(404), StatusOutcome::Failure);
}

#[test]
fn http_session_reads_replies() {
    let mut s = HTTPTransport::new("h/");
    let req = s.plan("KILL\n").unwrap();
    assert_eq!(req.url, "http://h/kill");
    assert!(req.post);
    assert!(matches!(s.plan("NOPE"), Err(e) if e == "Unknown command: NOPE"));
    let ok = s.finish_command(Endpoint::Status, "http://h/status", Ok(HttpReply { status: 200, body: Ok("{}".to_string()) }));
    assert_eq!(ok, Ok("{}".to_string()));
    assert!(s.is_connected());
    let missing = s.finish_command(Endpoint::Status, "http://h/status", Ok(HttpReply { status: 502, body: Ok(String::new()) }));
    assert_eq!(missing, Err("No active session".to_string()));
    assert!(!s.is_connected());
    let other = s.finish_command(Endpoint::Status, "http://h/status", Ok(HttpReply { status: 404, body: Ok("gone".to_string()) }));
    assert_eq!(other, Err("HTTP status returned status 404 Not Found: gone".to_string()));
    let timeout = s.finish_command(Endpoint::Kill, "http://h/kill", Err(SendFailure::Timeout("t".to_string())));
    assert_eq!(timeout, Err("Request to http://h/kill timed out".to_string()));
    let refused = s.finish_command(Endpoint::Kill, "http://h/kill", Err(SendFailure::Connect("c".to_string())));
    assert_eq!(refused, Err("Could not connect to HTTP server at http://h/kill".to_string()));
    let built = s.finish_command(Endpoint::Kill, "u", Err(SendFailure::Build("bad url".to_string())));
    assert_eq!(built, Err("Request builder error: bad url".to_string()));
    let rerun = s.finish_rerun(Ok(HttpReply { status: 500, body: Err("x".to_string()) }));
    assert_eq!(rerun, Err("HTTP /run failed with status 500 Internal Server Error: Unknown error".to_string()));
    assert_eq!(s.finish_rerun(Ok(HttpReply { status: 200, body: Ok(String::new()) })), Ok(()));
    assert!(s.is_connected());
    assert_eq!(s.finish_session_check(Some(204)), Err("No active session".to_string()));
    assert_eq!(s.finish_session_check(Some(200)), Ok(()));
    s.disconnect();
    assert!(!s.is_connected());
}

#[test]
fn server_answers() {
    let started = start_run(false);
    assert_eq!(started.id.len(), 36);
    assert_eq!(started.message, "session started");
    let ignored = start_run(true);
    assert_eq!(ignored.id, "None");
    assert_eq!(ignored.message, "Session is already running, ignoring request");
    assert_eq!(run_response(false, "abc".to_string()).id, "abc");
    assert_eq!(session_status_code(true), 200);
    assert_eq!(session_status_code(false), 204);
    assert_eq!(session_address(None, "7676".to_string()), "0.0.0.0:7676");
    assert_eq!(session_address(Some("9000".to_string()), "7676".to_string()), "0.0.0.0:9000");
    assert_eq!(listen_address("8080"), "0.0.0.0:8080");
    assert_eq!(tcp_line_for("  GET_DATASTREAM "), Ok("GET_DATASTREAM\n".to_string()));
    assert_eq!(tcp_line_for(" HELLO "), Err("Unknown command: HELLO".to_string()));
    assert_eq!(ws_reply(Err("boom".to_string())), "ERROR: boom");
    assert_eq!(text_reply(Err("down".to_string())), (502, "Error communicating with TCP server: down".to_string()));
    assert!(matches!(json_reply(Ok("{\"a\":1}".to_string())), JsonReply::Json(j) if j == "{\"a\":1}"));
    assert!(matches!(json_reply(Ok("{oops".to_string())), JsonReply::Error(502, m) if m == "Received malformed JSON: {oops"));
}

// ----- viewer and actions -----

fn response() -> ServerResponse {
    ServerResponse {
        response: vec![
            ("b_dev".to_string(), vec![("z".to_string(), 3), ("a".to_string(), 3)]),
            ("a_dev".to_string(), vec![("t".to_string(), 1)]),
        ],
    }
}

#[test]
fn devices_are_sorted_with_their_streams() {
    let devs = devices_from_response(response());
    assert_eq!(devs.len(), 2);
    assert_eq!(devs[0].name, "a_dev");
    assert_eq!(devs[1].name, "b_dev");
    assert_eq!(devs[1].streams, vec!["a".to_string(), "z".to_string()]);
}

#[test]
fn chart_navigation_and_axes() {
    let mut app = App::new(false, TransportType::Tcp, None, Some(".".to_string()));
    let fx = update(&mut app, Action::ServerDataFetched(Ok(ServerData { empty: false, parsed: Ok(response()) })));
    assert!(fx.is_empty());
    assert!(app.session_running);
    app.devices_state = None;
    app.next_device();
    assert_eq!(app.devices_state, Some(0));
    assert_eq!(app.current_device_streams, vec!["t".to_string()]);
    app.next_device();
    assert_eq!(app.devices_state, Some(1));
    app.next_stream();
    assert_eq!(app.streams_state, Some(1));
    app.set_x_axis();
    assert_eq!(app.x_axis_stream.map(|s| (s.device_index, s.stream_index)), Some((1, 1)));
    app.previous_device();
    app.previous_device();
    assert_eq!(app.devices_state, Some(1));
    app.switch_tab();
    app.switch_tab();
    assert_eq!(app.active_tab, TabView::Chart);
}

#[test]
fn transport_errors_mark_the_connection() {
    let mut app = App::new(true, TransportType::Http, None, Some(".".to_string()));
    app.handle_transport_error("No active session");
    assert!(!app.connection_status);
    assert!(app.has_warned_disconnected);
    let mut app2 = App::new(true, TransportType::Http, None, Some(".".to_string()));
    app2.connection_status = false;
    app2.handle_transport_error("HTTP 502");
    assert!(!app2.has_warned_disconnected);
    app2.handle_transport_error("connection refused");
    assert!(app2.has_warned_disconnected);
}

#[test]
fn keys_become_actions() {
    let mut app = App::new(false, TransportType::Tcp, None, Some(".".to_string()));
    assert!(matches!(handle_key_event(&app, Key::Char('q')).as_slice(), [Action::Quit]));
    assert!(matches!(handle_key_event(&app, Key::Char('x')).as_slice(), [Action::SetXAxis]));
    app.active_tab = TabView::State;
    assert!(matches!(handle_key_event(&app, Key::Char('e')).as_slice(), [Action::StateStartEdit]));
    app.session_running = true;
    assert!(handle_key_event(&app, Key::Char('e')).is_empty());
    app.state_tab.editing = true;
    assert!(matches!(handle_key_event(&app, Key::Enter).as_slice(), [Action::StateCommitEdit]));
    app.state_tab.mode = StateMode::PickingConfig;
    assert!(matches!(handle_key_event(&app, Key::Char('q')).as_slice(), [Action::StateFilePickerKey(Key::Char('q'))]));
}

#[test]
fn actions_hand_out_work() {
    let mut app = App::new(false, TransportType::Tcp, None, Some(".".to_string()));
    assert!(matches!(update(&mut app, Action::Tick).as_slice(), [Effect::PollData]));
    app.active_tab = TabView::State;
    assert!(matches!(update(&mut app, Action::Tick).as_slice(), [Effect::PollState]));
    assert!(matches!(update(&mut app, Action::KillServer).as_slice(), [Effect::Send(Command::Kill)]));
    let fx = update(&mut app, Action::StateDataFetched(Err("502 Bad Gateway".to_string())));
    assert!(fx.is_empty());
    assert!(!app.connection_status);
    assert!(update(&mut app, Action::Tick).is_empty());
    let fx = update(&mut app, Action::StateDataFetched(Ok(StateData { empty: true, parsed: Err("empty".to_string()) })));
    assert!(fx.is_empty());
    assert!(app.connection_status && !app.session_running);
    app.in_rerun = true;
    let fx = update(&mut app, Action::Quit);
    assert!(matches!(fx.as_slice(), [Effect::Shutdown { cleanup_rerun: true, kill: true }]));
    assert!(app.should_quit);
}

#[test]
fn a_new_run_goes_through_the_popup() {
    let mut app = App::new(false, TransportType::Tcp, None, Some("/out".to_string()));
    update(&mut app, Action::StartNewRun);
    assert!(app.state_tab.run_args_editor.is_none());
    app.state_tab.apply_loaded_config(Some(info()), devices());
    app.state_tab.loaded_script_path = Some("/w/run.py".to_string());
    update(&mut app, Action::StartNewRun);
    assert_eq!(app.state_tab.mode, StateMode::EditingRunArgs);
    update(&mut app, Action::StateRunArgsNextField);
    update(&mut app, Action::StateRunArgsEditCurrent);
    update(&mut app, Action::StateRunArgsEditInput('2'));
    update(&mut app, Action::StateRunArgsCommitEdit);
    let fx = update(&mut app, Action::StateRunArgsConfirm);
    assert!(matches!(fx.as_slice(), [Effect::PrepareRun]));
    assert_eq!(app.state_tab.run_args_loops, 12);
    let args = start_new_run(&mut app, RunPreparation::Local(Ok("/tmp/c.toml".to_string()))).unwrap();
    assert_eq!(args.loops, 12);
    assert!(app.in_rerun);
    update(&mut app, Action::NewRunStarted(Err("refused".to_string())));
    assert!(!app.in_rerun);
    // Picking the output directory locally asks for the home directory.
    update(&mut app, Action::StateStartRunArgsEditor);
    let fx = update(&mut app, Action::StateRunArgsEditCurrent);
    assert!(matches!(fx.as_slice(), [Effect::PickLocalOutputDir]));
    assert_eq!(app.state_tab.mode, StateMode::PickingOutputDir);
    app.state_tab.open_output_dir_picker("/home/u".to_string(), vec!["/home/u/data".to_string()]);
    update(&mut app, Action::StateFilePickerKey(Key::Enter));
    assert_eq!(app.state_tab.mode, StateMode::EditingRunArgs);
    assert_eq!(app.state_tab.run_args_editor.as_ref().map(|e| e.temp_output.clone()), Some("/home/u/data".to_string()));
    update(&mut app, Action::OutputDirFetched(Ok(vec![])));
    assert_eq!(app.state_tab.mode, StateMode::EditingRunArgs);
}

#[test]
fn server_lists_are_read_from_json() {
    assert_eq!(
        HTTPTransport::get_allowed_output_dirs(200, Ok("{\"dirs\": [\"/a\", 3, \"/b\"]}".to_string())),
        Ok(vec!["/a".to_string(), "/b".to_string()])
    );
    assert_eq!(HTTPTransport::get_allowed_output_dirs(404, Ok(String::new())), Err("Failed to get output dirs list".to_string()));
    assert_eq!(HTTPTransport::get_allowed_output_dirs(200, Ok("{\"dirs\": 1}".to_string())), Err("Invalid dirs array".to_string()));
    assert_eq!(HTTPTransport::get_allowed_output_dirs(200, Err("reset".to_string())), Err("reset".to_string()));
    let not_json = HTTPTransport::get_allowed_output_dirs(200, Ok("not json".to_string()));
    assert_eq!(
        not_json,
        Err(serde_json::from_str::<serde_json::Value>("not json").unwrap_err().to_string())
    );
    let client_error = "error decoding response body for url (http://h/allowed_output_dirs)".to_string();
    assert_eq!(HTTPTransport::get_allowed_output_dirs(200, Err(client_error.clone())), Err(client_error));
    assert_eq!(
        HTTPTransport::get_allowed_scripts(200, Ok("{\"base_dir\": \"/s\", \"files\": [\"/s/a.py\"]}".to_string())),
        Ok(("/s".to_string(), vec!["/s/a.py".to_string()]))
    );
    assert_eq!(
        HTTPTransport::get_allowed_scripts(200, Ok("{\"files\": []}".to_string())),
        Err("Invalid base_dir".to_string())
    );
    assert_eq!(
        HTTPTransport::get_allowed_scripts(200, Ok("{\"base_dir\": \"/s\"}".to_string())),
        Err("Invalid files array".to_string())
    );
    assert_eq!(HTTPTransport::get_allowed_scripts(500, Ok(String::new())), Err("Failed to get scripts list".to_string()));
}

#[test]
fn floats_are_written_so_they_read_back_as_floats() {
    for shown in ["2", "0.5", "-7", "1e-7", "100"] {
        let written = toml_value_to_string(&ConfigValue::Float(shown.to_string()));
        assert!(written.contains('.') || written.contains('e') || written.contains('E'));
        let doc: toml::Value = toml::from_str(&format!("x = {}", written)).unwrap();
        assert!(doc["x"].is_float());
    }
}

#[test]
fn well_formedness_is_checked() {
    let good = devices();
    assert!(rex_core::value::table_is_wf(&good));
    assert!(rex_core::state::devices_are_wf(&good));
    let unsorted = ConfigTable {
        entries: vec![
            ("b".to_string(), ConfigValue::Integer(1)),
            ("a".to_string(), ConfigValue::Integer(2)),
        ],
    };
    assert!(!rex_core::value::table_is_wf(&unsorted));
    let twice = ConfigTable {
        entries: vec![
            ("a".to_string(), ConfigValue::Integer(1)),
            ("a".to_string(), ConfigValue::Integer(2)),
        ],
    };
    assert!(!rex_core::value::table_is_wf(&twice));
    let nested_bad = ConfigValue::Array(vec![ConfigValue::Table(unsorted)]);
    assert!(!rex_core::value::value_is_wf(&nested_bad));
    let mut plain = ConfigTable::new();
    plain.insert("dev".to_string(), ConfigValue::Integer(3));
    assert!(rex_core::value::table_is_wf(&plain));
    assert!(!rex_core::state::devices_are_wf(&plain));
    let report = Summary { info: info(), devices: good, run_file: String::new() };
    assert!(rex_core::state::summary_is_wf(&report));
    assert!(rex_core::file_picker::all_paths_fit(&vec!["/a".to_string()]));
}

#[test]
fn an_edited_field_shows_in_the_flattened_fields() {
    let mut t = devices();
    set_nested_value(&mut t, "daq.new.deep", ConfigValue::Integer(-3));
    let mut fields = Vec::new();
    rex_core::value::flatten_toml_fields(&t, "", &mut fields);
    assert!(fields.contains(&("daq.new.deep".to_string(), "-3".to_string())));
}

#[test]
fn remote_tab_starts_in_first_allowed_output_dir() {
    let dirs = Some(vec!["/data/a".to_string(), "/data/b".to_string()]);
    let tab = StateTab::new(true, dirs.clone(), Some("/home/me".to_string()));
    assert_eq!(tab.run_args_output, "/data/a");
    let local = StateTab::new(false, dirs, Some("/home/me".to_string()));
    assert_eq!(local.run_args_output, "/home/me");
}

#[test]
fn default_output_falls_back_to_current_dir_then_dot() {
    assert_eq!(choose_default_output(true, Some(vec![]), Some("/cwd".to_string())), "/cwd");
    assert_eq!(choose_default_output(true, None, Some("/cwd".to_string())), "/cwd");
    assert_eq!(choose_default_output(true, None, None), ".");
    assert_eq!(choose_default_output(false, None, None), ".");
}

#[test]
fn committing_untouched_device_fields_keeps_the_configuration() {
    let mut tab = tab_with_session();
    let before = devices();
    tab.toggle_focus();
    tab.start_edit();
    assert_eq!(tab.edit_buffer, "1000");
    tab.commit_edit(None);
    assert_eq!(tab.device_configs, before);
    tab.next_secondary();
    tab.start_edit();
    assert_eq!(tab.edit_buffer, "false");
    tab.commit_edit(None);
    assert_eq!(tab.device_configs, before);
}

#[test]
fn set_nested_keeps_paths_that_part_ways() {
    let mut t = devices();
    set_nested_value(&mut t, "daq.sub.y", ConfigValue::Integer(7));
    let daq = match t.get("daq") {
        Some(ConfigValue::Table(d)) => d,
        _ => panic!("daq is a table"),
    };
    let sub = match daq.get("sub") {
        Some(ConfigValue::Table(s)) => s,
        _ => panic!("sub is a table"),
    };
    assert_eq!(sub.get("x"), Some(&ConfigValue::Boolean(false)));
    assert_eq!(sub.get("y"), Some(&ConfigValue::Integer(7)));
    assert_eq!(daq.get("gate_time"), Some(&ConfigValue::Integer(1000)));
}

#[test]
fn typing_puts_the_character_at_the_cursor() {
    let mut tab = tab_with_session();
    tab.start_edit();
    tab.move_cursor_start();
    tab.handle_edit_input('X');
    assert_eq!(tab.edit_buffer, "XAda");
    assert_eq!(tab.cursor_position, 1);
}
