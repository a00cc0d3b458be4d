//! The state tab: the session's information and the configuration of each
//! device, shown as lists that can be browsed and edited, the file pickers
//! that load a configuration and a script, and the popup that sets the
//! arguments of a new run.
use vstd::prelude::*;
use crate::text::{owned, concat, insert_char_at, remove_char_at, starts_with, substring, push_str, escape_spec, escape_toml_string};
use crate::transport::has_prefix;
use crate::value::{
    ConfigTable, ConfigValue, ValueModel, TableModel, table_wf, format_spec, format_value,
    flatten_spec, flatten_toml_fields, pairs_view, lemma_table_model, table_insert, parse_value,
    parse_value_spec, set_nested_spec, set_nested_value, lemma_table_insert_wf, model_wf, keys_sorted,
    toml_spec, toml_value_to_string, section_spec, write_toml_table, clone_table, table_is_wf,
    lookup_path, plain_keys, reads_back, lemma_flatten_fields_show, lemma_untouched_commit_keeps,
};
use crate::sort::{sort_by_name, sort_by_name_spec, named_view, lemma_sort_by_name};
use crate::file_picker::{FilePicker, paths_fit};
use crate::run_args::{
    RunArgsEditor, RunArgs, EditStart, edit_current_effect, input_effect, backspace_effect,
    delete_effect, commit_effect, cancel_effect, field_at, field_index,
};
use crate::file_picker::{path_starts_with, path_has_prefix};
use crate::keys::Key;
use crate::transport::TransportType;
use crate::file_picker::key_effect;

verus! {

/// The half of the state tab that has the focus.
#[derive(Debug, PartialEq, Eq, Structural, Clone, Copy)]
pub enum FocusSection {
    Session,
    Device,
}

/// What the state tab is doing.
#[derive(Debug, PartialEq, Eq, Structural, Clone, Copy)]
pub enum StateMode {
    Normal,
    PickingConfig,
    PickingScript,
    FetchingScripts,
    PickingOutputDir,
    EditingRunArgs,
}

/// Free-form metadata of a session.
pub struct SessionMetadata {
    pub meta: ConfigTable,
}

/// Who runs a session and what it is.
pub struct SessionInfo {
    pub name: String,
    pub email: String,
    pub session_name: String,
    pub session_description: String,
    pub meta: Option<SessionMetadata>,
}

/// What a running session reports about itself.
pub struct Summary {
    pub info: SessionInfo,
    /// The configuration of each device, by device name.
    pub devices: ConfigTable,
    /// The script the session runs, empty when unknown.
    pub run_file: String,
}

/// The metadata table of a session is well formed at every depth.
pub open spec fn info_wf(info: SessionInfo) -> bool {
    match info.meta {
        Some(m) => table_wf(m.meta@),
        None => true,
    }
}

/// A table of device configurations: well formed, and each value a table.
pub open spec fn devices_wf(t: TableModel) -> bool {
    &&& table_wf(t)
    &&& forall|i: int| 0 <= i < t.len() ==> (#[trigger] t[i].1) is Table
}

/// The keys of a table, in order.
pub open spec fn keys_of(t: TableModel) -> Seq<Seq<char>> {
    Seq::new(t.len(), |i: int| t[i].0)
}

/// The characters of each string.
pub open spec fn strs(v: Seq<String>) -> Seq<Seq<char>> {
    Seq::new(v.len(), |i: int| v[i]@)
}

/// Two parallel lists of names and values hold exactly `want`.
pub open spec fn lists_are(names: Seq<String>, values: Seq<String>, want: Seq<(Seq<char>, Seq<char>)>) -> bool {
    &&& names.len() == want.len()
    &&& values.len() == want.len()
    &&& forall|i: int| 0 <= i < want.len() ==> (#[trigger] names[i])@ == want[i].0 && values[i]@ == want[i].1
}

/// Whether a session's metadata is well formed at every depth.
pub fn info_is_wf(info: &SessionInfo) -> (r: bool)
    ensures
        r == info_wf(*info),
{
    match &info.meta {
        Some(m) => table_is_wf(&m.meta),
        None => true,
    }
}

/// Whether a table of device configurations is well formed, each value a
/// table.
pub fn devices_are_wf(t: &ConfigTable) -> (r: bool)
    ensures
        r == devices_wf(t@),
{
    if !table_is_wf(t) {
        return false;
    }
    let mut i: usize = 0;
    while i < t.entries.len()
        invariant
            i <= t@.len(),
            table_wf(t@),
            forall|k: int| 0 <= k < i ==> (#[trigger] t@[k].1) is Table,
        decreases t@.len() - i,
    {
        assert(t@[i as int].1 == crate::value::value_model(t.entries@[i as int].1));
        match &t.entries[i].1 {
            ConfigValue::Table(_) => {},
            _ => {
                return false;
            },
        }
        i = i + 1;
    }
    true
}

/// Whether a session's report can be taken in: its metadata and its device
/// configurations are well formed.
pub fn summary_is_wf(s: &Summary) -> (r: bool)
    ensures
        r == (info_wf(s.info) && devices_wf(s.devices@)),
{
    info_is_wf(&s.info) && devices_are_wf(&s.devices)
}

/// The rows of the session list: the four fixed fields, then each metadata
/// entry as `meta.key`, in key order.
pub open spec fn session_fields_spec(info: SessionInfo) -> Seq<(Seq<char>, Seq<char>)> {
    seq![
        ("Name"@, info.name@),
        ("Email"@, info.email@),
        ("Session Name"@, info.session_name@),
        ("Description"@, info.session_description@),
    ] + match info.meta {
        Some(m) => meta_fields_spec(m.meta@),
        None => Seq::empty(),
    }
}

/// The metadata rows of the session list.
pub open spec fn meta_fields_spec(t: TableModel) -> Seq<(Seq<char>, Seq<char>)> {
    Seq::new(t.len(), |i: int| ("meta."@ + t[i].0, format_spec(t[i].1)))
}

/// The rows of the field list of the selected device: its leaf fields by
/// dotted path, sorted by path; nothing when no device is selected.
pub open spec fn device_fields_spec(t: TableModel, selected: Option<usize>) -> Option<
    Seq<(Seq<char>, Seq<char>)>,
> {
    match selected {
        Some(i) => if i < t.len() {
            match t[i as int].1 {
                ValueModel::Table(inner) => Some(sort_by_name_spec(flatten_spec(inner, Seq::empty()))),
                _ => None,
            }
        } else {
            None
        },
        None => None,
    }
}

/// A selection that can still be moved one row down.
pub open spec fn sel_ok(s: Option<usize>) -> bool {
    match s {
        Some(i) => i < usize::MAX,
        None => true,
    }
}

/// The device field lists of `tab` are those of the device selected by
/// `sel` in `t`, the row selection kept or, when there was none, put on
/// the first row; with no device selected they are empty.
pub open spec fn field_lists_refreshed(
    t: TableModel,
    sel: Option<usize>,
    old_field_sel: Option<usize>,
    tab: StateTab,
) -> bool {
    match device_fields_spec(t, sel) {
        Some(f) => lists_are(tab.device_field_names@, tab.device_field_values@, f)
            && tab.device_fields_state == if old_field_sel is None && f.len() > 0 {
            Some(0usize)
        } else {
            old_field_sel
        },
        None => tab.device_field_names@.len() == 0 && tab.device_field_values@.len() == 0
            && tab.device_fields_state is None,
    }
}

/// The other half of the tab.
pub open spec fn other_section(f: FocusSection) -> FocusSection {
    match f {
        FocusSection::Session => FocusSection::Device,
        FocusSection::Device => FocusSection::Session,
    }
}

/// Toggling the focus twice gives it back to the same half.
pub proof fn lemma_toggle_focus_twice(f: FocusSection)
    ensures
        other_section(other_section(f)) == f,
        other_section(f) != f,
{
}

/// Moving down a list and then up comes back to the same row, and so
/// does moving up and then down.
pub proof fn lemma_rows_round_trip(i: usize, len: usize)
    requires
        i < len,
    ensures
        previous_row(next_row(i, len), len) == i,
        next_row(previous_row(i, len), len) == i,
        next_row(i, len) < len,
        previous_row(i, len) < len,
{
    let n = len as int;
    if i + 1 < n {
        vstd::arithmetic::div_mod::lemma_small_mod((i + 1) as nat, len as nat);
    } else {
        assert((i + 1) % n == 0) by (nonlinear_arith)
            requires
                i + 1 == n,
                n > 0,
        ;
    }
    let p = previous_row(i, len) as int;
    assert(p < n);
    if p + 1 < n {
        vstd::arithmetic::div_mod::lemma_small_mod((p + 1) as nat, len as nat);
    } else {
        assert((p + 1) % n == 0) by (nonlinear_arith)
            requires
                p + 1 == n,
                n > 0,
        ;
    }
}

/// Typing a character and then deleting it with backspace gives back the
/// text as it was, the cursor where it was.
pub proof fn lemma_input_then_backspace(text: Seq<char>, cursor: int, c: char)
    requires
        0 <= cursor <= text.len(),
    ensures
        text.insert(cursor, c).remove(cursor + 1 - 1) == text,
        cursor + 1 > 0,
{
    assert(text.insert(cursor, c).remove(cursor) =~= text);
}

/// The selected row, or the first when none is.
pub open spec fn sel_or_zero(s: Option<usize>) -> usize {
    match s {
        Some(i) => i,
        None => 0,
    }
}

/// The row after `i` in a list of `len` rows, wrapping to the first.
pub open spec fn next_row(i: usize, len: usize) -> usize {
    ((i + 1) % (len as int)) as usize
}

/// The row before `i` in a list of `len` rows, wrapping to the last.
pub open spec fn previous_row(i: usize, len: usize) -> usize {
    if i == 0 {
        (len - 1) as usize
    } else {
        (i - 1) as usize
    }
}

/// The extensions of the scripts a session can run.
pub open spec fn script_extensions() -> Seq<Seq<char>> {
    seq![".py"@, ".rs"@, ".m"@]
}

/// What the caller must do after a key reached the file picker.
pub struct PickerOutcome {
    /// Ask the server for the scripts it allows.
    pub fetch_remote_scripts: bool,
    /// The picker changed directory: read it and hand the paths to the
    /// picker's `set_files`.
    pub rescan: bool,
    /// A configuration file was chosen: read it and hand it to
    /// `apply_loaded_config`.
    pub load_config: Option<String>,
    /// Open a picker for a local script: read the current directory and
    /// hand it to `open_script_picker`.
    pub pick_local_script: bool,
}

/// An outcome that asks for nothing but, maybe, a fetch of the scripts.
pub open spec fn outcome_fetch(fetch: bool) -> PickerOutcome {
    PickerOutcome { fetch_remote_scripts: fetch, rescan: false, load_config: None, pick_local_script: false }
}

/// The output directory a new tab starts with: for a remote tab, the
/// first of the output directories that the configuration allows, when it
/// was read and lists any; otherwise the current directory, or `.` when
/// that is unknown.
pub open spec fn default_output_spec(
    remote: bool,
    allowed_output_dirs: Option<Vec<String>>,
    current_dir: Option<String>,
) -> Seq<char> {
    if remote && allowed_output_dirs is Some && allowed_output_dirs->0@.len() > 0 {
        allowed_output_dirs->0@[0]@
    } else {
        match current_dir {
            Some(d) => d@,
            None => seq!['.'],
        }
    }
}

/// Picks the output directory a new tab starts with (see
/// `default_output_spec`).
pub fn choose_default_output(
    remote: bool,
    allowed_output_dirs: Option<Vec<String>>,
    current_dir: Option<String>,
) -> (r: String)
    ensures
        r@ == default_output_spec(remote, allowed_output_dirs, current_dir),
{
    if remote {
        if let Some(dirs) = &allowed_output_dirs {
            if dirs.len() > 0 {
                return dirs[0].clone();
            }
        }
    }
    match current_dir {
        Some(d) => d,
        None => {
            let r = String::from_str(".");
            proof {
                reveal_strlit(".");
            }
            assert(r@ =~= seq!['.']);
            r
        },
    }
}

/// `t` is the tab that `StateTab::new` makes with `default_output` as its
/// output directory.
pub open spec fn fresh_tab(t: StateTab, remote: bool, default_output: Seq<char>) -> bool {
    &&& t == (StateTab {
        session_info: None,
        device_configs: t.device_configs,
        focus: FocusSection::Session,
        session_fields_state: Some(0),
        device_list_state: None,
        device_fields_state: None,
        session_field_names: t.session_field_names,
        session_field_values: t.session_field_values,
        device_names: t.device_names,
        device_field_names: t.device_field_names,
        device_field_values: t.device_field_values,
        editing: false,
        edit_buffer: t.edit_buffer,
        cursor_position: 0,
        editing_field_name: t.editing_field_name,
        editing_is_session: false,
        mode: StateMode::Normal,
        file_picker: None,
        loaded_config_path: None,
        loaded_script_path: None,
        server_script_path: None,
        remote: remote,
        run_args_output: t.run_args_output,
        run_args_loops: 1,
        run_args_delay: 0,
        run_args_dry_run: false,
        run_args_editor: None,
    })
    &&& t.run_args_output@ == default_output
    &&& t.device_configs@.len() == 0
    &&& t.session_field_names@.len() == 0
    &&& t.session_field_values@.len() == 0
    &&& t.device_names@.len() == 0
    &&& t.device_field_names@.len() == 0
    &&& t.device_field_values@.len() == 0
    &&& t.edit_buffer@.len() == 0
    &&& t.editing_field_name@.len() == 0
}

/// The state tab.
pub struct StateTab {
    pub session_info: Option<SessionInfo>,
    /// The configuration of each device, by device name.
    pub device_configs: ConfigTable,
    pub focus: FocusSection,
    /// The selected row of the session list.
    pub session_fields_state: Option<usize>,
    /// The selected device.
    pub device_list_state: Option<usize>,
    /// The selected row of the device's field list.
    pub device_fields_state: Option<usize>,
    pub session_field_names: Vec<String>,
    pub session_field_values: Vec<String>,
    pub device_names: Vec<String>,
    pub device_field_names: Vec<String>,
    pub device_field_values: Vec<String>,
    pub editing: bool,
    pub edit_buffer: String,
    /// The cursor in the edit buffer, counted in characters.
    pub cursor_position: usize,
    pub editing_field_name: String,
    pub editing_is_session: bool,
    pub mode: StateMode,
    pub file_picker: Option<FilePicker>,
    pub loaded_config_path: Option<String>,
    pub loaded_script_path: Option<String>,
    pub server_script_path: Option<String>,
    /// Whether the viewer is attached to a remote session.
    pub remote: bool,
    pub run_args_output: String,
    pub run_args_loops: u8,
    pub run_args_delay: u64,
    pub run_args_dry_run: bool,
    pub run_args_editor: Option<RunArgsEditor>,
}

impl StateTab {
    /// Everything but the session lists is consistent: the device list
    /// names the configured devices in order, the cursors stand in their
    /// buffers, the open picker and popup are well formed.
    pub open spec fn base_wf(&self) -> bool {
        &&& devices_wf(self.device_configs@)
        &&& strs(self.device_names@) == keys_of(self.device_configs@)
        &&& self.device_field_names@.len() == self.device_field_values@.len()
        &&& self.cursor_position <= self.edit_buffer@.len()
        &&& sel_ok(self.session_fields_state)
        &&& sel_ok(self.device_list_state)
        &&& sel_ok(self.device_fields_state)
        &&& match self.run_args_editor {
            Some(e) => e.wf(),
            None => true,
        }
        &&& match self.file_picker {
            Some(p) => p.wf(),
            None => true,
        }
        &&& match self.session_info {
            Some(info) => info_wf(info),
            None => true,
        }
    }

    /// The session lists show the session's information.
    pub open spec fn session_lists_ok(&self) -> bool {
        match self.session_info {
            Some(info) => lists_are(
                self.session_field_names@,
                self.session_field_values@,
                session_fields_spec(info),
            ),
            None => self.session_field_names@.len() == 0 && self.session_field_values@.len() == 0,
        }
    }

    /// The tab's invariant.
    pub open spec fn wf(&self) -> bool {
        self.base_wf() && self.session_lists_ok()
    }

    /// An empty tab: nothing loaded, the session half focused with its
    /// first row selected, and the run arguments at their defaults. The
    /// output directory is chosen by `choose_default_output` from the
    /// configured output directories (`None` when the configuration could
    /// not be read) and the current directory (`None` when unknown).
    pub fn new(
        remote: bool,
        allowed_output_dirs: Option<Vec<String>>,
        current_dir: Option<String>,
    ) -> (r: StateTab)
        ensures
            r.wf(),
            fresh_tab(r, remote, default_output_spec(remote, allowed_output_dirs, current_dir)),
    {
        let default_output = choose_default_output(remote, allowed_output_dirs, current_dir);
        let r = StateTab {
            session_info: None,
            device_configs: ConfigTable::new(),
            focus: FocusSection::Session,
            session_fields_state: Some(0),
            device_list_state: None,
            device_fields_state: None,
            session_field_names: Vec::new(),
            session_field_values: Vec::new(),
            device_names: Vec::new(),
            device_field_names: Vec::new(),
            device_field_values: Vec::new(),
            editing: false,
            edit_buffer: String::new(),
            cursor_position: 0,
            editing_field_name: String::new(),
            editing_is_session: false,
            mode: StateMode::Normal,
            file_picker: None,
            loaded_config_path: None,
            loaded_script_path: None,
            server_script_path: None,
            remote,
            run_args_output: default_output,
            run_args_loops: 1,
            run_args_delay: 0,
            run_args_dry_run: false,
            run_args_editor: None,
        };
        assert(strs(r.device_names@) =~= keys_of(r.device_configs@));
        r
    }

    /// Rebuilds the session lists from the session's information, and
    /// selects the first row when none is selected.
    pub fn refresh_session_lists(&mut self)
        requires
            old(self).base_wf(),
            old(self).session_info is None ==> old(self).session_lists_ok(),
        ensures
            final(self).wf(),
            old(self).session_info is None ==> *final(self) == *old(self),
            old(self).session_info is Some ==> *final(self) == (StateTab {
                session_field_names: final(self).session_field_names,
                session_field_values: final(self).session_field_values,
                session_fields_state: if old(self).session_fields_state is None {
                    Some(0)
                } else {
                    old(self).session_fields_state
                },
                ..*old(self)
            }),
    {
        match &self.session_info {
            None => {},
            Some(info) => {
                let mut names: Vec<String> = Vec::new();
                let mut values: Vec<String> = Vec::new();
                names.push(owned("Name"));
                values.push(info.name.clone());
                names.push(owned("Email"));
                values.push(info.email.clone());
                names.push(owned("Session Name"));
                values.push(info.session_name.clone());
                names.push(owned("Description"));
                values.push(info.session_description.clone());
                let ghost fixed = seq![
                    ("Name"@, info.name@),
                    ("Email"@, info.email@),
                    ("Session Name"@, info.session_name@),
                    ("Description"@, info.session_description@),
                ];
                assert(lists_are(names@, values@, fixed));
                match &info.meta {
                    None => {
                        assert(fixed + Seq::empty() =~= fixed);
                    },
                    Some(m) => {
                        let ghost t = m.meta@;
                        let mut i: usize = 0;
                        while i < m.meta.entries.len()
                            invariant
                                t == m.meta@,
                                i <= t.len(),
                                lists_are(names@, values@, fixed + meta_fields_spec(t).take(i as int)),
                            decreases t.len() - i,
                        {
                            let ghost before = fixed + meta_fields_spec(t).take(i as int);
                            let key = concat("meta.", m.meta.entries[i].0.as_str());
                            let shown = format_value(&m.meta.entries[i].1);
                            names.push(key);
                            values.push(shown);
                            assert(fixed + meta_fields_spec(t).take(i + 1) =~= before.push(
                                ("meta."@ + t[i as int].0, format_spec(t[i as int].1)),
                            ));
                            i = i + 1;
                        }
                        assert(meta_fields_spec(t).take(t.len() as int) =~= meta_fields_spec(t));
                    },
                }
                self.session_field_names = names;
                self.session_field_values = values;
                if self.session_fields_state.is_none() {
                    self.session_fields_state = Some(0);
                }
            },
        }
    }

    /// Rebuilds the field list of the selected device: its leaf fields by
    /// dotted path, sorted, with the first row selected when none is; with
    /// no device selected, the list is emptied.
    pub fn refresh_device_field_lists(&mut self)
        requires
            old(self).base_wf(),
        ensures
            final(self).base_wf(),
            final(self).session_lists_ok() == old(self).session_lists_ok(),
            *final(self) == (StateTab {
                device_field_names: final(self).device_field_names,
                device_field_values: final(self).device_field_values,
                device_fields_state: final(self).device_fields_state,
                ..*old(self)
            }),
            field_lists_refreshed(
                old(self).device_configs@,
                old(self).device_list_state,
                old(self).device_fields_state,
                *final(self),
            ),
    {
        match self.device_list_state {
            Some(idx) => {
                if idx < self.device_configs.entries.len() {
                    match &self.device_configs.entries[idx].1 {
                        ConfigValue::Table(config) => {
                            let mut fields: Vec<(String, String)> = Vec::new();
                            proof {
                                lemma_table_model(*config);
                                assert(self.device_configs@[idx as int].1 == ValueModel::Table(config@));
                            }
                            let ghost start = fields@;
                            proof {
                                reveal_strlit("");
                                assert(""@ =~= Seq::<char>::empty());
                                assert(pairs_view(start) =~= Seq::<(Seq<char>, Seq<char>)>::empty());
                            }
                            flatten_toml_fields(config, "", &mut fields);
                            assert(pairs_view(start) + flatten_spec(config@, Seq::empty()) =~= flatten_spec(config@, Seq::empty()));
                            assert(pairs_view(fields@) =~= flatten_spec(config@, Seq::empty()));
                            assert(named_view(fields@) =~= pairs_view(fields@));
                            sort_by_name(&mut fields);
                            let ghost want = sort_by_name_spec(flatten_spec(config@, Seq::empty()));
                            assert(named_view(fields@) == want);
                            let mut names: Vec<String> = Vec::new();
                            let mut values: Vec<String> = Vec::new();
                            let mut j: usize = 0;
                            while j < fields.len()
                                invariant
                                    named_view(fields@) == want,
                                    j <= fields@.len(),
                                    names@.len() == j,
                                    values@.len() == j,
                                    forall|k: int| 0 <= k < j ==> (#[trigger] names@[k])@ == want[k].0
                                        && values@[k]@ == want[k].1,
                                decreases fields@.len() - j,
                            {
                                assert(want[j as int] == (fields@[j as int].0@, fields@[j as int].1@));
                                let n = fields[j].0.clone();
                                let v = fields[j].1.clone();
                                let ghost (pn, pv) = (names@, values@);
                                names.push(n);
                                values.push(v);
                                assert forall|k: int| 0 <= k < j + 1 implies (#[trigger] names@[k])@
                                    == want[k].0 && values@[k]@ == want[k].1 by {
                                    if k < j {
                                        assert(names@[k] == pn[k] && values@[k] == pv[k]);
                                    }
                                }
                                j = j + 1;
                            }
                            let n = names.len();
                            self.device_field_names = names;
                            self.device_field_values = values;
                            if self.device_fields_state.is_none() && n > 0 {
                                self.device_fields_state = Some(0);
                            }
                            return ;
                        },
                        _ => {},
                    }
                }
            },
            None => {},
        }
        self.device_field_names = Vec::new();
        self.device_field_values = Vec::new();
        self.device_fields_state = None;
    }
}


impl StateTab {
    /// Replaces the device configurations: the device list follows their
    /// names, the first device is selected when none was, and then its
    /// fields are listed.
    pub fn update_device_configs(&mut self, configs: ConfigTable)
        requires
            old(self).base_wf(),
            devices_wf(configs@),
        ensures
            final(self).base_wf(),
            final(self).session_lists_ok() == old(self).session_lists_ok(),
            *final(self) == (StateTab {
                device_configs: configs,
                device_names: final(self).device_names,
                device_list_state: if old(self).device_list_state is None && configs@.len() > 0 {
                    Some(0usize)
                } else {
                    old(self).device_list_state
                },
                device_field_names: final(self).device_field_names,
                device_field_values: final(self).device_field_values,
                device_fields_state: final(self).device_fields_state,
                ..*old(self)
            }),
            old(self).device_list_state is None && configs@.len() > 0 ==> field_lists_refreshed(
                configs@,
                Some(0usize),
                old(self).device_fields_state,
                *final(self),
            ),
            !(old(self).device_list_state is None && configs@.len() > 0) ==> {
                &&& final(self).device_field_names == old(self).device_field_names
                &&& final(self).device_field_values == old(self).device_field_values
                &&& final(self).device_fields_state == old(self).device_fields_state
            },
    {
        let names = configs.keys();
        self.device_configs = configs;
        self.device_names = names;
        assert(strs(self.device_names@) =~= keys_of(self.device_configs@));
        if self.device_list_state.is_none() && self.device_names.len() > 0 {
            self.device_list_state = Some(0);
            self.refresh_device_field_lists();
        }
    }

    /// Takes in a configuration read from a file: its session, when it has
    /// one, and its devices.
    pub fn apply_loaded_config(&mut self, session: Option<SessionInfo>, devices: ConfigTable)
        requires
            old(self).wf(),
            match session {
                Some(info) => info_wf(info),
                None => true,
            },
            devices_wf(devices@),
        ensures
            final(self).wf(),
            *final(self) == (StateTab {
                session_info: if session is Some {
                    session
                } else {
                    old(self).session_info
                },
                session_field_names: final(self).session_field_names,
                session_field_values: final(self).session_field_values,
                session_fields_state: if session is Some && old(self).session_fields_state is None {
                    Some(0usize)
                } else {
                    old(self).session_fields_state
                },
                device_configs: devices,
                device_names: final(self).device_names,
                device_list_state: if old(self).device_list_state is None && devices@.len() > 0 {
                    Some(0usize)
                } else {
                    old(self).device_list_state
                },
                device_field_names: final(self).device_field_names,
                device_field_values: final(self).device_field_values,
                device_fields_state: final(self).device_fields_state,
                ..*old(self)
            }),
            old(self).device_list_state is None && devices@.len() > 0 ==> field_lists_refreshed(
                devices@,
                Some(0usize),
                old(self).device_fields_state,
                *final(self),
            ),
            !(old(self).device_list_state is None && devices@.len() > 0) ==> {
                &&& final(self).device_field_names == old(self).device_field_names
                &&& final(self).device_field_values == old(self).device_field_values
                &&& final(self).device_fields_state == old(self).device_fields_state
            },
    {
        match session {
            Some(info) => {
                self.session_info = Some(info);
                self.refresh_session_lists();
            },
            None => {},
        }
        self.update_device_configs(devices);
    }

    /// Takes in what a running session reported, or the error met while
    /// reading it, which is handed back with nothing changed.
    pub fn update_from_json(&mut self, parsed: Result<Summary, String>) -> (r: Result<(), String>)
        requires
            old(self).wf(),
            parsed matches Ok(s) ==> info_wf(s.info) && devices_wf(s.devices@),
        ensures
            final(self).wf(),
            update_from_json_post(*old(self), *final(self), parsed, r),
    {
        match parsed {
            Err(e) => Err(e),
            Ok(summary) => {
                let Summary { info, devices, run_file } = summary;
                self.session_info = Some(info);
                self.update_device_configs(devices);
                if run_file.as_str().unicode_len() > 0 {
                    self.server_script_path = Some(run_file);
                }
                self.refresh_session_lists();
                Ok(())
            },
        }
    }

    /// Moves down the focused list: the session rows, or the devices (whose
    /// fields are then listed), wrapping to the top.
    pub fn next_primary(&mut self)
        requires
            old(self).wf(),
        ensures
            final(self).wf(),
            next_primary_post(*old(self), *final(self)),
    {
        match self.focus {
            FocusSection::Session => {
                let len = self.session_field_names.len();
                if len == 0 {
                    return ;
                }
                let i = match self.session_fields_state {
                    Some(i) => i,
                    None => 0,
                };
                self.session_fields_state = Some((i + 1) % len);
            },
            FocusSection::Device => {
                let len = self.device_names.len();
                if len == 0 {
                    return ;
                }
                let i = match self.device_list_state {
                    Some(i) => i,
                    None => 0,
                };
                self.device_list_state = Some((i + 1) % len);
                self.refresh_device_field_lists();
            },
        }
    }

    /// Moves up the focused list: the session rows, or the devices (whose
    /// fields are then listed), wrapping to the bottom.
    pub fn previous_primary(&mut self)
        requires
            old(self).wf(),
        ensures
            final(self).wf(),
            previous_primary_post(*old(self), *final(self)),
    {
        match self.focus {
            FocusSection::Session => {
                let len = self.session_field_names.len();
                if len == 0 {
                    return ;
                }
                let i = match self.session_fields_state {
                    Some(i) => i,
                    None => 0,
                };
                self.session_fields_state = Some(
                    if i == 0 {
                        len - 1
                    } else {
                        i - 1
                    },
                );
            },
            FocusSection::Device => {
                let len = self.device_names.len();
                if len == 0 {
                    return ;
                }
                let i = match self.device_list_state {
                    Some(i) => i,
                    None => 0,
                };
                self.device_list_state = Some(
                    if i == 0 {
                        len - 1
                    } else {
                        i - 1
                    },
                );
                self.refresh_device_field_lists();
            },
        }
    }

    /// Moves down the selected device's fields, wrapping to the top, when
    /// the device half has the focus.
    pub fn next_secondary(&mut self)
        requires
            old(self).wf(),
        ensures
            final(self).wf(),
            next_secondary_post(*old(self), *final(self)),
    {
        if self.focus == FocusSection::Device {
            let len = self.device_field_names.len();
            if len == 0 {
                return ;
            }
            let i = match self.device_fields_state {
                Some(i) => i,
                None => 0,
            };
            self.device_fields_state = Some((i + 1) % len);
        }
    }

    /// Moves up the selected device's fields, wrapping to the bottom, when
    /// the device half has the focus.
    pub fn previous_secondary(&mut self)
        requires
            old(self).wf(),
        ensures
            final(self).wf(),
            previous_secondary_post(*old(self), *final(self)),
    {
        if self.focus == FocusSection::Device {
            let len = self.device_field_names.len();
            if len == 0 {
                return ;
            }
            let i = match self.device_fields_state {
                Some(i) => i,
                None => 0,
            };
            self.device_fields_state = Some(
                if i == 0 {
                    len - 1
                } else {
                    i - 1
                },
            );
        }
    }

    /// Gives the focus to the other half of the tab.
    pub fn toggle_focus(&mut self)
        requires
            old(self).wf(),
        ensures
            final(self).wf(),
            toggle_focus_post(*old(self), *final(self)),
    {
        self.focus = match self.focus {
            FocusSection::Session => FocusSection::Device,
            FocusSection::Device => FocusSection::Session,
        };
    }
}


/// The extensions as owned strings.
fn script_extension_list() -> (r: Vec<String>)
    ensures
        strs(r@) == script_extensions(),
{
    let mut v: Vec<String> = Vec::new();
    v.push(owned(".py"));
    v.push(owned(".rs"));
    v.push(owned(".m"));
    assert(strs(v@) =~= script_extensions());
    v
}

impl StateTab {
    /// Opens a picker over the scripts that the server allows, listed under
    /// `base_dir`.
    pub fn set_remote_scripts(&mut self, base_dir: String, files: Vec<String>)
        requires
            old(self).wf(),
            paths_fit(files@),
        ensures
            final(self).wf(),
            remote_scripts_post(*old(self), *final(self), base_dir, files),
    {
        let exts = script_extension_list();
        let picker = FilePicker::new_remote(base_dir, files, exts, owned("Select Allowed Script"));
        self.file_picker = Some(picker);
        self.mode = StateMode::PickingScript;
    }

    /// Opens a picker for a configuration file under `current_dir`, where
    /// `files` were found.
    pub fn start_config_picker(&mut self, current_dir: String, files: Vec<String>)
        requires
            old(self).wf(),
            paths_fit(files@),
        ensures
            final(self).wf(),
            config_picker_post(*old(self), *final(self), current_dir, files),
    {
        let mut exts: Vec<String> = Vec::new();
        exts.push(owned(".toml"));
        assert(strs(exts@) =~= seq![".toml"@]);
        let picker = FilePicker::new(current_dir, exts, owned("Select Config File"), files);
        self.file_picker = Some(picker);
        self.mode = StateMode::PickingConfig;
    }

    /// Opens a picker for a local script under `current_dir`, where `files`
    /// were found.
    pub fn open_script_picker(&mut self, current_dir: String, files: Vec<String>)
        requires
            old(self).wf(),
            paths_fit(files@),
        ensures
            final(self).wf(),
            script_picker_post(*old(self), *final(self), current_dir, files),
    {
        let exts = script_extension_list();
        let picker = FilePicker::new(current_dir, exts, owned("Select Script File"), files);
        self.file_picker = Some(picker);
        self.mode = StateMode::PickingScript;
    }

    /// Handles a key while a file picker is open. Esc closes it and asks
    /// for the server's scripts. Enter takes
    /// the selected path: a configuration is remembered and must be loaded,
    /// and then a script is picked, from the server over HTTP or from the
    /// current directory otherwise; a script is remembered and the picker
    /// closes. Any other key goes to the picker.
    pub fn handle_file_picker_key(&mut self, key: Key, transport: TransportType) -> (r: PickerOutcome)
        requires
            old(self).wf(),
        ensures
            final(self).wf(),
            picker_key_post(*old(self), *final(self), key, transport, r),
    {
        let nothing = PickerOutcome {
            fetch_remote_scripts: false,
            rescan: false,
            load_config: None,
            pick_local_script: false,
        };
        let mut picker = match self.file_picker.take() {
            Some(p) => p,
            None => {
                return nothing;
            },
        };
        match key {
            Key::Esc => {
                self.mode = StateMode::Normal;
                PickerOutcome { fetch_remote_scripts: true, ..nothing }
            },
            Key::Enter => {
                match picker.get_selected() {
                    Some(selected) => {
                        match self.mode {
                            StateMode::PickingConfig => {
                                self.loaded_config_path = Some(selected.clone());
                                if transport == TransportType::Http {
                                    self.mode = StateMode::FetchingScripts;
                                    PickerOutcome {
                                        fetch_remote_scripts: true,
                                        load_config: Some(selected),
                                        ..nothing
                                    }
                                } else {
                                    self.mode = StateMode::PickingScript;
                                    PickerOutcome {
                                        load_config: Some(selected),
                                        pick_local_script: true,
                                        ..nothing
                                    }
                                }
                            },
                            StateMode::PickingScript => {
                                self.loaded_script_path = Some(selected);
                                self.mode = StateMode::Normal;
                                nothing
                            },
                            _ => {
                                self.file_picker = Some(picker);
                                nothing
                            },
                        }
                    },
                    None => {
                        self.file_picker = Some(picker);
                        nothing
                    },
                }
            },
            _ => {
                let moved = picker.handle_key(key);
                self.file_picker = Some(picker);
                PickerOutcome { rescan: moved, ..nothing }
            },
        }
    }
}


/// The view of an optional string.
pub open spec fn opt_view(o: Option<String>) -> Option<Seq<char>> {
    match o {
        Some(t) => Some(t@),
        None => None,
    }
}

/// The metadata table of a session, empty when it has none.
pub open spec fn meta_view(info: SessionInfo) -> TableModel {
    match info.meta {
        Some(m) => m.meta@,
        None => Seq::empty(),
    }
}

/// What committing `text` to row `idx` of the session list, named
/// `row_name`, makes of the session's information: the four first rows
/// are its fixed fields, a `meta.` row sets that metadata key to the
/// value the text reads as (`float` being the text read as a float).
pub open spec fn session_edited(
    old: SessionInfo,
    new: SessionInfo,
    idx: usize,
    row_name: Seq<char>,
    text: String,
    float: Option<Seq<char>>,
) -> bool {
    if idx == 0 {
        new == SessionInfo { name: text, ..old }
    } else if idx == 1 {
        new == SessionInfo { email: text, ..old }
    } else if idx == 2 {
        new == SessionInfo { session_name: text, ..old }
    } else if idx == 3 {
        new == SessionInfo { session_description: text, ..old }
    } else if has_prefix(row_name, "meta."@) {
        &&& new.name == old.name
        &&& new.email == old.email
        &&& new.session_name == old.session_name
        &&& new.session_description == old.session_description
        &&& new.meta matches Some(m) && m.meta@ == table_insert(
            meta_view(old),
            row_name.skip(5),
            parse_value_spec(text@, float),
        )
    } else {
        new == old
    }
}

/// A commit of the edit buffer can be carried out: a metadata row being
/// edited is still in the session list.
pub open spec fn commit_ok(tab: StateTab) -> bool {
    tab.editing_is_session && tab.session_info is Some && tab.session_fields_state is Some
        && tab.session_fields_state->Some_0 >= 4 ==> tab.session_fields_state->Some_0
        < tab.session_field_names@.len()
}

impl StateTab {
    /// Starts editing the selected row of the focused list: the buffer
    /// takes its value, the cursor stands at its end. Nothing happens when
    /// no row is selected.
    pub fn start_edit(&mut self)
        requires
            old(self).wf(),
        ensures
            final(self).wf(),
            start_edit_post(*old(self), *final(self)),
    {
        match self.focus {
            FocusSection::Session => {
                if let Some(idx) = self.session_fields_state {
                    if idx < self.session_field_values.len() {
                        let name = self.session_field_names[idx].clone();
                        let value = self.session_field_values[idx].clone();
                        let n = value.as_str().unicode_len();
                        self.editing = true;
                        self.editing_is_session = true;
                        self.editing_field_name = name;
                        self.edit_buffer = value;
                        self.cursor_position = n;
                    }
                }
            },
            FocusSection::Device => {
                if let Some(idx) = self.device_fields_state {
                    if idx < self.device_field_values.len() {
                        let name = self.device_field_names[idx].clone();
                        let value = self.device_field_values[idx].clone();
                        let n = value.as_str().unicode_len();
                        self.editing = true;
                        self.editing_is_session = false;
                        self.editing_field_name = name;
                        self.edit_buffer = value;
                        self.cursor_position = n;
                    }
                }
            },
        }
    }

    /// Types `c` at the cursor.
    pub fn handle_edit_input(&mut self, c: char)
        requires
            old(self).wf(),
        ensures
            final(self).wf(),
            edit_input_post(*old(self), *final(self), c),
    {
        let b = insert_char_at(self.edit_buffer.as_str(), self.cursor_position, c);
        let n = b.as_str().unicode_len();
        self.edit_buffer = b;
        assert(self.cursor_position < n);
        self.cursor_position = self.cursor_position + 1;
    }

    /// Deletes the character before the cursor, if any.
    pub fn handle_edit_backspace(&mut self)
        requires
            old(self).wf(),
        ensures
            final(self).wf(),
            edit_backspace_post(*old(self), *final(self)),
    {
        if self.cursor_position > 0 {
            self.edit_buffer = remove_char_at(self.edit_buffer.as_str(), self.cursor_position - 1);
            self.cursor_position = self.cursor_position - 1;
        }
    }

    /// Deletes the character under the cursor, if any.
    pub fn handle_edit_delete(&mut self)
        requires
            old(self).wf(),
        ensures
            final(self).wf(),
            edit_delete_post(*old(self), *final(self)),
    {
        if self.cursor_position < self.edit_buffer.as_str().unicode_len() {
            self.edit_buffer = remove_char_at(self.edit_buffer.as_str(), self.cursor_position);
        }
    }

    /// Moves the cursor one character left, if it can.
    pub fn move_cursor_left(&mut self)
        requires
            old(self).wf(),
        ensures
            final(self).wf(),
            cursor_left_post(*old(self), *final(self)),
    {
        if self.cursor_position > 0 {
            self.cursor_position = self.cursor_position - 1;
        }
    }

    /// Moves the cursor one character right, if it can.
    pub fn move_cursor_right(&mut self)
        requires
            old(self).wf(),
        ensures
            final(self).wf(),
            cursor_right_post(*old(self), *final(self)),
    {
        if self.cursor_position < self.edit_buffer.as_str().unicode_len() {
            self.cursor_position = self.cursor_position + 1;
        }
    }

    /// Moves the cursor before the first character.
    pub fn move_cursor_start(&mut self)
        requires
            old(self).wf(),
        ensures
            final(self).wf(),
            cursor_start_post(*old(self), *final(self)),
    {
        self.cursor_position = 0;
    }

    /// Moves the cursor after the last character.
    pub fn move_cursor_end(&mut self)
        requires
            old(self).wf(),
        ensures
            final(self).wf(),
            cursor_end_post(*old(self), *final(self)),
    {
        self.cursor_position = self.edit_buffer.as_str().unicode_len();
    }

    /// Stops editing without changing anything.
    pub fn cancel_edit(&mut self)
        requires
            old(self).wf(),
        ensures
            final(self).wf(),
            cancel_edit_post(*old(self), *final(self)),
    {
        self.editing = false;
        self.edit_buffer = String::new();
        self.editing_field_name = String::new();
        self.cursor_position = 0;
    }

    fn clear_edit(&mut self)
        requires
            old(self).base_wf(),
        ensures
            final(self).base_wf(),
            final(self).session_lists_ok() == old(self).session_lists_ok(),
            *final(self) == (StateTab {
                editing: false,
                edit_buffer: final(self).edit_buffer,
                editing_field_name: final(self).editing_field_name,
                cursor_position: 0,
                ..*old(self)
            }),
            final(self).edit_buffer@.len() == 0,
            final(self).editing_field_name@.len() == 0,
    {
        self.editing = false;
        self.edit_buffer = String::new();
        self.editing_field_name = String::new();
        self.cursor_position = 0;
    }

    /// Saves the edit buffer into the row being edited and stops editing.
    /// A session row changes the session's information (the buffer read
    /// as a value for a metadata row) and the session list is rebuilt; a
    /// device row sets the value at its dotted path in the selected
    /// device's configuration, and the device's fields are listed again.
    /// `float_text` is the buffer read as a float and shown, or `None` when
    /// it does not read as one.
    pub fn commit_edit(&mut self, float_text: Option<String>)
        requires
            old(self).wf(),
            commit_ok(*old(self)),
        ensures
            final(self).wf(),
            commit_edit_post(*old(self), *final(self), float_text),
    {
        if self.editing_is_session {
            if let Some(idx) = self.session_fields_state {
                match self.session_info.take() {
                    Some(mut info) => {
                        let ghost old_info = info;
                        let text = self.edit_buffer.clone();
                        if idx == 0 {
                            info.name = text;
                        } else if idx == 1 {
                            info.email = text;
                        } else if idx == 2 {
                            info.session_name = text;
                        } else if idx == 3 {
                            info.session_description = text;
                        } else {
                            let row = self.session_field_names[idx].clone();
                            if starts_with(row.as_str(), "meta.") {
                                proof {
                                    reveal_strlit("meta.");
                                }
                                let len = row.as_str().unicode_len();
                                let key = substring(row.as_str(), 5, len);
                                assert(key@ == row@.skip(5));
                                let v = parse_value(self.edit_buffer.as_str(), float_text);
                                let ghost vm = crate::value::value_model(v);
                                match info.meta.take() {
                                    Some(mut m) => {
                                        proof {
                                            lemma_table_insert_wf(m.meta@, key@, vm);
                                        }
                                        m.meta.insert(key, v);
                                        info.meta = Some(m);
                                    },
                                    None => {
                                        let mut t = ConfigTable::new();
                                        proof {
                                            lemma_table_insert_wf(t@, key@, vm);
                                        }
                                        t.insert(key, v);
                                        info.meta = Some(SessionMetadata { meta: t });
                                    },
                                }
                            }
                        }
                        self.session_info = Some(info);
                        self.refresh_session_lists();
                    },
                    None => {},
                }
            }
        } else {
            if let Some(d) = self.device_list_state {
                if let Some(f) = self.device_fields_state {
                    if d < self.device_names.len() && f < self.device_field_names.len() {
                        let field_name = self.device_field_names[f].clone();
                        let ghost t = self.device_configs@;
                        assert(strs(self.device_names@).len() == keys_of(t).len());
                        assert(t[d as int].1 is Table);
                        let (name, val) = self.device_configs.entries.remove(d);
                        match val {
                            ConfigValue::Table(mut inner) => {
                                proof {
                                    lemma_table_model(inner);
                                    assert(t[d as int].1 == ValueModel::Table(inner@));
                                }
                                let v = parse_value(self.edit_buffer.as_str(), float_text);
                                set_nested_value(&mut inner, field_name.as_str(), v);
                                proof {
                                    lemma_table_model(inner);
                                }
                                self.device_configs.entries.insert(d, (name, ConfigValue::Table(inner)));
                                assert(self.device_configs@ =~= t.update(
                                    d as int,
                                    (t[d as int].0, ValueModel::Table(inner@)),
                                ));
                                assert(strs(self.device_names@) =~= keys_of(self.device_configs@));
                                self.refresh_device_field_lists();
                            },
                            other => {
                                self.device_configs.entries.insert(d, (name, other));
                            },
                        }
                    }
                }
            }
        }
        self.clear_edit();
    }
}


/// `key = value` lines for every entry of `t`, tables written inline.
pub open spec fn entry_lines_spec(t: TableModel) -> Seq<char>
    decreases t.len(),
{
    if t.len() == 0 {
        Seq::empty()
    } else {
        entry_lines_spec(t.drop_last()) + t.last().0 + " = "@ + toml_spec(t.last().1) + "\n"@
    }
}

/// The script a new run executes: the one loaded from a file, else the
/// one the server reported.
pub open spec fn script_of(tab: StateTab) -> Option<String> {
    if tab.loaded_script_path is Some {
        tab.loaded_script_path
    } else {
        tab.server_script_path
    }
}

/// The arguments of a run of the tab's script with configuration `config`.
pub open spec fn run_args_for(tab: StateTab, config: String) -> RunArgs {
    RunArgs {
        path: script_of(tab)->Some_0,
        config: Some(config),
        output: tab.run_args_output,
        dry_run: tab.run_args_dry_run,
        email: None,
        delay: tab.run_args_delay,
        loops: tab.run_args_loops,
        interactive: false,
        port: None,
        meta_json: None,
    }
}

/// A new run can start: a session, some devices and a script are known.
pub open spec fn rerun_ready(tab: StateTab) -> bool {
    tab.session_info is Some && tab.device_configs@.len() > 0 && (tab.loaded_script_path is Some
        || tab.server_script_path is Some)
}

/// A line `key = "value"` with the value escaped.
pub open spec fn string_line_spec(key: Seq<char>, value: Seq<char>) -> Seq<char> {
    key + " = \""@ + escape_spec(value) + "\"\n"@
}

/// The metadata section of a session, when it has metadata.
pub open spec fn meta_section_spec(info: SessionInfo) -> Seq<char> {
    match info.meta {
        Some(m) => if m.meta@.len() > 0 {
            "\n[session.info.meta]\n"@ + entry_lines_spec(m.meta@)
        } else {
            Seq::empty()
        },
        None => Seq::empty(),
    }
}

/// The lines of the `[session.info]` section for a session, and its
/// metadata section.
pub open spec fn info_lines_spec(info: SessionInfo) -> Seq<char> {
    string_line_spec("name"@, info.name@) + string_line_spec("email"@, info.email@)
        + string_line_spec("session_name"@, info.session_name@) + string_line_spec(
        "session_description"@,
        info.session_description@,
    ) + meta_section_spec(info)
}

/// A `[device.name]` section for each device, in name order.
pub open spec fn device_sections_spec(t: TableModel) -> Seq<char>
    decreases t.len(),
{
    if t.len() == 0 {
        Seq::empty()
    } else {
        device_sections_spec(t.drop_last()) + match t.last().1 {
            ValueModel::Table(inner) => section_spec("device."@ + t.last().0, inner),
            _ => Seq::empty(),
        }
    }
}

/// The TOML configuration file that a new run reads.
pub open spec fn config_text_spec(info: Option<SessionInfo>, devices: TableModel) -> Seq<char> {
    "[session.info]\n"@ + match info {
        Some(i) => info_lines_spec(i),
        None => Seq::empty(),
    } + device_sections_spec(devices)
}

/// The session as a server receives it with a run request.
pub struct MinimalSessionInfo {
    pub name: String,
    pub email: String,
    pub session_name: String,
    pub session_description: String,
    /// The configuration of each device, when there is any.
    pub devices: Option<ConfigTable>,
}

/// Appends `"key = \"escaped\"\n"`.
fn push_string_line(out: &mut String, key: &str, value: &str)
    ensures
        final(out)@ == old(out)@ + string_line_spec(key@, value@),
{
    push_str(out, key);
    push_str(out, " = \"");
    let e = escape_toml_string(value);
    push_str(out, e.as_str());
    push_str(out, "\"\n");
}

/// Appends the metadata section of a session.
fn push_meta_section(out: &mut String, info: &SessionInfo)
    requires
        info_wf(*info),
    ensures
        final(out)@ == old(out)@ + meta_section_spec(*info),
{
    match &info.meta {
        Some(m) => {
            if m.meta.len() > 0 {
                push_str(out, "\n[session.info.meta]\n");
                let ghost mid = out@;
                let ghost t = m.meta@;
                let mut i: usize = 0;
                assert(t.take(0) =~= Seq::<(Seq<char>, ValueModel)>::empty());
                while i < m.meta.entries.len()
                    invariant
                        t == m.meta@,
                        table_wf(t),
                        i <= t.len(),
                        out@ == mid + entry_lines_spec(t.take(i as int)),
                    decreases t.len() - i,
                {
                    proof {
                        assert(t.take(i + 1).drop_last() =~= t.take(i as int));
                        assert(t.take(i + 1).last() == t[i as int]);
                    }
                    proof {
                        assert(model_wf(t[i as int].1));
                        assert(t[i as int].1 == crate::value::value_model(m.meta.entries@[i as int].1));
                    }
                    let text = toml_value_to_string(&m.meta.entries[i].1);
                    push_str(out, m.meta.entries[i].0.as_str());
                    push_str(out, " = ");
                    push_str(out, text.as_str());
                    push_str(out, "\n");
                    assert(out@ =~= mid + entry_lines_spec(t.take(i + 1)));
                    i = i + 1;
                }
                assert(t.take(t.len() as int) =~= t);
            } else {
                assert(out@ =~= old(out)@ + Seq::<char>::empty());
            }
        },
        None => {
            assert(out@ =~= old(out)@ + Seq::<char>::empty());
        },
    }
}

/// Appends a `[device.name]` section for each device.
fn push_device_sections(out: &mut String, devices: &ConfigTable)
    requires
        devices_wf(devices@),
    ensures
        final(out)@ == old(out)@ + device_sections_spec(devices@),
{
    let ghost before = out@;
    let ghost d = devices@;
    let mut j: usize = 0;
    assert(d.take(0) =~= Seq::<(Seq<char>, ValueModel)>::empty());
    assert(out@ =~= before + device_sections_spec(d.take(0)));
    while j < devices.entries.len()
        invariant
            d == devices@,
            devices_wf(d),
            j <= d.len(),
            out@ == before + device_sections_spec(d.take(j as int)),
        decreases d.len() - j,
    {
        proof {
            assert(d.take(j + 1).drop_last() =~= d.take(j as int));
            assert(d.take(j + 1).last() == d[j as int]);
        }
        let ghost prev = out@;
        match &devices.entries[j].1 {
            ConfigValue::Table(config) => {
                proof {
                    lemma_table_model(*config);
                    crate::value::lemma_nested_table_wf(d, j as int);
                }
                let path = concat("device.", devices.entries[j].0.as_str());
                write_toml_table(out, path.as_str(), config);
                assert(d[j as int].1 == ValueModel::Table(config@));
                assert(out@ == prev + section_spec("device."@ + d[j as int].0, config@));
            },
            _ => {},
        }
        assert(out@ =~= before + device_sections_spec(d.take(j + 1)));
        j = j + 1;
    }
    assert(d.take(d.len() as int) =~= d);
}

impl StateTab {
    /// The configuration file that a new run started from this tab reads:
    /// the session's information and metadata, then a section for each
    /// device with its nested tables as sections of their own.
    pub fn config_file_text(&self) -> (r: String)
        requires
            self.wf(),
        ensures
            r@ == config_text_spec(self.session_info, self.device_configs@),
    {
        let mut out = String::new();
        push_str(&mut out, "[session.info]\n");
        let ghost head = out@;
        match &self.session_info {
            Some(info) => {
                push_string_line(&mut out, "name", info.name.as_str());
                push_string_line(&mut out, "email", info.email.as_str());
                push_string_line(&mut out, "session_name", info.session_name.as_str());
                push_string_line(&mut out, "session_description", info.session_description.as_str());
                push_meta_section(&mut out, info);
                assert(out@ =~= head + info_lines_spec(*info));
            },
            None => {
                assert(out@ =~= head + Seq::<char>::empty());
            },
        }
        push_device_sections(&mut out, &self.device_configs);
        out
    }

    /// Whether a new run can start from this tab: a session, some devices
    /// and a script are known.
    pub fn can_rerun(&self) -> (r: bool)
        ensures
            r == rerun_ready(*self),
    {
        let has_config = self.session_info.is_some() && self.device_configs.len() > 0;
        let has_script = self.loaded_script_path.is_some() || self.server_script_path.is_some();
        has_config && has_script
    }

    /// The script a new run executes: the one loaded from a file, else the
    /// one the server reported.
    pub fn get_script_path(&self) -> (r: Option<String>)
        ensures
            r == script_of(*self),
    {
        match &self.loaded_script_path {
            Some(p) => Some(p.clone()),
            None => match &self.server_script_path {
                Some(p) => Some(p.clone()),
                None => None,
            },
        }
    }

    /// The arguments of a local run, reading the configuration saved at
    /// `temp_config` (or failing as saving it failed).
    pub fn build_run_args(&self, temp_config: Result<String, String>) -> (r: Result<RunArgs, String>)
        ensures
            temp_config matches Err(e) ==> r == Err::<RunArgs, String>(e),
            temp_config is Ok && self.loaded_script_path is None && self.server_script_path is None
                ==> (r matches Err(e) && e@ == "No script file available"@),
            temp_config is Ok && script_of(*self) is Some ==> r == Ok::<RunArgs, String>(
                run_args_for(*self, temp_config->Ok_0),
            ),
    {
        let config = match temp_config {
            Ok(c) => c,
            Err(e) => {
                return Err(e);
            },
        };
        let path = match self.get_script_path() {
            Some(p) => p,
            None => {
                return Err(owned("No script file available"));
            },
        };
        Ok(
            RunArgs {
                path,
                config: Some(config),
                output: self.run_args_output.clone(),
                dry_run: self.run_args_dry_run,
                email: None,
                delay: self.run_args_delay,
                loops: self.run_args_loops,
                interactive: false,
                port: None,
                meta_json: None,
            },
        )
    }

    /// The session as a server receives it, as JSON, with a run request;
    /// an error when no session is known.
    pub fn build_config_json(&self) -> (r: Result<MinimalSessionInfo, String>)
        ensures
            self.session_info is None ==> (r matches Err(e) && e@ == "No session info"@),
            self.session_info matches Some(info) ==> r matches Ok(m) && {
                &&& m.name == info.name
                &&& m.email == info.email
                &&& m.session_name == info.session_name
                &&& m.session_description == info.session_description
                &&& self.device_configs@.len() == 0 ==> m.devices is None
                &&& self.device_configs@.len() > 0 ==> (m.devices matches Some(d) && d@
                    == self.device_configs@)
            },
    {
        match &self.session_info {
            None => Err(owned("No session info")),
            Some(info) => {
                let devices = if self.device_configs.len() > 0 {
                    Some(clone_table(&self.device_configs))
                } else {
                    None
                };
                Ok(
                    MinimalSessionInfo {
                        name: info.name.clone(),
                        email: info.email.clone(),
                        session_name: info.session_name.clone(),
                        session_description: info.session_description.clone(),
                        devices,
                    },
                )
            },
        }
    }

    /// The arguments of a run on a server: the configuration goes as
    /// `config_json` (what `build_config_json` gives, serialised, or the error
    /// met making it), and the script must lie in the server's scripts
    /// directory `allowed_dir` (or the error met finding it).
    pub fn build_http_run_args(
        &self,
        config_json: Result<String, String>,
        allowed_dir: Result<String, String>,
    ) -> (r: Result<RunArgs, String>)
        ensures
            self.loaded_script_path is None && self.server_script_path is None ==> (r matches Err(
                e,
            ) && e@ == "No script file available"@),
            (self.loaded_script_path is Some || self.server_script_path is Some) ==> {
                let path = if self.loaded_script_path is Some {
                    self.loaded_script_path->Some_0
                } else {
                    self.server_script_path->Some_0
                };
                match config_json {
                    Err(e) => r == Err::<RunArgs, String>(e),
                    Ok(json) => match allowed_dir {
                        Err(e) => r matches Err(m) && m@ == "Cannot verify script location: "@
                            + e@,
                        Ok(dir) => if path_starts_with(path@, dir@) {
                            r == Ok::<RunArgs, String>(run_args_for(*self, json))
                        } else {
                            r matches Err(m) && m@ == "Script must be from allowed scripts directory"@
                        },
                    },
                }
            },
    {
        let path = match self.get_script_path() {
            Some(p) => p,
            None => {
                return Err(owned("No script file available"));
            },
        };
        let json = match config_json {
            Ok(j) => j,
            Err(e) => {
                return Err(e);
            },
        };
        let dir = match allowed_dir {
            Ok(d) => d,
            Err(e) => {
                return Err(concat("Cannot verify script location: ", e.as_str()));
            },
        };
        if !path_has_prefix(path.as_str(), dir.as_str()) {
            return Err(owned("Script must be from allowed scripts directory"));
        }
        Ok(
            RunArgs {
                path,
                config: Some(json),
                output: self.run_args_output.clone(),
                dry_run: self.run_args_dry_run,
                email: None,
                delay: self.run_args_delay,
                loops: self.run_args_loops,
                interactive: false,
                port: None,
                meta_json: None,
            },
        )
    }
}


impl StateTab {
    /// Opens the popup for the arguments of a new run, showing the current
    /// ones.
    pub fn start_run_args_editor(&mut self)
        requires
            old(self).wf(),
        ensures
            final(self).wf(),
            run_args_editor_opened(*old(self), *final(self)),
    {
        let e = RunArgsEditor::new(
            self.run_args_output.clone(),
            self.run_args_loops,
            self.run_args_delay,
            self.run_args_dry_run,
        );
        self.run_args_editor = Some(e);
        self.mode = StateMode::EditingRunArgs;
    }

    /// Focuses the next field of the popup, if it is open.
    pub fn run_args_next_field(&mut self)
        requires
            old(self).wf(),
        ensures
            final(self).wf(),
            run_args_next_field_post(*old(self), *final(self)),
    {
        match &mut self.run_args_editor {
            Some(e) => {
                e.focus_field = e.focus_field.next();
            },
            None => {},
        }
    }

    /// Focuses the previous field of the popup, if it is open.
    pub fn run_args_previous_field(&mut self)
        requires
            old(self).wf(),
        ensures
            final(self).wf(),
            run_args_previous_field_post(*old(self), *final(self)),
    {
        match &mut self.run_args_editor {
            Some(e) => {
                e.focus_field = e.focus_field.previous();
            },
            None => {},
        }
    }

    /// Starts editing the focused field of the popup. Returns `true` when
    /// the output directory is to be picked: the tab then waits in
    /// `PickingOutputDir` for the caller to open a directory picker.
    pub fn run_args_edit_current(&mut self) -> (r: bool)
        requires
            old(self).wf(),
        ensures
            final(self).wf(),
            run_args_edit_current_post(*old(self), *final(self), r),
    {
        let picks = match &mut self.run_args_editor {
            Some(e) => e.edit_current() == EditStart::PickOutputDir,
            None => false,
        };
        if picks {
            self.mode = StateMode::PickingOutputDir;
        }
        picks
    }

    /// Types `c` into the field being edited in the popup.
    pub fn run_args_edit_input(&mut self, c: char)
        requires
            old(self).wf(),
        ensures
            final(self).wf(),
            run_args_edit_input_post(*old(self), *final(self), c),
    {
        match &mut self.run_args_editor {
            Some(e) => e.edit_input(c),
            None => {},
        }
    }

    /// Deletes the character before the cursor in the popup's field.
    pub fn run_args_edit_backspace(&mut self)
        requires
            old(self).wf(),
        ensures
            final(self).wf(),
            run_args_edit_backspace_post(*old(self), *final(self)),
    {
        match &mut self.run_args_editor {
            Some(e) => e.edit_backspace(),
            None => {},
        }
    }

    /// Deletes the character under the cursor in the popup's field.
    pub fn run_args_edit_delete(&mut self)
        requires
            old(self).wf(),
        ensures
            final(self).wf(),
            run_args_edit_delete_post(*old(self), *final(self)),
    {
        match &mut self.run_args_editor {
            Some(e) => e.edit_delete(),
            None => {},
        }
    }

    /// Ends editing the popup's field, keeping a valid number.
    pub fn run_args_commit_edit(&mut self)
        requires
            old(self).wf(),
        ensures
            final(self).wf(),
            run_args_commit_edit_post(*old(self), *final(self)),
    {
        match &mut self.run_args_editor {
            Some(e) => e.commit_edit(),
            None => {},
        }
    }

    /// Stops editing the popup's field without changing it.
    pub fn run_args_cancel_edit(&mut self)
        requires
            old(self).wf(),
        ensures
            final(self).wf(),
            run_args_cancel_edit_post(*old(self), *final(self)),
    {
        match &mut self.run_args_editor {
            Some(e) => e.cancel_edit(),
            None => {},
        }
    }

    /// Closes the popup and keeps the arguments it shows.
    pub fn run_args_confirm(&mut self)
        requires
            old(self).wf(),
        ensures
            final(self).wf(),
            run_args_confirm_post(*old(self), *final(self)),
    {
        match self.run_args_editor.take() {
            Some(e) => {
                self.run_args_output = e.temp_output;
                self.run_args_loops = e.temp_loops;
                self.run_args_delay = e.temp_delay;
                self.run_args_dry_run = e.temp_dry_run;
                self.mode = StateMode::Normal;
            },
            None => {},
        }
    }

    /// Closes the popup and drops what it shows.
    pub fn run_args_cancel(&mut self)
        requires
            old(self).wf(),
        ensures
            final(self).wf(),
            run_args_cancel_post(*old(self), *final(self)),
    {
        self.run_args_editor = None;
        self.mode = StateMode::Normal;
    }

    /// Puts the picked output directory in the popup and returns to it.
    pub fn set_output_dir(&mut self, path: String)
        requires
            old(self).wf(),
        ensures
            final(self).wf(),
            set_output_dir_post(*old(self), *final(self), path),
    {
        match &mut self.run_args_editor {
            Some(e) => {
                e.temp_output = path;
            },
            None => {},
        }
        self.mode = StateMode::EditingRunArgs;
    }

    /// The title of the session list: what it shows and where the
    /// configuration and the script come from.
    pub fn session_title(&self) -> (r: String)
        ensures
            r@ == "Session Info (↑↓ to navigate, e to edit)"@ + (if self.loaded_config_path is Some {
                " [Config from file]"@
            } else {
                Seq::empty()
            }) + (if self.loaded_script_path is Some {
                " [Script from file]"@
            } else if self.server_script_path is Some {
                " [Script from server]"@
            } else {
                Seq::empty()
            }),
    {
        let mut title = owned("Session Info (↑↓ to navigate, e to edit)");
        let ghost t0 = title@;
        if self.loaded_config_path.is_some() {
            push_str(&mut title, " [Config from file]");
        }
        let ghost t1 = title@;
        assert(t1 == t0 + (if self.loaded_config_path is Some {
            " [Config from file]"@
        } else {
            Seq::empty()
        }));
        if self.loaded_script_path.is_some() {
            push_str(&mut title, " [Script from file]");
        } else if self.server_script_path.is_some() {
            push_str(&mut title, " [Script from server]");
        }
        assert(title@ =~= t1 + (if self.loaded_script_path is Some {
            " [Script from file]"@
        } else if self.server_script_path is Some {
            " [Script from server]"@
        } else {
            Seq::empty()
        }));
        title
    }
}


/// What `next_primary` does to the tab.
pub open spec fn next_primary_post(old: StateTab, new: StateTab) -> bool {
    &&& old.focus == FocusSection::Session ==> if old.session_field_names@.len()
        == 0 {
        new == old
    } else {
        new == (StateTab {
            session_fields_state: Some(
                next_row(
                    sel_or_zero(old.session_fields_state),
                    old.session_field_names@.len() as usize,
                ),
            ),
            ..old
        })
    }
    &&& old.focus == FocusSection::Device ==> if old.device_names@.len() == 0 {
        new == old
    } else {
        let sel = Some(
            next_row(
                sel_or_zero(old.device_list_state),
                old.device_names@.len() as usize,
            ),
        );
        &&& new == (StateTab {
            device_list_state: sel,
            device_field_names: new.device_field_names,
            device_field_values: new.device_field_values,
            device_fields_state: new.device_fields_state,
            ..old
        })
        &&& field_lists_refreshed(
            old.device_configs@,
            sel,
            old.device_fields_state,
            new,
        )
    }
}

/// What `previous_primary` does to the tab.
pub open spec fn previous_primary_post(old: StateTab, new: StateTab) -> bool {
    &&& old.focus == FocusSection::Session ==> if old.session_field_names@.len()
        == 0 {
        new == old
    } else {
        new == (StateTab {
            session_fields_state: Some(
                previous_row(
                    sel_or_zero(old.session_fields_state),
                    old.session_field_names@.len() as usize,
                ),
            ),
            ..old
        })
    }
    &&& old.focus == FocusSection::Device ==> if old.device_names@.len() == 0 {
        new == old
    } else {
        let sel = Some(
            previous_row(
                sel_or_zero(old.device_list_state),
                old.device_names@.len() as usize,
            ),
        );
        &&& new == (StateTab {
            device_list_state: sel,
            device_field_names: new.device_field_names,
            device_field_values: new.device_field_values,
            device_fields_state: new.device_fields_state,
            ..old
        })
        &&& field_lists_refreshed(
            old.device_configs@,
            sel,
            old.device_fields_state,
            new,
        )
    }
}

/// What `next_secondary` does to the tab.
pub open spec fn next_secondary_post(old: StateTab, new: StateTab) -> bool {
    &&& if old.focus == FocusSection::Device && old.device_field_names@.len() > 0 {
        new == (StateTab {
            device_fields_state: Some(
                next_row(
                    sel_or_zero(old.device_fields_state),
                    old.device_field_names@.len() as usize,
                ),
            ),
            ..old
        })
    } else {
        new == old
    }
}

/// What `previous_secondary` does to the tab.
pub open spec fn previous_secondary_post(old: StateTab, new: StateTab) -> bool {
    &&& if old.focus == FocusSection::Device && old.device_field_names@.len() > 0 {
        new == (StateTab {
            device_fields_state: Some(
                previous_row(
                    sel_or_zero(old.device_fields_state),
                    old.device_field_names@.len() as usize,
                ),
            ),
            ..old
        })
    } else {
        new == old
    }
}

/// What `toggle_focus` does to the tab.
pub open spec fn toggle_focus_post(old: StateTab, new: StateTab) -> bool {
    &&& new == (StateTab { focus: other_section(old.focus), ..old })
}

/// What `start_edit` does to the tab.
pub open spec fn start_edit_post(old: StateTab, new: StateTab) -> bool {
    &&& ({
        let (sel, names, values) = if old.focus == FocusSection::Session {
            (
                old.session_fields_state,
                old.session_field_names@,
                old.session_field_values@,
            )
        } else {
            (
                old.device_fields_state,
                old.device_field_names@,
                old.device_field_values@,
            )
        };
        if sel is Some && sel->Some_0 < values.len() {
            let idx = sel->Some_0;
            &&& new == (StateTab {
                editing: true,
                editing_is_session: old.focus == FocusSection::Session,
                editing_field_name: names[idx as int],
                edit_buffer: values[idx as int],
                cursor_position: values[idx as int]@.len() as usize,
                ..old
            })
        } else {
            new == old
        }
    })
}

/// What `handle_edit_input` does to the tab.
pub open spec fn edit_input_post(old: StateTab, new: StateTab, c: char) -> bool {
    &&& new == (StateTab {
        edit_buffer: new.edit_buffer,
        cursor_position: new.cursor_position,
        ..old
    })
    &&& new.cursor_position == old.cursor_position + 1
    &&& new.edit_buffer@ == old.edit_buffer@.insert(
        old.cursor_position as int,
        c,
    )
}

/// Typing `c` puts it between the text before the cursor and the text
/// after it, and moves the cursor just past it, still inside the text.
pub proof fn lemma_edit_input_at_cursor(old: StateTab, new: StateTab, c: char)
    requires
        old.wf(),
        edit_input_post(old, new, c),
    ensures
        new.edit_buffer@ == old.edit_buffer@.take(old.cursor_position as int) + seq![c]
            + old.edit_buffer@.skip(old.cursor_position as int),
        new.cursor_position == old.cursor_position + 1,
        new.cursor_position <= new.edit_buffer@.len(),
{
    let b = old.edit_buffer@;
    let p = old.cursor_position as int;
    assert(b.insert(p, c) =~= b.take(p) + seq![c] + b.skip(p));
}

/// Editing a device field and committing it untouched leaves every
/// device's configuration as it was, when the field list shows the
/// selected device, its keys each name one entry, and the field's value
/// reads back as itself (an `i64`, a boolean, or a float whose text reads
/// as no integer and is what `float_text` gives back).
#[verifier::spinoff_prover]
pub proof fn lemma_untouched_device_commit(
    old: StateTab,
    mid: StateTab,
    new: StateTab,
    float_text: Option<String>,
)
    requires
        old.wf(),
        old.focus == FocusSection::Device,
        old.device_list_state is Some,
        old.device_list_state->Some_0 < old.device_names@.len(),
        old.device_fields_state is Some,
        old.device_fields_state->Some_0 < old.device_field_names@.len(),
        device_fields_spec(old.device_configs@, old.device_list_state) is Some,
        lists_are(
            old.device_field_names@,
            old.device_field_values@,
            device_fields_spec(old.device_configs@, old.device_list_state)->Some_0,
        ),
        plain_keys(old.device_configs@[old.device_list_state->Some_0 as int].1),
        lookup_path(
            old.device_configs@[old.device_list_state->Some_0 as int].1->Table_0,
            old.device_field_names@[old.device_fields_state->Some_0 as int]@,
        ) is Some,
        reads_back(
            lookup_path(
                old.device_configs@[old.device_list_state->Some_0 as int].1->Table_0,
                old.device_field_names@[old.device_fields_state->Some_0 as int]@,
            )->Some_0,
            opt_view(float_text),
        ),
        start_edit_post(old, mid),
        commit_edit_post(mid, new, float_text),
    ensures
        new.device_configs@ == old.device_configs@,
{
    let t = old.device_configs@;
    let d = old.device_list_state->Some_0 as int;
    let f = old.device_fields_state->Some_0 as int;
    assert(keys_of(t).len() == t.len());
    assert(t[d].1 is Table);
    let inner = t[d].1->Table_0;
    assert(model_wf(t[d].1));
    let mv = ValueModel::Table(inner);
    assert(mv == t[d].1);
    assert(table_wf(inner));
    let flat = flatten_spec(inner, Seq::empty());
    let w = sort_by_name_spec(flat);
    assert(device_fields_spec(t, old.device_list_state) == Some(w));
    let name = old.device_field_names@[f]@;
    let shown = old.device_field_values@[f]@;
    assert(w[f] == (name, shown));
    lemma_sort_by_name(flat);
    assert(flat.contains((name, shown))) by {
        broadcast use vstd::seq_lib::group_to_multiset_ensures;
        assert(w.contains((name, shown)));
        assert(w.to_multiset().count((name, shown)) > 0);
    }
    lemma_flatten_fields_show(inner, Seq::empty(), (name, shown));
    let p = choose|p: Seq<char>|
        #![trigger lookup_path(inner, p)]
        name == crate::value::join_key(Seq::empty(), p) && lookup_path(inner, p) is Some && shown
            == format_spec(lookup_path(inner, p)->Some_0);
    assert(p == name);
    lemma_untouched_commit_keeps(inner, name, opt_view(float_text));
    assert(mid.edit_buffer@ == shown);
    assert(t.update(d, (t[d].0, ValueModel::Table(inner))) =~= t);
}

/// What `handle_edit_backspace` does to the tab.
pub open spec fn edit_backspace_post(old: StateTab, new: StateTab) -> bool {
    &&& old.cursor_position > 0 ==> new == (StateTab {
        edit_buffer: new.edit_buffer,
        cursor_position: (old.cursor_position - 1) as usize,
        ..old
    }) && new.edit_buffer@ == old.edit_buffer@.remove(
        old.cursor_position - 1,
    )
    &&& old.cursor_position == 0 ==> new == old
}

/// What `handle_edit_delete` does to the tab.
pub open spec fn edit_delete_post(old: StateTab, new: StateTab) -> bool {
    &&& old.cursor_position < old.edit_buffer@.len() ==> new == (
    StateTab { edit_buffer: new.edit_buffer, ..old })
        && new.edit_buffer@ == old.edit_buffer@.remove(
        old.cursor_position as int,
    )
    &&& old.cursor_position >= old.edit_buffer@.len() ==> new == old
}

/// What `move_cursor_left` does to the tab.
pub open spec fn cursor_left_post(old: StateTab, new: StateTab) -> bool {
    &&& new == (StateTab {
        cursor_position: if old.cursor_position > 0 {
            (old.cursor_position - 1) as usize
        } else {
            0
        },
        ..old
    })
}

/// What `move_cursor_right` does to the tab.
pub open spec fn cursor_right_post(old: StateTab, new: StateTab) -> bool {
    &&& new == (StateTab {
        cursor_position: if old.cursor_position < old.edit_buffer@.len() {
            (old.cursor_position + 1) as usize
        } else {
            old.cursor_position
        },
        ..old
    })
}

/// What `move_cursor_start` does to the tab.
pub open spec fn cursor_start_post(old: StateTab, new: StateTab) -> bool {
    &&& new == (StateTab { cursor_position: 0, ..old })
}

/// What `move_cursor_end` does to the tab.
pub open spec fn cursor_end_post(old: StateTab, new: StateTab) -> bool {
    &&& new == (StateTab {
        cursor_position: old.edit_buffer@.len() as usize,
        ..old
    })
}

/// What `cancel_edit` does to the tab.
pub open spec fn cancel_edit_post(old: StateTab, new: StateTab) -> bool {
    &&& new == (StateTab {
        editing: false,
        edit_buffer: new.edit_buffer,
        editing_field_name: new.editing_field_name,
        cursor_position: 0,
        ..old
    })
    &&& new.edit_buffer@.len() == 0
    &&& new.editing_field_name@.len() == 0
}

/// What `commit_edit` does to the tab.
pub open spec fn commit_edit_post(old: StateTab, new: StateTab, float_text: Option<String>) -> bool {
    &&& new.editing == false
    &&& new.edit_buffer@.len() == 0
    &&& new.editing_field_name@.len() == 0
    &&& new.cursor_position == 0
    &&& old.editing_is_session ==> if old.session_info is Some
        && old.session_fields_state is Some {
        let idx = old.session_fields_state->Some_0;
        let row = if idx < old.session_field_names@.len() {
            old.session_field_names@[idx as int]@
        } else {
            Seq::empty()
        };
        &&& new.session_info matches Some(ni) && session_edited(
            old.session_info->Some_0,
            ni,
            idx,
            row,
            old.edit_buffer,
            opt_view(float_text),
        )
        &&& new == (StateTab {
            session_info: new.session_info,
            session_field_names: new.session_field_names,
            session_field_values: new.session_field_values,
            editing: false,
            edit_buffer: new.edit_buffer,
            editing_field_name: new.editing_field_name,
            cursor_position: 0,
            ..old
        })
    } else {
        new == (StateTab {
            editing: false,
            edit_buffer: new.edit_buffer,
            editing_field_name: new.editing_field_name,
            cursor_position: 0,
            ..old
        })
    }
    &&& !old.editing_is_session ==> if old.device_list_state is Some
        && old.device_list_state->Some_0 < old.device_names@.len()
        && old.device_fields_state is Some && old.device_fields_state->Some_0
        < old.device_field_names@.len() {
        let t = old.device_configs@;
        let d = old.device_list_state->Some_0;
        let f = old.device_fields_state->Some_0;
        &&& new.device_configs@ == t.update(
            d as int,
            (
                t[d as int].0,
                ValueModel::Table(
                    set_nested_spec(
                        t[d as int].1->Table_0,
                        old.device_field_names@[f as int]@,
                        parse_value_spec(old.edit_buffer@, opt_view(float_text)),
                    ),
                ),
            ),
        )
        &&& field_lists_refreshed(
            new.device_configs@,
            old.device_list_state,
            old.device_fields_state,
            new,
        )
        &&& new == (StateTab {
            device_configs: new.device_configs,
            device_field_names: new.device_field_names,
            device_field_values: new.device_field_values,
            device_fields_state: new.device_fields_state,
            editing: false,
            edit_buffer: new.edit_buffer,
            editing_field_name: new.editing_field_name,
            cursor_position: 0,
            ..old
        })
    } else {
        new == (StateTab {
            editing: false,
            edit_buffer: new.edit_buffer,
            editing_field_name: new.editing_field_name,
            cursor_position: 0,
            ..old
        })
    }
}

/// What `update_from_json` does to the tab.
pub open spec fn update_from_json_post(old: StateTab, new: StateTab, parsed: Result<Summary, String>, r: Result<(), String>) -> bool {
    &&& parsed matches Err(e) ==> r == Err::<(), String>(e) && new == old
    &&& parsed matches Ok(s) ==> {
        &&& r is Ok
        &&& new == (StateTab {
            session_info: Some(s.info),
            session_field_names: new.session_field_names,
            session_field_values: new.session_field_values,
            session_fields_state: if old.session_fields_state is None {
                Some(0usize)
            } else {
                old.session_fields_state
            },
            device_configs: s.devices,
            device_names: new.device_names,
            device_list_state: if old.device_list_state is None && s.devices@.len()
                > 0 {
                Some(0usize)
            } else {
                old.device_list_state
            },
            device_field_names: new.device_field_names,
            device_field_values: new.device_field_values,
            device_fields_state: new.device_fields_state,
            server_script_path: if s.run_file@.len() > 0 {
                Some(s.run_file)
            } else {
                old.server_script_path
            },
            ..old
        })
        &&& old.device_list_state is None && s.devices@.len() > 0
            ==> field_lists_refreshed(
            s.devices@,
            Some(0usize),
            old.device_fields_state,
            new,
        )
        &&& !(old.device_list_state is None && s.devices@.len() > 0) ==> {
            &&& new.device_field_names == old.device_field_names
            &&& new.device_field_values == old.device_field_values
            &&& new.device_fields_state == old.device_fields_state
        }
    }
}

/// What `handle_file_picker_key` does to the tab.
pub open spec fn picker_key_post(old: StateTab, new: StateTab, key: Key, transport: TransportType, r: PickerOutcome) -> bool {
    &&& old.file_picker is None ==> new == old && r == outcome_fetch(false)
    &&& old.file_picker matches Some(p) ==> {
        if key == Key::Esc {
            &&& new == (StateTab {
                file_picker: None,
                mode: StateMode::Normal,
                ..old
            })
            &&& r == outcome_fetch(true)
        } else if key == Key::Enter {
            if p.selected_index < p.filtered_files@.len() && old.mode
                == StateMode::PickingConfig {
                let chosen = p.filtered_files@[p.selected_index as int];
                &&& new == (StateTab {
                    loaded_config_path: Some(chosen),
                    file_picker: None,
                    mode: if transport == TransportType::Http {
                        StateMode::FetchingScripts
                    } else {
                        StateMode::PickingScript
                    },
                    ..old
                })
                &&& r == (PickerOutcome {
                    fetch_remote_scripts: transport == TransportType::Http,
                    rescan: false,
                    load_config: Some(chosen),
                    pick_local_script: transport != TransportType::Http,
                })
            } else if p.selected_index < p.filtered_files@.len() && old.mode
                == StateMode::PickingScript {
                &&& new == (StateTab {
                    loaded_script_path: Some(p.filtered_files@[p.selected_index as int]),
                    file_picker: None,
                    mode: StateMode::Normal,
                    ..old
                })
                &&& r == outcome_fetch(false)
            } else {
                new == old && r == outcome_fetch(false)
            }
        } else {
            &&& new.file_picker matches Some(q) && key_effect(p, q, key, r.rescan)
            &&& new == (StateTab { file_picker: new.file_picker, ..old })
            &&& r == (PickerOutcome { rescan: r.rescan, ..outcome_fetch(false) })
        }
    }
}

/// What `set_remote_scripts` does to the tab.
pub open spec fn remote_scripts_post(old: StateTab, new: StateTab, base_dir: String, files: Vec<String>) -> bool {
    &&& new == (StateTab {
        file_picker: new.file_picker,
        mode: StateMode::PickingScript,
        ..old
    })
    &&& new.file_picker matches Some(p) && {
        &&& p.current_dir == base_dir
        &&& p.all_files == files
        &&& strs(p.extensions@) == script_extensions()
        &&& p.title@ == "Select Allowed Script"@
        &&& p.query@.len() == 0
        &&& p.cursor_position == 0 && p.max_depth == 4
        &&& p.restricted_mode && p.remote_mode && !p.dir_only
    }
}

/// What `start_config_picker` does to the tab.
pub open spec fn config_picker_post(old: StateTab, new: StateTab, current_dir: String, files: Vec<String>) -> bool {
    &&& new == (StateTab {
        file_picker: new.file_picker,
        mode: StateMode::PickingConfig,
        ..old
    })
    &&& new.file_picker matches Some(p) && {
        &&& p.current_dir == current_dir
        &&& p.all_files == files
        &&& strs(p.extensions@) == seq![".toml"@]
        &&& p.title@ == "Select Config File"@
        &&& p.query@.len() == 0
        &&& p.cursor_position == 0 && p.max_depth == 4
        &&& !p.restricted_mode && !p.remote_mode && !p.dir_only
    }
}

/// What `open_script_picker` does to the tab.
pub open spec fn script_picker_post(old: StateTab, new: StateTab, current_dir: String, files: Vec<String>) -> bool {
    &&& new == (StateTab {
        file_picker: new.file_picker,
        mode: StateMode::PickingScript,
        ..old
    })
    &&& new.file_picker matches Some(p) && {
        &&& p.current_dir == current_dir
        &&& p.all_files == files
        &&& strs(p.extensions@) == script_extensions()
        &&& p.title@ == "Select Script File"@
        &&& p.query@.len() == 0
        &&& p.cursor_position == 0 && p.max_depth == 4
        &&& !p.restricted_mode && !p.remote_mode && !p.dir_only
    }
}

/// What `start_run_args_editor` does to the tab.
pub open spec fn run_args_editor_opened(old: StateTab, new: StateTab) -> bool {
    &&& new == (StateTab {
        run_args_editor: new.run_args_editor,
        mode: StateMode::EditingRunArgs,
        ..old
    })
    &&& new.run_args_editor matches Some(e) && e == (RunArgsEditor {
        focus_field: crate::run_args::RunArgsField::OutputDir,
        editing: false,
        edit_buffer: e.edit_buffer,
        cursor_position: 0,
        temp_output: old.run_args_output,
        temp_loops: old.run_args_loops,
        temp_delay: old.run_args_delay,
        temp_dry_run: old.run_args_dry_run,
    }) && e.edit_buffer@.len() == 0
}

/// What `run_args_next_field` does to the tab.
pub open spec fn run_args_next_field_post(old: StateTab, new: StateTab) -> bool {
    &&& new == (StateTab {
        run_args_editor: match old.run_args_editor {
            Some(e) => Some(
                RunArgsEditor { focus_field: field_at(field_index(e.focus_field) + 1), ..e },
            ),
            None => None,
        },
        ..old
    })
}

/// What `run_args_previous_field` does to the tab.
pub open spec fn run_args_previous_field_post(old: StateTab, new: StateTab) -> bool {
    &&& new == (StateTab {
        run_args_editor: match old.run_args_editor {
            Some(e) => Some(
                RunArgsEditor { focus_field: field_at(field_index(e.focus_field) + 3), ..e },
            ),
            None => None,
        },
        ..old
    })
}

/// What `run_args_edit_current` does to the tab.
pub open spec fn run_args_edit_current_post(old: StateTab, new: StateTab, r: bool) -> bool {
    &&& old.run_args_editor is None ==> !r && new == old
    &&& old.run_args_editor matches Some(e) ==> {
        &&& r == (e.focus_field == crate::run_args::RunArgsField::OutputDir)
        &&& new.run_args_editor matches Some(e2) && edit_current_effect(e, e2)
        &&& new == (StateTab {
            run_args_editor: new.run_args_editor,
            mode: if r {
                StateMode::PickingOutputDir
            } else {
                old.mode
            },
            ..old
        })
    }
}

/// What `run_args_edit_input` does to the tab.
pub open spec fn run_args_edit_input_post(old: StateTab, new: StateTab, c: char) -> bool {
    &&& new == (StateTab { run_args_editor: new.run_args_editor, ..old })
    &&& match old.run_args_editor {
        Some(e) => new.run_args_editor matches Some(e2) && input_effect(e, e2, c),
        None => new.run_args_editor is None,
    }
}

/// What `run_args_edit_backspace` does to the tab.
pub open spec fn run_args_edit_backspace_post(old: StateTab, new: StateTab) -> bool {
    &&& new == (StateTab { run_args_editor: new.run_args_editor, ..old })
    &&& match old.run_args_editor {
        Some(e) => new.run_args_editor matches Some(e2) && backspace_effect(e, e2),
        None => new.run_args_editor is None,
    }
}

/// What `run_args_edit_delete` does to the tab.
pub open spec fn run_args_edit_delete_post(old: StateTab, new: StateTab) -> bool {
    &&& new == (StateTab { run_args_editor: new.run_args_editor, ..old })
    &&& match old.run_args_editor {
        Some(e) => new.run_args_editor matches Some(e2) && delete_effect(e, e2),
        None => new.run_args_editor is None,
    }
}

/// What `run_args_commit_edit` does to the tab.
pub open spec fn run_args_commit_edit_post(old: StateTab, new: StateTab) -> bool {
    &&& new == (StateTab { run_args_editor: new.run_args_editor, ..old })
    &&& match old.run_args_editor {
        Some(e) => new.run_args_editor matches Some(e2) && commit_effect(e, e2),
        None => new.run_args_editor is None,
    }
}

/// What `run_args_cancel_edit` does to the tab.
pub open spec fn run_args_cancel_edit_post(old: StateTab, new: StateTab) -> bool {
    &&& new == (StateTab { run_args_editor: new.run_args_editor, ..old })
    &&& match old.run_args_editor {
        Some(e) => new.run_args_editor matches Some(e2) && cancel_effect(e, e2),
        None => new.run_args_editor is None,
    }
}

/// What `run_args_confirm` does to the tab.
pub open spec fn run_args_confirm_post(old: StateTab, new: StateTab) -> bool {
    &&& old.run_args_editor is None ==> new == old
    &&& old.run_args_editor matches Some(e) ==> new == (StateTab {
        run_args_output: e.temp_output,
        run_args_loops: e.temp_loops,
        run_args_delay: e.temp_delay,
        run_args_dry_run: e.temp_dry_run,
        run_args_editor: None,
        mode: StateMode::Normal,
        ..old
    })
}

/// What `run_args_cancel` does to the tab.
pub open spec fn run_args_cancel_post(old: StateTab, new: StateTab) -> bool {
    &&& new == (StateTab {
        run_args_editor: None,
        mode: StateMode::Normal,
        ..old
    })
}

/// What `set_output_dir` does to the tab.
pub open spec fn set_output_dir_post(old: StateTab, new: StateTab, path: String) -> bool {
    &&& new == (StateTab {
        run_args_editor: match old.run_args_editor {
            Some(e) => Some(RunArgsEditor { temp_output: path, ..e }),
            None => None,
        },
        mode: StateMode::EditingRunArgs,
        ..old
    })
}


impl StateTab {
    /// Opens a picker over the local directories under `start_dir`, where
    /// `dirs` were found, for the output directory of a new run.
    pub fn open_output_dir_picker(&mut self, start_dir: String, dirs: Vec<String>)
        requires
            old(self).wf(),
            paths_fit(dirs@),
        ensures
            final(self).wf(),
            output_dir_picker_post(*old(self), *final(self), start_dir, dirs),
    {
        let picker = FilePicker::new_dir_only(start_dir, owned("Select Output Directory"), dirs);
        self.file_picker = Some(picker);
        self.mode = StateMode::PickingOutputDir;
    }

    /// Offers the output directories that a server allows: a picker over
    /// them starting at the first, or, when there are none, back to the
    /// run-arguments popup.
    pub fn offer_output_dirs(&mut self, dirs: Vec<String>)
        requires
            old(self).wf(),
            paths_fit(dirs@),
        ensures
            final(self).wf(),
            offer_output_dirs_post(*old(self), *final(self), dirs),
    {
        if dirs.len() == 0 {
            self.mode = StateMode::EditingRunArgs;
            return ;
        }
        let first = dirs[0].clone();
        let picker = FilePicker::new_remote_dirs(first, dirs, owned("Select Output Directory"));
        self.file_picker = Some(picker);
        self.mode = StateMode::PickingOutputDir;
    }
}

/// What `open_output_dir_picker` does to the tab.
pub open spec fn output_dir_picker_post(old: StateTab, new: StateTab, start_dir: String, dirs: Vec<String>) -> bool {
    &&& new == (StateTab {
        file_picker: new.file_picker,
        mode: StateMode::PickingOutputDir,
        ..old
    })
    &&& new.file_picker matches Some(p) && {
        &&& p.current_dir == start_dir
        &&& p.all_files == dirs
        &&& p.extensions@.len() == 0
        &&& p.title@ == "Select Output Directory"@
        &&& p.query@.len() == 0
        &&& p.cursor_position == 0 && p.max_depth == 4
        &&& !p.restricted_mode && !p.remote_mode && p.dir_only
    }
}

/// What `offer_output_dirs` does to the tab.
pub open spec fn offer_output_dirs_post(old: StateTab, new: StateTab, dirs: Vec<String>) -> bool {
    if dirs@.len() == 0 {
        new == (StateTab { mode: StateMode::EditingRunArgs, ..old })
    } else {
        &&& new == (StateTab {
            file_picker: new.file_picker,
            mode: StateMode::PickingOutputDir,
            ..old
        })
        &&& new.file_picker matches Some(p) && {
            &&& p.current_dir == dirs@[0]
            &&& p.all_files == dirs
            &&& p.extensions@.len() == 0
            &&& p.title@ == "Select Output Directory"@
            &&& p.query@.len() == 0
        &&& p.cursor_position == 0 && p.max_depth == 3
            &&& p.restricted_mode && p.remote_mode && p.dir_only
        }
    }
}

} // verus!
