//! The arguments of a new run and the popup that edits them before the run
//! starts: output directory, number of loops, delay between loops, and
//! whether the run is a dry run.
use vstd::prelude::*;
use crate::text::{
    insert_char_at, remove_char_at, u64_to_string, nat_to_dec, parse_u8, parse_u64, u8_parse_spec,
    u64_parse_spec,
};

verus! {

/// The field of the run-arguments popup that has the focus.
#[derive(Debug, PartialEq, Eq, Structural, Clone, Copy)]
pub enum RunArgsField {
    OutputDir,
    Loops,
    Delay,
    DryRun,
}

/// Position of a field in the popup, top to bottom.
pub open spec fn field_index(f: RunArgsField) -> int {
    match f {
        RunArgsField::OutputDir => 0,
        RunArgsField::Loops => 1,
        RunArgsField::Delay => 2,
        RunArgsField::DryRun => 3,
    }
}

/// The field at a position of the popup, counted modulo four.
pub open spec fn field_at(i: int) -> RunArgsField {
    let j = i % 4;
    if j == 0 {
        RunArgsField::OutputDir
    } else if j == 1 {
        RunArgsField::Loops
    } else if j == 2 {
        RunArgsField::Delay
    } else {
        RunArgsField::DryRun
    }
}

impl RunArgsField {
    /// The field below, the last one wrapping to the first.
    pub fn next(&self) -> (r: RunArgsField)
        ensures
            r == field_at(field_index(*self) + 1),
    {
        match self {
            RunArgsField::OutputDir => RunArgsField::Loops,
            RunArgsField::Loops => RunArgsField::Delay,
            RunArgsField::Delay => RunArgsField::DryRun,
            RunArgsField::DryRun => RunArgsField::OutputDir,
        }
    }

    /// The field above, the first one wrapping to the last.
    pub fn previous(&self) -> (r: RunArgsField)
        ensures
            r == field_at(field_index(*self) + 3),
    {
        match self {
            RunArgsField::OutputDir => RunArgsField::DryRun,
            RunArgsField::Loops => RunArgsField::OutputDir,
            RunArgsField::Delay => RunArgsField::Loops,
            RunArgsField::DryRun => RunArgsField::Delay,
        }
    }
}

/// Moving down and then up, or up and then down, comes back to the same
/// field; four moves down go round the whole popup.
pub proof fn lemma_field_cycle(f: RunArgsField)
    ensures
        field_at(field_index(field_at(field_index(f) + 1)) + 3) == f,
        field_at(field_index(field_at(field_index(f) + 3)) + 1) == f,
        field_at(field_index(f) + 4) == f,
        0 <= field_index(f) < 4,
        field_at(field_index(f)) == f,
{
}

/// The popup that edits the arguments of the next run.
pub struct RunArgsEditor {
    pub focus_field: RunArgsField,
    pub editing: bool,
    pub edit_buffer: String,
    /// The cursor in the buffer, counted in characters.
    pub cursor_position: usize,
    pub temp_output: String,
    pub temp_loops: u8,
    pub temp_delay: u64,
    pub temp_dry_run: bool,
}

impl RunArgsEditor {
    /// The cursor stands inside the buffer.
    pub open spec fn wf(&self) -> bool {
        self.cursor_position <= self.edit_buffer@.len()
    }
}

/// The number of loops that typed text sets: its value clamped to 1..=255
/// when it reads as a `u8`, else the old number.
pub open spec fn loops_after_edit(text: Seq<char>, old_loops: u8) -> u8 {
    match u8_parse_spec(text) {
        Some(v) => if v < 1 {
            1u8
        } else {
            v as u8
        },
        None => old_loops,
    }
}

/// The delay that typed text sets: its value clamped to 0..=3600 seconds
/// when it reads as a `u64`, else the old delay.
pub open spec fn delay_after_edit(text: Seq<char>, old_delay: u64) -> u64 {
    match u64_parse_spec(text) {
        Some(v) => if v > 3600 {
            3600u64
        } else {
            v as u64
        },
        None => old_delay,
    }
}

/// What starting to edit the focused field does.
#[derive(Debug, PartialEq, Eq, Structural, Clone, Copy)]
pub enum EditStart {
    /// The output directory is chosen in a directory picker.
    PickOutputDir,
    /// The field is edited in place, or the dry-run box was toggled.
    InPlace,
}

/// What starting to edit the focused field does to the popup.
pub open spec fn edit_current_effect(old: RunArgsEditor, new: RunArgsEditor) -> bool {
    &&& old.focus_field == RunArgsField::OutputDir ==> new == old
    &&& old.focus_field == RunArgsField::Loops ==> new == (RunArgsEditor {
        editing: true,
        edit_buffer: new.edit_buffer,
        cursor_position: new.cursor_position,
        ..old
    }) && new.edit_buffer@ == nat_to_dec(old.temp_loops as nat) && new.cursor_position
        == new.edit_buffer@.len()
    &&& old.focus_field == RunArgsField::Delay ==> new == (RunArgsEditor {
        editing: true,
        edit_buffer: new.edit_buffer,
        cursor_position: new.cursor_position,
        ..old
    }) && new.edit_buffer@ == nat_to_dec(old.temp_delay as nat) && new.cursor_position
        == new.edit_buffer@.len()
    &&& old.focus_field == RunArgsField::DryRun ==> new == (RunArgsEditor {
        temp_dry_run: !old.temp_dry_run,
        ..old
    })
}

/// What typing `c` does to the popup.
pub open spec fn input_effect(old: RunArgsEditor, new: RunArgsEditor, c: char) -> bool {
    &&& old.editing ==> new == (RunArgsEditor {
        edit_buffer: new.edit_buffer,
        cursor_position: (old.cursor_position + 1) as usize,
        ..old
    }) && new.edit_buffer@ == old.edit_buffer@.insert(old.cursor_position as int, c)
    &&& !old.editing ==> new == old
}

/// What a backspace does to the popup.
pub open spec fn backspace_effect(old: RunArgsEditor, new: RunArgsEditor) -> bool {
    &&& old.editing && old.cursor_position > 0 ==> new == (RunArgsEditor {
        edit_buffer: new.edit_buffer,
        cursor_position: (old.cursor_position - 1) as usize,
        ..old
    }) && new.edit_buffer@ == old.edit_buffer@.remove(old.cursor_position - 1)
    &&& !(old.editing && old.cursor_position > 0) ==> new == old
}

/// What a delete does to the popup.
pub open spec fn delete_effect(old: RunArgsEditor, new: RunArgsEditor) -> bool {
    &&& old.editing && old.cursor_position < old.edit_buffer@.len() ==> new == (RunArgsEditor {
        edit_buffer: new.edit_buffer,
        ..old
    }) && new.edit_buffer@ == old.edit_buffer@.remove(old.cursor_position as int)
    &&& !(old.editing && old.cursor_position < old.edit_buffer@.len()) ==> new == old
}

/// What ending an edit does to the popup.
pub open spec fn commit_effect(old: RunArgsEditor, new: RunArgsEditor) -> bool {
    &&& old.editing ==> new == (RunArgsEditor {
        editing: false,
        edit_buffer: new.edit_buffer,
        cursor_position: 0,
        temp_loops: if old.focus_field == RunArgsField::Loops {
            loops_after_edit(old.edit_buffer@, old.temp_loops)
        } else {
            old.temp_loops
        },
        temp_delay: if old.focus_field == RunArgsField::Delay {
            delay_after_edit(old.edit_buffer@, old.temp_delay)
        } else {
            old.temp_delay
        },
        ..old
    }) && new.edit_buffer@.len() == 0
    &&& !old.editing ==> new == old
}

/// What cancelling an edit does to the popup.
pub open spec fn cancel_effect(old: RunArgsEditor, new: RunArgsEditor) -> bool {
    &&& new == (RunArgsEditor {
        editing: false,
        edit_buffer: new.edit_buffer,
        cursor_position: 0,
        ..old
    })
    &&& new.edit_buffer@.len() == 0
}

impl RunArgsEditor {
    /// A popup showing the given arguments, the output directory focused.
    pub fn new(output: String, loops: u8, delay: u64, dry_run: bool) -> (r: RunArgsEditor)
        ensures
            r.wf(),
            r == (RunArgsEditor {
                focus_field: RunArgsField::OutputDir,
                editing: false,
                edit_buffer: r.edit_buffer,
                cursor_position: 0,
                temp_output: output,
                temp_loops: loops,
                temp_delay: delay,
                temp_dry_run: dry_run,
            }),
            r.edit_buffer@.len() == 0,
    {
        RunArgsEditor {
            focus_field: RunArgsField::OutputDir,
            editing: false,
            edit_buffer: String::new(),
            cursor_position: 0,
            temp_output: output,
            temp_loops: loops,
            temp_delay: delay,
            temp_dry_run: dry_run,
        }
    }

    /// Starts editing the focused field: the loops or the delay are put in
    /// the buffer as decimal text with the cursor at its end, the dry-run box
    /// is toggled, and the output directory is left to a picker.
    pub fn edit_current(&mut self) -> (r: EditStart)
        requires
            old(self).wf(),
        ensures
            final(self).wf(),
            r == (if old(self).focus_field == RunArgsField::OutputDir {
                EditStart::PickOutputDir
            } else {
                EditStart::InPlace
            }),
            edit_current_effect(*old(self), *final(self)),
    {
        match self.focus_field {
            RunArgsField::OutputDir => EditStart::PickOutputDir,
            RunArgsField::Loops => {
                let text = u64_to_string(self.temp_loops as u64);
                let n = text.as_str().unicode_len();
                self.editing = true;
                self.edit_buffer = text;
                self.cursor_position = n;
                EditStart::InPlace
            },
            RunArgsField::Delay => {
                let text = u64_to_string(self.temp_delay);
                let n = text.as_str().unicode_len();
                self.editing = true;
                self.edit_buffer = text;
                self.cursor_position = n;
                EditStart::InPlace
            },
            RunArgsField::DryRun => {
                self.temp_dry_run = !self.temp_dry_run;
                EditStart::InPlace
            },
        }
    }

    /// Types `c` at the cursor while a field is edited.
    pub fn edit_input(&mut self, c: char)
        requires
            old(self).wf(),
        ensures
            final(self).wf(),
            input_effect(*old(self), *final(self), c),
    {
        if self.editing {
            let b = insert_char_at(self.edit_buffer.as_str(), self.cursor_position, c);
            let n = b.as_str().unicode_len();
            self.edit_buffer = b;
            assert(self.cursor_position < n);
            self.cursor_position = self.cursor_position + 1;
        }
    }

    /// Deletes the character before the cursor while a field is edited.
    pub fn edit_backspace(&mut self)
        requires
            old(self).wf(),
        ensures
            final(self).wf(),
            backspace_effect(*old(self), *final(self)),
    {
        if self.editing && self.cursor_position > 0 {
            self.edit_buffer = remove_char_at(self.edit_buffer.as_str(), self.cursor_position - 1);
            self.cursor_position = self.cursor_position - 1;
        }
    }

    /// Deletes the character under the cursor while a field is edited.
    pub fn edit_delete(&mut self)
        requires
            old(self).wf(),
        ensures
            final(self).wf(),
            delete_effect(*old(self), *final(self)),
    {
        if self.editing && self.cursor_position < self.edit_buffer.as_str().unicode_len() {
            self.edit_buffer = remove_char_at(self.edit_buffer.as_str(), self.cursor_position);
        }
    }

    /// Ends editing a field: the loops or the delay take the typed value,
    /// clamped, when it reads as a number; the buffer is emptied.
    pub fn commit_edit(&mut self)
        requires
            old(self).wf(),
        ensures
            final(self).wf(),
            commit_effect(*old(self), *final(self)),
    {
        if self.editing {
            match self.focus_field {
                RunArgsField::Loops => {
                    match parse_u8(self.edit_buffer.as_str()) {
                        Some(v) => {
                            self.temp_loops = if v < 1 {
                                1
                            } else {
                                v
                            };
                        },
                        None => {},
                    }
                },
                RunArgsField::Delay => {
                    match parse_u64(self.edit_buffer.as_str()) {
                        Some(v) => {
                            self.temp_delay = if v > 3600 {
                                3600
                            } else {
                                v
                            };
                        },
                        None => {},
                    }
                },
                _ => {},
            }
            self.editing = false;
            self.edit_buffer = String::new();
            self.cursor_position = 0;
        }
    }

    /// Stops editing a field without changing it.
    pub fn cancel_edit(&mut self)
        requires
            old(self).wf(),
        ensures
            final(self).wf(),
            cancel_effect(*old(self), *final(self)),
    {
        self.editing = false;
        self.edit_buffer = String::new();
        self.cursor_position = 0;
    }
}

/// The arguments of a session run.
pub struct RunArgs {
    /// The script that the run executes.
    pub path: String,
    /// The configuration: a file path for a local run, JSON for a server.
    pub config: Option<String>,
    pub output: String,
    pub dry_run: bool,
    pub email: Option<String>,
    pub delay: u64,
    pub loops: u8,
    pub interactive: bool,
    pub port: Option<String>,
    pub meta_json: Option<String>,
}

} // verus!
