//! The settings columns of conversations and presets that are not floating
//! point, decoded from a stored row.

use vstd::prelude::*;
use crate::db::{as_i64, as_text, col, spec_as_i64, spec_as_text, spec_col, SqlValue};
use crate::message::{opt_view, spec_string_list_of, string_list_of};
use crate::text::strings_view;

verus! {

/// The stored settings that are not floating point (the temperature,
/// top-p, penalties and compaction threshold are read by the caller).
#[derive(Debug)]
pub struct StoredSettings {
    pub model: Option<String>,
    pub system_prompt: Option<String>,
    pub max_tokens: Option<i64>,
    pub use_max_tokens: bool,
    pub stop_sequences: Vec<String>,
    pub endpoint: Option<String>,
    pub working_dir: Option<String>,
    pub auto_compact: Option<bool>,
    pub compact_keep_recent: Option<i64>,
}

pub struct StoredSettingsView {
    pub model: Option<Seq<char>>,
    pub system_prompt: Option<Seq<char>>,
    pub max_tokens: Option<i64>,
    pub use_max_tokens: bool,
    pub stop_sequences: Seq<Seq<char>>,
    pub endpoint: Option<Seq<char>>,
    pub working_dir: Option<Seq<char>>,
    pub auto_compact: Option<bool>,
    pub compact_keep_recent: Option<i64>,
}

impl View for StoredSettings {
    type V = StoredSettingsView;

    open spec fn view(&self) -> StoredSettingsView {
        StoredSettingsView {
            model: opt_view(self.model),
            system_prompt: opt_view(self.system_prompt),
            max_tokens: self.max_tokens,
            use_max_tokens: self.use_max_tokens,
            stop_sequences: strings_view(self.stop_sequences@),
            endpoint: opt_view(self.endpoint),
            working_dir: opt_view(self.working_dir),
            auto_compact: self.auto_compact,
            compact_keep_recent: self.compact_keep_recent,
        }
    }
}

/// A flag column: set where it reads as a non-zero integer.
pub open spec fn spec_flag(v: SqlValue) -> bool {
    match spec_as_i64(v) {
        Some(i) => i != 0,
        None => false,
    }
}

/// An optional flag column: unknown unless it reads as an integer.
pub open spec fn spec_opt_flag(v: SqlValue) -> Option<bool> {
    match spec_as_i64(v) {
        Some(i) => Some(i != 0),
        None => None,
    }
}

/// The settings of a row laid out as `model, system_prompt, temperature,
/// max_tokens, use_max_tokens, top_p, frequency_penalty, presence_penalty,
/// stop_sequences, endpoint, working_dir, auto_compact,
/// compact_threshold_pct, compact_keep_recent` (a conversation's).
pub open spec fn spec_conversation_settings(row: Seq<SqlValue>) -> StoredSettingsView {
    StoredSettingsView {
        model: spec_as_text(spec_col(row, 0)),
        system_prompt: spec_as_text(spec_col(row, 1)),
        max_tokens: spec_as_i64(spec_col(row, 3)),
        use_max_tokens: spec_flag(spec_col(row, 4)),
        stop_sequences: spec_string_list_of(spec_as_text(spec_col(row, 8))),
        endpoint: spec_as_text(spec_col(row, 9)),
        working_dir: spec_as_text(spec_col(row, 10)),
        auto_compact: spec_opt_flag(spec_col(row, 11)),
        compact_keep_recent: spec_as_i64(spec_col(row, 13)),
    }
}

/// The settings of a row laid out as `id, name, model, system_prompt,
/// temperature, max_tokens, use_max_tokens, top_p, frequency_penalty,
/// presence_penalty, stop_sequences, endpoint` (a preset's); a preset has
/// no working directory or compaction settings.
pub open spec fn spec_preset_settings(row: Seq<SqlValue>) -> StoredSettingsView {
    StoredSettingsView {
        model: spec_as_text(spec_col(row, 2)),
        system_prompt: spec_as_text(spec_col(row, 3)),
        max_tokens: spec_as_i64(spec_col(row, 5)),
        use_max_tokens: spec_flag(spec_col(row, 6)),
        stop_sequences: spec_string_list_of(spec_as_text(spec_col(row, 10))),
        endpoint: spec_as_text(spec_col(row, 11)),
        working_dir: None,
        auto_compact: None,
        compact_keep_recent: None,
    }
}

fn flag(v: &SqlValue) -> (r: bool)
    ensures
        r == spec_flag(*v),
{
    match as_i64(v) {
        Some(i) => i != 0,
        None => false,
    }
}

fn opt_flag(v: &SqlValue) -> (r: Option<bool>)
    ensures
        r == spec_opt_flag(*v),
{
    match as_i64(v) {
        Some(i) => Some(i != 0),
        None => None,
    }
}

fn text_col(row: &Vec<SqlValue>, i: usize) -> (r: Option<String>)
    ensures
        opt_view(r) == spec_as_text(spec_col(row@, i as int)),
{
    as_text(&col(row, i))
}

fn list_col(row: &Vec<SqlValue>, i: usize) -> (r: Vec<String>)
    ensures
        strings_view(r@) == spec_string_list_of(spec_as_text(spec_col(row@, i as int))),
{
    string_list_of(&text_col(row, i))
}

pub fn conversation_settings(row: &Vec<SqlValue>) -> (r: StoredSettings)
    ensures
        r@ == spec_conversation_settings(row@),
{
    StoredSettings {
        model: text_col(row, 0),
        system_prompt: text_col(row, 1),
        max_tokens: as_i64(&col(row, 3)),
        use_max_tokens: flag(&col(row, 4)),
        stop_sequences: list_col(row, 8),
        endpoint: text_col(row, 9),
        working_dir: text_col(row, 10),
        auto_compact: opt_flag(&col(row, 11)),
        compact_keep_recent: as_i64(&col(row, 13)),
    }
}

pub fn preset_settings(row: &Vec<SqlValue>) -> (r: StoredSettings)
    ensures
        r@ == spec_preset_settings(row@),
{
    StoredSettings {
        model: text_col(row, 2),
        system_prompt: text_col(row, 3),
        max_tokens: as_i64(&col(row, 5)),
        use_max_tokens: flag(&col(row, 6)),
        stop_sequences: list_col(row, 10),
        endpoint: text_col(row, 11),
        working_dir: None,
        auto_compact: None,
        compact_keep_recent: None,
    }
}

} // verus!
