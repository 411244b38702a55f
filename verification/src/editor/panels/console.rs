//! Log categories and the console's level filter.
use vstd::prelude::*;

use std::collections::VecDeque;

use crate::text::{contains_seq, contains_str, lowercase, starts_with, to_lowercase};

verus! {

/// Severity of a log record, most severe first.
#[derive(Clone, Copy, Debug, PartialEq, Eq, Hash, Structural)]
pub enum LogLevel {
    Error,
    Warn,
    Info,
    Debug,
    Trace,
}

/// Log categories for filtering.
#[derive(Clone, Copy, Debug, PartialEq, Eq, Hash, Structural)]
pub enum LogCategory {
    Engine,
    Editor,
    Render,
    Audio,
    Script,
    User,
    Other,
}

/// The category of a log target, by the first matching prefix.
pub open spec fn category_of(target: Seq<char>) -> LogCategory {
    if "xtreme::editor"@.is_prefix_of(target) {
        LogCategory::Editor
    } else if "xtreme::render"@.is_prefix_of(target) || "wgpu"@.is_prefix_of(target) {
        LogCategory::Render
    } else if "xtreme::audio"@.is_prefix_of(target) || "rodio"@.is_prefix_of(target) {
        LogCategory::Audio
    } else if "xtreme::scripting"@.is_prefix_of(target) {
        LogCategory::Script
    } else if "xtreme"@.is_prefix_of(target) {
        LogCategory::Engine
    } else {
        LogCategory::Other
    }
}

/// The display name of a category.
pub open spec fn category_label(c: LogCategory) -> Seq<char> {
    match c {
        LogCategory::Engine => "Engine"@,
        LogCategory::Editor => "Editor"@,
        LogCategory::Render => "Render"@,
        LogCategory::Audio => "Audio"@,
        LogCategory::Script => "Script"@,
        LogCategory::User => "User"@,
        LogCategory::Other => "Other"@,
    }
}

impl LogCategory {
    /// Derive the category from a log target.
    pub fn from_target(target: &str) -> (r: Self)
        ensures
            r == category_of(target@),
    {
        if starts_with(target, "xtreme::editor") {
            LogCategory::Editor
        } else if starts_with(target, "xtreme::render") || starts_with(target, "wgpu") {
            LogCategory::Render
        } else if starts_with(target, "xtreme::audio") || starts_with(target, "rodio") {
            LogCategory::Audio
        } else if starts_with(target, "xtreme::scripting") {
            LogCategory::Script
        } else if starts_with(target, "xtreme") {
            LogCategory::Engine
        } else {
            LogCategory::Other
        }
    }

    /// The category's display name.
    pub fn name(&self) -> (r: &'static str)
        ensures
            r@ == category_label(*self),
    {
        match self {
            LogCategory::Engine => "Engine",
            LogCategory::Editor => "Editor",
            LogCategory::Render => "Render",
            LogCategory::Audio => "Audio",
            LogCategory::Script => "Script",
            LogCategory::User => "User",
            LogCategory::Other => "Other",
        }
    }

    /// All categories, in display order.
    pub fn all() -> (r: Vec<LogCategory>)
        ensures
            r@ == seq![
                LogCategory::Engine,
                LogCategory::Editor,
                LogCategory::Render,
                LogCategory::Audio,
                LogCategory::Script,
                LogCategory::User,
                LogCategory::Other,
            ],
    {
        let r = vec![
            LogCategory::Engine,
            LogCategory::Editor,
            LogCategory::Render,
            LogCategory::Audio,
            LogCategory::Script,
            LogCategory::User,
            LogCategory::Other,
        ];
        assert(r@ =~= seq![
            LogCategory::Engine,
            LogCategory::Editor,
            LogCategory::Render,
            LogCategory::Audio,
            LogCategory::Script,
            LogCategory::User,
            LogCategory::Other,
        ]);
        r
    }
}

/// Every category is listed by `all`, and every target falls into one that
/// is not `User` (that category is only given explicitly).
pub proof fn lemma_categories(target: Seq<char>)
    ensures
        category_of(target) != LogCategory::User,
{
}

/// Each family of log targets lands in its own category: targets under
/// `xtreme::editor` are Editor, under `xtreme::render` or `wgpu` Render,
/// under `xtreme::audio` or `rodio` Audio, under `xtreme::scripting`
/// Script, other `xtreme` targets Engine, and targets of other crates Other.
pub proof fn lemma_category_by_target_prefix(t: Seq<char>)
    ensures
        "xtreme::editor"@.is_prefix_of(t) ==> category_of(t) == LogCategory::Editor,
        "xtreme::render"@.is_prefix_of(t) ==> category_of(t) == LogCategory::Render,
        "wgpu"@.is_prefix_of(t) ==> category_of(t) == LogCategory::Render,
        "xtreme::audio"@.is_prefix_of(t) ==> category_of(t) == LogCategory::Audio,
        "rodio"@.is_prefix_of(t) ==> category_of(t) == LogCategory::Audio,
        "xtreme::scripting"@.is_prefix_of(t) ==> category_of(t) == LogCategory::Script,
        "xtreme"@.is_prefix_of(t) && !"xtreme::"@.is_prefix_of(t) ==> category_of(t)
            == LogCategory::Engine,
        t.len() == 0 || (t[0] != 'x' && t[0] != 'w' && t[0] != 'r') ==> category_of(t)
            == LogCategory::Other,
{
    reveal_strlit("xtreme::editor");
    reveal_strlit("xtreme::render");
    reveal_strlit("wgpu");
    reveal_strlit("xtreme::audio");
    reveal_strlit("rodio");
    reveal_strlit("xtreme::scripting");
    reveal_strlit("xtreme");
    reveal_strlit("xtreme::");
    let ed = "xtreme::editor"@;
    let re = "xtreme::render"@;
    let wg = "wgpu"@;
    let au = "xtreme::audio"@;
    let ro = "rodio"@;
    let sc = "xtreme::scripting"@;
    let xt = "xtreme"@;
    let xc = "xtreme::"@;
    if ed.is_prefix_of(t) {
        lemma_prefix_char(ed, t, 0);
        lemma_prefix_char(ed, t, 8);
    }
    if re.is_prefix_of(t) {
        lemma_prefix_char(re, t, 0);
        lemma_prefix_char(re, t, 8);
    }
    if wg.is_prefix_of(t) {
        lemma_prefix_char(wg, t, 0);
    }
    if au.is_prefix_of(t) {
        lemma_prefix_char(au, t, 0);
        lemma_prefix_char(au, t, 8);
    }
    if ro.is_prefix_of(t) {
        lemma_prefix_char(ro, t, 0);
    }
    if sc.is_prefix_of(t) {
        lemma_prefix_char(sc, t, 0);
        lemma_prefix_char(sc, t, 8);
    }
    if xt.is_prefix_of(t) {
        lemma_prefix_char(xt, t, 0);
    }
    if xt.is_prefix_of(t) && !xc.is_prefix_of(t) {
        if ed.is_prefix_of(t) || re.is_prefix_of(t) || au.is_prefix_of(t) || sc.is_prefix_of(t) {
            let p = if ed.is_prefix_of(t) {
                ed
            } else if re.is_prefix_of(t) {
                re
            } else if au.is_prefix_of(t) {
                au
            } else {
                sc
            };
            assert forall|k: int| 0 <= k < 8 implies t[k] == xc[k] by {
                lemma_prefix_char(p, t, k);
            }
            assert(t.subrange(0, 8) =~= xc);
        }
    }
}

/// A sequence that begins with `p` holds `p`'s characters at their places.
proof fn lemma_prefix_char(p: Seq<char>, t: Seq<char>, k: int)
    requires
        p.is_prefix_of(t),
        0 <= k < p.len(),
    ensures
        t[k] == p[k],
{
    assert(t.subrange(0, p.len() as int)[k] == t[k]);
}

/// Console panel settings.
#[derive(Clone, Debug)]
pub struct ConsoleSettings {
    /// Show debug (and trace) records.
    pub show_debug: bool,
    /// Show info records.
    pub show_info: bool,
    /// Show warnings.
    pub show_warn: bool,
    /// Show errors.
    pub show_error: bool,
    /// Scroll to the bottom on new records.
    pub auto_scroll: bool,
    /// Show timestamps.
    pub show_timestamps: bool,
    /// Maximum records to keep.
    pub max_entries: usize,
}

/// Whether the settings show records of a level.
pub open spec fn shows_level(s: ConsoleSettings, level: LogLevel) -> bool {
    match level {
        LogLevel::Error => s.show_error,
        LogLevel::Warn => s.show_warn,
        LogLevel::Info => s.show_info,
        LogLevel::Debug | LogLevel::Trace => s.show_debug,
    }
}

impl Default for ConsoleSettings {
    fn default() -> (r: Self)
        ensures
            !r.show_debug,
            r.show_info,
            r.show_warn,
            r.show_error,
            r.auto_scroll,
            r.show_timestamps,
            r.max_entries == 1000,
    {
        Self {
            show_debug: false,
            show_info: true,
            show_warn: true,
            show_error: true,
            auto_scroll: true,
            show_timestamps: true,
            max_entries: 1000,
        }
    }
}

impl ConsoleSettings {
    /// Whether records of a level are shown.
    pub fn show_level(&self, level: LogLevel) -> (b: bool)
        ensures
            b == shows_level(*self, level),
    {
        match level {
            LogLevel::Error => self.show_error,
            LogLevel::Warn => self.show_warn,
            LogLevel::Info => self.show_info,
            LogLevel::Debug | LogLevel::Trace => self.show_debug,
        }
    }
}

/// Actions returned by the console panel.
#[derive(Clone, Debug, PartialEq)]
pub enum ConsoleAction {
    /// No action.
    NoAction,
    /// Copy the shown records to the clipboard.
    CopyToClipboard(String),
}


/// One captured log record.
#[derive(Clone, Debug)]
pub struct LogEntry {
    /// Severity.
    pub level: LogLevel,
    /// Message text.
    pub message: String,
    /// Module or target that emitted the record.
    pub target: String,
    /// Category for filtering.
    pub category: LogCategory,
    /// Milliseconds since log capture began.
    pub timestamp_ms: u64,
}

/// The abstract record.
pub struct LogEntryView {
    pub level: LogLevel,
    pub message: Seq<char>,
    pub target: Seq<char>,
    pub category: LogCategory,
    pub timestamp_ms: u64,
}

impl LogEntry {
    /// A copy of this record.
    pub fn duplicate(&self) -> (r: Self)
        ensures
            r@ == self@,
    {
        LogEntry {
            level: self.level,
            message: self.message.clone(),
            target: self.target.clone(),
            category: self.category,
            timestamp_ms: self.timestamp_ms,
        }
    }
}

impl View for LogEntry {
    type V = LogEntryView;

    open spec fn view(&self) -> LogEntryView {
        LogEntryView {
            level: self.level,
            message: self.message@,
            target: self.target@,
            category: self.category,
            timestamp_ms: self.timestamp_ms,
        }
    }
}

/// The text that the search filter looks in: target, a space, and message.
pub open spec fn searchable_text(e: LogEntryView) -> Seq<char> {
    e.target + " "@ + e.message
}

/// Whether a record passes the search filter: an empty filter passes every
/// record, another one those whose text holds it, letter case ignored.
pub open spec fn passes_filter(filter: Seq<char>, e: LogEntryView) -> bool {
    lowercase(filter).len() == 0 || contains_seq(lowercase(searchable_text(e)), lowercase(filter))
}

/// Whether the console shows a record: its level is shown and it passes
/// the search filter.
pub open spec fn entry_shown(s: ConsoleSettings, filter: Seq<char>, e: LogEntryView) -> bool {
    shows_level(s, e.level) && passes_filter(filter, e)
}

/// The counter a level is tallied in: errors, warnings, infos, or debug
/// (debug and trace records share one).
pub open spec fn level_counter(level: LogLevel) -> int {
    match level {
        LogLevel::Error => 0,
        LogLevel::Warn => 1,
        LogLevel::Info => 2,
        LogLevel::Debug | LogLevel::Trace => 3,
    }
}

/// The console's abstract state.
pub struct ConsoleView {
    /// Kept records, oldest first.
    pub entries: Seq<LogEntryView>,
    /// Search filter.
    pub filter: Seq<char>,
    /// Settings.
    pub settings: ConsoleSettings,
    /// Records tallied per counter since the last clear.
    pub errors: nat,
    pub warnings: nat,
    pub infos: nat,
    pub debugs: nat,
    /// Whether the panel is visible.
    pub visible: bool,
}

/// The tally of a counter.
pub open spec fn counter(v: ConsoleView, k: int) -> nat {
    if k == 0 {
        v.errors
    } else if k == 1 {
        v.warnings
    } else if k == 2 {
        v.infos
    } else {
        v.debugs
    }
}

/// How many of the records go to counter `k`.
pub open spec fn counted_in(es: Seq<LogEntryView>, k: int) -> nat
    decreases es.len(),
{
    if es.len() == 0 {
        0
    } else {
        (if level_counter(es[0].level) == k { 1nat } else { 0nat }) + counted_in(es.drop_first(), k)
    }
}

/// The console after one more record: its counter goes up, and when as many
/// records as the settings allow are kept, the oldest one goes first.
pub open spec fn with_record(v: ConsoleView, e: LogEntryView) -> ConsoleView {
    let k = level_counter(e.level);
    let kept = if v.entries.len() >= v.settings.max_entries && v.entries.len() > 0 {
        v.entries.drop_first()
    } else {
        v.entries
    };
    ConsoleView {
        entries: kept.push(e),
        errors: if k == 0 { v.errors + 1 } else { v.errors },
        warnings: if k == 1 { v.warnings + 1 } else { v.warnings },
        infos: if k == 2 { v.infos + 1 } else { v.infos },
        debugs: if k == 3 { v.debugs + 1 } else { v.debugs },
        ..v
    }
}

/// The console after records, taken in order.
pub open spec fn with_records(v: ConsoleView, es: Seq<LogEntryView>) -> ConsoleView
    decreases es.len(),
{
    if es.len() == 0 {
        v
    } else {
        with_record(with_records(v, es.drop_last()), es.last())
    }
}

/// How many records the console keeps at most: the settings' maximum, but
/// never fewer than the newest record.
pub open spec fn kept_at_most(max_entries: usize) -> nat {
    if max_entries == 0 {
        1
    } else {
        max_entries as nat
    }
}

/// Counting the records of a sequence and then one more.
proof fn lemma_counted_in_push(es: Seq<LogEntryView>, e: LogEntryView, k: int)
    ensures
        counted_in(es.push(e), k) == counted_in(es, k) + (if level_counter(e.level) == k {
            1nat
        } else {
            0nat
        }),
    decreases es.len(),
{
    let s = es.push(e);
    if es.len() > 0 {
        assert(s[0] == es[0]);
        assert(s.drop_first() =~= es.drop_first().push(e));
        lemma_counted_in_push(es.drop_first(), e, k);
        assert(counted_in(s, k) == (if level_counter(s[0].level) == k {
            1nat
        } else {
            0nat
        }) + counted_in(s.drop_first(), k));
    } else {
        assert(s.drop_first() =~= Seq::<LogEntryView>::empty());
        assert(s[0] == e);
        assert(counted_in(s.drop_first(), k) == 0);
    }
}

/// Taking in records raises each level's tally by the number of records of
/// that level taken in: the tallies count every record since the last
/// clear, including those that no longer fit in the buffer.
pub proof fn lemma_tallies_count_records(v: ConsoleView, es: Seq<LogEntryView>, k: int)
    requires
        0 <= k < 4,
    ensures
        counter(with_records(v, es), k) == counter(v, k) + counted_in(es, k),
    decreases es.len(),
{
    if es.len() > 0 {
        lemma_tallies_count_records(v, es.drop_last(), k);
        lemma_counted_in_push(es.drop_last(), es.last(), k);
        assert(es.drop_last().push(es.last()) =~= es);
    }
}

/// The buffer is bounded: once no more records are kept than the settings
/// allow, taking in records keeps it so, and the newest record taken in is
/// the last one kept.
pub proof fn lemma_buffer_stays_bounded(v: ConsoleView, es: Seq<LogEntryView>)
    requires
        v.entries.len() <= kept_at_most(v.settings.max_entries),
    ensures
        with_records(v, es).entries.len() <= kept_at_most(v.settings.max_entries),
        with_records(v, es).settings == v.settings,
        es.len() > 0 ==> with_records(v, es).entries.last() == es.last(),
    decreases es.len(),
{
    if es.len() > 0 {
        lemma_buffer_stays_bounded(v, es.drop_last());
    }
}

/// The positions of the shown records, in order.
pub open spec fn shown_positions(v: ConsoleView) -> Seq<int> {
    Seq::new(v.entries.len(), |i: int| i).filter(
        |i: int| entry_shown(v.settings, v.filter, v.entries[i]),
    )
}

/// The console: kept log records, their tallies, the search filter and the
/// settings.
pub struct ConsolePanel {
    /// Kept records, oldest first.
    buffer: VecDeque<LogEntry>,
    /// Search filter.
    filter: String,
    /// Settings.
    settings: ConsoleSettings,
    /// Tallies per level.
    error_count: usize,
    warn_count: usize,
    info_count: usize,
    debug_count: usize,
    /// Whether the panel is visible.
    pub visible: bool,
}

impl View for ConsolePanel {
    type V = ConsoleView;

    closed spec fn view(&self) -> ConsoleView {
        ConsoleView {
            entries: self.buffer@.map_values(|e: LogEntry| e@),
            filter: self.filter@,
            settings: self.settings,
            errors: self.error_count as nat,
            warnings: self.warn_count as nat,
            infos: self.info_count as nat,
            debugs: self.debug_count as nat,
            visible: self.visible,
        }
    }
}

impl ConsolePanel {
    /// An empty, visible console with the default settings.
    pub fn new() -> (r: Self)
        ensures
            r@.entries.len() == 0,
            r@.filter.len() == 0,
            r@.settings == (ConsoleSettings {
                show_debug: false,
                show_info: true,
                show_warn: true,
                show_error: true,
                auto_scroll: true,
                show_timestamps: true,
                max_entries: 1000,
            }),
            r@.errors == 0 && r@.warnings == 0 && r@.infos == 0 && r@.debugs == 0,
            r@.visible,
    {
        let r = Self {
            buffer: VecDeque::with_capacity(1000),
            filter: String::new(),
            settings: ConsoleSettings::default(),
            error_count: 0,
            warn_count: 0,
            info_count: 0,
            debug_count: 0,
            visible: true,
        };
        assert(r@.entries =~= Seq::<LogEntryView>::empty());
        r
    }

    /// Replace the settings.
    pub fn set_settings(&mut self, settings: ConsoleSettings)
        ensures
            final(self)@ == (ConsoleView { settings, ..old(self)@ }),
    {
        self.settings = settings;
    }

    /// The settings.
    pub fn settings(&self) -> (r: &ConsoleSettings)
        ensures
            *r == self@.settings,
    {
        &self.settings
    }

    /// Replace the search filter.
    pub fn set_filter(&mut self, filter: String)
        ensures
            final(self)@ == (ConsoleView { filter: filter@, ..old(self)@ }),
    {
        self.filter = filter;
    }

    /// The search filter.
    pub fn filter(&self) -> (r: &str)
        ensures
            r@ == self@.filter,
    {
        self.filter.as_str()
    }

    /// The tally of a level's counter (debug and trace share one).
    pub fn count(&self, level: LogLevel) -> (r: usize)
        ensures
            r == counter(self@, level_counter(level)),
    {
        match level {
            LogLevel::Error => self.error_count,
            LogLevel::Warn => self.warn_count,
            LogLevel::Info => self.info_count,
            LogLevel::Debug | LogLevel::Trace => self.debug_count,
        }
    }

    /// The kept records, oldest first.
    pub fn entries(&self) -> (r: &VecDeque<LogEntry>)
        ensures
            r@.map_values(|e: LogEntry| e@) == self@.entries,
    {
        &self.buffer
    }

    fn record(&mut self, entry: LogEntry)
        requires
            counter(old(self)@, level_counter(entry.level)) < usize::MAX,
        ensures
            final(self)@ == with_record(old(self)@, entry@),
    {
        let ghost before = self@;
        match entry.level {
            LogLevel::Error => self.error_count = self.error_count + 1,
            LogLevel::Warn => self.warn_count = self.warn_count + 1,
            LogLevel::Info => self.info_count = self.info_count + 1,
            LogLevel::Debug | LogLevel::Trace => self.debug_count = self.debug_count + 1,
        }
        let ghost old_buf = self.buffer@;
        if self.buffer.len() >= self.settings.max_entries {
            let _ = self.buffer.pop_front();
        }
        let ghost mid_buf = self.buffer@;
        self.buffer.push_back(entry);
        proof {
            if old_buf.len() >= self.settings.max_entries && old_buf.len() > 0 {
                assert(mid_buf =~= old_buf.drop_first());
                assert(mid_buf.map_values(|e: LogEntry| e@) =~= before.entries.drop_first());
            } else {
                assert(mid_buf =~= old_buf);
            }
            assert(self.buffer@ =~= mid_buf.push(entry));
            assert(self@.entries =~= mid_buf.map_values(|e: LogEntry| e@).push(entry@));
        }
    }

    /// Take in records that were captured, in order: each is tallied by
    /// level, and is kept, the oldest record making way when as many as the
    /// settings allow are kept already.
    pub fn poll(&mut self, entries: Vec<LogEntry>)
        requires
            forall|k: int|
                0 <= k < 4 ==> #[trigger] counter(old(self)@, k) + counted_in(
                    entries@.map_values(|e: LogEntry| e@),
                    k,
                ) <= usize::MAX,
        ensures
            final(self)@ == with_records(old(self)@, entries@.map_values(|e: LogEntry| e@)),
    {
        let ghost es = entries@.map_values(|e: LogEntry| e@);
        let ghost start = self@;
        let mut i: usize = 0;
        assert(es.skip(0) =~= es);
        while i < entries.len()
            invariant
                i <= entries@.len(),
                es == entries@.map_values(|e: LogEntry| e@),
                self@ == with_records(start, es.take(i as int)),
                forall|k: int|
                    0 <= k < 4 ==> #[trigger] counter(self@, k) + counted_in(es.skip(i as int), k)
                        <= usize::MAX,
            decreases entries@.len() - i,
        {
            let entry = entries[i].duplicate();
            proof {
                let rest = es.skip(i as int);
                assert(rest[0] == es[i as int]);
                assert(rest.drop_first() =~= es.skip(i + 1));
                assert(counter(self@, level_counter(entry@.level)) + counted_in(rest, level_counter(entry@.level)) <= usize::MAX);
                assert(es.take(i + 1).drop_last() =~= es.take(i as int));
                assert(es.take(i + 1).last() == es[i as int]);
            }
            let ghost prev = self@;
            self.record(entry);
            proof {
                let rest = es.skip(i as int);
                assert forall|k: int|
                    0 <= k < 4 implies #[trigger] counter(self@, k) + counted_in(
                        es.skip(i + 1),
                        k,
                    ) <= usize::MAX by {
                    assert(counted_in(rest, k) == (if level_counter(rest[0].level) == k {
                        1nat
                    } else {
                        0nat
                    }) + counted_in(rest.drop_first(), k));
                    assert(counter(prev, k) + counted_in(rest, k) <= usize::MAX);
                }
            }
            i = i + 1;
        }
        assert(es.take(i as int) =~= es);
    }

    /// The positions in `entries` of the records that are shown, oldest
    /// first: those of a shown level whose target and message, joined by a
    /// space, hold the search filter, letter case ignored.
    pub fn visible_entries(&self) -> (r: Vec<usize>)
        ensures
            r@.map_values(|i: usize| i as int) == shown_positions(self@),
    {
        let lower_filter = to_lowercase(self.filter.as_str());
        let no_filter = lower_filter.as_str().unicode_len() == 0;
        let ghost v = self@;
        let ghost idx = Seq::new(v.entries.len(), |i: int| i);
        let ghost pred = |i: int| entry_shown(v.settings, v.filter, v.entries[i]);
        let mut r: Vec<usize> = Vec::new();
        let mut i: usize = 0;
        while i < self.buffer.len()
            invariant
                v == self@,
                idx == Seq::new(v.entries.len(), |i: int| i),
                pred == (|i: int| entry_shown(v.settings, v.filter, v.entries[i])),
                lower_filter@ == lowercase(v.filter),
                no_filter == (lowercase(v.filter).len() == 0),
                i <= self.buffer@.len(),
                r@.map_values(|j: usize| j as int) == idx.take(i as int).filter(pred),
            decreases self.buffer@.len() - i,
        {
            let e = &self.buffer[i];
            let mut shown = self.settings.show_level(e.level);
            if shown && !no_filter {
                let mut text = e.target.clone();
                text.append(" ");
                text.append(e.message.as_str());
                let lower = to_lowercase(text.as_str());
                shown = contains_str(lower.as_str(), lower_filter.as_str());
                assert(text@ == searchable_text(e@));
            }
            proof {
                assert(v.entries[i as int] == e@);
                assert(pred(i as int) == shown);
                assert(idx.take(i + 1) =~= idx.take(i as int).push(i as int));
                idx.take(i as int).lemma_filter_push(i as int, pred);
            }
            let ghost before = r@;
            if shown {
                r.push(i);
                assert(r@.map_values(|j: usize| j as int) =~= before.map_values(
                    |j: usize| j as int,
                ).push(i as int));
            }
            i = i + 1;
        }
        assert(idx.take(i as int) =~= idx);
        r
    }

    /// Drop every record and reset the tallies.
    pub fn clear(&mut self)
        ensures
            final(self)@ == (ConsoleView {
                entries: Seq::empty(),
                errors: 0,
                warnings: 0,
                infos: 0,
                debugs: 0,
                ..old(self)@
            }),
    {
        self.buffer.clear();
        self.error_count = 0;
        self.warn_count = 0;
        self.info_count = 0;
        self.debug_count = 0;
        assert(self@.entries =~= Seq::<LogEntryView>::empty());
    }
}

impl Default for ConsolePanel {
    fn default() -> (r: Self)
        ensures
            r@.entries.len() == 0,
            r@.visible,
    {
        Self::new()
    }
}

} // verus!
