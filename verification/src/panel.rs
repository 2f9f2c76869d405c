use vstd::prelude::*;
use crate::coord::Coord;
use crate::settings::{clamp_button_scale, clamp_scale_spec, Settings};

verus! {

/// What the header strip reported in one frame.
#[derive(Clone, Copy, Debug, PartialEq, Eq, Structural)]
pub struct HeaderInput {
    /// The collapsed strip was clicked.
    pub strip_clicked: bool,
    /// The expanded panel is still open after drawing it.
    pub panel_open: bool,
    /// The information button was clicked.
    pub information_clicked: bool,
    /// The settings button was clicked.
    pub settings_clicked: bool,
    /// The collapse button was clicked.
    pub collapse_clicked: bool,
}

/// A change that the settings window makes to the settings.
#[derive(Clone, Copy, Debug, PartialEq, Eq, Structural)]
pub enum SettingsEdit {
    /// The "reset offsets" box was set to this value.
    ResetOffset(bool),
    /// The button size slider was moved to this value, in percent.
    ButtonScale(u32),
}

/// What the window did in one step of its frame.
#[derive(Clone, Copy, Debug, PartialEq, Eq, Structural)]
pub enum PanelEvent {
    /// The header was drawn with this outcome.
    Header(HeaderInput),
    /// The settings window was drawn (once per frame while it is shown).
    SettingsShown,
    /// A setting was changed in the settings window.
    Edit(SettingsEdit),
    /// "Cancel" was clicked in the settings window.
    Cancel,
    /// "Save" was clicked in the settings window.
    Save,
    /// "Close" was clicked in the information window.
    CloseInformation,
    /// A position button was clicked.
    SelectCoord(Coord),
    /// The position buttons have been drawn for this frame.
    ButtonsDrawn,
}

/// A request to move the pivot of the focused object.
#[derive(Clone, Copy, Debug, PartialEq, Eq, Structural)]
pub struct CoordRequest {
    pub coord: Coord,
    pub reset_offset: bool,
}

/// What the window has to do outside itself after a step.
#[derive(Clone, Copy, Debug, PartialEq, Eq, Structural)]
pub enum PanelAction {
    /// Nothing.
    Nothing,
    /// Write these settings to the settings file.
    WriteSettings(Settings),
    /// Move the pivot of the focused object as requested.
    ApplyCoord(CoordRequest),
}

/// The state of the plugin window.
#[derive(Clone, Copy, Debug, PartialEq, Eq, Structural)]
pub struct AppConfig {
    /// The position last chosen.
    pub coord: Coord,
    /// A position button was clicked and the edit is still to be made.
    pub is_coord_button_clicked: bool,
    /// The header shows its buttons.
    pub is_header_expanded: bool,
    /// The settings window is shown.
    pub show_settings_window: bool,
    /// The information window is shown.
    pub show_information_window: bool,
    /// The settings in effect.
    pub settings: Settings,
    /// The settings as they were when the settings window opened.
    pub settings_snapshot: Option<Settings>,
}

/// `settings` after one edit; the slider only yields scales in range.
pub open spec fn edit_settings_spec(settings: Settings, e: SettingsEdit) -> Settings {
    match e {
        SettingsEdit::ResetOffset(v) => Settings { reset_offset: v, ..settings },
        SettingsEdit::ButtonScale(v) => Settings { button_scale: clamp_scale_spec(v), ..settings },
    }
}

/// The state after one event.
pub open spec fn next_state(s: AppConfig, e: PanelEvent) -> AppConfig {
    match e {
        PanelEvent::Header(h) => if !s.is_header_expanded {
            AppConfig { is_header_expanded: h.strip_clicked, ..s }
        } else {
            AppConfig {
                show_information_window: s.show_information_window || h.information_clicked,
                show_settings_window: s.show_settings_window || h.settings_clicked,
                is_header_expanded: h.panel_open && !h.collapse_clicked,
                ..s
            }
        },
        PanelEvent::SettingsShown => if s.settings_snapshot is None {
            AppConfig { settings_snapshot: Some(s.settings), ..s }
        } else {
            s
        },
        PanelEvent::Edit(ed) => AppConfig { settings: edit_settings_spec(s.settings, ed), ..s },
        PanelEvent::Cancel => match s.settings_snapshot {
            Some(snap) => AppConfig {
                show_settings_window: false,
                settings: snap,
                settings_snapshot: None,
                ..s
            },
            None => AppConfig { show_settings_window: false, ..s },
        },
        PanelEvent::Save => AppConfig { show_settings_window: false, settings_snapshot: None, ..s },
        PanelEvent::CloseInformation => AppConfig { show_information_window: false, ..s },
        PanelEvent::SelectCoord(c) => AppConfig { coord: c, is_coord_button_clicked: true, ..s },
        PanelEvent::ButtonsDrawn => AppConfig { is_coord_button_clicked: false, ..s },
    }
}

/// What has to be done outside the window after an event.
pub open spec fn event_action(s: AppConfig, e: PanelEvent) -> PanelAction {
    match e {
        PanelEvent::Save => PanelAction::WriteSettings(s.settings),
        PanelEvent::ButtonsDrawn => if s.is_coord_button_clicked {
            PanelAction::ApplyCoord(
                CoordRequest { coord: s.coord, reset_offset: s.settings.reset_offset },
            )
        } else {
            PanelAction::Nothing
        },
        _ => PanelAction::Nothing,
    }
}

/// The state after a run of events.
pub open spec fn run(s: AppConfig, events: Seq<PanelEvent>) -> AppConfig
    decreases events.len(),
{
    if events.len() == 0 {
        s
    } else {
        next_state(run(s, events.drop_last()), events.last())
    }
}

impl AppConfig {
    /// Whether the button scale of the settings, and of the snapshot if any, is in range.
    pub open spec fn wf(self) -> bool {
        &&& self.settings.scale_in_range()
        &&& self.settings_snapshot matches Some(snap) ==> snap.scale_in_range()
    }

    /// The window as it first opens: centre position, header collapsed, no window shown,
    /// default settings.
    pub fn new() -> (s: Self)
        ensures
            s.coord == Coord::Center,
            !s.is_coord_button_clicked,
            !s.is_header_expanded,
            !s.show_settings_window,
            !s.show_information_window,
            s.settings.reset_offset,
            s.settings.button_scale == 100,
            s.settings_snapshot is None,
    {
        AppConfig {
            coord: Coord::Center,
            is_coord_button_clicked: false,
            is_header_expanded: false,
            show_settings_window: false,
            show_information_window: false,
            settings: Settings::new(),
            settings_snapshot: None,
        }
    }

    /// The window as it first opens with the settings read from the settings file, or the
    /// default settings where none could be read; the button scale is clamped into range.
    pub fn with_loaded_settings(loaded: Option<Settings>) -> (s: Self)
        ensures
            s.coord == Coord::Center,
            !s.is_coord_button_clicked,
            !s.is_header_expanded,
            !s.show_settings_window,
            !s.show_information_window,
            s.settings_snapshot is None,
            match loaded {
                Some(l) => s.settings == Settings {
                    button_scale: clamp_scale_spec(l.button_scale),
                    ..l
                },
                None => s.settings.reset_offset && s.settings.button_scale == 100,
            },
            s.wf(),
    {
        let mut s = AppConfig::new();
        s.settings = match loaded {
            Some(l) => l,
            None => Settings::new(),
        };
        s.settings.button_scale = clamp_button_scale(s.settings.button_scale);
        s
    }

    /// Takes one event: updates the state and says what has to be done outside.
    pub fn step(&mut self, e: PanelEvent) -> (a: PanelAction)
        ensures
            *final(self) == next_state(*old(self), e),
            a == event_action(*old(self), e),
    {
        match e {
            PanelEvent::Header(h) => {
                if !self.is_header_expanded {
                    if h.strip_clicked {
                        self.is_header_expanded = true;
                    }
                } else {
                    if h.information_clicked {
                        self.show_information_window = true;
                    }
                    if h.settings_clicked {
                        self.show_settings_window = true;
                    }
                    self.is_header_expanded = h.panel_open;
                    if h.collapse_clicked {
                        self.is_header_expanded = false;
                    }
                }
                PanelAction::Nothing
            },
            PanelEvent::SettingsShown => {
                if self.settings_snapshot.is_none() {
                    self.settings_snapshot = Some(self.settings);
                }
                PanelAction::Nothing
            },
            PanelEvent::Edit(ed) => {
                match ed {
                    SettingsEdit::ResetOffset(v) => {
                        self.settings.reset_offset = v;
                    },
                    SettingsEdit::ButtonScale(v) => {
                        self.settings.button_scale = clamp_button_scale(v);
                    },
                }
                PanelAction::Nothing
            },
            PanelEvent::Cancel => {
                self.show_settings_window = false;
                if let Some(snap) = self.settings_snapshot {
                    self.settings_snapshot = None;
                    self.settings = snap;
                }
                PanelAction::Nothing
            },
            PanelEvent::Save => {
                self.show_settings_window = false;
                self.settings_snapshot = None;
                PanelAction::WriteSettings(self.settings)
            },
            PanelEvent::CloseInformation => {
                self.show_information_window = false;
                PanelAction::Nothing
            },
            PanelEvent::SelectCoord(c) => {
                self.is_coord_button_clicked = true;
                self.coord = c;
                PanelAction::Nothing
            },
            PanelEvent::ButtonsDrawn => {
                if self.is_coord_button_clicked {
                    self.is_coord_button_clicked = false;
                    PanelAction::ApplyCoord(
                        CoordRequest { coord: self.coord, reset_offset: self.settings.reset_offset },
                    )
                } else {
                    PanelAction::Nothing
                }
            },
        }
    }
}


/// Every event keeps the button scales in range.
pub proof fn lemma_step_keeps_wf(s: AppConfig, e: PanelEvent)
    requires
        s.wf(),
    ensures
        next_state(s, e).wf(),
{
}

/// Any run of events keeps the button scales in range.
pub proof fn lemma_run_keeps_wf(s: AppConfig, events: Seq<PanelEvent>)
    requires
        s.wf(),
    ensures
        run(s, events).wf(),
    decreases events.len(),
{
    if events.len() > 0 {
        lemma_run_keeps_wf(s, events.drop_last());
        lemma_step_keeps_wf(run(s, events.drop_last()), events.last());
    }
}

/// Showing the settings window again, frame after frame, keeps the snapshot taken on the
/// first frame.
pub proof fn lemma_settings_shown_idempotent(s: AppConfig)
    ensures
        next_state(next_state(s, PanelEvent::SettingsShown), PanelEvent::SettingsShown)
            == next_state(s, PanelEvent::SettingsShown),
{
}

/// Whether an event can come while the settings window is open and before one of its
/// buttons is clicked: anything but "Cancel" and "Save", in whatever order the frames draw
/// the header, the windows and the position buttons.
pub open spec fn is_settings_session_event(e: PanelEvent) -> bool {
    !(e is Cancel || e is Save)
}

/// The settings after the edits among `events`, in order.
pub open spec fn apply_edits(settings: Settings, events: Seq<PanelEvent>) -> Settings
    decreases events.len(),
{
    if events.len() == 0 {
        settings
    } else {
        let before = apply_edits(settings, events.drop_last());
        match events.last() {
            PanelEvent::Edit(ed) => edit_settings_spec(before, ed),
            _ => before,
        }
    }
}

/// While the settings window is open, the snapshot holds the settings it opened with, and
/// the settings are those edits applied to them.
proof fn lemma_session(s: AppConfig, events: Seq<PanelEvent>)
    requires
        s.settings_snapshot is None,
        events.len() > 0,
        events[0] == PanelEvent::SettingsShown,
        forall|i: int| 0 <= i < events.len() ==> is_settings_session_event(#[trigger] events[i]),
    ensures
        run(s, events).settings_snapshot == Some(s.settings),
        run(s, events).settings == apply_edits(s.settings, events),
    decreases events.len(),
{
    if events.len() == 1 {
        assert(events.drop_last() =~= Seq::<PanelEvent>::empty());
        assert(apply_edits(s.settings, events.drop_last()) == s.settings);
        assert(run(s, events.drop_last()) == s);
    } else {
        let init = events.drop_last();
        assert forall|i: int| 0 <= i < init.len() implies is_settings_session_event(
            #[trigger] init[i],
        ) by {
            assert(init[i] == events[i]);
        }
        assert(is_settings_session_event(events[events.len() - 1]));
        lemma_session(s, init);
    }
}

/// Cancelling the settings window gives back the settings it opened with, whatever was
/// changed in it, and closes it.
pub proof fn lemma_cancel_restores_settings(s: AppConfig, events: Seq<PanelEvent>)
    requires
        s.settings_snapshot is None,
        events.len() > 0,
        events[0] == PanelEvent::SettingsShown,
        forall|i: int| 0 <= i < events.len() ==> is_settings_session_event(#[trigger] events[i]),
    ensures
        run(s, events.push(PanelEvent::Cancel)).settings == s.settings,
        run(s, events.push(PanelEvent::Cancel)).settings_snapshot is None,
        !run(s, events.push(PanelEvent::Cancel)).show_settings_window,
{
    lemma_session(s, events);
    assert(events.push(PanelEvent::Cancel).drop_last() =~= events);
}

/// Saving the settings window writes the settings with the changes made in it, keeps them,
/// and closes it.
pub proof fn lemma_save_writes_edits(s: AppConfig, events: Seq<PanelEvent>)
    requires
        s.settings_snapshot is None,
        events.len() > 0,
        events[0] == PanelEvent::SettingsShown,
        forall|i: int| 0 <= i < events.len() ==> is_settings_session_event(#[trigger] events[i]),
    ensures
        event_action(run(s, events), PanelEvent::Save) == PanelAction::WriteSettings(
            apply_edits(s.settings, events),
        ),
        run(s, events.push(PanelEvent::Save)).settings == apply_edits(s.settings, events),
        run(s, events.push(PanelEvent::Save)).settings_snapshot is None,
        !run(s, events.push(PanelEvent::Save)).show_settings_window,
{
    lemma_session(s, events);
    assert(events.push(PanelEvent::Save).drop_last() =~= events);
}

/// A click on a position button leads, once the buttons are drawn, to exactly one request
/// to move the pivot there, with the current offset setting.
pub proof fn lemma_select_then_apply(s: AppConfig, c: Coord)
    ensures
        event_action(next_state(s, PanelEvent::SelectCoord(c)), PanelEvent::ButtonsDrawn)
            == PanelAction::ApplyCoord(
            CoordRequest { coord: c, reset_offset: s.settings.reset_offset },
        ),
        event_action(
            next_state(next_state(s, PanelEvent::SelectCoord(c)), PanelEvent::ButtonsDrawn),
            PanelEvent::ButtonsDrawn,
        ) == PanelAction::Nothing,
        next_state(next_state(s, PanelEvent::SelectCoord(c)), PanelEvent::ButtonsDrawn).coord
            == c,
{
}


/// Only "Cancel" and "Save" close the settings window, and only the settings button of the
/// expanded header opens it.
pub proof fn lemma_settings_window_open_close(s: AppConfig, e: PanelEvent)
    ensures
        s.show_settings_window && !(e is Cancel || e is Save) ==> next_state(
            s,
            e,
        ).show_settings_window,
        (e is Cancel || e is Save) ==> !next_state(s, e).show_settings_window,
        next_state(s, e).show_settings_window && !s.show_settings_window ==> (e matches PanelEvent::Header(h)
            && s.is_header_expanded && h.settings_clicked),
        e matches PanelEvent::Header(h) && s.is_header_expanded && h.settings_clicked
            ==> next_state(s, e).show_settings_window,
{
}

/// Only "Close" closes the information window, and only the information button of the
/// expanded header opens it.
pub proof fn lemma_information_window_open_close(s: AppConfig, e: PanelEvent)
    ensures
        s.show_information_window && !(e is CloseInformation) ==> next_state(
            s,
            e,
        ).show_information_window,
        e is CloseInformation ==> !next_state(s, e).show_information_window,
        next_state(s, e).show_information_window && !s.show_information_window ==> (e matches PanelEvent::Header(h)
            && s.is_header_expanded && h.information_clicked),
        e matches PanelEvent::Header(h) && s.is_header_expanded && h.information_clicked
            ==> next_state(s, e).show_information_window,
{
}

/// The collapsed header expands exactly when its strip is clicked; the expanded header
/// collapses when its collapse button is clicked or its panel is closed, and stays
/// expanded otherwise. No other event touches it.
pub proof fn lemma_header_expansion(s: AppConfig, e: PanelEvent, h: HeaderInput)
    ensures
        !(e is Header) ==> next_state(s, e).is_header_expanded == s.is_header_expanded,
        !s.is_header_expanded ==> next_state(s, PanelEvent::Header(h)).is_header_expanded
            == h.strip_clicked,
        s.is_header_expanded ==> next_state(s, PanelEvent::Header(h)).is_header_expanded == (
        h.panel_open && !h.collapse_clicked),
{
}

/// The snapshot is taken only when the settings window is shown and none is held, and
/// dropped only by "Cancel" and "Save"; every other event leaves it as it is.
pub proof fn lemma_snapshot_changes(s: AppConfig, e: PanelEvent)
    ensures
        !(e is SettingsShown || e is Cancel || e is Save) ==> next_state(s, e).settings_snapshot
            == s.settings_snapshot,
        e is SettingsShown && s.settings_snapshot is None ==> next_state(s, e).settings_snapshot
            == Some(s.settings),
        e is SettingsShown && s.settings_snapshot is Some ==> next_state(s, e).settings_snapshot
            == s.settings_snapshot,
        (e is Cancel || e is Save) ==> next_state(s, e).settings_snapshot is None,
{
}

/// The settings change only by an edit, or by "Cancel" giving back the snapshot.
pub proof fn lemma_settings_changes(s: AppConfig, e: PanelEvent)
    ensures
        !(e is Edit || e is Cancel) ==> next_state(s, e).settings == s.settings,
        e is Cancel ==> next_state(s, e).settings == match s.settings_snapshot {
            Some(snap) => snap,
            None => s.settings,
        },
{
}

/// Each edit changes only its own setting: the check box sets whether offsets are reset
/// and keeps the button size; the slider sets the button size, held to 100..=200 percent,
/// and keeps the check box.
pub proof fn lemma_edit_changes_own_field(s: AppConfig, v: bool, scale: u32)
    ensures
        next_state(s, PanelEvent::Edit(SettingsEdit::ResetOffset(v))).settings == (Settings {
            reset_offset: v,
            button_scale: s.settings.button_scale,
        }),
        next_state(s, PanelEvent::Edit(SettingsEdit::ButtonScale(scale))).settings.reset_offset
            == s.settings.reset_offset,
        100 <= scale <= 200 ==> next_state(
            s,
            PanelEvent::Edit(SettingsEdit::ButtonScale(scale)),
        ).settings.button_scale == scale,
        scale < 100 ==> next_state(
            s,
            PanelEvent::Edit(SettingsEdit::ButtonScale(scale)),
        ).settings.button_scale == 100,
        scale > 200 ==> next_state(
            s,
            PanelEvent::Edit(SettingsEdit::ButtonScale(scale)),
        ).settings.button_scale == 200,
        next_state(s, PanelEvent::Edit(SettingsEdit::ResetOffset(v))).settings_snapshot
            == s.settings_snapshot,
        next_state(s, PanelEvent::Edit(SettingsEdit::ButtonScale(scale))).settings_snapshot
            == s.settings_snapshot,
{
}

/// The position changes only by a click on a position button, which marks a pending move
/// that only the drawing of the buttons clears; a request to move the pivot comes only then,
/// after such a click, carrying the chosen position and the current offset setting. Only
/// "Save" asks for the settings to be written, and it writes the current ones.
pub proof fn lemma_coord_requests(s: AppConfig, e: PanelEvent)
    ensures
        !(e is SelectCoord) ==> next_state(s, e).coord == s.coord,
        !(e is SelectCoord || e is ButtonsDrawn) ==> next_state(s, e).is_coord_button_clicked
            == s.is_coord_button_clicked,
        e is SelectCoord ==> next_state(s, e).is_coord_button_clicked,
        e is ButtonsDrawn ==> !next_state(s, e).is_coord_button_clicked,
        e matches PanelEvent::SelectCoord(c) ==> next_state(s, e).coord == c,
        event_action(s, e) is ApplyCoord <==> (e is ButtonsDrawn && s.is_coord_button_clicked),
        event_action(s, e) matches PanelAction::ApplyCoord(r) ==> r == (CoordRequest {
            coord: s.coord,
            reset_offset: s.settings.reset_offset,
        }),
        event_action(s, e) is WriteSettings <==> (e is Save),
        event_action(s, e) matches PanelAction::WriteSettings(w) ==> w == s.settings,
{
}

} // verus!
