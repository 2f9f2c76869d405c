use adjust_pivot::coord::Coord;
use adjust_pivot::panel::{
    AppConfig, CoordRequest, HeaderInput, PanelAction, PanelEvent, SettingsEdit,
};
use adjust_pivot::plugin::{plugin_information, PLUGIN_AUTHOR, PLUGIN_NAME};
use adjust_pivot::settings::{clamp_button_scale, Settings, BUTTON_SCALE_MAX, BUTTON_SCALE_MIN};

fn header(strip: bool, open: bool, info: bool, settings: bool, collapse: bool) -> PanelEvent {
    PanelEvent::Header(HeaderInput {
        strip_clicked: strip,
        panel_open: open,
        information_clicked: info,
        settings_clicked: settings,
        collapse_clicked: collapse,
    })
}

#[test]
fn coord_labels() {
    let all = [
        (Coord::LeftTop, "左上"),
        (Coord::Top, "上"),
        (Coord::RightTop, "右上"),
        (Coord::Left, "左"),
        (Coord::Center, "中心"),
        (Coord::Right, "右"),
        (Coord::LeftBottom, "左下"),
        (Coord::Bottom, "下"),
        (Coord::RightBottom, "右下"),
    ];
    for (c, label) in all {
        assert_eq!(c.as_str(), label);
    }
}

#[test]
fn default_settings() {
    let s = Settings::new();
    assert!(s.reset_offset);
    assert_eq!(s.button_scale, 100);
}

#[test]
fn clamp_scale() {
    assert_eq!(clamp_button_scale(0), BUTTON_SCALE_MIN);
    assert_eq!(clamp_button_scale(150), 150);
    assert_eq!(clamp_button_scale(500), BUTTON_SCALE_MAX);
    assert_eq!(clamp_button_scale(clamp_button_scale(500)), BUTTON_SCALE_MAX);
}

#[test]
fn new_window_state() {
    let s = AppConfig::new();
    assert_eq!(s.coord, Coord::Center);
    assert!(!s.is_header_expanded && !s.show_settings_window && !s.show_information_window);
    assert_eq!(s.settings, Settings::new());
    assert_eq!(s.settings_snapshot, None);
}

#[test]
fn loaded_settings_are_clamped() {
    let s = AppConfig::with_loaded_settings(Some(Settings { reset_offset: false, button_scale: 999 }));
    assert_eq!(s.settings, Settings { reset_offset: false, button_scale: 200 });
    let s = AppConfig::with_loaded_settings(Some(Settings { reset_offset: true, button_scale: 5 }));
    assert_eq!(s.settings.button_scale, 100);
    let s = AppConfig::with_loaded_settings(None);
    assert_eq!(s.settings, Settings::new());
}

#[test]
fn header_expands_and_collapses() {
    let mut s = AppConfig::new();
    s.step(header(false, false, true, true, false));
    assert!(!s.is_header_expanded && !s.show_information_window && !s.show_settings_window);
    s.step(header(true, false, false, false, false));
    assert!(s.is_header_expanded);
    s.step(header(false, true, true, false, false));
    assert!(s.is_header_expanded && s.show_information_window);
    s.step(header(false, true, false, true, true));
    assert!(!s.is_header_expanded && s.show_settings_window);
}

#[test]
fn information_window_closes() {
    let mut s = AppConfig::new();
    s.is_header_expanded = true;
    s.step(header(false, true, true, false, false));
    assert!(s.show_information_window);
    assert_eq!(s.step(PanelEvent::CloseInformation), PanelAction::Nothing);
    assert!(!s.show_information_window);
}

#[test]
fn cancel_restores_settings() {
    let mut s = AppConfig::new();
    s.show_settings_window = true;
    let before = s.settings;
    s.step(PanelEvent::SettingsShown);
    s.step(PanelEvent::Edit(SettingsEdit::ResetOffset(false)));
    s.step(PanelEvent::SettingsShown);
    s.step(PanelEvent::Edit(SettingsEdit::ButtonScale(180)));
    assert_eq!(s.settings, Settings { reset_offset: false, button_scale: 180 });
    assert_eq!(s.step(PanelEvent::Cancel), PanelAction::Nothing);
    assert_eq!(s.settings, before);
    assert_eq!(s.settings_snapshot, None);
    assert!(!s.show_settings_window);
}

#[test]
fn save_writes_edited_settings() {
    let mut s = AppConfig::new();
    s.show_settings_window = true;
    s.step(PanelEvent::SettingsShown);
    s.step(PanelEvent::Edit(SettingsEdit::ButtonScale(250)));
    let edited = Settings { reset_offset: true, button_scale: 200 };
    assert_eq!(s.step(PanelEvent::Save), PanelAction::WriteSettings(edited));
    assert_eq!(s.settings, edited);
    assert_eq!(s.settings_snapshot, None);
    assert!(!s.show_settings_window);
}

#[test]
fn coord_click_requests_one_edit() {
    let mut s = AppConfig::new();
    assert_eq!(s.step(PanelEvent::ButtonsDrawn), PanelAction::Nothing);
    s.step(PanelEvent::SelectCoord(Coord::LeftBottom));
    assert_eq!(
        s.step(PanelEvent::ButtonsDrawn),
        PanelAction::ApplyCoord(CoordRequest { coord: Coord::LeftBottom, reset_offset: true })
    );
    assert_eq!(s.step(PanelEvent::ButtonsDrawn), PanelAction::Nothing);
    assert_eq!(s.coord, Coord::LeftBottom);
}

#[test]
fn plugin_information_line() {
    assert_eq!(plugin_information("1.2.3"), "中心ずらし_A v1.2.3 azurite");
    assert_eq!(PLUGIN_NAME, "中心ずらし_A");
    assert_eq!(PLUGIN_AUTHOR, "azurite");
}
