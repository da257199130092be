use germal_app::settings::{settings_effects, SettingsChange, SettingsEffects};

fn change(any: bool, request: bool, font_size: bool, language: bool, update_source: bool) -> SettingsChange {
    SettingsChange { any, request, font_size, language, update_source }
}

#[test]
fn an_unchanged_edit_does_nothing() {
    let e = settings_effects(change(false, false, false, false, false));
    assert_eq!(
        e,
        SettingsEffects {
            write: false,
            rebuild_client: false,
            apply_font_size: false,
            apply_language: false,
            resync_update_source: false,
        }
    );
}

#[test]
fn a_wrap_toggle_is_only_written() {
    let e = settings_effects(change(true, false, false, false, false));
    assert!(e.write);
    assert!(!e.rebuild_client && !e.apply_font_size && !e.apply_language && !e.resync_update_source);
}

#[test]
fn a_language_change_also_resolves_the_update_source_again() {
    let e = settings_effects(change(true, false, false, true, false));
    assert!(e.write && e.apply_language && e.resync_update_source);
    assert!(!e.rebuild_client && !e.apply_font_size);
}

#[test]
fn request_and_font_changes_are_applied() {
    let e = settings_effects(change(true, true, true, false, true));
    assert!(e.write && e.rebuild_client && e.apply_font_size && e.resync_update_source);
    assert!(!e.apply_language);
}
