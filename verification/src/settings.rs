//! What changing the application settings sets in motion. The settings are
//! edited on a copy; comparing the copy with the settings before gives the
//! flags below, and the effects follow from them alone.
use vstd::prelude::*;

verus! {

/// Which parts of the settings differ after an edit.
#[derive(Debug, Clone, Copy, PartialEq, Eq, Structural)]
pub struct SettingsChange {
    /// Anything at all (after the font size was clamped into its range).
    pub any: bool,
    /// The settings the HTTP client is built from.
    pub request: bool,
    /// The editor font size.
    pub font_size: bool,
    /// The interface language.
    pub language: bool,
    /// The update source.
    pub update_source: bool,
}

/// What an edit of the settings makes happen.
#[derive(Debug, Clone, Copy, PartialEq, Eq, Structural)]
pub struct SettingsEffects {
    /// Write `settings.json` and install the new settings.
    pub write: bool,
    /// Build a new HTTP client from the request settings.
    pub rebuild_client: bool,
    /// Set the editor font size on the theme and redraw the windows.
    pub apply_font_size: bool,
    /// Switch the interface language.
    pub apply_language: bool,
    /// Work out the update source again (after the new settings are in
    /// place): the automatic source depends on the language.
    pub resync_update_source: bool,
}

/// The effects of an edit: nothing when nothing changed; otherwise the new
/// settings are written, and each part that changed is applied, the update
/// source resolved again when it or the language changed.
pub fn settings_effects(change: SettingsChange) -> (e: SettingsEffects)
    ensures
        !change.any ==> e == (SettingsEffects {
            write: false,
            rebuild_client: false,
            apply_font_size: false,
            apply_language: false,
            resync_update_source: false,
        }),
        change.any ==> e == (SettingsEffects {
            write: true,
            rebuild_client: change.request,
            apply_font_size: change.font_size,
            apply_language: change.language,
            resync_update_source: change.update_source || change.language,
        }),
{
    if !change.any {
        return SettingsEffects {
            write: false,
            rebuild_client: false,
            apply_font_size: false,
            apply_language: false,
            resync_update_source: false,
        };
    }
    SettingsEffects {
        write: true,
        rebuild_client: change.request,
        apply_font_size: change.font_size,
        apply_language: change.language,
        resync_update_source: change.update_source || change.language,
    }
}

} // verus!
