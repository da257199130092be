use germal_app::assets::{AppAssets, ASSET_PATHS, ICON_ROWS_3, ICON_WRAP_TEXT, LOGO_PATH};
use germal_app::model::Method;
use germal_app::theme::{palette, Palette};

#[test]
fn method_colours_per_theme() {
    let light = palette(false);
    assert_eq!(light.method(Method::Get), 0x007762);
    assert_eq!(light.method(Method::Head), 0x5e6a77);
    assert_eq!(light.method(Method::Options), 0x5e6a77);
    let dark = palette(true);
    assert_eq!(dark.method(Method::Delete), 0xe77968);
    assert_eq!(dark, Palette::dark());
}

#[test]
fn status_colours_by_class_only_in_range() {
    let p = Palette::light();
    assert_eq!(p.status(200), Some(0x007460));
    assert_eq!(p.status(299), Some(0x007460));
    assert_eq!(p.status(301), Some(0x67599f));
    assert_eq!(p.status(404), Some(0x8a5600));
    assert_eq!(p.status(599), Some(0xaf3829));
    assert_eq!(p.status(199), None);
    assert_eq!(p.status(600), None);
    assert_eq!(p.status(0), None);
}

#[test]
fn own_assets_are_found_and_listed() {
    assert_eq!(AppAssets::lookup(LOGO_PATH), Some(0));
    assert_eq!(AppAssets::lookup(ICON_ROWS_3), Some(3));
    assert_eq!(AppAssets::lookup("icons/moon.svg"), None);
    assert_eq!(AppAssets::listed_under("logo"), vec![LOGO_PATH]);
    let icons = AppAssets::listed_under("icons");
    assert_eq!(icons.len(), 6);
    assert!(icons.contains(&ICON_WRAP_TEXT));
    assert_eq!(AppAssets::listed_under("").len(), ASSET_PATHS.len());
}
