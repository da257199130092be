pub mod assets;
pub mod brand;
pub mod desktop_entry;
pub mod i18n;
pub mod model;
pub mod ordering;
pub mod text;
pub mod theme;
pub mod update;
pub mod request_tab;
pub mod settings;
pub mod store;
pub mod templates;
pub mod workspace;
