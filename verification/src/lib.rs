//! Stellarshot's backup logic: the setup wizard and its "where" step, the
//! profile and restore pages, the overview of every backup, the Déjà Dup
//! importer, removable drives, scheduling conditions, and the small rules
//! the window applies, each with a contract proved by Verus.

pub mod app;
pub mod conditions;
pub mod config;
pub mod content;
pub mod dejadup;
pub mod drives;
pub mod engine;
pub mod errors;
pub mod finish;
pub mod format;
pub mod gsettings;
pub mod home;
pub mod i18n;
pub mod ids;
pub mod migrate;
pub mod number;
pub mod order;
pub mod pages;
pub mod path;
pub mod profile;
pub mod profile_page;
pub mod restore;
pub mod runs;
pub mod split;
pub mod text;
pub mod wizard;
