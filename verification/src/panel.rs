//! The panel: what each of its parts shows and does, part by part.

pub mod assets;
pub mod browser;
pub mod color;
pub mod copied;
pub mod crop;
pub mod cull;
pub mod curve;
pub mod deliver;
pub mod edit;
pub mod editor;
pub mod export;
pub mod filter;
pub mod floor;
pub mod frame;
pub mod history;
pub mod import;
pub mod launch;
pub mod learned;
pub mod level;
pub mod mask;
pub mod menu;
pub mod meta;
pub mod model;
pub mod open;
pub mod placeholder;
pub mod prefs;
pub mod retouch;
pub mod selection;
pub mod sliders;
pub mod startup;
pub mod turn;
