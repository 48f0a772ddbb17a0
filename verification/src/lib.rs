//! Battery monitoring logic for ATK mice: device selection, battery
//! snapshots, tray icon pixels, menu texts and diagnostics reports.
pub mod text;
pub mod device;
pub mod snapshot;
pub mod icon;
pub mod menu;
pub mod report;
pub mod startup;
