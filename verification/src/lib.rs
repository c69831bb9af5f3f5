//! Verified core of the Future work-management tools: the `current` context
//! daemon, the `purse` context tray with its `purse-niri` invoker, and the
//! `gluek-up` peek overlay.
pub mod text;
pub mod paths;
pub mod context;
pub mod current;
pub mod json;
pub mod niri;
pub mod purse;
pub mod gluek;
