//! The logic of a desktop assistant: redaction of sensitive text, signal
//! orchestration, desktop file grouping, AI provider and voice settings,
//! the advisor's alerts and planning views, clipboard history, YouTube Music
//! fallbacks and the dashboard widgets, each with its contract.
use vstd::prelude::*;

pub mod text;
pub mod sensitive;
pub mod dates;
pub mod orchestration;
pub mod files;
pub mod ai;
pub mod clock;
pub mod voice;
pub mod advisor;
pub mod clipboard;
pub mod calendar;
pub mod youtube_music;
pub mod widgets;
pub mod market;
