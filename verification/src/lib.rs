//! Verified core of the BoxMux terminal dashboard: geometry, placing and
//! sizing of boxes, the box tree of layouts (lookups, selection, tab order,
//! hit testing), variable substitution, screen buffers, PTY bookkeeping,
//! control-socket commands, rate limiting, real-time panel updates,
//! sensitive zones, plugin permission checks, the field-by-field diffs of
//! boxes and layouts and how they are applied, and the edits that save live
//! changes back into layout files.
#![allow(unused_imports)]

pub mod bounds;
pub mod box_variables;
pub mod choice;
pub mod clock;
pub mod common;
pub mod constraints;
pub mod diff_laws;
pub mod diff_values;
pub mod focus;
pub mod keyed;
pub mod layout_diff;
pub mod layout_tree;
pub mod layouts;
pub mod messages;
pub mod muxbox;
pub mod muxbox_diff;
pub mod plugin;
pub mod position;
pub mod pty;
pub mod rate_limiter;
pub mod real_time_updates;
pub mod sensitive_zone;
pub mod signals;
pub mod socket;
pub mod tab_order;
pub mod tabs;
pub mod text;
pub mod variables;
pub mod yaml_edit;

pub use bounds::{Anchor, Bounds};
