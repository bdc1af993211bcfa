//! Builds per-recipient calendar documents from shared event groups and
//! recipient-specific change instructions.

pub mod apply_changes;
pub mod apply_details;
pub mod changestatus;
pub mod datetime;
pub mod events;
pub mod generate_ics;
pub mod output_files;
pub mod schedule;
pub mod sorting;
pub mod text;
pub mod userconfig;
pub mod userconfigs;
