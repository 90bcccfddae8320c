//! The event records the subsystem publishes to its observers, and the
//! rendering of classified changes into them.

use vstd::prelude::*;
use vstd::string::StringExecFns;
use crate::classify::PlanChange;

verus! {

/// One semantic plan change, as published: the change type as a string, the
/// stem(s) concerned, and the originating folder.
#[derive(Debug)]
pub struct PlanChangeEvent {
    /// One of `created`, `modified`, `removed`, `renamed`.
    pub change_type: String,
    pub file_name: String,
    /// The previous stem, present only for renames.
    pub old_file_name: Option<String>,
    pub folder_path: String,
}

/// The unconditional refresh signal for a folder's task-PRD entries.
#[derive(Debug)]
pub struct RalphPrdChangeEvent {
    pub folder_path: String,
}

/// The unconditional refresh signal for a folder's iterations file.
#[derive(Debug)]
pub struct RalphIterationsChangeEvent {
    pub folder_path: String,
}

/// The unconditional refresh signal for a folder's plans.
#[derive(Debug)]
pub struct PlansChangedEvent {
    pub folder_path: String,
}

impl PlanChange {
    /// Renders the classified change as the published event record.
    pub fn to_event(&self, folder_path: &String) -> (ev: PlanChangeEvent)
        ensures
            ev.folder_path == *folder_path,
            match *self {
                PlanChange::Created { file_name } => {
                    &&& ev.change_type@ == "created"@
                    &&& ev.file_name == file_name
                    &&& ev.old_file_name is None
                },
                PlanChange::Removed { file_name } => {
                    &&& ev.change_type@ == "removed"@
                    &&& ev.file_name == file_name
                    &&& ev.old_file_name is None
                },
                PlanChange::Renamed { old_file_name, file_name } => {
                    &&& ev.change_type@ == "renamed"@
                    &&& ev.file_name == file_name
                    &&& match ev.old_file_name {
                        Some(o) => o == old_file_name,
                        None => false,
                    }
                },
                PlanChange::Modified { file_name } => {
                    &&& ev.change_type@ == "modified"@
                    &&& ev.file_name == file_name
                    &&& ev.old_file_name is None
                },
            },
    {
        match self {
            PlanChange::Created { file_name } => PlanChangeEvent {
                change_type: String::from_str("created"),
                file_name: file_name.clone(),
                old_file_name: None,
                folder_path: folder_path.clone(),
            },
            PlanChange::Removed { file_name } => PlanChangeEvent {
                change_type: String::from_str("removed"),
                file_name: file_name.clone(),
                old_file_name: None,
                folder_path: folder_path.clone(),
            },
            PlanChange::Renamed { old_file_name, file_name } => PlanChangeEvent {
                change_type: String::from_str("renamed"),
                file_name: file_name.clone(),
                old_file_name: Some(old_file_name.clone()),
                folder_path: folder_path.clone(),
            },
            PlanChange::Modified { file_name } => PlanChangeEvent {
                change_type: String::from_str("modified"),
                file_name: file_name.clone(),
                old_file_name: None,
                folder_path: folder_path.clone(),
            },
        }
    }
}

} // verus!
