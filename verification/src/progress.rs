//! Progress reports sent to the front end while frames are grouped,
//! calibrated, graded, moved or deleted, and the requests that start them.
use vstd::prelude::*;
use crate::config::CalibrationStorageMode;
use crate::files::opt_text;

verus! {

/// How many of the picked frames grouping has read.
#[derive(Debug, Clone, Copy)]
pub struct GroupFramesProgress {
    pub processed: usize,
    pub total: usize,
}

/// The kind of work a calibration step does.
#[derive(Debug, Clone, Copy, PartialEq, Eq, Structural)]
pub enum CalibrationStepKind {
    Dark,
    Flat,
    Bias,
    Light,
}

/// Where a calibration step stands.
#[derive(Debug, Clone, Copy, PartialEq, Eq, Structural)]
pub enum CalibrationStepStatus {
    Pending,
    Running,
    Completed,
    Skipped,
    Failed,
    Cancelled,
}

/// Where a whole calibration run stands.
#[derive(Debug, Clone, Copy, PartialEq, Eq, Structural)]
pub enum CalibrationRunStatus {
    Running,
    Completed,
    Failed,
    Cancelled,
}

/// One step of a calibration (or grading) run.
#[derive(Debug, Clone)]
pub struct CalibrationProgressStep {
    pub id: String,
    pub kind: CalibrationStepKind,
    pub label: String,
    pub session_uuid: String,
    pub session_label: String,
    pub count: usize,
    pub completed_count: usize,
    pub skipped_count: usize,
    pub rejected_count: usize,
    pub status: CalibrationStepStatus,
    pub started_at: Option<u64>,
    pub ended_at: Option<u64>,
    pub error: Option<String>,
}

pub struct StepView {
    pub id: Seq<char>,
    pub kind: CalibrationStepKind,
    pub label: Seq<char>,
    pub session_uuid: Seq<char>,
    pub session_label: Seq<char>,
    pub count: usize,
    pub completed_count: usize,
    pub skipped_count: usize,
    pub rejected_count: usize,
    pub status: CalibrationStepStatus,
    pub started_at: Option<u64>,
    pub ended_at: Option<u64>,
    pub error: Option<Seq<char>>,
}

impl View for CalibrationProgressStep {
    type V = StepView;

    open spec fn view(&self) -> StepView {
        StepView {
            id: self.id@,
            kind: self.kind,
            label: self.label@,
            session_uuid: self.session_uuid@,
            session_label: self.session_label@,
            count: self.count,
            completed_count: self.completed_count,
            skipped_count: self.skipped_count,
            rejected_count: self.rejected_count,
            status: self.status,
            started_at: self.started_at,
            ended_at: self.ended_at,
            error: opt_text(self.error),
        }
    }
}

/// A step with no identity, label or counts, pending, not started.
pub open spec fn blank_step() -> StepView {
    StepView {
        id: Seq::empty(),
        kind: CalibrationStepKind::Light,
        label: Seq::empty(),
        session_uuid: Seq::empty(),
        session_label: Seq::empty(),
        count: 0,
        completed_count: 0,
        skipped_count: 0,
        rejected_count: 0,
        status: CalibrationStepStatus::Pending,
        started_at: None,
        ended_at: None,
        error: None,
    }
}

/// The values of a sequence of steps.
pub open spec fn step_views(s: Seq<CalibrationProgressStep>) -> Seq<StepView> {
    s.map_values(|x: CalibrationProgressStep| x@)
}

/// The state of a calibration (or grading) run.
#[derive(Debug, Clone)]
pub struct CalibrationProgressMessage {
    pub started_at: u64,
    pub finished_at: Option<u64>,
    pub status: CalibrationRunStatus,
    pub current_step_id: Option<String>,
    pub steps: Vec<CalibrationProgressStep>,
}

pub struct ProgressView {
    pub started_at: u64,
    pub finished_at: Option<u64>,
    pub status: CalibrationRunStatus,
    pub current_step_id: Option<Seq<char>>,
    pub steps: Seq<StepView>,
}

impl View for CalibrationProgressMessage {
    type V = ProgressView;

    open spec fn view(&self) -> ProgressView {
        ProgressView {
            started_at: self.started_at,
            finished_at: self.finished_at,
            status: self.status,
            current_step_id: opt_text(self.current_step_id),
            steps: step_views(self.steps@),
        }
    }
}

/// What starts a calibration run.
#[derive(Debug, Clone)]
pub struct CalibrateRequest {
    pub storage_mode: CalibrationStorageMode,
    pub temp_folder_path: String,
}

/// What a batch of file operations does to each file.
#[derive(Debug, Clone, Copy, PartialEq, Eq, Structural)]
pub enum FileBatchOperationKind {
    Move,
    Delete,
}

/// Where a batch of file operations stands.
#[derive(Debug, Clone, Copy, PartialEq, Eq, Structural)]
pub enum FileBatchOperationStatus {
    Running,
    Completed,
    Failed,
}

/// The state of a batch of file operations.
#[derive(Debug, Clone)]
pub struct FileBatchOperationProgressMessage {
    pub started_at: u64,
    pub finished_at: Option<u64>,
    pub status: FileBatchOperationStatus,
    pub operation: FileBatchOperationKind,
    pub processed_count: usize,
    pub total_count: usize,
    pub current_path: Option<String>,
    pub error: Option<String>,
}

/// A batch of file operations: the files, and for a move the target directory.
#[derive(Debug, Clone)]
pub struct FileBatchOperationRequest {
    pub operation: FileBatchOperationKind,
    pub paths: Vec<String>,
    pub target_directory: Option<String>,
}

} // verus!
