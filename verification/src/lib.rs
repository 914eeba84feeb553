//! Layout planning, status reporting and operator workflow for redundant
//! disk groups built from drives of mixed sizes.

pub mod answer_laws;
pub mod answers;
pub mod band;
pub mod column_laws;
pub mod confirm;
pub mod detail;
pub mod diagram;
pub mod diagram_laws;
pub mod disk;
pub mod dry_run;
pub mod expansion;
pub mod expansion_laws;
pub mod expansion_steps;
pub mod figure_laws;
pub mod figures;
pub mod frame_laws;
pub mod inventory;
pub mod json;
pub mod json_laws;
pub mod layout_laws;
pub mod metrics;
pub mod ops;
pub mod page_laws;
pub mod paths;
pub mod plan_view;
pub mod planner;
pub mod planning_laws;
pub mod preflight;
pub mod raid;
pub mod reconcile;
pub mod render;
pub mod report;
pub mod report_json;
pub mod report_laws;
pub mod schedule;
pub mod schedule_laws;
pub mod sentence_laws;
pub mod shown;
pub mod sink;
pub mod sizes;
pub mod slices;
pub mod status;
pub mod status_laws;
pub mod table;
pub mod text;
pub mod text_laws;
pub mod ui_mode;
pub mod view_laws;
pub mod watch;
pub mod width_laws;
pub mod workflow;
pub mod workflow_courses;
pub mod workflow_laws;

pub use answers::Answer;
pub use band::{BandError, RedundantBand, RedundantBandRaw};
pub use disk::{Disk, DiskId, IntoText};
pub use expansion::{
    plan_expansion, validate_snapshot, ExpansionPlan, ExpansionStep, LayoutSnapshot, UnusableReason,
};
pub use json::Json;
pub use metrics::{compute_metrics, DistributionMetrics, Fraction};
pub use ops::{build_fs_df, build_plan_report, build_status, system_disk_aliases, ShrError};
pub use planner::{
    plan_initial, PlanError, PlannerInput, PlannerOutput, PlannerWarning, DEFAULT_BAND_ALIGNMENT,
    DEFAULT_RESERVED_HEAD, DEFAULT_RESERVED_TAIL,
};
pub use raid::{RaidLevel, RedundancyMode};
pub use report::{
    ArrayStatus, BandReport, DiskStatus, FsDfReport, FsUsageInput, GroupBandStatus, GroupDfStatus,
    GroupStatus, Health, MemberStatus, MetricsReport, PlanReport, ScrubOutcome, ScrubSummary,
    SmartState, SmartSummary, StatusReport, SyncSummary,
};
pub use sink::{
    AlwaysConfirmSink, AlwaysRejectConfirmSink, ConfirmRequest, ConfirmSink, Confirmation,
    NullProgressSink, ProgressSink, ProgressUpdate, RecordingConfirmSink, RecordingProgressSink,
    TextProgressSink,
};
pub use ui_mode::{
    can_prompt_operator_from, detect_ui_mode, is_interactive_terminal_from, UiMode,
};
