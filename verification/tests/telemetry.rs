use tool_runtime::backend::{SandboxCleanupOutcome, ToolBatchMetadata};
use tool_runtime::telemetry::{
    finish_sandbox_metadata, MetricUpdate, Observation, SandboxOperation, SandboxOperationLabels,
    SandboxOperationOutcome, ToolBackendLabel, ToolExecutionOutcome, ToolExecutionRecord,
    ToolRuntimeLimit, ToolRuntimeOutcome, ToolRuntimeTelemetry,
};
use tool_runtime::time::{Duration, Instant};

const NOW: Instant = Instant { nanos: 100_000_000_000 };

fn earlier(secs: u64) -> Instant {
    Instant { nanos: NOW.nanos - secs * 1_000_000_000 }
}

fn cleanup_metadata(duration: Option<Duration>) -> ToolBatchMetadata {
    ToolBatchMetadata {
        sandbox_cleanup: Some(SandboxCleanupOutcome::Success),
        sandbox_cleanup_duration: duration,
        ..Default::default()
    }
}

fn sandbox_durations(log: &[Observation]) -> Vec<Duration> {
    log.iter()
        .flat_map(|observation| observation.updates())
        .filter_map(|update| match update {
            MetricUpdate::SandboxOperationDuration(_, duration) => Some(duration),
            _ => None,
        })
        .collect()
}

#[test]
fn sandbox_cleanup_metadata_explicit_duration_takes_precedence() {
    let mut log = Vec::new();
    let mut telemetry = ToolRuntimeTelemetry::new();
    telemetry.start_sandbox_operation(1, SandboxOperation::Cleanup, earlier(30));

    finish_sandbox_metadata(
        &mut telemetry,
        1,
        cleanup_metadata(Some(Duration::from_secs(2))),
        None,
        NOW,
        &mut log,
    );

    assert_eq!(sandbox_durations(&log), vec![Duration::from_secs(2)]);
}

#[test]
fn sandbox_cleanup_metadata_without_duration_uses_recorded_start() {
    let mut log = Vec::new();
    let mut telemetry = ToolRuntimeTelemetry::new();
    telemetry.start_sandbox_operation(2, SandboxOperation::Cleanup, earlier(5));

    finish_sandbox_metadata(&mut telemetry, 2, cleanup_metadata(None), None, NOW, &mut log);

    let durations = sandbox_durations(&log);
    assert_eq!(durations.len(), 1);
    assert!(
        durations[0].nanos >= 5_000_000_000,
        "recorded start supplies elapsed duration: {}",
        durations[0].nanos
    );
}

#[test]
fn sandbox_cleanup_metadata_duplicate_is_suppressed() {
    let mut log = Vec::new();
    let mut telemetry = ToolRuntimeTelemetry::new();
    telemetry.start_sandbox_operation(3, SandboxOperation::Cleanup, earlier(30));

    finish_sandbox_metadata(
        &mut telemetry,
        3,
        cleanup_metadata(Some(Duration::from_secs(2))),
        None,
        NOW,
        &mut log,
    );
    finish_sandbox_metadata(
        &mut telemetry,
        3,
        cleanup_metadata(Some(Duration::from_secs(9))),
        None,
        NOW,
        &mut log,
    );

    assert_eq!(sandbox_durations(&log), vec![Duration::from_secs(2)]);
    let labels = SandboxOperationLabels {
        operation: SandboxOperation::Cleanup,
        outcome: SandboxOperationOutcome::Success,
    };
    let counted = log
        .iter()
        .flat_map(|observation| observation.updates())
        .filter(|update| *update == MetricUpdate::SandboxOperations(labels.clone()))
        .count();
    assert_eq!(counted, 1);
}

#[test]
fn labels_have_their_names() {
    assert_eq!(ToolBackendLabel::Http.as_str(), "http");
    assert_eq!(ToolBackendLabel::E2b.as_str(), "e2b");
    assert_eq!(ToolBackendLabel::RemoteMcp.as_str(), "remote_mcp");
    assert_eq!(ToolExecutionOutcome::InfrastructureError.as_str(), "infrastructure_error");
    assert_eq!(ToolRuntimeOutcome::Cancelled.as_str(), "cancelled");
    assert_eq!(SandboxOperation::Terminate.as_str(), "terminate");
    assert_eq!(SandboxOperationOutcome::Timeout.as_str(), "timeout");
    assert_eq!(ToolRuntimeLimit::ToolCalls.as_str(), "tool_calls");
}

#[test]
fn a_call_is_observed_from_its_queue_to_its_end_and_once() {
    let mut log = Vec::new();
    let mut telemetry = ToolRuntimeTelemetry::new();
    let tool = "query_orders".to_owned();
    telemetry.start_call(0, &tool, ToolBackendLabel::Http, earlier(4), &mut log);
    telemetry.mark_call_executing(0, &mut log);
    let ended = ToolExecutionRecord {
        tool: tool.clone(),
        backend: ToolBackendLabel::Http,
        outcome: ToolExecutionOutcome::Success,
    };
    telemetry.record(0, ended.clone(), true, NOW, &mut log);
    telemetry.record(0, ended.clone(), true, NOW, &mut log);
    assert_eq!(log.len(), 3);
    assert_eq!(
        log[2],
        Observation::Call { record: ended, truncated: true, duration: Duration::from_secs(4) }
    );
}

#[test]
fn what_has_not_ended_is_cancelled_with_the_request() {
    let mut log = Vec::new();
    let mut telemetry = ToolRuntimeTelemetry::new();
    telemetry.start_model_round(1, earlier(1));
    telemetry.start_call(0, &"t".to_owned(), ToolBackendLabel::E2b, earlier(2), &mut log);
    telemetry.start_sandbox_operation(0, SandboxOperation::Create, earlier(3));
    let before = log.len();
    telemetry.finish_unfinished(NOW, &mut log);
    assert_eq!(log.len(), before + 3);
    telemetry.finish_unfinished(NOW, &mut log);
    assert_eq!(log.len(), before + 3);
}
