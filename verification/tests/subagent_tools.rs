use agent_workbench::json::result_content;
use agent_workbench::tools::await_subagent_tool::{
    AwaitStep, AwaitSubagentTool, AwaitSubagentToolInput, AwaitSubagentToolOutput,
    DEFAULT_TIMEOUT_SECONDS, POLL_INTERVAL_MILLIS,
};
use agent_workbench::tools::cancel_subagent_tool::{
    CancelSubagentTool, CancelSubagentToolInput, CancelSubagentToolOutput,
};
use agent_workbench::tools::list_subagents_tool::{
    ListSubagentsTool, ListSubagentsToolInput, ListSubagentsToolOutput,
};
use agent_workbench::tools::message_subagent_tool::{
    Delivery, MessageSubagentTool, MessageSubagentToolInput, MessageSubagentToolOutput,
};
use agent_workbench::tools::spawn_agent_background_tool::{
    title_from_label, SpawnAgentBackgroundTool, SpawnAgentBackgroundToolInput,
    SpawnAgentBackgroundToolOutput, SpawnReplay, SpawnRequest, SpawnTarget,
};
use agent_workbench::tools::subagents::{
    copied, count_running, find_subagent, runs, LanguageModelToolResultContent, SessionId,
    SubagentMessageResult, SubagentSessionInfo, SubagentSummary, ToolKind,
};

fn session(id: &str) -> SessionId {
    SessionId::new(id.to_string())
}

fn summary(id: &str, status: &str) -> SubagentSummary {
    SubagentSummary {
        session_id: session(id),
        label: format!("label of {id}"),
        status: status.to_string(),
        output: None,
        error: None,
    }
}

fn info(id: &str, start: usize) -> SubagentSessionInfo {
    SubagentSessionInfo {
        session_id: session(id),
        message_start_index: start,
        message_end_index: None,
    }
}

fn done(step: AwaitStep) -> Result<AwaitSubagentToolOutput, AwaitSubagentToolOutput> {
    match step {
        AwaitStep::Done(result) => result,
        AwaitStep::Wait => panic!("the wait goes on"),
    }
}

#[test]
fn finding_takes_the_first_of_a_session() {
    let mut second = summary("a", "failed");
    second.error = Some("later".to_string());
    let all = vec![summary("b", "running"), summary("a", "completed"), second];
    assert_eq!(find_subagent(&all, &session("a")), Some(1));
    assert_eq!(find_subagent(&all, &session("b")), Some(0));
    assert_eq!(find_subagent(&all, &session("c")), None);
    assert_eq!(find_subagent(&Vec::new(), &session("a")), None);
}

#[test]
fn only_the_status_running_counts() {
    let all = vec![
        summary("a", "running"),
        summary("b", "completed"),
        summary("c", "failed"),
        summary("d", "cancelled"),
        summary("e", "Running"),
        summary("f", "running"),
    ];
    assert_eq!(count_running(&all), 2);
    assert!(runs(&all[0]));
    assert!(!runs(&all[4]));
    assert_eq!(count_running(&Vec::new()), 0);
}

#[test]
fn copies_are_equal() {
    assert_eq!(copied(&Some("x".to_string())), Some("x".to_string()));
    assert_eq!(copied(&None), None);
    assert_eq!(session("s").clone(), session("s"));
}

#[test]
fn names_kinds_and_titles() {
    let awaiting = AwaitSubagentTool::new(5u8);
    assert_eq!(awaiting.environment, 5u8);
    assert_eq!(AwaitSubagentTool::<u8>::name(), "await_subagent");
    assert_eq!(AwaitSubagentTool::<u8>::kind(), ToolKind::Other);
    assert_eq!(awaiting.initial_title(), "Waiting for background sub-agent");

    let cancelling = CancelSubagentTool::new("env");
    assert_eq!(cancelling.environment, "env");
    assert_eq!(CancelSubagentTool::<u8>::name(), "cancel_subagent");
    assert_eq!(CancelSubagentTool::<u8>::kind(), ToolKind::Other);
    assert_eq!(cancelling.initial_title(), "Cancelling background sub-agent");

    let listing = ListSubagentsTool::new(());
    assert_eq!(ListSubagentsTool::<u8>::name(), "list_subagents");
    assert_eq!(ListSubagentsTool::<u8>::kind(), ToolKind::Other);
    assert_eq!(listing.initial_title(), "Listing background sub-agents");

    let messaging = MessageSubagentTool::new(());
    assert_eq!(MessageSubagentTool::<u8>::name(), "message_subagent");
    assert_eq!(MessageSubagentTool::<u8>::kind(), ToolKind::Other);
    assert_eq!(messaging.initial_title(), "Messaging background sub-agent");

    assert_eq!(SpawnAgentBackgroundTool::<u8>::name(), "spawn_agent_background");
    assert_eq!(SpawnAgentBackgroundTool::<u8>::kind(), ToolKind::Other);
}

#[test]
fn awaiting_defaults_to_five_minutes() {
    assert_eq!(DEFAULT_TIMEOUT_SECONDS, 300);
    assert_eq!(POLL_INTERVAL_MILLIS, 200);
    let tool = AwaitSubagentTool::new(());
    let run = tool
        .run(Ok(AwaitSubagentToolInput { session_id: session("s"), timeout_seconds: None }))
        .unwrap();
    assert_eq!(run.session_id, session("s"));
    assert_eq!(run.timeout_seconds, 300);
    let run = tool
        .run(Ok(AwaitSubagentToolInput { session_id: session("s"), timeout_seconds: Some(0) }))
        .unwrap();
    assert_eq!(run.timeout_seconds, 0);
}

#[test]
fn awaiting_without_input_fails() {
    let tool = AwaitSubagentTool::new(());
    let error = tool.run(Err("no input".to_string())).unwrap_err();
    assert_eq!(error, AwaitSubagentToolOutput::Error { error: "no input".to_string() });
}

#[test]
fn awaiting_an_unknown_session_fails() {
    let tool = AwaitSubagentTool::new(());
    let run = tool
        .run(Ok(AwaitSubagentToolInput { session_id: session("gone"), timeout_seconds: None }))
        .unwrap();
    let step = run.poll(&vec![summary("other", "running")], 0);
    assert_eq!(
        done(step),
        Err(AwaitSubagentToolOutput::Error {
            error: "No background sub-agent with session id gone".to_string()
        })
    );
}

#[test]
fn awaiting_goes_on_until_the_timeout() {
    let tool = AwaitSubagentTool::new(());
    let run = tool
        .run(Ok(AwaitSubagentToolInput { session_id: session("s"), timeout_seconds: Some(2) }))
        .unwrap();
    let running = vec![summary("s", "running")];
    assert!(matches!(run.poll(&running, 0), AwaitStep::Wait));
    assert!(matches!(run.poll(&running, 1), AwaitStep::Wait));
    let timed_out = AwaitSubagentToolOutput::TimedOut {
        session_id: session("s"),
        status: "running".to_string(),
    };
    assert_eq!(done(run.poll(&running, 2)), Ok(timed_out));
    assert!(matches!(
        done(run.poll(&running, 9)),
        Ok(AwaitSubagentToolOutput::TimedOut { .. })
    ));
}

#[test]
fn awaiting_returns_a_finished_result_even_late() {
    let tool = AwaitSubagentTool::new(());
    let run = tool
        .run(Ok(AwaitSubagentToolInput { session_id: session("s"), timeout_seconds: Some(1) }))
        .unwrap();
    let mut finished = summary("s", "completed");
    finished.output = Some("42".to_string());
    let all = vec![finished];
    for elapsed in [0u64, 1, 100] {
        assert_eq!(
            done(run.poll(&all, elapsed)),
            Ok(AwaitSubagentToolOutput::Finished {
                session_id: session("s"),
                status: "completed".to_string(),
                output: Some("42".to_string()),
                error: None,
            })
        );
    }
    let mut failed = summary("s", "failed");
    failed.error = Some("boom".to_string());
    assert_eq!(
        done(run.poll(&vec![failed], 0)),
        Ok(AwaitSubagentToolOutput::Finished {
            session_id: session("s"),
            status: "failed".to_string(),
            output: None,
            error: Some("boom".to_string()),
        })
    );
}

#[test]
fn await_outputs_as_json() {
    let finished = AwaitSubagentToolOutput::Finished {
        session_id: session("s"),
        status: "completed".to_string(),
        output: Some("say \"hi\"".to_string()),
        error: None,
    };
    assert_eq!(
        LanguageModelToolResultContent::from(finished).text,
        "{\"session_id\":\"s\",\"status\":\"completed\",\"output\":\"say \\\"hi\\\"\",\"error\":null}"
    );
    let timed_out = AwaitSubagentToolOutput::TimedOut {
        session_id: session("s"),
        status: "running".to_string(),
    };
    assert_eq!(
        LanguageModelToolResultContent::from(timed_out).text,
        "{\"session_id\":\"s\",\"status\":\"running\",\"timed_out\":true}"
    );
    let error = AwaitSubagentToolOutput::Error { error: "line\nbreak".to_string() };
    assert_eq!(LanguageModelToolResultContent::from(error).text, "{\"error\":\"line\\nbreak\"}");
}

#[test]
fn cancelling_reports_what_the_subagent_says() {
    let tool = CancelSubagentTool::new(());
    let asked = tool.run(Ok(CancelSubagentToolInput { session_id: session("s") })).unwrap();
    assert_eq!(asked, session("s"));
    let output = tool.after_cancel(&asked, Ok(summary("s", "cancelled"))).unwrap();
    assert_eq!(
        output,
        CancelSubagentToolOutput::Cancelled {
            session_id: session("s"),
            status: "cancelled".to_string(),
            message: "Cancelled background sub-agent s.".to_string(),
        }
    );
    assert_eq!(
        LanguageModelToolResultContent::from(output).text,
        "{\"session_id\":\"s\",\"status\":\"cancelled\",\"message\":\"Cancelled background sub-agent s.\"}"
    );
}

#[test]
fn cancelling_passes_errors_on() {
    let tool = CancelSubagentTool::new(());
    assert_eq!(
        tool.run(Err("bad input".to_string())),
        Err(CancelSubagentToolOutput::Error { error: "bad input".to_string() })
    );
    let error = tool.after_cancel(&session("s"), Err("unknown".to_string())).unwrap_err();
    assert_eq!(error, CancelSubagentToolOutput::Error { error: "unknown".to_string() });
    assert_eq!(LanguageModelToolResultContent::from(error).text, "{\"error\":\"unknown\"}");
}

#[test]
fn messages_are_queued_or_resume() {
    let tool = MessageSubagentTool::new(());
    let (to, text) = tool
        .run(Ok(MessageSubagentToolInput {
            session_id: session("s"),
            message: "go on".to_string(),
        }))
        .unwrap();
    assert_eq!((to, text), (session("s"), "go on".to_string()));
    let queued = Delivery { result: SubagentMessageResult::Queued, label: "queued".to_string() };
    assert_eq!(
        tool.after_message(session("s"), Ok(queued)),
        Ok(MessageSubagentToolOutput::Delivered {
            session_id: session("s"),
            status: "queued".to_string(),
            message: "Queued your message for background sub-agent s; it will be delivered after its current turn."
                .to_string(),
        })
    );
    let resumed = Delivery { result: SubagentMessageResult::Resumed, label: "resumed".to_string() };
    let output = tool.after_message(session("s"), Ok(resumed)).unwrap();
    assert_eq!(
        LanguageModelToolResultContent::from(output).text,
        "{\"session_id\":\"s\",\"status\":\"resumed\",\"message\":\"Resumed background sub-agent s with your message.\"}"
    );
}

#[test]
fn messaging_passes_errors_on() {
    let tool = MessageSubagentTool::new(());
    assert_eq!(
        tool.run(Err("bad input".to_string())),
        Err(MessageSubagentToolOutput::Error { error: "bad input".to_string() })
    );
    let error = tool.after_message(session("s"), Err("unknown".to_string())).unwrap_err();
    assert_eq!(LanguageModelToolResultContent::from(error).text, "{\"error\":\"unknown\"}");
}

#[test]
fn listing_returns_all_in_order() {
    let _input = ListSubagentsToolInput {};
    let tool = ListSubagentsTool::new(());
    let output = tool.run(vec![summary("b", "running"), summary("a", "failed")]).unwrap();
    assert_eq!(output.subagents, vec![summary("b", "running"), summary("a", "failed")]);
    assert_eq!(ListSubagentsToolOutput::content(Ok("{}".to_string())), "{}");
    assert_eq!(
        ListSubagentsToolOutput::content(Err("why".to_string())),
        "Failed to serialize list_subagents output: why"
    );
}

#[test]
fn serialization_failures_name_the_tool() {
    assert_eq!(result_content(Ok("ok".to_string()), "t"), "ok");
    assert_eq!(
        result_content(Err("bad".to_string()), "await_subagent"),
        "Failed to serialize await_subagent output: bad"
    );
}

fn spawn_input(resume: Option<&str>) -> SpawnAgentBackgroundToolInput {
    SpawnAgentBackgroundToolInput {
        label: "Research".to_string(),
        message: "Look into it".to_string(),
        session_id: resume.map(session),
    }
}

#[test]
fn spawning_titles() {
    let tool = SpawnAgentBackgroundTool::new(());
    assert_eq!(tool.initial_title(Ok(spawn_input(None))), "Research");
    let mut partial = serde_json::Map::new();
    partial.insert("label".to_string(), serde_json::Value::from("Half"));
    partial.insert("message".to_string(), serde_json::Value::from("other"));
    assert_eq!(tool.initial_title(Err(serde_json::Value::Object(partial))), "Half");
    let mut odd = serde_json::Map::new();
    odd.insert("label".to_string(), serde_json::Value::from(3));
    assert_eq!(
        tool.initial_title(Err(serde_json::Value::Object(odd))),
        "Spawning background agent"
    );
    assert_eq!(
        tool.initial_title(Err(serde_json::Value::Object(serde_json::Map::new()))),
        "Spawning background agent"
    );
    assert_eq!(tool.initial_title(Err(serde_json::Value::Null)), "Spawning background agent");
    assert_eq!(
        tool.initial_title(Err(serde_json::Value::from("label"))),
        "Spawning background agent"
    );
    assert_eq!(title_from_label(Some("x".to_string())), "x");
    assert_eq!(title_from_label(None), "Spawning background agent");
}

#[test]
fn spawning_creates_or_resumes() {
    let tool = SpawnAgentBackgroundTool::new(());
    assert_eq!(
        tool.run(Ok(spawn_input(None)), 8, &Vec::new()),
        Ok(SpawnRequest {
            target: SpawnTarget::Create("Research".to_string()),
            label: "Research".to_string(),
            message: "Look into it".to_string(),
        })
    );
    assert_eq!(
        tool.run(Ok(spawn_input(Some("old"))), 8, &Vec::new()),
        Ok(SpawnRequest {
            target: SpawnTarget::Resume(session("old")),
            label: "Research".to_string(),
            message: "Look into it".to_string(),
        })
    );
}

#[test]
fn spawning_respects_the_limit() {
    let tool = SpawnAgentBackgroundTool::new(());
    let two = vec![
        summary("a", "running"),
        summary("b", "completed"),
        summary("c", "running"),
    ];
    assert!(tool.run(Ok(spawn_input(None)), 3, &two).is_ok());
    assert_eq!(
        tool.run(Ok(spawn_input(None)), 2, &two),
        Err(SpawnAgentBackgroundToolOutput::Error {
            session_id: None,
            error: "Cannot start another background sub-agent: 2 are already running (limit 2). Wait for one to finish or cancel one with cancel_subagent."
                .to_string(),
        })
    );
    assert!(tool.run(Ok(spawn_input(None)), 1, &two).is_err());
    // A limit of zero is no limit.
    let many: Vec<SubagentSummary> = (0..40).map(|_| summary("x", "running")).collect();
    assert!(tool.run(Ok(spawn_input(None)), 0, &many).is_ok());
    let Err(SpawnAgentBackgroundToolOutput::Error { error, .. }) =
        tool.run(Ok(spawn_input(None)), 10, &many)
    else {
        panic!("over the limit");
    };
    assert!(error.contains(": 40 are already running (limit 10)."));
}

#[test]
fn spawning_without_input_fails_first() {
    let tool = SpawnAgentBackgroundTool::new(());
    let full = vec![summary("a", "running")];
    assert_eq!(
        tool.run(Err("bad input".to_string()), 1, &full),
        Err(SpawnAgentBackgroundToolOutput::Error {
            session_id: None,
            error: "bad input".to_string(),
        })
    );
}

#[test]
fn spawning_announces_the_session() {
    let tool = SpawnAgentBackgroundTool::new(());
    assert_eq!(tool.after_create(Ok((session("s"), 4))), Ok(info("s", 4)));
    assert_eq!(
        tool.after_create(Err("depth".to_string())),
        Err(SpawnAgentBackgroundToolOutput::Error {
            session_id: None,
            error: "depth".to_string(),
        })
    );
}

const NOTE: &str = "Started background sub-agent (session s). It is running now; use list_subagents to monitor it and collect its result later.";

#[test]
fn spawning_reports_the_start() {
    let tool = SpawnAgentBackgroundTool::new(());
    let output = tool.after_spawn(info("s", 4), Ok(())).unwrap();
    assert_eq!(
        output,
        SpawnAgentBackgroundToolOutput::Started {
            session_id: session("s"),
            status: "running".to_string(),
            message: NOTE.to_string(),
            session_info: info("s", 4),
        }
    );
    assert_eq!(
        LanguageModelToolResultContent::from(output).text,
        format!("{{\"session_id\":\"s\",\"status\":\"running\",\"message\":\"{NOTE}\"}}")
    );
}

#[test]
fn spawning_reports_a_failed_start_with_its_session() {
    let tool = SpawnAgentBackgroundTool::new(());
    let error = tool.after_spawn(info("s", 0), Err("busy".to_string())).unwrap_err();
    assert_eq!(
        error,
        SpawnAgentBackgroundToolOutput::Error {
            session_id: Some(session("s")),
            error: "busy".to_string(),
        }
    );
    assert_eq!(LanguageModelToolResultContent::from(error).text, "{\"session_id\":\"s\",\"error\":\"busy\"}");
    let no_session = SpawnAgentBackgroundToolOutput::Error {
        session_id: None,
        error: "busy".to_string(),
    };
    assert_eq!(LanguageModelToolResultContent::from(no_session).text, "{\"session_id\":null,\"error\":\"busy\"}");
}

#[test]
fn replay_repeats_the_start() {
    let tool = SpawnAgentBackgroundTool::new(());
    let output = tool.after_spawn(info("s", 4), Ok(())).unwrap();
    assert_eq!(
        tool.replay(output),
        SpawnReplay { content: NOTE.to_string(), session_info: Some(info("s", 4)) }
    );
    let failed = tool.after_spawn(info("s", 4), Err("busy".to_string())).unwrap_err();
    assert_eq!(
        tool.replay(failed),
        SpawnReplay { content: "busy".to_string(), session_info: None }
    );
}

#[test]
fn the_session_info_is_not_shown() {
    let output = |info: SubagentSessionInfo| SpawnAgentBackgroundToolOutput::Started {
        session_id: session("s"),
        status: "running".to_string(),
        message: NOTE.to_string(),
        session_info: info,
    };
    let shown = LanguageModelToolResultContent::from(output(info("s", 4)));
    let mut other = info("other", 99);
    other.message_end_index = Some(3);
    assert_eq!(shown, LanguageModelToolResultContent::from(output(other)));
    let parsed: serde_json::Value = serde_json::from_str(&shown.text).unwrap();
    let names: Vec<&String> = parsed.as_object().unwrap().keys().collect();
    assert_eq!(names, vec!["session_id", "status", "message"]);
}
