use uniterm_server::detection::{
    detection_candidate_can_apply, detection_dwell, stale_cooperative_fallback, AgentStatus,
    DetectionAuthority,
};
use uniterm_server::launch::{native_resume_args, AgentLaunchSnap, ProviderRules};
use uniterm_server::text::retain_recent_utf8;

const IDLE_DWELL_MS: u64 = 700;

fn providers() -> Vec<ProviderRules> {
    vec![ProviderRules {
        id: "codex".into(),
        executables: vec!["codex".into()],
        announce_start: "start; ".into(),
        announce_end: "; end".into(),
    }]
}

fn words(list: &[&str]) -> Vec<String> {
    list.iter().map(|word| word.to_string()).collect()
}

#[test]
fn native_resume_rejects_forged_or_foreign_argv() {
    let legit = AgentLaunchSnap {
        provider: "codex".into(),
        session_id: Some("abc".into()),
        resume_command: words(&["codex", "resume", "abc"]),
    };
    let args = native_resume_args("/bin/sh", &legit, &providers()).unwrap();
    assert_eq!(args.len(), 2);
    assert!(args[1].contains("'codex' 'resume' 'abc'"));

    let forged = AgentLaunchSnap {
        provider: "codex".into(),
        session_id: None,
        resume_command: words(&["sh", "-c", "rm -rf ~"]),
    };
    assert!(native_resume_args("/bin/sh", &forged, &providers()).is_none());

    let self_named_shell = AgentLaunchSnap {
        provider: "sh".into(),
        session_id: Some("forged".into()),
        resume_command: words(&["sh", "-c", "touch /tmp/forged"]),
    };
    assert!(native_resume_args("/bin/sh", &self_named_shell, &providers()).is_none());

    let empty = AgentLaunchSnap {
        provider: "codex".into(),
        session_id: None,
        resume_command: Vec::new(),
    };
    assert!(native_resume_args("/bin/sh", &empty, &providers()).is_none());
}

#[test]
fn recent_output_truncation_keeps_the_utf8_safe_tail() {
    let mut text = "oldénew".to_string();
    assert!(retain_recent_utf8(&mut text, 4));
    assert_eq!(text, "new");

    let mut exact = "énew".to_string();
    assert!(!retain_recent_utf8(&mut exact, 5));
    assert_eq!(exact, "énew");
}

#[test]
fn screen_verdicts_override_cooperative_state_only_when_bootstrapping_or_stale() {
    assert!(stale_cooperative_fallback(
        AgentStatus::Working,
        DetectionAuthority::Osc777,
        AgentStatus::Idle,
    ));
    assert!(detection_candidate_can_apply(
        AgentStatus::Working,
        DetectionAuthority::Osc777,
        AgentStatus::Idle,
        DetectionAuthority::Grid,
    ));
    assert!(!detection_candidate_can_apply(
        AgentStatus::Idle,
        DetectionAuthority::Osc777,
        AgentStatus::Working,
        DetectionAuthority::Grid,
    ));
    assert!(!stale_cooperative_fallback(
        AgentStatus::Permission,
        DetectionAuthority::Osc777,
        AgentStatus::Idle,
    ));
    assert!(!stale_cooperative_fallback(
        AgentStatus::Working,
        DetectionAuthority::Grid,
        AgentStatus::Idle,
    ));
    assert!(detection_candidate_can_apply(
        AgentStatus::Starting,
        DetectionAuthority::Osc777,
        AgentStatus::Idle,
        DetectionAuthority::Grid,
    ));
    assert_eq!(
        detection_dwell(AgentStatus::Idle, IDLE_DWELL_MS),
        IDLE_DWELL_MS
    );
    assert!(detection_candidate_can_apply(
        AgentStatus::Working,
        DetectionAuthority::Log,
        AgentStatus::Permission,
        DetectionAuthority::Grid,
    ));
}
