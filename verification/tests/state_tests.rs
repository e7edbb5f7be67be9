use logo_designer::state::{style, AppState, GenerationStatus, ImageRecord, LogEntry, Session, STYLE_COUNT};
use logo_designer::workflow::{GenerationOutcome, Plan};

fn session(id: &str, name: &str) -> Session {
    Session {
        id: id.to_string(),
        name: name.to_string(),
        created_at: "2024-05-01T10:00:00+00:00".to_string(),
        updated_at: "2024-05-02T11:30:00+00:00".to_string(),
    }
}

fn image(id: &str, session_id: &str) -> ImageRecord {
    ImageRecord {
        id: id.to_string(),
        session_id: session_id.to_string(),
        prompt: "mountain logo".to_string(),
        model: "recraft-v4-text-to-vector".to_string(),
        parent_image_id: None,
        filename: format!("{}.svg", id),
        file_type: "svg".to_string(),
        created_at: "2024-05-02T11:30:00+00:00".to_string(),
    }
}

fn log(id: &str, status: &str, detail: &str) -> LogEntry {
    LogEntry {
        id: id.to_string(),
        timestamp: "2024-05-02T11:30:00+00:00".to_string(),
        endpoint: "fal-ai/recraft/v4/pro/text-to-vector".to_string(),
        prompt: "mountain logo".to_string(),
        status: status.to_string(),
        detail: detail.to_string(),
        duration_ms: 1234,
    }
}

fn state_with(sessions: Vec<Session>) -> AppState {
    AppState::new(sessions, Some("key-123".to_string()), Vec::new())
}

#[test]
fn new_state_starts_idle() {
    let state = AppState::new(vec![session("s1", "One")], None, vec![log("l1", "success", "ok")]);
    assert_eq!(state.sessions.len(), 1);
    assert_eq!(state.active_session_id, None);
    assert!(state.session_images.is_empty());
    assert_eq!(state.selected_image_id, None);
    assert_eq!(state.selected_style_idx, 0);
    assert_eq!(state.status, GenerationStatus::Idle);
    assert_eq!(state.fal_key, None);
    assert_eq!(state.logs.len(), 1);
}

#[test]
fn created_sessions_go_first() {
    let mut state = state_with(vec![session("s1", "One")]);
    let created = state.create_session("Untitled Logo");
    assert_eq!(created.name, "Untitled Logo");
    assert_eq!(created.id.len(), 36);
    for (i, c) in created.id.chars().enumerate() {
        if [8, 13, 18, 23].contains(&i) {
            assert_eq!(c, '-');
        } else {
            assert!(c.is_ascii_digit() || ('a'..='f').contains(&c));
        }
    }
    assert_eq!(created.id.chars().nth(14), Some('4'));
    assert!("89ab".contains(created.id.chars().nth(19).unwrap()));
    assert!(created.created_at.ends_with("+00:00") && created.created_at.is_ascii());
    assert!(created.updated_at.ends_with("+00:00") && created.updated_at.is_ascii());
    assert_eq!(state.sessions.len(), 2);
    assert_eq!(state.sessions[0].id, created.id);
    assert_eq!(state.sessions[1].id, "s1");
    let other = state.create_session("Second");
    assert_ne!(other.id, created.id);
    assert_eq!(state.sessions[0].name, "Second");
}

#[test]
fn inserted_session_keeps_given_identity() {
    let mut state = state_with(Vec::new());
    let s = state.insert_new_session("abc".to_string(), "Name", "t1".to_string(), "t2".to_string());
    assert_eq!((s.id.as_str(), s.name.as_str(), s.created_at.as_str(), s.updated_at.as_str()), ("abc", "Name", "t1", "t2"));
    assert_eq!(state.sessions[0].id, "abc");
}

#[test]
fn reload_replaces_sessions() {
    let mut state = state_with(vec![session("s1", "One")]);
    state.reload_sessions(vec![session("s2", "Two"), session("s3", "Three")]);
    assert_eq!(state.sessions.len(), 2);
    assert_eq!(state.sessions[0].id, "s2");
}

#[test]
fn selecting_a_session_shows_its_images() {
    let mut state = state_with(vec![session("s1", "One")]);
    state.selected_image_id = Some("old".to_string());
    state.select_session("s1", vec![image("i1", "s1"), image("i2", "s1")]);
    assert_eq!(state.active_session_id.as_deref(), Some("s1"));
    assert_eq!(state.selected_image_id, None);
    assert_eq!(state.session_images.len(), 2);
    assert_eq!(state.active_session().unwrap().name, "One");
}

#[test]
fn deleting_the_active_session_clears_the_view() {
    let mut state = state_with(vec![session("s1", "One"), session("s2", "Two"), session("s1", "Dup")]);
    state.select_session("s1", vec![image("i1", "s1")]);
    state.selected_image_id = Some("i1".to_string());
    state.delete_session("s1");
    assert_eq!(state.sessions.len(), 1);
    assert_eq!(state.sessions[0].id, "s2");
    assert_eq!(state.active_session_id, None);
    assert!(state.session_images.is_empty());
    assert_eq!(state.selected_image_id, None);
}

#[test]
fn deleting_another_session_keeps_the_view() {
    let mut state = state_with(vec![session("s1", "One"), session("s2", "Two")]);
    state.select_session("s1", vec![image("i1", "s1")]);
    state.delete_session("s2");
    assert_eq!(state.sessions.len(), 1);
    assert_eq!(state.active_session_id.as_deref(), Some("s1"));
    assert_eq!(state.session_images.len(), 1);
    state.delete_session("missing");
    assert_eq!(state.sessions.len(), 1);
}

#[test]
fn renaming_changes_only_the_first_match() {
    let mut state = state_with(vec![session("s1", "One"), session("s2", "Two"), session("s2", "Again")]);
    state.rename_session("s2", "Renamed");
    assert_eq!(state.sessions[0].name, "One");
    assert_eq!(state.sessions[1].name, "Renamed");
    assert_eq!(state.sessions[1].updated_at, "2024-05-02T11:30:00+00:00");
    assert_eq!(state.sessions[2].name, "Again");
    state.rename_session("nope", "X");
    assert_eq!(state.sessions[0].name, "One");
}

#[test]
fn saving_the_key() {
    let mut state = AppState::new(Vec::new(), None, Vec::new());
    state.save_fal_key("abc");
    assert_eq!(state.fal_key.as_deref(), Some("abc"));
}

#[test]
fn added_images_are_selected() {
    let mut state = state_with(vec![session("s1", "One")]);
    state.add_image(image("i1", "s1"));
    state.add_image(image("i2", "s1"));
    assert_eq!(state.session_images.len(), 2);
    assert_eq!(state.selected_image_id.as_deref(), Some("i2"));
    assert_eq!(state.selected_image().unwrap().id, "i2");
    state.selected_image_id = Some("gone".to_string());
    assert!(state.selected_image().is_none());
}

#[test]
fn logs_are_newest_first() {
    let mut state = state_with(Vec::new());
    state.add_log(log("l1", "success", "a"));
    state.add_log(log("l2", "error", "b"));
    assert_eq!(state.logs[0].id, "l2");
    assert_eq!(state.logs[1].id, "l1");
}

#[test]
fn styles_cycle_through_all() {
    let mut state = state_with(Vec::new());
    assert_eq!(state.style_value(), "vector_illustration/flat_2");
    let mut seen = Vec::new();
    for _ in 0..STYLE_COUNT {
        state.next_style();
        seen.push(state.style_value().to_string());
    }
    assert_eq!(state.selected_style_idx, 0);
    assert_eq!(seen[0], "vector_illustration/line_art");
    assert_eq!(seen[4], "vector_illustration/engraving");
    assert_eq!(style(2), ("vector_illustration/cartoon", "Cartoon"));
    assert_eq!(style(4), ("vector_illustration/doodle_line_art", "Doodle"));
}

#[test]
fn active_session_needs_a_listed_id() {
    let mut state = state_with(vec![session("s1", "One")]);
    assert!(state.active_session().is_none());
    state.select_session("zz", Vec::new());
    assert!(state.active_session().is_none());
}

#[test]
fn planning_a_generation() {
    let mut state = state_with(vec![session("s1", "One")]);
    assert!(matches!(state.plan_generation("   \n"), Plan::Skip));
    assert_eq!(state.status, GenerationStatus::Idle);
    assert!(matches!(state.plan_generation("logo"), Plan::Skip));
    state.select_session("s1", Vec::new());
    state.next_style();
    match state.plan_generation("  logo ") {
        Plan::Start(job) => {
            assert_eq!(job.api_key, "key-123");
            assert_eq!(job.session_id, "s1");
            assert_eq!(job.prompt, "  logo ");
            assert_eq!(job.style, "vector_illustration/line_art");
        }
        other => panic!("unexpected plan {:?}", other),
    }
    assert_eq!(state.status, GenerationStatus::Generating);
}

#[test]
fn planning_without_a_key_reports_it() {
    let mut state = AppState::new(Vec::new(), None, Vec::new());
    assert!(matches!(state.plan_generation("logo"), Plan::MissingKey));
    assert_eq!(state.status, GenerationStatus::Error("No API key set".to_string()));
    let mut state = AppState::new(Vec::new(), None, Vec::new());
    assert!(matches!(state.plan_evolution("gold"), Plan::MissingKey));
    assert_eq!(state.status.status_text(), "Error: No API key set");
}

#[test]
fn planning_an_evolution() {
    let mut state = state_with(vec![session("s1", "One")]);
    state.select_session("s1", vec![image("i1", "s1"), image("i2", "s1")]);
    assert!(matches!(state.plan_evolution("make it gold"), Plan::Skip));
    state.selected_image_id = Some("i2".to_string());
    assert!(matches!(state.plan_evolution(""), Plan::Skip));
    match state.plan_evolution("make it gold") {
        Plan::Start(job) => {
            assert_eq!(job.parent.id, "i2");
            assert_eq!(job.session_id, "s1");
            assert_eq!(job.prompt, "make it gold");
        }
        other => panic!("unexpected plan {:?}", other),
    }
    assert_eq!(state.status, GenerationStatus::Generating);
}

#[test]
fn finishing_a_generation() {
    let mut state = state_with(vec![session("s1", "One")]);
    state.status = GenerationStatus::Generating;
    state.finish_generation(GenerationOutcome::Created { image: image("i9", "s1"), log: log("l1", "success", "url=x") });
    assert_eq!(state.status, GenerationStatus::Idle);
    assert_eq!(state.logs[0].id, "l1");
    assert_eq!(state.selected_image_id.as_deref(), Some("i9"));

    state.finish_generation(GenerationOutcome::Failed { log: log("l2", "error", "FAL request failed: timeout") });
    assert_eq!(state.status, GenerationStatus::Error("FAL request failed: timeout".to_string()));
    assert_eq!(state.logs.len(), 2);

    state.finish_generation(GenerationOutcome::Aborted { error: "Download failed: 404".to_string() });
    assert_eq!(state.status, GenerationStatus::Error("Download failed: 404".to_string()));
    assert_eq!(state.logs.len(), 2);
}

#[test]
fn finishing_an_evolution() {
    let mut state = state_with(vec![session("s1", "One")]);
    state.finish_evolution(Err("Failed to read image: missing".to_string()));
    assert_eq!(state.status, GenerationStatus::Error("Failed to read image: missing".to_string()));
    state.finish_evolution(Ok(image("i3", "s1")));
    assert_eq!(state.status, GenerationStatus::Idle);
    assert_eq!(state.selected_image_id.as_deref(), Some("i3"));
}

#[test]
fn submitting_the_api_key_trims_it() {
    let mut state = AppState::new(Vec::new(), None, Vec::new());
    assert!(!state.submit_api_key("   "));
    assert_eq!(state.fal_key, None);
    assert!(state.submit_api_key("  fal-key\n"));
    assert_eq!(state.fal_key.as_deref(), Some("fal-key"));
}

#[test]
fn status_texts() {
    assert_eq!(GenerationStatus::Idle.status_text(), "");
    assert_eq!(GenerationStatus::Generating.status_text(), "Generating...");
    assert_eq!(GenerationStatus::Error("boom".to_string()).status_text(), "Error: boom");
    assert_eq!(GenerationStatus::Error("x".to_string()).clone(), GenerationStatus::Error("x".to_string()));
}

#[test]
fn clones_keep_fields() {
    let s = session("s1", "One").clone();
    assert_eq!(s.name, "One");
    let mut img = image("i1", "s1");
    img.parent_image_id = Some("p".to_string());
    assert_eq!(img.clone().parent_image_id.as_deref(), Some("p"));
    assert_eq!(log("l", "error", "d").clone().duration_ms, 1234);
}

#[test]
fn a_new_session_once_selected_is_active() {
    let mut state = state_with(vec![session("s1", "One"), session("s2", "Two")]);
    let created = state.create_session("Untitled Logo");
    state.select_session(&created.id, Vec::new());
    let active = state.active_session().unwrap();
    assert_eq!(active.id, created.id);
    assert_eq!(active.name, "Untitled Logo");
}
