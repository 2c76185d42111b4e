use merge_mp4::config::AppConfig;
use merge_mp4::engine::{Engine, EngineError, TaskKind};
use merge_mp4::merge::MergeEvent;

#[test]
fn a_second_task_of_a_kind_is_refused_while_the_first_runs() {
    let mut engine = Engine::new(AppConfig::default());
    assert_eq!(engine.begin(TaskKind::Scan), Ok(()));
    assert_eq!(engine.begin(TaskKind::Scan), Err(EngineError::Busy(TaskKind::Scan)));
    assert_eq!(engine.begin(TaskKind::Merge), Ok(()));
    assert_eq!(engine.begin(TaskKind::Merge), Err(EngineError::Busy(TaskKind::Merge)));
    assert!(engine.is_active(TaskKind::Scan));
    assert!(engine.is_active(TaskKind::Merge));
}

#[test]
fn a_task_that_has_ended_makes_room_for_the_next() {
    let mut engine = Engine::new(AppConfig::default());
    engine.begin(TaskKind::Merge).unwrap();
    engine.finish(TaskKind::Merge);
    assert!(!engine.is_active(TaskKind::Merge));
    assert_eq!(engine.begin(TaskKind::Merge), Ok(()));
    engine.finish(TaskKind::Scan);
    assert!(engine.is_active(TaskKind::Merge));
}

#[test]
fn a_scan_remembers_its_directory() {
    let mut engine = Engine::new(AppConfig::default());
    assert_eq!(engine.begin_scan("/videos".to_string()), Ok(()));
    assert_eq!(engine.config().get_last_query_directory(), Some("/videos".to_string()));
    assert_eq!(engine.begin_scan("/other".to_string()), Err(EngineError::Busy(TaskKind::Scan)));
    assert_eq!(engine.config().get_last_query_directory(), Some("/videos".to_string()));
    engine.finish(TaskKind::Scan);
    assert_eq!(engine.begin_scan("/other".to_string()), Ok(()));
    assert_eq!(engine.config().get_last_query_directory(), Some("/other".to_string()));
}

#[test]
fn the_terminal_event_ends_the_merge() {
    let mut engine = Engine::new(AppConfig::default());
    engine.begin(TaskKind::Merge).unwrap();
    assert!(!engine.merge_event(&MergeEvent::Status("checking environment".to_string())));
    assert!(!engine.merge_event(&MergeEvent::Progress(10000)));
    assert!(engine.is_active(TaskKind::Merge));
    assert!(engine.merge_event(&MergeEvent::Success("saved to /o.mp4".to_string())));
    assert!(!engine.is_active(TaskKind::Merge));
    engine.begin(TaskKind::Merge).unwrap();
    assert!(engine.merge_event(&MergeEvent::Error("cancelled".to_string())));
    assert!(!engine.is_active(TaskKind::Merge));
}

#[test]
fn a_repeated_request_to_delete_is_recognised() {
    let mut engine = Engine::new(AppConfig::default());
    assert!(engine.begin_delete("/a.mp4".to_string()));
    assert!(!engine.begin_delete("/a.mp4".to_string()));
    assert!(engine.begin_delete("/b.mp4".to_string()));
    assert!(engine.is_deleting(&"/a.mp4".to_string()));
    engine.finish_delete(&"/a.mp4".to_string());
    assert!(!engine.is_deleting(&"/a.mp4".to_string()));
    assert!(engine.is_deleting(&"/b.mp4".to_string()));
    assert!(engine.begin_delete("/a.mp4".to_string()));
}

#[test]
fn the_engine_writes_through_to_its_settings() {
    let mut engine = Engine::new(AppConfig::default());
    engine.set_output_directory("/out".to_string());
    engine.set_last_input_directory("/in".to_string());
    assert_eq!(engine.config().output_directory, Some("/out".to_string()));
    assert_eq!(engine.config().get_last_input_directory(), Some("/in".to_string()));
    engine.clear_output_directory();
    assert_eq!(engine.config().output_directory, None);
    assert_eq!(engine.config().last_input_directory, Some("/in".to_string()));
}
