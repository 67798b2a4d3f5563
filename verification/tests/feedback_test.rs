use mahgit::operations::OperationResult;
use mahgit::ui::feedback::FeedbackManager;
use std::time::{Duration, Instant};

#[test]
fn test_feedback_manager_new() {
    let manager = FeedbackManager::new();
    assert!(manager.get_current_message().is_none());
    assert!(!manager.has_active_message());
}

#[test]
fn test_show_result() {
    let mut manager = FeedbackManager::new();
    let result = OperationResult::new("Test message".to_string());
    manager.show_result(result);
    assert!(manager.has_active_message());
    let message = manager.get_current_message().unwrap();
    assert_eq!(message.message, "Test message");
}

#[test]
fn test_message_timeout() {
    let mut manager = FeedbackManager::new();
    let result = OperationResult::new("Test message".to_string());
    manager.show_result(result);
    assert!(manager.has_active_message());
    manager.shown_at = Some(Instant::now().checked_sub(Duration::from_secs(4)).expect("clock reaches back four seconds"));
    assert!(!manager.has_active_message());
    assert!(manager.get_current_message().is_none());
}

#[test]
fn test_clear_message() {
    let mut manager = FeedbackManager::new();
    let result = OperationResult::new("Test message".to_string());
    manager.show_result(result);
    assert!(manager.has_active_message());
    manager.clear_message();
    assert!(!manager.has_active_message());
    assert!(manager.get_current_message().is_none());
}

#[test]
fn test_message_replacement() {
    let mut manager = FeedbackManager::new();
    let result1 = OperationResult::new("First message".to_string());
    let result2 = OperationResult::new("Second message".to_string());
    manager.show_result(result1);
    assert_eq!(manager.get_current_message().unwrap().message, "First message");
    manager.show_result(result2);
    assert_eq!(manager.get_current_message().unwrap().message, "Second message");
}

#[test]
fn message_is_hidden_once_its_time_has_passed() {
    let mut manager = FeedbackManager::new();
    manager.show_result(OperationResult::new("Saved".to_string()));
    assert!(manager.message_shown(Some(0)).is_some());
    assert!(manager.message_shown(Some(2_999_999_999)).is_some());
    assert!(manager.message_shown(Some(3_000_000_000)).is_none());
    assert!(manager.message_shown(None).is_none());
    manager.clear_message();
    assert!(manager.message_shown(Some(0)).is_none());
}

#[test]
fn operation_result_is_shown_with_a_check_mark() {
    let result = OperationResult::new("Staged file.txt".to_string());
    assert_eq!(result.to_display_string(), "\u{2713} Staged file.txt");
}
