use ulm::response::{CommandSuggestion, RiskLevel};
use ulm::selector::{bypass_action, handle_key, App, Key, UserAction};

fn test_suggestions() -> Vec<CommandSuggestion> {
    vec![
        CommandSuggestion {
            command: "ls -la".to_string(),
            title: "List files".to_string(),
            explanation: "Lists all files".to_string(),
            risk_level: RiskLevel::Safe,
        },
        CommandSuggestion {
            command: "rm -rf /tmp/*".to_string(),
            title: "Clean temp".to_string(),
            explanation: "Removes temp files".to_string(),
            risk_level: RiskLevel::Destructive,
        },
    ]
}

fn test_app() -> App {
    App::new(vec![
        CommandSuggestion {
            command: "ls -la".to_string(),
            title: "List files".to_string(),
            explanation: "Lists all files".to_string(),
            risk_level: RiskLevel::Safe,
        },
        CommandSuggestion {
            command: "pwd".to_string(),
            title: "Print dir".to_string(),
            explanation: "Prints current directory".to_string(),
            risk_level: RiskLevel::Safe,
        },
    ])
}

#[test]
fn test_app_creation() {
    let app = App::new(test_suggestions());
    assert_eq!(app.selected, 0);
    assert_eq!(app.suggestions.len(), 2);
    assert!(app.status_message.is_none());
}

#[test]
fn test_select_next() {
    let mut app = App::new(test_suggestions());
    assert_eq!(app.selected, 0);

    app.select_next();
    assert_eq!(app.selected, 1);

    app.select_next();
    assert_eq!(app.selected, 0);
}

#[test]
fn test_select_previous() {
    let mut app = App::new(test_suggestions());
    assert_eq!(app.selected, 0);

    app.select_previous();
    assert_eq!(app.selected, 1);

    app.select_previous();
    assert_eq!(app.selected, 0);
}

#[test]
fn test_selected_suggestion() {
    let app = App::new(test_suggestions());
    let selected = app.selected_suggestion();
    assert!(selected.is_some());
    assert_eq!(selected.map(|s| s.command.as_str()), Some("ls -la"));
}

#[test]
fn test_status_message() {
    let mut app = App::new(test_suggestions());
    assert!(app.status_message.is_none());

    app.set_status("Copied!".to_string());
    assert_eq!(app.status_message, Some("Copied!".to_string()));

    app.clear_status();
    assert!(app.status_message.is_none());
}

#[test]
fn test_empty_suggestions() {
    let mut app = App::new(vec![]);
    app.select_next();
    assert_eq!(app.selected, 0);

    app.select_previous();
    assert_eq!(app.selected, 0);

    assert!(app.selected_suggestion().is_none());
}

#[test]
fn test_navigate_down() {
    let mut app = test_app();
    assert_eq!(app.selected, 0);

    let result = handle_key(&mut app, Key::Down);
    assert!(result.is_none());
    assert_eq!(app.selected, 1);
}

#[test]
fn test_navigate_up() {
    let mut app = test_app();
    app.selected = 1;

    let result = handle_key(&mut app, Key::Up);
    assert!(result.is_none());
    assert_eq!(app.selected, 0);
}

#[test]
fn test_navigate_j_k() {
    let mut app = test_app();

    handle_key(&mut app, Key::Char('j', false));
    assert_eq!(app.selected, 1);

    handle_key(&mut app, Key::Char('k', false));
    assert_eq!(app.selected, 0);
}

#[test]
fn test_execute_enter() {
    let mut app = test_app();
    let result = handle_key(&mut app, Key::Enter);

    match result {
        Some(UserAction::Execute(cmd)) => assert_eq!(cmd, "ls -la"),
        _ => panic!("Expected Execute action"),
    }
}

#[test]
fn test_execute_a() {
    let mut app = test_app();
    let result = handle_key(&mut app, Key::Char('a', false));

    assert!(matches!(result, Some(UserAction::Execute(_))));
}

#[test]
fn test_copy_k() {
    let mut app = test_app();
    let result = handle_key(&mut app, Key::Char('K', false));

    match result {
        Some(UserAction::Copy(cmd)) => assert_eq!(cmd, "ls -la"),
        _ => panic!("Expected Copy action"),
    }
}

#[test]
fn test_edit_b() {
    let mut app = test_app();
    let result = handle_key(&mut app, Key::Char('b', false));

    match result {
        Some(UserAction::Edit(cmd)) => assert_eq!(cmd, "ls -la"),
        _ => panic!("Expected Edit action"),
    }
}

#[test]
fn test_abort_esc() {
    let mut app = test_app();
    let result = handle_key(&mut app, Key::Esc);

    assert!(matches!(result, Some(UserAction::Abort)));
}

#[test]
fn test_abort_q() {
    let mut app = test_app();
    let result = handle_key(&mut app, Key::Char('q', false));

    assert!(matches!(result, Some(UserAction::Abort)));
}

#[test]
fn test_abort_ctrl_c() {
    let mut app = test_app();
    let result = handle_key(&mut app, Key::Char('c', true));

    assert!(matches!(result, Some(UserAction::Abort)));
}

#[test]
fn test_number_key_selection() {
    let mut app = test_app();
    assert_eq!(app.selected, 0);

    handle_key(&mut app, Key::Char('2', false));
    assert_eq!(app.selected, 1);

    handle_key(&mut app, Key::Char('5', false));
    assert_eq!(app.selected, 1);
}

#[test]
fn test_ignore_unknown_key() {
    let mut app = test_app();
    let result = handle_key(&mut app, Key::Char('x', false));

    assert!(result.is_none());
    assert_eq!(app.selected, 0);
}

#[test]
fn test_clears_status_on_key() {
    let mut app = test_app();
    app.set_status("Test message".to_string());

    handle_key(&mut app, Key::Down);
    assert!(app.status_message.is_none());
}

#[test]
fn test_destructive_selection_preserved() {
    let suggestions = test_suggestions();
    let mut app = App::new(suggestions);
    handle_key(&mut app, Key::Down);
    let result = handle_key(&mut app, Key::Enter);
    match result {
        Some(UserAction::Execute(cmd)) => {
            assert_eq!(cmd, "rm -rf /tmp/*");
            assert_eq!(app.suggestions[app.selected].risk_level, RiskLevel::Destructive);
        }
        _ => panic!("Expected Execute action"),
    }
}

#[test]
fn test_bypass_single_suggestion() {
    let one = vec![CommandSuggestion {
        command: "echo hi".to_string(),
        title: "t".to_string(),
        explanation: "e".to_string(),
        risk_level: RiskLevel::Safe,
    }];
    match bypass_action(&one) {
        Some(UserAction::Execute(cmd)) => assert_eq!(cmd, "echo hi"),
        _ => panic!("Expected direct execution"),
    }
    assert!(bypass_action(&test_suggestions()).is_none());
}
