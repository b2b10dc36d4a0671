use ulm::response::{parse_suggestions, ResponseError, RiskLevel};

#[test]
fn test_parse_valid_response() {
    let json = r#"{
        "suggestions": [
            {
                "command": "find . -size +100M",
                "title": "Find large files",
                "explanation": "Finds files larger than 100MB",
                "risk_level": "safe"
            }
        ]
    }"#;

    let suggestions = parse_suggestions(json).unwrap();
    assert_eq!(suggestions.len(), 1);
    assert_eq!(suggestions[0].command, "find . -size +100M");
    assert_eq!(suggestions[0].title, "Find large files");
    assert_eq!(suggestions[0].risk_level, RiskLevel::Safe);
}

#[test]
fn test_parse_multiple_suggestions() {
    let json = r#"{
        "suggestions": [
            {
                "command": "ls -la",
                "title": "List files",
                "explanation": "Lists all files",
                "risk_level": "safe"
            },
            {
                "command": "rm -rf /tmp/*",
                "title": "Clean temp",
                "explanation": "Removes temp files",
                "risk_level": "destructive"
            }
        ]
    }"#;

    let suggestions = parse_suggestions(json).unwrap();
    assert_eq!(suggestions.len(), 2);
    assert_eq!(suggestions[1].risk_level, RiskLevel::Destructive);
}

#[test]
fn test_parse_empty_suggestions() {
    let json = r#"{"suggestions": []}"#;

    let suggestions = parse_suggestions(json).unwrap();
    assert!(suggestions.is_empty());
}

#[test]
fn test_parse_default_risk_level() {
    let json = r#"{
        "suggestions": [
            {
                "command": "echo test",
                "title": "Echo",
                "explanation": "Prints test"
            }
        ]
    }"#;

    let suggestions = parse_suggestions(json).unwrap();
    assert_eq!(suggestions[0].risk_level, RiskLevel::Safe);
}

#[test]
fn test_parse_moderate_risk_level() {
    let json = r#"{"suggestions": [{"command": "touch a", "title": "t", "explanation": "e", "risk_level": "moderate"}]}"#;
    let suggestions = parse_suggestions(json).unwrap();
    assert_eq!(suggestions[0].risk_level, RiskLevel::Moderate);
}

#[test]
fn test_parse_unknown_risk_defaults_to_safe() {
    let json = r#"{"suggestions": [{"command": "ls", "title": "t", "explanation": "e", "risk_level": "weird"}]}"#;
    let suggestions = parse_suggestions(json).unwrap();
    assert_eq!(suggestions[0].risk_level, RiskLevel::Safe);
}

#[test]
fn test_parse_invalid_json() {
    let result = parse_suggestions("not json");
    assert!(result.is_err());
    assert_eq!(result.unwrap_err(), ResponseError::MalformedJson);
}

#[test]
fn test_parse_empty_command() {
    let json = r#"{
        "suggestions": [
            {
                "command": "",
                "title": "Empty",
                "explanation": "Bad"
            }
        ]
    }"#;

    let result = parse_suggestions(json);
    assert!(result.is_err());
    assert_eq!(result.unwrap_err(), ResponseError::EmptyCommand { index: 0 });
}

#[test]
fn test_parse_whitespace_command() {
    let json = r#"{
        "suggestions": [
            {
                "command": "   ",
                "title": "Whitespace",
                "explanation": "Bad"
            }
        ]
    }"#;

    let result = parse_suggestions(json);
    assert!(result.is_err());
}

#[test]
fn test_second_command_blank_names_it() {
    let json = r#"{"suggestions": [
        {"command": "ls", "title": "a", "explanation": "b"},
        {"command": " ", "title": "c", "explanation": "d"}
    ]}"#;
    assert_eq!(
        parse_suggestions(json).unwrap_err(),
        ResponseError::EmptyCommand { index: 1 }
    );
}

#[test]
fn test_risk_level_default() {
    assert_eq!(RiskLevel::default(), RiskLevel::Safe);
}
