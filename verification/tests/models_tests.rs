use ulm::models::{
    format_stars, get_default_models, get_recommended_model_index, is_affirmative,
    is_model_listed, model_present, pick_preferred_model, retry_delay_secs,
};

#[test]
fn test_format_stars() {
    assert_eq!(format_stars(5), "★★★★★");
    assert_eq!(format_stars(3), "★★★☆☆");
    assert_eq!(format_stars(1), "★☆☆☆☆");
    assert_eq!(format_stars(0), "☆☆☆☆☆");
}

#[test]
fn test_default_models_content() {
    let models = get_default_models();

    assert_eq!(models.len(), 4);

    assert_eq!(models[0].name, "llama3.2:3b");
    assert_eq!(models[0].ram_gb, 4);
    assert_eq!(models[0].speed_rating, 5);
    assert_eq!(models[0].quality_rating, 3);
    assert!(!models[0].installed);

    for model in &models {
        assert!(!model.name.is_empty());
        assert!(model.speed_rating >= 1 && model.speed_rating <= 5);
        assert!(model.quality_rating >= 1 && model.quality_rating <= 5);
    }
}

#[test]
fn test_model_equality() {
    let models = get_default_models();
    let copy = models[0].clone();
    assert_eq!(models[0], copy);
}

#[test]
fn test_get_recommended_model_index() {
    assert_eq!(get_recommended_model_index(16 * 1024), 2);
    assert_eq!(get_recommended_model_index(8 * 1024), 2);

    assert_eq!(get_recommended_model_index(7 * 1024), 1);
    assert_eq!(get_recommended_model_index(6 * 1024), 1);

    assert_eq!(get_recommended_model_index(5 * 1024), 0);
    assert_eq!(get_recommended_model_index(4 * 1024), 0);

    assert_eq!(get_recommended_model_index(3 * 1024), 3);
    assert_eq!(get_recommended_model_index(2 * 1024), 3);
}

#[test]
fn test_installed_detection_with_latest_tag() {
    let installed = vec!["llama3.2:latest".to_string(), "mistral:7b".to_string()];
    assert!(is_model_listed(&installed, "llama3.2:3b"));
    assert!(is_model_listed(&installed, "mistral:7b"));
    assert!(!is_model_listed(&installed, "phi3:mini"));
}

#[test]
fn test_model_present_matches_tagged_forms() {
    let installed = vec!["nomic-embed-text:latest".to_string()];
    assert!(model_present(&installed, "nomic-embed-text"));
    assert!(!model_present(&installed, "mxbai-embed-large"));
    assert!(model_present(&installed, "nomic-embed-text:latest"));
}

#[test]
fn test_pick_preferred_model_order() {
    let names = vec![
        "gemma2:9b".to_string(),
        "llama3:8b".to_string(),
        "codellama:7b".to_string(),
    ];
    assert_eq!(pick_preferred_model(&names), Some("llama3:8b".to_string()));

    let none = vec!["codellama:7b".to_string()];
    assert_eq!(pick_preferred_model(&none), None);
}

#[test]
fn test_is_affirmative() {
    assert!(is_affirmative(""));
    assert!(is_affirmative("  "));
    assert!(is_affirmative("y"));
    assert!(is_affirmative("Y"));
    assert!(is_affirmative(" Yes "));
    assert!(!is_affirmative("n"));
    assert!(!is_affirmative("no"));
}

#[test]
fn test_retry_delay_doubles() {
    assert_eq!(retry_delay_secs(1), 2);
    assert_eq!(retry_delay_secs(2), 4);
    assert_eq!(retry_delay_secs(3), 8);
}

#[test]
fn test_pull_progress_percentage_calculation() {
    let total: u64 = 2_000_000_000;
    let completed: u64 = 500_000_000;
    let percent = (completed * 100 / total) as u64;
    assert_eq!(percent, 25);
}
