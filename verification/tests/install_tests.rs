use ulm::install::{
    docker_install_plan, ollama_status_of, ContainerStatus, DockerPlan, OllamaStatus,
    SystemCapabilities,
};

#[test]
fn test_ollama_status_eq() {
    assert_eq!(OllamaStatus::Running, OllamaStatus::Running);
    assert_ne!(OllamaStatus::Running, OllamaStatus::Installed);
    assert_ne!(OllamaStatus::Installed, OllamaStatus::NotInstalled);
}

#[test]
fn test_system_capabilities_debug() {
    let caps = SystemCapabilities {
        ollama_status: OllamaStatus::NotInstalled,
        docker_available: true,
        curl_available: true,
        brew_available: false,
        os: "linux".to_string(),
    };
    let debug_str = format!("{caps:?}");
    assert!(debug_str.contains("NotInstalled"));
    assert!(debug_str.contains("docker_available: true"));
}

#[test]
fn test_container_status_eq() {
    assert_eq!(ContainerStatus::Running, ContainerStatus::Running);
    assert_ne!(ContainerStatus::Running, ContainerStatus::Stopped);
    assert_ne!(ContainerStatus::Stopped, ContainerStatus::NotFound);
}

#[test]
fn test_container_status_debug() {
    let status = ContainerStatus::Running;
    let debug_str = format!("{status:?}");
    assert!(debug_str.contains("Running"));
}

#[test]
fn test_ollama_status_of_probes() {
    assert_eq!(ollama_status_of(true, true), OllamaStatus::Running);
    assert_eq!(ollama_status_of(true, false), OllamaStatus::Running);
    assert_eq!(ollama_status_of(false, true), OllamaStatus::Installed);
    assert_eq!(ollama_status_of(false, false), OllamaStatus::NotInstalled);
}

#[test]
fn test_docker_plan_table() {
    assert_eq!(
        docker_install_plan("restart", &ContainerStatus::Running),
        DockerPlan::AlreadyRunning
    );
    assert_eq!(
        docker_install_plan("restart", &ContainerStatus::Stopped),
        DockerPlan::StartExisting
    );
    assert_eq!(
        docker_install_plan("recreate", &ContainerStatus::Running),
        DockerPlan::Recreate
    );
    assert_eq!(
        docker_install_plan("recreate", &ContainerStatus::Stopped),
        DockerPlan::Recreate
    );
    assert_eq!(
        docker_install_plan("create", &ContainerStatus::Stopped),
        DockerPlan::AlreadyExists
    );
    assert_eq!(
        docker_install_plan("create", &ContainerStatus::NotFound),
        DockerPlan::CreateNew
    );
    assert_eq!(
        docker_install_plan("restart", &ContainerStatus::NotFound),
        DockerPlan::CreateNew
    );
}
