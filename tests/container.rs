use toml_tokens::container::{container_status_mapper, updated_status, Container, ContainerStatus};

#[test]
fn status_words_map_to_statuses() {
    assert_eq!(container_status_mapper("created"), ContainerStatus::Created);
    assert_eq!(container_status_mapper("running"), ContainerStatus::Running);
    assert_eq!(container_status_mapper("restarting"), ContainerStatus::Restarting);
    assert_eq!(container_status_mapper("exited"), ContainerStatus::Exited);
    assert_eq!(container_status_mapper("paused"), ContainerStatus::Paused);
    assert_eq!(container_status_mapper("dead"), ContainerStatus::Dead);
    assert_eq!(container_status_mapper("Running"), ContainerStatus::Unknown);
    assert_eq!(container_status_mapper(""), ContainerStatus::Unknown);
}

#[test]
fn failed_query_keeps_status() {
    assert_eq!(updated_status(ContainerStatus::Running, false, "exited"), ContainerStatus::Running);
    assert_eq!(updated_status(ContainerStatus::Running, true, "exited"), ContainerStatus::Exited);
    assert_eq!(updated_status(ContainerStatus::Paused, true, "paused"), ContainerStatus::Paused);
}

#[test]
fn new_container_is_created() {
    let c = Container::new("abc123".to_string(), "nginx", "nginx:latest", "now".to_string(), "80");
    assert_eq!(c.get_status(), ContainerStatus::Created);
    assert_eq!(c.id, "abc123");
    assert_eq!(c.name, "nginx");
    assert_eq!(c.image, "nginx:latest");
    assert_eq!(c.ports, "80");
}
