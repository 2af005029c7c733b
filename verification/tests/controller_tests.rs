use config_service::controller::{create_config, ConfigCommand, CreateConfig};

#[test]
fn create_config_answers_with_placeholder_id() {
    let cmd = ConfigCommand::CreateConfig { description: "d".to_string(), name: "n".to_string() };
    match create_config(&cmd) {
        CreateConfig::Succes { id } => assert_eq!(id, "xxxx-xxx-xxx-xxxx"),
        CreateConfig::Error { error_msg } => panic!("unexpected error {}", error_msg),
    }
}

#[test]
fn hello_world_greets() {
    assert_eq!(config_service::controller::hello_world().message, "Hello world!");
}
