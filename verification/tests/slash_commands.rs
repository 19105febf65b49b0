//! The slash commands.
use tpi::app::slash::command_from_slash;
use tpi::app::slash::slash_commands;

#[test]
fn dispatch_covers_registry() {
    for spec in slash_commands() {
        let mapped = command_from_slash(&format!("/{}", spec.name));
        assert!(
            mapped.is_some(),
            "registry 命令 /{} 必须可 dispatch",
            spec.name
        );
    }
    assert_eq!(command_from_slash("/definitely-not-registered"), None);
}

#[test]
fn registry_names_are_unique() {
    let commands = slash_commands();
    let mut names: Vec<&str> = commands.iter().map(|s| s.name).collect();
    let n = names.len();
    names.sort_unstable();
    names.dedup();
    assert_eq!(names.len(), n, "registry 不允许重复 name");
}

#[test]
fn first_command_is_safe() {
    let commands = slash_commands();
    assert_eq!(commands[0].name, "help");
    assert!(!commands[0].dangerous);
}
