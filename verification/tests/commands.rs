use safe_rm::command::{Commands, Step, DEFAULT_EXPIRE_DAYS};

fn show(step: &Step) -> String {
    match step {
        Step::Load => "load".to_string(),
        Step::Save => "save".to_string(),
        Step::AutoClean => "auto-clean".to_string(),
        Step::Clean { all } => format!("clean all={}", all),
        Step::Delete { path, expire_days, force } => {
            format!("delete {} days={} force={}", path, expire_days, force)
        }
        Step::Restore { name, force } => format!("restore {} force={}", name, force),
        Step::List { expired } => format!("list expired={}", expired),
        Step::Expire { name } => format!("expire {}", name),
        Step::Empty { yes } => format!("empty yes={}", yes),
    }
}

fn course(command: Commands) -> Vec<String> {
    command.plan().iter().map(show).collect()
}

#[test]
fn default_retention_is_a_week() {
    assert_eq!(DEFAULT_EXPIRE_DAYS, 7);
}

#[test]
fn every_run_cleans_first_and_saves_twice() {
    assert_eq!(
        course(Commands::List { expired: true }),
        vec!["load", "auto-clean", "save", "list expired=true", "save"]
    );
}

#[test]
fn a_batch_becomes_one_step_per_item_in_order() {
    let command = Commands::Delete {
        paths: vec!["a.txt".to_string(), "b".to_string(), "c/d".to_string()],
        expire_days: 3,
        force: true,
    };
    assert_eq!(
        course(command),
        vec![
            "load",
            "auto-clean",
            "save",
            "delete a.txt days=3 force=true",
            "delete b days=3 force=true",
            "delete c/d days=3 force=true",
            "save",
        ]
    );
    let command = Commands::Restore {
        names: vec!["x_1".to_string(), "y_2".to_string()],
        force: false,
    };
    assert_eq!(
        course(command),
        vec![
            "load",
            "auto-clean",
            "save",
            "restore x_1 force=false",
            "restore y_2 force=false",
            "save",
        ]
    );
}

#[test]
fn an_empty_batch_has_no_steps_of_its_own() {
    let command = Commands::Delete { paths: Vec::new(), expire_days: 7, force: false };
    assert_eq!(course(command), vec!["load", "auto-clean", "save", "save"]);
}

#[test]
fn single_commands_become_single_steps() {
    assert_eq!(course(Commands::Clean { all: true })[3], "clean all=true");
    assert_eq!(
        course(Commands::Clean { all: false }),
        vec!["load", "auto-clean", "save", "clean all=false", "save"]
    );
    assert_eq!(course(Commands::Expire { name: "x_1".to_string() })[3], "expire x_1");
    assert_eq!(course(Commands::Empty { yes: false })[3], "empty yes=false");
    assert_eq!(course(Commands::List { expired: false }).len(), 5);
}
