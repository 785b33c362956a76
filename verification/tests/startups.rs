use recorder_server::config::AppConfig;
use recorder_server::startup::{
    already_there, next_stage, stage_action, stage_context, Stage, StageAction, PORT,
};

fn config(db_path: &str) -> AppConfig {
    AppConfig {
        data_dir: "/data".to_string(),
        db_path: db_path.to_string(),
        max_chunk_bytes: 100,
        web_dir: "/web".to_string(),
    }
}

#[test]
fn stages_come_in_order() {
    let config = config("/db/app.db");
    let mut stage = Stage::DataDir;
    let mut seen: Vec<Stage> = vec![stage];
    while stage != Stage::Service {
        stage = next_stage(&config, stage, Ok(())).unwrap();
        seen.push(stage);
    }
    let expected = vec![
        Stage::DataDir,
        Stage::DatabaseDir,
        Stage::DatabaseUrl,
        Stage::Connection,
        Stage::SessionsTable,
        Stage::TokenColumn,
        Stage::TokenIndex,
        Stage::ChunksTable,
        Stage::Listener,
        Stage::Service,
    ];
    assert_eq!(seen, expected);
}

#[test]
fn actions_of_the_stages() {
    let config = config("/db/app.db");
    let dir = |path: &str| Some(StageAction::CreateDirAll { path: path.to_string() });
    assert_eq!(stage_action(&config, Stage::DataDir), dir("/data"));
    assert_eq!(stage_action(&config, Stage::DatabaseDir), dir("/db"));
    assert_eq!(
        stage_action(&config, Stage::DatabaseUrl),
        Some(StageAction::ParseUrl { url: "sqlite:///db/app.db".to_string() })
    );
    assert_eq!(stage_action(&config, Stage::Connection), Some(StageAction::Connect));
    assert_eq!(
        stage_action(&config, Stage::TokenColumn),
        Some(StageAction::Execute {
            sql: "ALTER TABLE sessions ADD COLUMN secret_token TEXT".to_string()
        })
    );
    assert_eq!(stage_action(&config, Stage::Listener), Some(StageAction::Bind { port: 3000 }));
    assert_eq!(stage_action(&config, Stage::Service), Some(StageAction::Serve));
    assert_eq!(PORT, 3000);
}

#[test]
fn tables_are_made_where_they_are_missing() {
    let config = config("/db/app.db");
    for (stage, start) in [
        (Stage::SessionsTable, "CREATE TABLE IF NOT EXISTS sessions ("),
        (Stage::TokenIndex, "CREATE UNIQUE INDEX IF NOT EXISTS idx_sessions_secret_token"),
        (Stage::ChunksTable, "CREATE TABLE IF NOT EXISTS chunks ("),
    ] {
        match stage_action(&config, stage) {
            Some(StageAction::Execute { sql }) => assert!(sql.starts_with(start)),
            other => panic!("{other:?}"),
        }
    }
}

#[test]
fn no_directory_for_a_database_at_the_root() {
    assert_eq!(stage_action(&config("/"), Stage::DatabaseDir), None);
}

#[test]
fn column_that_is_there_is_tolerated() {
    for message in ["Duplicate column name: secret_token", "column ALREADY EXISTS"] {
        let next = next_stage(&config("/db/app.db"), Stage::TokenColumn, Err(message.to_string()));
        assert_eq!(next, Ok(Stage::TokenIndex));
    }
}

#[test]
fn other_errors_end_the_startup() {
    let config = config("/db/app.db");
    let locked = "database is locked".to_string();
    assert_eq!(next_stage(&config, Stage::TokenColumn, Err(locked.clone())), Err(locked));
    let duplicate = "duplicate".to_string();
    for (stage, said) in [
        (Stage::DataDir, "creating data dir \"/data\""),
        (Stage::DatabaseDir, "creating db parent dir \"/db\""),
        (Stage::DatabaseUrl, "parsing sqlite url sqlite:///db/app.db"),
        (Stage::Connection, "connecting sqlite sqlite:///db/app.db"),
        (Stage::SessionsTable, "duplicate"),
        (Stage::TokenIndex, "duplicate"),
        (Stage::ChunksTable, "duplicate"),
        (Stage::Listener, "duplicate"),
        (Stage::Service, "axum server terminated unexpectedly"),
    ] {
        let next = next_stage(&config, stage, Err(duplicate.clone()));
        assert_eq!(next, Err(said.to_string()));
    }
}

#[test]
fn contexts_show_paths_as_std_does() {
    let mut config = config("/");
    assert_eq!(stage_context(&config, Stage::DatabaseDir), None);
    assert_eq!(stage_context(&config, Stage::TokenColumn), None);
    config.data_dir = "/a \"b\"\n".to_string();
    let expected = format!("creating data dir {:?}", std::path::PathBuf::from("/a \"b\"\n"));
    assert_eq!(expected, "creating data dir \"/a \\\"b\\\"\\n\"");
    assert_eq!(stage_context(&config, Stage::DataDir), Some(expected));
}

#[test]
fn messages_are_expected_in_lower_case() {
    assert!(already_there("duplicate column"));
    assert!(already_there("it already exists"));
    assert!(!already_there("Duplicate column"));
    assert!(!already_there("exists already"));
}
