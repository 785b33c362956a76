use recorder_server::config::{load_config, AppConfig, Environment, DEFAULT_MAX_CHUNK_BYTES};
use recorder_server::layout::{
    chunk_file_path, final_dir_path, is_inside, output_file_path, recorder_page_path, session_dir_path,
};
use recorder_server::path::{
    is_absolute, join_path, normalize_path, parent_path, sqlite_url_from_path,
};

fn environment() -> Environment {
    Environment { data_dir: None, db_path: None, max_chunk_bytes: None, web_dir: None }
}

#[test]
fn url_of_the_database() {
    assert_eq!(sqlite_url_from_path("/a/b.db"), "sqlite:///a/b.db");
    assert_eq!(sqlite_url_from_path("data/app.db"), "sqlite://data/app.db");
}

#[test]
fn joined_paths_are_those_of_std() {
    let bases = ["", "/", "/a", "/a/", "a", "./a", "a//"];
    let paths = ["", "b", "/b", "./b", "b/c", "."];
    for base in bases {
        for path in paths {
            let expected = std::path::Path::new(base).join(path);
            assert_eq!(join_path(base, path), expected.to_str().unwrap());
        }
    }
}

#[test]
fn parents_are_those_of_std() {
    let paths = [
        "", "/", "//", "a", "/a", "a/b", "/a/b", "/a/b/", "/a//b", "./a", "a/.", "/a/./b", ".", "..",
        "/.", "a/b//", "./.", "/a/../b",
    ];
    for path in paths {
        let expected = std::path::Path::new(path).parent().map(|p| p.to_str().unwrap().to_string());
        assert_eq!(parent_path(path), expected, "{path}");
    }
}

#[test]
fn absolute_paths_start_at_the_root() {
    assert!(is_absolute("/"));
    assert!(is_absolute("/data"));
    assert!(!is_absolute(""));
    assert!(!is_absolute("data"));
    assert!(!is_absolute("./data"));
}

#[test]
fn relative_settings_start_at_the_working_directory() {
    assert_eq!(normalize_path("./data", Some("/srv")).unwrap(), "/srv/./data");
    assert_eq!(normalize_path("/data", Some("/srv")).unwrap(), "/data");
    assert_eq!(normalize_path("/data", None).unwrap(), "/data");
    assert_eq!(normalize_path("data", None), Err("resolving current working directory".to_string()));
}

#[test]
fn default_configuration() {
    let config = load_config(&environment(), &Some("/srv".to_string())).unwrap();
    let expected = AppConfig {
        data_dir: "/srv/./data".to_string(),
        db_path: "/srv/./data/app.db".to_string(),
        max_chunk_bytes: 10485760,
        web_dir: "/srv/./web".to_string(),
    };
    assert_eq!(config, expected);
    assert_eq!(DEFAULT_MAX_CHUNK_BYTES, 10485760);
}

#[test]
fn configured_values_win() {
    let env = Environment {
        data_dir: Some("/var/recordings".to_string()),
        db_path: Some("db/app.db".to_string()),
        max_chunk_bytes: Some("2048".to_string()),
        web_dir: Some("/var/www".to_string()),
    };
    let config = load_config(&env, &Some("/srv".to_string())).unwrap();
    assert_eq!(config.data_dir, "/var/recordings");
    assert_eq!(config.db_path, "/srv/db/app.db");
    assert_eq!(config.max_chunk_bytes, 2048);
    assert_eq!(config.web_dir, "/var/www");
}

#[test]
fn limit_that_is_no_number_is_ignored() {
    for text in ["", "many", "-1", "1.5", " 7", "99999999999999999999999"] {
        let mut env = environment();
        env.max_chunk_bytes = Some(text.to_string());
        let config = load_config(&env, &Some("/srv".to_string())).unwrap();
        assert_eq!(config.max_chunk_bytes, DEFAULT_MAX_CHUNK_BYTES, "{text}");
    }
}

#[test]
fn no_configuration_without_a_working_directory() {
    let message = "resolving current working directory".to_string();
    assert_eq!(load_config(&environment(), &None), Err(message));
    let env = Environment {
        data_dir: Some("/d".to_string()),
        db_path: Some("/d/a.db".to_string()),
        max_chunk_bytes: None,
        web_dir: Some("/w".to_string()),
    };
    assert!(load_config(&env, &None).is_ok());
}

#[test]
fn files_of_a_recording() {
    assert_eq!(session_dir_path("/data", "s1"), "/data/chunks/s1");
    assert_eq!(chunk_file_path("/data", "s1", 0), "/data/chunks/s1/00000000.chunk");
    assert_eq!(chunk_file_path("/data", "s1", 42), "/data/chunks/s1/00000042.chunk");
    assert_eq!(chunk_file_path("/data", "s1", 4294967295), "/data/chunks/s1/4294967295.chunk");
    assert_eq!(output_file_path("/data", "s1", "webm"), "/data/final/s1.webm");
    assert_eq!(final_dir_path("/data"), "/data/final");
    assert_eq!(recorder_page_path("/web"), "/web/index.html");
}

#[test]
fn chunk_files_are_distinct() {
    let mut seen: Vec<String> = Vec::new();
    for id in ["a", "b", "ab", ".", "..", "a.b"] {
        for idx in [0, 1, 10, 99999999, 100000000] {
            let path = chunk_file_path("/data", id, idx);
            assert!(!seen.contains(&path));
            seen.push(path);
        }
        for extension in ["webm", "ogg", ""] {
            let path = output_file_path("/data", id, extension);
            assert!(!seen.contains(&path));
            seen.push(path);
        }
    }
}

#[test]
fn chunk_file_stands_in_its_session_dir() {
    let file = chunk_file_path("/data", "s1", 7);
    assert_eq!(parent_path(&file).unwrap(), session_dir_path("/data", "s1"));
}

#[test]
fn what_is_inside_a_directory() {
    assert!(is_inside("/data/chunks/s1/0.chunk", "/data/chunks/s1"));
    assert!(!is_inside("/data/chunks/s11/0.chunk", "/data/chunks/s1"));
    assert!(!is_inside("/data/chunks/s1", "/data/chunks/s1"));
}
