use backup_client::json::{Json, JsonNumber};
use backup_client::task_params::{shell_data, shell_default_args, shell_default_script, shell_timeout_value};

fn st(x: &str) -> Json {
    Json::Str(x.to_string())
}

fn obj(members: Vec<(&str, Json)>) -> Json {
    Json::Object(members.into_iter().map(|(k, v)| (k.to_string(), v)).collect())
}

fn num(n: u64) -> Json {
    Json::Number(JsonNumber { as_i64: Some(n as i64), as_u64: Some(n), text: n.to_string() })
}

#[test]
fn shell_defaults_prefer_new_keys() {
    let data = obj(vec![
        ("script", st("old.sh")),
        ("script_name", st("backup.sh")),
        ("args", Json::Array(vec![st("x")])),
        ("script_args", Json::Array(vec![st("-v"), num(3), st("--all")])),
        ("timeout", num(10)),
        ("timeout_secs", num(120)),
    ]);
    assert_eq!(shell_default_script(Some(&data)), "backup.sh");
    assert_eq!(shell_default_args(Some(&data)), "-v, --all");
    assert!(matches!(shell_timeout_value(Some(&data)), Some(Json::Number(n)) if n.as_u64 == Some(120)));
}

#[test]
fn shell_defaults_fall_back_to_legacy_keys() {
    let data = obj(vec![("script", st("old.sh")), ("args", Json::Array(vec![st("a"), st("b")])), ("timeout", num(10))]);
    assert_eq!(shell_default_script(Some(&data)), "old.sh");
    assert_eq!(shell_default_args(Some(&data)), "a, b");
    assert!(matches!(shell_timeout_value(Some(&data)), Some(Json::Number(n)) if n.as_u64 == Some(10)));
}

#[test]
fn shell_defaults_when_absent_or_not_text() {
    assert_eq!(shell_default_script(None), "");
    assert_eq!(shell_default_args(None), "");
    assert!(shell_timeout_value(None).is_none());
    let data = obj(vec![("script_name", num(1)), ("script", st("ignored.sh")), ("script_args", st("a,b"))]);
    assert_eq!(shell_default_script(Some(&data)), "");
    assert_eq!(shell_default_args(Some(&data)), "");
}

#[test]
fn shell_data_splits_arguments_and_reads_timeout() {
    let d = shell_data("run.sh", " -a , ,b ", "+90");
    match d {
        Json::Object(es) => {
            assert_eq!(es.len(), 3);
            assert_eq!(es[0].0, "script_name");
            assert!(matches!(&es[0].1, Json::Str(s) if s == "run.sh"));
            assert_eq!(es[1].0, "script_args");
            match &es[1].1 {
                Json::Array(a) => {
                    let v: Vec<String> = a.iter().map(|x| match x { Json::Str(s) => s.clone(), _ => String::new() }).collect();
                    assert_eq!(v, vec!["-a", "b"]);
                }
                _ => panic!("script_args is not an array"),
            }
            assert_eq!(es[2].0, "timeout_secs");
            assert!(matches!(&es[2].1, Json::Number(n) if n.as_u64 == Some(90) && n.text == "90"));
        }
        _ => panic!("not an object"),
    }
}

#[test]
fn shell_data_timeout_falls_back_to_sixty() {
    match shell_data("s", "", "soon") {
        Json::Object(es) => {
            assert!(matches!(&es[1].1, Json::Array(a) if a.is_empty()));
            assert!(matches!(&es[2].1, Json::Number(n) if n.as_u64 == Some(60)));
        }
        _ => panic!("not an object"),
    }
}
