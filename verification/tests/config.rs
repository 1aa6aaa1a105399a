use hpx::config::{
    parse_env_num, Config, DEFAULT_CONNECT_TIMEOUT, DEFAULT_KEEPALIVE_TIMEOUT,
    DEFAULT_SAMPLING_PERCENTAGE,
};
use hpx::runtime::{build, runtime_kind, RuntimeKind};

fn bytes(text: &str) -> Option<Vec<u8>> {
    Some(text.as_bytes().to_vec())
}

#[test]
fn defaults_are_the_known_ones() {
    assert_eq!(DEFAULT_SAMPLING_PERCENTAGE, 0);
    assert_eq!(DEFAULT_CONNECT_TIMEOUT, 30);
    assert_eq!(DEFAULT_KEEPALIVE_TIMEOUT, 60);
}

#[test]
fn setting_gives_its_number() {
    assert_eq!(parse_env_num(&bytes("25"), 0), 25);
    assert_eq!(parse_env_num(&bytes("0"), 30), 0);
    assert_eq!(parse_env_num(&bytes("+5"), 30), 5);
    assert_eq!(parse_env_num(&bytes(&usize::MAX.to_string()), 1), usize::MAX);
}

#[test]
fn setting_that_is_no_number_gives_the_default() {
    assert_eq!(parse_env_num(&None, 30), 30);
    assert_eq!(parse_env_num(&bytes(""), 30), 30);
    assert_eq!(parse_env_num(&bytes("ten"), 30), 30);
    assert_eq!(parse_env_num(&bytes("-1"), 30), 30);
    assert_eq!(parse_env_num(&bytes("1.5"), 30), 30);
    assert_eq!(parse_env_num(&bytes("340282366920938463463374607431768211455"), 30), 30);
}

#[test]
fn config_is_made_of_the_values_and_the_defaults() {
    let config = Config::init(None, &None, &None, &None, "dev".to_string());
    assert_eq!(
        config,
        Config {
            tracing_udp: None,
            sampling_percentage: 0,
            env_code: "dev".to_string(),
            connect_timeout: 30,
            keepalive_timeout: 60,
        }
    );
    let config = Config::init(
        Some("127.0.0.1:6831".to_string()),
        &bytes("15"),
        &bytes("3"),
        &bytes("x"),
        "prod".to_string(),
    );
    assert_eq!(
        config,
        Config {
            tracing_udp: Some("127.0.0.1:6831".to_string()),
            sampling_percentage: 15,
            env_code: "prod".to_string(),
            connect_timeout: 3,
            keepalive_timeout: 60,
        }
    );
}

#[test]
fn one_thread_or_none_runs_on_the_current_thread() {
    assert_eq!(runtime_kind(0, 8), RuntimeKind::CurrentThread);
    assert_eq!(runtime_kind(1, 8), RuntimeKind::CurrentThread);
    assert_eq!(runtime_kind(6, 1), RuntimeKind::CurrentThread);
    assert_eq!(runtime_kind(6, 0), RuntimeKind::CurrentThread);
}

#[test]
fn threads_are_no_more_than_processors() {
    assert_eq!(runtime_kind(6, 8), RuntimeKind::MultiThread(6));
    assert_eq!(runtime_kind(8, 8), RuntimeKind::MultiThread(8));
    assert_eq!(runtime_kind(16, 8), RuntimeKind::MultiThread(8));
    assert_eq!(runtime_kind(2, 2), RuntimeKind::MultiThread(2));
}

#[test]
fn runtime_is_planned_for_this_machine() {
    assert_eq!(build(0), RuntimeKind::CurrentThread);
    assert_eq!(build(1), RuntimeKind::CurrentThread);
    match build(usize::MAX) {
        RuntimeKind::CurrentThread => {},
        RuntimeKind::MultiThread(threads) => {
            assert!(threads >= 2);
            assert!(threads < usize::MAX);
        },
    }
}

#[test]
fn command_line_has_its_defaults() {
    assert_eq!(
        hpx::config::App::default(),
        hpx::config::App { level: "INFO".to_string(), worker_thread: 6, port: 80 }
    );
}
