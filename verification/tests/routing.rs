use simple_log::routing::{
    ARCHIVE_SUFFIX, DEFAULT_DATE_TIME_FORMAT, MB, SIMPLE_LOG_CONSOLE, SIMPLE_LOG_FILE,
    SIZE_TOO_LARGE,
};
use simple_log::{
    build_config, encoder, file_appender, AppenderPlan, LevelFilter, LogConfigBuilder, LoggerPlan,
    OutKind, Routing,
};

const CONSOLE_PATTERN: &str = "{d(%Y-%m-%d %H:%M:%S.%f)} [{h({l:5})}] <{M}:{L}>:{m}{n}";
const FILE_PATTERN: &str = "{d(%Y-%m-%d %H:%M:%S.%f)} [{l:5}] <{M}:{L}>:{m}{n}";

fn console_plan() -> AppenderPlan {
    AppenderPlan::Console { pattern: CONSOLE_PATTERN.to_string() }
}

#[test]
fn the_constants_of_a_plan() {
    assert_eq!(SIMPLE_LOG_FILE, "simple_log_file");
    assert_eq!(SIMPLE_LOG_CONSOLE, "simple_log_console");
    assert_eq!(DEFAULT_DATE_TIME_FORMAT, "%Y-%m-%d %H:%M:%S.%f");
    assert_eq!(ARCHIVE_SUFFIX, ".{}.gz");
    assert_eq!(MB, 1024 * 1024);
}

#[test]
fn the_pattern_of_a_record() {
    assert_eq!(encoder(None, true), CONSOLE_PATTERN);
    assert_eq!(encoder(None, false), FILE_PATTERN);
    let format = "%H:%M:%S.%f".to_string();
    assert_eq!(encoder(Some(&format), true), "{d(%H:%M:%S.%f)} [{h({l:5})}] <{M}:{L}>:{m}{n}");
    assert_eq!(encoder(Some(&format), false), "{d(%H:%M:%S.%f)} [{l:5}] <{M}:{L}>:{m}{n}");
    let empty = String::new();
    assert_eq!(encoder(Some(&empty), false), "{d()} [{l:5}] <{M}:{L}>:{m}{n}");
}

#[test]
fn the_file_appender_of_a_configuration() {
    let config = LogConfigBuilder::builder()
        .path("./log/app.log")
        .size(100)
        .roll_count(7)
        .time_format("%H")
        .build();
    assert_eq!(
        file_appender(&config),
        Ok(AppenderPlan::File {
            directory: None,
            path: "./log/app.log".to_string(),
            pattern: "{d(%H)} [{l:5}] <{M}:{L}>:{m}{n}".to_string(),
            roll_count: 7,
            size_limit: 104857600,
        })
    );
    let config = LogConfigBuilder::builder().path("app.log").directory("/var/log").build();
    assert_eq!(
        file_appender(&config),
        Ok(AppenderPlan::File {
            directory: Some("/var/log".to_string()),
            path: "app.log".to_string(),
            pattern: FILE_PATTERN.to_string(),
            roll_count: 0,
            size_limit: 0,
        })
    );
}

#[test]
fn a_size_beyond_64_bits_is_an_error() {
    let largest = u64::MAX / MB;
    let config = LogConfigBuilder::builder().path("app.log").size(largest).build();
    assert_eq!(
        file_appender(&config),
        Ok(AppenderPlan::File {
            directory: None,
            path: "app.log".to_string(),
            pattern: FILE_PATTERN.to_string(),
            roll_count: 0,
            size_limit: largest * MB,
        })
    );
    let config = LogConfigBuilder::builder().path("app.log").size(largest + 1).build();
    assert_eq!(file_appender(&config), Err(SIZE_TOO_LARGE.to_string()));
    let mut config =
        LogConfigBuilder::builder().path("app.log").size(u64::MAX).output_file().build();
    assert_eq!(build_config(&mut config, None), Err(SIZE_TOO_LARGE.to_string()));
    let mut config =
        LogConfigBuilder::builder().path("app.log").size(u64::MAX).output_console().build();
    assert!(build_config(&mut config, None).is_ok());
    let mut config = LogConfigBuilder::builder().size(u64::MAX).output_file().build();
    assert!(build_config(&mut config, None).is_ok());
}

#[test]
fn an_appender_has_the_name_of_its_kind() {
    assert_eq!(console_plan().name(), "simple_log_console");
    let config = LogConfigBuilder::builder().path("app.log").build();
    assert_eq!(file_appender(&config).unwrap().name(), "simple_log_file");
}

#[test]
fn the_routing_of_a_full_configuration() {
    let mut config = LogConfigBuilder::builder()
        .path("./log/builder_log.log")
        .size(100)
        .roll_count(10)
        .level("info,app=warn,net=OFF")
        .output_file()
        .output_console()
        .build();
    let before = config.clone();
    let routing = build_config(&mut config, Some("server")).unwrap();
    assert_eq!(config, before);
    assert_eq!(
        routing,
        Routing {
            appenders: vec![
                AppenderPlan::File {
                    directory: None,
                    path: "./log/builder_log.log".to_string(),
                    pattern: FILE_PATTERN.to_string(),
                    roll_count: 10,
                    size_limit: 100 * 1024 * 1024,
                },
                console_plan(),
            ],
            loggers: vec![
                LoggerPlan { name: "app".to_string(), level: LevelFilter::Warn },
                LoggerPlan { name: "net".to_string(), level: LevelFilter::Off },
            ],
            root_level: LevelFilter::Info,
        }
    );
}

#[test]
fn a_root_level_that_is_no_level_name_counts_as_debug() {
    let mut config = LogConfigBuilder::builder().level("loud").output_console().build();
    let routing = build_config(&mut config, None).unwrap();
    assert_eq!(routing.root_level, LevelFilter::Debug);
    let mut config = LogConfigBuilder::builder().output_console().build();
    assert_eq!(build_config(&mut config, None).unwrap().root_level, LevelFilter::Debug);
    let mut config = LogConfigBuilder::builder().level("ERROR").output_console().build();
    assert_eq!(build_config(&mut config, None).unwrap().root_level, LevelFilter::Error);
    let mut config = LogConfigBuilder::builder().output_console().build();
    config.filter_target = vec![
        simple_log::FilterTarget::new("db", "loud"),
        simple_log::FilterTarget::new("net", "TRACE"),
    ];
    assert_eq!(
        build_config(&mut config, None).unwrap().loggers,
        vec![
            LoggerPlan { name: "db".to_string(), level: LevelFilter::Debug },
            LoggerPlan { name: "net".to_string(), level: LevelFilter::Trace },
        ]
    );
}

#[test]
fn a_root_at_off_is_planned_at_off() {
    let mut config = LogConfigBuilder::builder().level("off").output_console().build();
    assert_eq!(build_config(&mut config, None).unwrap().root_level, LevelFilter::Off);
    let mut config = LogConfigBuilder::builder().level("debug,app=off").output_console().build();
    let routing = build_config(&mut config, None).unwrap();
    assert_eq!(routing.root_level, LevelFilter::Debug);
    assert_eq!(
        routing.loggers,
        vec![LoggerPlan { name: "app".to_string(), level: LevelFilter::Off }]
    );
}

#[test]
fn a_file_sink_without_a_path_has_no_appender() {
    let mut config = LogConfigBuilder::builder().output_file().output_console().build();
    let routing = build_config(&mut config, Some("server")).unwrap();
    assert_eq!(routing.appenders, vec![console_plan()]);
    assert_eq!(config.get_path(), None);
    let mut config = LogConfigBuilder::builder().output_file().build();
    let routing = build_config(&mut config, Some("server")).unwrap();
    assert_eq!(
        routing,
        Routing { appenders: vec![], loggers: vec![], root_level: LevelFilter::Debug }
    );
}

#[test]
fn a_file_sink_under_a_directory_gets_the_default_base_name() {
    let mut config =
        LogConfigBuilder::builder().directory("logs").output_console().output_file().build();
    let routing = build_config(&mut config, Some("server")).unwrap();
    assert_eq!(config.get_path(), Some(&"server.log".to_string()));
    assert_eq!(
        routing.appenders,
        vec![
            console_plan(),
            AppenderPlan::File {
                directory: Some("logs".to_string()),
                path: "server.log".to_string(),
                pattern: FILE_PATTERN.to_string(),
                roll_count: 0,
                size_limit: 0,
            },
        ]
    );
    let mut config = LogConfigBuilder::builder().directory("logs").output_file().build();
    build_config(&mut config, None).unwrap();
    assert_eq!(config.get_path(), Some(&"simple_log.log".to_string()));
    let mut config = LogConfigBuilder::builder().directory("logs").output_console().build();
    build_config(&mut config, Some("server")).unwrap();
    assert_eq!(config.get_path(), None);
}

#[test]
fn every_sink_has_its_appender_in_order() {
    let mut config = LogConfigBuilder::builder()
        .path("a.log")
        .output_console()
        .output_file()
        .output_console()
        .build();
    let routing = build_config(&mut config, None).unwrap();
    let names: Vec<&str> = routing.appenders.iter().map(|appender| appender.name()).collect();
    assert_eq!(names, vec!["simple_log_console", "simple_log_file", "simple_log_console"]);
    assert_eq!(config.get_out_kind(), &vec![OutKind::Console, OutKind::File, OutKind::Console]);
}
