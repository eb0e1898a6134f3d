use simple_log::config::{default_basename, get_root_level, init_default_log};
use simple_log::{FilterTarget, LogConfig, LogConfigBuilder, OutKind};

fn names_and_levels(targets: &[FilterTarget]) -> Vec<(String, String)> {
    targets.iter().map(|target| (target.name().clone(), target.level().clone())).collect()
}

fn pair(name: &str, level: &str) -> (String, String) {
    (name.to_string(), level.to_string())
}

#[test]
fn the_root_level_is_the_first_piece_without_an_equals_sign() {
    assert_eq!(get_root_level("debug"), "debug");
    assert_eq!(get_root_level("info,app=warn"), "info");
    assert_eq!(get_root_level("app=warn,info"), "info");
    assert_eq!(get_root_level("app=warn,info,error"), "info");
    assert_eq!(get_root_level("app=warn, info "), " info ");
    assert_eq!(get_root_level("loud"), "loud");
}

#[test]
fn the_root_level_is_returned_as_it_stands() {
    assert_eq!(get_root_level("DEBUG"), "DEBUG");
    assert_eq!(get_root_level("INFO,app=warn"), "INFO");
    assert_eq!(get_root_level("Off"), "Off");
    assert_eq!(get_root_level("info ,a=warn"), "info ");
    assert_eq!(get_root_level("warn\n,\ta=off ,"), "warn\n");
}

#[test]
fn the_root_level_holds_neither_comma_nor_equals_sign() {
    for text in ["", ",", "=", "a=b,c,d=e", "a=b", "x,y", " = ,, = "] {
        let level = get_root_level(text);
        assert!(!level.contains(',') && !level.contains('='), "text {:?}", text);
    }
}

#[test]
fn the_root_level_is_debug_where_every_piece_names_a_target() {
    assert_eq!(get_root_level("app=warn"), "debug");
    assert_eq!(get_root_level("app=warn,db=info"), "debug");
    assert_eq!(get_root_level("="), "debug");
}

#[test]
fn an_empty_piece_is_a_root_level() {
    assert_eq!(get_root_level(""), "");
    assert_eq!(get_root_level("app=warn,"), "");
    assert_eq!(get_root_level(",info"), "");
}

#[test]
fn targets_are_the_pieces_with_an_equals_sign() {
    assert_eq!(names_and_levels(&FilterTarget::targets("debug")), vec![]);
    assert_eq!(names_and_levels(&FilterTarget::targets("")), vec![]);
    assert_eq!(
        names_and_levels(&FilterTarget::targets("debug,app=error")),
        vec![pair("app", "error")]
    );
    assert_eq!(
        names_and_levels(&FilterTarget::targets(
            "debug,filter_module::app::ctrl=warn,filter_module::app::launch::conf=error"
        )),
        vec![
            pair("filter_module::app::ctrl", "warn"),
            pair("filter_module::app::launch::conf", "error")
        ]
    );
    assert_eq!(
        names_and_levels(&FilterTarget::targets("debug,a=info,b=warn,a=trace")),
        vec![pair("a", "info"), pair("b", "warn"), pair("a", "trace")]
    );
}

#[test]
fn white_space_around_a_target_is_no_part_of_it() {
    assert_eq!(
        FilterTarget::targets("debug, app=error"),
        vec![FilterTarget::new("app", "error")]
    );
    assert_eq!(
        names_and_levels(&FilterTarget::targets("debug ,\tapp=ERROR \n, db=Off ,")),
        vec![pair("app", "error"), pair("db", "off")]
    );
}

#[test]
fn a_text_that_is_no_directive_has_no_targets() {
    for text in ["app=warn", "a=info,debug", "x=y=z, a = b ,=,c=", "debug,app=loud", "info,", "="]
    {
        assert_eq!(names_and_levels(&FilterTarget::targets(text)), vec![], "text {:?}", text);
    }
}

#[test]
fn the_builder_starts_from_nothing() {
    let config = LogConfigBuilder::builder().build();
    assert_eq!(config, LogConfig::default());
    assert_eq!(config.get_path(), None);
    assert_eq!(config.get_directory(), None);
    assert_eq!(config.get_level(), "");
    assert_eq!(config.get_size(), 0);
    assert_eq!(config.get_out_kind(), &Vec::<OutKind>::new());
    assert_eq!(config.get_roll_count(), 0);
    assert_eq!(config.get_time_format(), None);
    assert!(config.get_filter_target().is_empty());
}

#[test]
fn the_builder_sets_what_it_is_told() {
    let config = LogConfigBuilder::builder()
        .path("./log/builder_log.log")
        .directory("/var/log")
        .size(100)
        .roll_count(7)
        .level("debug,app=warn")
        .time_format("%H:%M:%S.%f")
        .output_file()
        .output_console()
        .build();
    assert_eq!(config.get_path(), Some(&"./log/builder_log.log".to_string()));
    assert_eq!(config.get_directory(), Some(&"/var/log".to_string()));
    assert_eq!(config.get_level(), "debug");
    assert_eq!(config.get_size(), 100);
    assert_eq!(config.get_out_kind(), &vec![OutKind::File, OutKind::Console]);
    assert_eq!(config.get_roll_count(), 7);
    assert_eq!(config.get_time_format(), Some(&"%H:%M:%S.%f".to_string()));
    assert_eq!(names_and_levels(config.get_filter_target()), vec![pair("app", "warn")]);
    assert_eq!(
        config,
        LogConfig {
            path: Some("./log/builder_log.log".to_string()),
            directory: Some("/var/log".to_string()),
            level: "debug".to_string(),
            size: 100,
            out_kind: vec![OutKind::File, OutKind::Console],
            roll_count: 7,
            time_format: Some("%H:%M:%S.%f".to_string()),
            filter_target: vec![FilterTarget::new("app", "warn")],
        }
    );
}

#[test]
fn a_sink_may_be_added_twice() {
    let config =
        LogConfigBuilder::builder().output_console().output_file().output_console().build();
    assert_eq!(
        config.get_out_kind(),
        &vec![OutKind::Console, OutKind::File, OutKind::Console]
    );
}

#[test]
fn a_new_level_leaves_no_target_of_the_old_one() {
    let mut config = LogConfigBuilder::builder().level("debug,app=warn,db=error").build();
    assert_eq!(config.get_filter_target().len(), 2);
    config.set_level("info,net=trace");
    assert_eq!(config.get_level(), "info");
    assert_eq!(names_and_levels(config.get_filter_target()), vec![pair("net", "trace")]);
    config.set_level("warn");
    assert_eq!(config.get_level(), "warn");
    assert!(config.get_filter_target().is_empty());
    let again = LogConfigBuilder::builder().level("debug,app=warn").level("error").build();
    assert_eq!(again.get_level(), "error");
    assert!(again.get_filter_target().is_empty());
}

#[test]
fn the_default_base_name_ends_in_log() {
    assert_eq!(default_basename(Some("server")), "server.log");
    assert_eq!(default_basename(None), "simple_log.log");
    assert_eq!(default_basename(Some("")), ".log");
}

#[test]
fn defaults_fill_what_is_unset() {
    let mut config = LogConfig::default();
    init_default_log(&mut config, Some("server"));
    assert_eq!(
        config,
        LogConfig {
            path: None,
            directory: None,
            level: "debug".to_string(),
            size: 10,
            out_kind: vec![OutKind::Console, OutKind::File],
            roll_count: 10,
            time_format: None,
            filter_target: vec![],
        }
    );
}

#[test]
fn defaults_touch_nothing_that_is_set() {
    let set = LogConfigBuilder::builder()
        .path("./log/app.log")
        .directory("logs")
        .size(3)
        .roll_count(4)
        .level("warn,app=info")
        .time_format("%H")
        .output_file()
        .build();
    let mut config = set.clone();
    init_default_log(&mut config, Some("server"));
    assert_eq!(config, set);
}

#[test]
fn a_blank_path_becomes_a_file_under_tmp() {
    for blank in ["", " ", "\t\n ", "\u{a0}\u{2003}\u{3000}"] {
        let mut config = LogConfigBuilder::builder().path(blank).output_file().build();
        init_default_log(&mut config, Some("server"));
        assert_eq!(config.get_path(), Some(&"./tmp/server.log".to_string()));
        let mut config = LogConfigBuilder::builder().path(blank).build();
        init_default_log(&mut config, None);
        assert_eq!(config.get_path(), Some(&"./tmp/simple_log.log".to_string()));
    }
}

#[test]
fn a_blank_path_stays_without_a_file_sink_or_with_a_directory() {
    let mut config = LogConfigBuilder::builder().path(" ").output_console().build();
    init_default_log(&mut config, Some("server"));
    assert_eq!(config.get_path(), Some(&" ".to_string()));
    let mut config = LogConfigBuilder::builder().path(" ").directory("logs").output_file().build();
    init_default_log(&mut config, Some("server"));
    assert_eq!(config.get_path(), Some(&" ".to_string()));
    assert_eq!(config.get_directory(), Some(&"logs".to_string()));
    let mut config =
        LogConfigBuilder::builder().path("").output_console().output_file().build();
    init_default_log(&mut config, Some("server"));
    assert_eq!(config.get_path(), Some(&"./tmp/server.log".to_string()));
}

#[test]
fn a_path_that_is_not_blank_stays() {
    let mut config = LogConfigBuilder::builder().output_file().build();
    init_default_log(&mut config, Some("server"));
    assert_eq!(config.get_path(), None);
    let mut config = LogConfigBuilder::builder().path(" x").output_file().build();
    init_default_log(&mut config, Some("server"));
    assert_eq!(config.get_path(), Some(&" x".to_string()));
    let mut config = LogConfigBuilder::builder().path("\u{200b}").output_file().build();
    init_default_log(&mut config, Some("server"));
    assert_eq!(config.get_path(), Some(&"\u{200b}".to_string()));
}

#[test]
fn defaulting_twice_is_defaulting_once() {
    let configs = [
        LogConfig::default(),
        LogConfigBuilder::builder().path("").build(),
        LogConfigBuilder::builder().path(" ").output_console().build(),
        LogConfigBuilder::builder().path(" ").output_file().size(5).build(),
        LogConfigBuilder::builder().directory("d").level("info,a=warn").roll_count(2).build(),
        LogConfigBuilder::builder().path("a.log").time_format("%H").output_file().build(),
    ];
    for config in configs {
        for program in [None, Some("server"), Some(" ")] {
            let mut once = config.clone();
            init_default_log(&mut once, program);
            let mut twice = once.clone();
            init_default_log(&mut twice, program);
            assert_eq!(twice, once);
            assert!(once.get_size() != 0 && once.get_roll_count() != 0);
            assert!(!once.get_level().is_empty() && !once.get_out_kind().is_empty());
        }
    }
}

#[test]
fn a_copy_is_equal_to_its_source() {
    let config = LogConfigBuilder::builder()
        .path("./log/app.log")
        .directory("logs")
        .size(3)
        .roll_count(4)
        .level("warn,app=info,db=off")
        .time_format("%H")
        .output_file()
        .output_console()
        .build();
    assert_eq!(config.clone(), config);
    let target = FilterTarget::targets("info,a=warn").remove(0);
    assert_eq!(target.clone(), target);
}

fn as_json(config: &LogConfig) -> String {
    let mut fields = serde_json::Map::new();
    if let Some(path) = config.get_path() {
        fields.insert("path".to_string(), serde_json::Value::from(path.as_str()));
    }
    if let Some(directory) = config.get_directory() {
        fields.insert("directory".to_string(), serde_json::Value::from(directory.as_str()));
    }
    fields.insert("level".to_string(), serde_json::Value::from(config.get_level().as_str()));
    fields.insert("size".to_string(), serde_json::Value::from(config.get_size()));
    fields.insert(
        "out_kind".to_string(),
        serde_json::Value::from(simple_log::serialize_out_kind(config.get_out_kind())),
    );
    fields.insert("roll_count".to_string(), serde_json::Value::from(config.get_roll_count()));
    if let Some(format) = config.get_time_format() {
        fields.insert("time_format".to_string(), serde_json::Value::from(format.as_str()));
    }
    let targets: Vec<serde_json::Value> = config
        .get_filter_target()
        .iter()
        .map(|target| {
            let mut fields = serde_json::Map::new();
            fields.insert("name".to_string(), serde_json::Value::from(target.name().as_str()));
            fields.insert("level".to_string(), serde_json::Value::from(target.level().as_str()));
            serde_json::Value::Object(fields)
        })
        .collect();
    fields.insert("filter_target".to_string(), serde_json::Value::Array(targets));
    serde_json::to_string(&serde_json::Value::Object(fields)).unwrap()
}

fn from_json(json: &str) -> LogConfig {
    let value: serde_json::Value = serde_json::from_str(json).unwrap();
    let text = |field: &str| value.get(field).map(|text| text.as_str().unwrap().to_string());
    let tokens = match value.get("out_kind") {
        None => simple_log::KindTokens::Many(vec![]),
        Some(serde_json::Value::String(token)) => simple_log::KindTokens::One(token.clone()),
        Some(list) => simple_log::KindTokens::Many(serde_json::from_value(list.clone()).unwrap()),
    };
    let targets = match value.get("filter_target") {
        None => vec![],
        Some(list) => list
            .as_array()
            .unwrap()
            .iter()
            .map(|target| {
                FilterTarget::new(
                    target["name"].as_str().unwrap(),
                    target["level"].as_str().unwrap(),
                )
            })
            .collect(),
    };
    LogConfig {
        path: text("path"),
        directory: text("directory"),
        level: text("level").unwrap(),
        size: value.get("size").map(|size| size.as_u64().unwrap()).unwrap_or(0),
        out_kind: simple_log::deserialize_out_kind(&tokens).unwrap(),
        roll_count: value.get("roll_count").map(|count| count.as_u64().unwrap()).unwrap_or(0)
            as u32,
        time_format: text("time_format"),
        filter_target: targets,
    }
}

#[test]
fn a_configuration_written_as_json_is_read_back() {
    let configs = [
        LogConfigBuilder::builder()
            .path("./log/builder_log.log")
            .directory("/var/log")
            .size(100)
            .roll_count(10)
            .level("debug,app=warn,db=error")
            .time_format("%Y-%m-%d %H:%M:%S.%f")
            .output_file()
            .output_console()
            .build(),
        LogConfigBuilder::builder().level("info").output_console().output_console().build(),
        LogConfig::default(),
    ];
    for config in configs {
        assert_eq!(from_json(&as_json(&config)), config);
        let mut defaulted = config.clone();
        init_default_log(&mut defaulted, Some("server"));
        let mut read = from_json(&as_json(&config));
        init_default_log(&mut read, Some("server"));
        assert_eq!(read, defaulted);
        assert_eq!(from_json(&as_json(&defaulted)), defaulted);
    }
}

#[test]
fn a_configuration_is_read_from_json_with_fields_left_out() {
    let config = from_json(
        r#"{"path":"./log/tmp.log","level":"debug","size":10,"out_kind":"file","roll_count":10}"#,
    );
    assert_eq!(
        config,
        LogConfig {
            path: Some("./log/tmp.log".to_string()),
            directory: None,
            level: "debug".to_string(),
            size: 10,
            out_kind: vec![OutKind::File],
            roll_count: 10,
            time_format: None,
            filter_target: vec![],
        }
    );
    let config = from_json(r#"{"level":"info","out_kind":["Console","FILE"]}"#);
    assert_eq!(config.get_out_kind(), &vec![OutKind::Console, OutKind::File]);
    assert_eq!(config.get_size(), 0);
}

#[test]
fn a_target_is_made_of_a_name_and_a_level() {
    let target = FilterTarget::new("app::db", "warn");
    assert_eq!(target.name(), "app::db");
    assert_eq!(target.level(), "warn");
    assert_eq!(vec![target], FilterTarget::targets("info,app::db=warn"));
    let none = FilterTarget::default();
    assert_eq!(none.name(), "");
    assert_eq!(none.level(), "");
}

#[test]
fn a_level_with_white_space_is_set_as_the_grammar_reads_it() {
    let config = LogConfigBuilder::builder().level("Info ,a=warn").build();
    assert_eq!(config.get_level(), "Info");
    assert_eq!(LogConfigBuilder::builder().level("DEBUG").build().get_level(), "DEBUG");
    assert_eq!(config.get_filter_target(), &vec![FilterTarget::new("a", "warn")]);
}

#[test]
fn a_text_that_is_no_directive_sets_what_stands_for_a_level() {
    let mut config = LogConfigBuilder::builder().level("debug,app=warn").build();
    config.set_level("warning");
    assert_eq!(config.get_level(), "warning");
    assert!(config.get_filter_target().is_empty());
    config.set_level("app=warn");
    assert_eq!(config.get_level(), "debug");
    assert!(config.get_filter_target().is_empty());
}

#[test]
fn a_level_that_is_tried_is_set_or_is_an_error() {
    let mut config = LogConfigBuilder::builder().level("debug,app=warn").size(3).build();
    let before = config.clone();
    assert_eq!(
        config.try_set_level("warning"),
        Err("Failed to parse level:\nwarning\n^\nattempted to convert a string that doesn't match an existing log level".to_string())
    );
    assert_eq!(config, before);
    assert_eq!(
        config.try_set_level("info,"),
        Err("Failed to parse level:\ninfo,\n    ^\n".to_string())
    );
    assert_eq!(config, before);
    assert_eq!(config.try_set_level("OFF, db=trace"), Ok(()));
    assert_eq!(config.get_level(), "OFF");
    assert_eq!(config.get_filter_target(), &vec![FilterTarget::new("db", "trace")]);
    assert_eq!(config.get_size(), 3);
}
