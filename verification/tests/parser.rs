use simple_log::level::{parse_directive, parse_level, LevelSerde, ParseError, TargetLevel};
use simple_log::LevelFilter;

fn target(name: &str, level: LevelFilter) -> TargetLevel {
    TargetLevel::from((name, level))
}

#[test]
fn a_bare_level_has_no_targets() {
    assert_eq!(parse_level("off").unwrap(), (LevelFilter::Off, vec![]));
    assert_eq!(parse_level("debug").unwrap(), (LevelFilter::Debug, vec![]));
    assert_eq!(parse_level("info").unwrap(), (LevelFilter::Info, vec![]));
    assert_eq!(parse_level("warn").unwrap(), (LevelFilter::Warn, vec![]));
    assert_eq!(parse_level("error").unwrap(), (LevelFilter::Error, vec![]));
    assert_eq!(parse_level("trace").unwrap(), (LevelFilter::Trace, vec![]));
}

#[test]
fn a_level_is_read_in_any_case() {
    assert_eq!(parse_level("DEBUG").unwrap(), (LevelFilter::Debug, vec![]));
    assert_eq!(parse_level("Warn").unwrap(), (LevelFilter::Warn, vec![]));
    assert_eq!(
        parse_level("oFf,app=TRACE").unwrap(),
        (LevelFilter::Off, vec![target("app", LevelFilter::Trace)])
    );
}

#[test]
fn one_target_follows_the_level() {
    assert_eq!(
        parse_level("error,app=off").unwrap(),
        (LevelFilter::Error, vec![target("app", LevelFilter::Off)])
    );
}

#[test]
fn a_comma_may_close_the_last_clause() {
    assert_eq!(
        parse_level("debug,app=error,").unwrap(),
        (LevelFilter::Debug, vec![target("app", LevelFilter::Error)])
    );
    assert_eq!(parse_level("debug,app=error,").unwrap(), parse_level("debug,app=error").unwrap());
    assert_eq!(
        parse_level("debug,app=error ,").unwrap(),
        (LevelFilter::Debug, vec![target("app", LevelFilter::Error)])
    );
}

#[test]
fn targets_keep_their_order() {
    assert_eq!(
        parse_level("debug,app=error,filter::ctrl=error,app::launch::conf=info").unwrap(),
        (
            LevelFilter::Debug,
            vec![
                target("app", LevelFilter::Error),
                target("filter::ctrl", LevelFilter::Error),
                target("app::launch::conf", LevelFilter::Info),
            ]
        )
    );
    assert_eq!(
        parse_level("debug,app=error,filter_module::app::ctrl=error,app::launch::c123onf=info")
            .unwrap(),
        (
            LevelFilter::Debug,
            vec![
                target("app", LevelFilter::Error),
                target("filter_module::app::ctrl", LevelFilter::Error),
                target("app::launch::c123onf", LevelFilter::Info),
            ]
        )
    );
}

#[test]
fn a_repeated_target_is_kept_twice() {
    assert_eq!(
        parse_level("info,app=warn,app=trace").unwrap(),
        (
            LevelFilter::Info,
            vec![target("app", LevelFilter::Warn), target("app", LevelFilter::Trace)]
        )
    );
}

#[test]
fn white_space_may_stand_around_a_clause() {
    let expected = (
        LevelFilter::Debug,
        vec![target("app", LevelFilter::Error), target("db", LevelFilter::Warn)],
    );
    assert_eq!(parse_level("debug, app=error, db=warn").unwrap(), expected);
    assert_eq!(parse_level("debug ,app=error ,\tdb=warn \n").unwrap(), expected);
    assert_eq!(parse_level("debug,\n  app=error\n,\r\n  db=warn").unwrap(), expected);
}

#[test]
fn white_space_inside_a_clause_is_a_fault() {
    assert!(parse_level("debug,app =error").is_err());
    assert!(parse_level("debug,app= error").is_err());
    assert!(parse_level("debug,a pp=error").is_err());
    assert!(parse_level(" debug").is_err());
    assert!(parse_level("de bug").is_err());
}

#[test]
fn an_unknown_level_is_named_with_a_caret() {
    assert_eq!(
        parse_level("warning").err().unwrap(),
        "Failed to parse level:\nwarning\n^\nattempted to convert a string that doesn't match an existing log level"
    );
    assert_eq!(
        parse_directive("warning").err().unwrap(),
        ParseError {
            offset: 0,
            cause: "attempted to convert a string that doesn't match an existing log level"
                .to_string()
        }
    );
}

#[test]
fn what_is_left_over_is_shown_by_a_caret() {
    assert_eq!(parse_level("off !!!").err().unwrap(), "Failed to parse level:\noff !!!\n   ^\n");
    assert_eq!(
        parse_directive("off !!!").err().unwrap(),
        ParseError { offset: 3, cause: String::new() }
    );
}

#[test]
fn a_comma_alone_behind_the_level_is_a_fault() {
    assert_eq!(parse_level("info,").err().unwrap(), "Failed to parse level:\ninfo,\n    ^\n");
    assert_eq!(
        parse_directive("info,").err().unwrap(),
        ParseError { offset: 4, cause: String::new() }
    );
}

#[test]
fn what_follows_the_closing_comma_has_to_be_a_clause() {
    assert_eq!(
        parse_directive("debug,app=error,garbage").err().unwrap(),
        ParseError { offset: 16, cause: String::new() }
    );
    assert_eq!(
        parse_directive("debug,app=error, ").err().unwrap(),
        ParseError { offset: 16, cause: String::new() }
    );
    assert_eq!(
        parse_directive("debug,app=error,,").err().unwrap(),
        ParseError { offset: 16, cause: String::new() }
    );
    assert_eq!(
        parse_level("debug,app=error,=").err().unwrap(),
        "Failed to parse level:\ndebug,app=error,=\n                ^\n"
    );
}

#[test]
fn a_malformed_clause_fails_the_whole_directive() {
    assert_eq!(
        parse_directive("debug,app").err().unwrap(),
        ParseError { offset: 5, cause: String::new() }
    );
    assert_eq!(
        parse_directive("debug,=error").err().unwrap(),
        ParseError { offset: 5, cause: String::new() }
    );
    assert_eq!(
        parse_directive("debug,app=warning").err().unwrap(),
        ParseError { offset: 5, cause: String::new() }
    );
    assert_eq!(
        parse_directive("debug,app=error,db=loud").err().unwrap(),
        ParseError { offset: 16, cause: String::new() }
    );
    assert_eq!(
        parse_directive("debug,app-core=error").err().unwrap(),
        ParseError { offset: 5, cause: String::new() }
    );
}

#[test]
fn a_directive_has_to_start_with_a_level() {
    assert_eq!(parse_directive("").err().unwrap(), ParseError { offset: 0, cause: String::new() });
    assert_eq!(parse_level("").err().unwrap(), "Failed to parse level:\n\n^\n");
    assert_eq!(
        parse_directive("app=error").err().unwrap().offset,
        0
    );
    assert_eq!(
        parse_directive(",debug").err().unwrap(),
        ParseError { offset: 0, cause: String::new() }
    );
    assert_eq!(
        parse_directive("123").err().unwrap(),
        ParseError { offset: 0, cause: String::new() }
    );
}

#[test]
fn offsets_count_characters() {
    assert_eq!(
        parse_directive("debug,app=error,\u{e9}t\u{e9}=info").err().unwrap(),
        ParseError { offset: 16, cause: String::new() }
    );
    assert_eq!(
        parse_level("debug\u{e9}").err().unwrap(),
        "Failed to parse level:\ndebug\u{e9}\n     ^\n"
    );
}

#[test]
fn the_message_of_an_error_shows_the_directive() {
    let error = ParseError { offset: 2, cause: "why".to_string() };
    assert_eq!(error.message("abcd"), "Failed to parse level:\nabcd\n  ^\nwhy");
}

#[test]
fn a_target_gives_its_name_and_level() {
    let target = TargetLevel::from(("app::db", LevelFilter::Warn));
    assert_eq!(target.name(), "app::db");
    assert_eq!(target.level(), LevelFilter::Warn);
    assert_eq!(target.clone(), target);
}

#[test]
fn the_level_of_a_configuration_is_read_as_a_directive() {
    assert_eq!(
        LevelSerde::deserialize("trace,net=off").unwrap(),
        (LevelFilter::Trace, vec![target("net", LevelFilter::Off)])
    );
    assert_eq!(
        LevelSerde::deserialize("loud").err().unwrap(),
        parse_level("loud").err().unwrap()
    );
}

fn every_list(targets: &[(&'static str, LevelFilter)], length: usize) -> Vec<Vec<(&'static str, LevelFilter)>> {
    let mut all = vec![vec![]];
    let mut last = all.clone();
    for _ in 0..length {
        let mut longer = Vec::new();
        for list in &last {
            for target in targets {
                let mut one_more = list.clone();
                one_more.push(*target);
                longer.push(one_more);
            }
        }
        all.extend(longer.iter().cloned());
        last = longer;
    }
    all
}

fn written(level: LevelFilter, targets: &[(&str, LevelFilter)]) -> String {
    let mut text = level.to_text().to_string();
    for (name, level) in targets {
        text = format!("{},{}={}", text, name, level.to_text());
    }
    text
}

#[test]
fn a_directive_that_is_written_plainly_is_read_back() {
    let levels = [
        LevelFilter::Off,
        LevelFilter::Error,
        LevelFilter::Warn,
        LevelFilter::Info,
        LevelFilter::Debug,
        LevelFilter::Trace,
    ];
    let targets = [
        ("a", LevelFilter::Off),
        ("app::db", LevelFilter::Warn),
        ("_9", LevelFilter::Trace),
        ("::", LevelFilter::Error),
        ("info", LevelFilter::Debug),
    ];
    for list in every_list(&targets, 4) {
        for level in levels {
            let text = written(level, &list);
            let expected: Vec<TargetLevel> =
                list.iter().map(|(name, level)| target(name, *level)).collect();
            assert_eq!(parse_level(&text), Ok((level, expected.clone())), "directive {:?}", text);
            if !list.is_empty() {
                assert_eq!(
                    parse_level(&format!("{},", text)),
                    Ok((level, expected)),
                    "directive {:?}",
                    text
                );
            }
        }
    }
}

#[test]
fn the_level_and_the_targets_of_a_directive_that_is_written_plainly() {
    let targets = [
        ("a", LevelFilter::Off),
        ("app::db", LevelFilter::Warn),
        ("_9", LevelFilter::Trace),
        ("info", LevelFilter::Debug),
    ];
    for list in every_list(&targets, 4) {
        for level in [LevelFilter::Off, LevelFilter::Info, LevelFilter::Trace] {
            let text = written(level, &list);
            let expected: Vec<simple_log::FilterTarget> = list
                .iter()
                .map(|(name, level)| simple_log::FilterTarget::new(name, level.to_text()))
                .collect();
            assert_eq!(simple_log::get_root_level(&text), level.to_text());
            assert_eq!(simple_log::FilterTarget::targets(&text), expected);
            assert_eq!(LevelFilter::from_text(&simple_log::get_root_level(&text)), Ok(level));
        }
    }
}
