//! The routing plan: what a logging backend is to be built from.
//!
//! A plan names the appenders with all that they are made of, the level of
//! every target and the level of the root. It holds plain values only; opening
//! files and installing the plan is the work of whoever owns the backend.

use vstd::prelude::*;
use vstd::string::*;

use crate::config::{
    basename_of, default_basename, FilterTarget, FilterTargetView, LogConfig, LogConfigView,
};
use crate::log_level::{form_log_level, level_or_debug};
use crate::out_kind::OutKind;
use crate::severity::LevelFilter;
use crate::text::{copy_opt, opt_str, opt_text};

verus! {

/// The name of the file appender.
pub const SIMPLE_LOG_FILE: &'static str = "simple_log_file";

/// The name of the console appender.
pub const SIMPLE_LOG_CONSOLE: &'static str = "simple_log_console";

/// The pattern in which the time of a record is written, where none is given.
pub const DEFAULT_DATE_TIME_FORMAT: &'static str = "%Y-%m-%d %H:%M:%S.%f";

/// What stands behind the path of the log file in the names of its rolled,
/// compressed copies; `{}` is the place of the copy's number.
pub const ARCHIVE_SUFFIX: &'static str = ".{}.gz";

/// The bytes of one MB.
pub const MB: u64 = 1048576;

/// The error for a file size whose count of bytes does not fit in 64 bits.
pub const SIZE_TOO_LARGE: &'static str = "the size of the log file, in bytes, exceeds 64 bits";

/// What an [`AppenderPlan`] holds, as plain values.
pub enum AppenderView {
    Console { pattern: Seq<char> },
    File {
        directory: Option<Seq<char>>,
        path: Seq<char>,
        pattern: Seq<char>,
        roll_count: u32,
        size_limit: u64,
    },
}

/// What a [`LoggerPlan`] holds, as plain values.
pub struct LoggerView {
    pub name: Seq<char>,
    pub level: LevelFilter,
}

/// What a [`Routing`] holds, as plain values.
pub struct RoutingView {
    pub appenders: Seq<AppenderView>,
    pub loggers: Seq<LoggerView>,
    pub root_level: LevelFilter,
}

/// One appender of the backend.
#[derive(Debug, PartialEq, Eq)]
pub enum AppenderPlan {
    /// Writes to the console, in `pattern`.
    Console { pattern: String },
    /// Writes in `pattern` to the file `path`, under `directory` where one is
    /// given. At `size_limit` bytes the file is rolled, and `roll_count`
    /// rolled copies are kept, named by the file's path and
    /// [`ARCHIVE_SUFFIX`], counted from 0.
    File {
        directory: Option<String>,
        path: String,
        pattern: String,
        roll_count: u32,
        size_limit: u64,
    },
}

/// The level of one target.
#[derive(Debug, PartialEq, Eq)]
pub struct LoggerPlan {
    pub name: String,
    pub level: LevelFilter,
}

/// A routing plan. The root logger writes to every appender of the plan, in
/// their order.
#[derive(Debug, PartialEq, Eq)]
pub struct Routing {
    pub appenders: Vec<AppenderPlan>,
    pub loggers: Vec<LoggerPlan>,
    pub root_level: LevelFilter,
}

impl View for AppenderPlan {
    type V = AppenderView;

    open spec fn view(&self) -> AppenderView {
        match self {
            AppenderPlan::Console { pattern } => AppenderView::Console { pattern: pattern@ },
            AppenderPlan::File { directory, path, pattern, roll_count, size_limit } => {
                AppenderView::File {
                    directory: opt_text(*directory),
                    path: path@,
                    pattern: pattern@,
                    roll_count: *roll_count,
                    size_limit: *size_limit,
                }
            },
        }
    }
}

impl View for LoggerPlan {
    type V = LoggerView;

    open spec fn view(&self) -> LoggerView {
        LoggerView { name: self.name@, level: self.level }
    }
}

impl View for Routing {
    type V = RoutingView;

    open spec fn view(&self) -> RoutingView {
        RoutingView {
            appenders: appender_views(self.appenders@),
            loggers: logger_views(self.loggers@),
            root_level: self.root_level,
        }
    }
}

/// The views of a list of appenders.
pub open spec fn appender_views(appenders: Seq<AppenderPlan>) -> Seq<AppenderView> {
    Seq::new(appenders.len(), |i: int| appenders[i]@)
}

/// The views of a list of target levels.
pub open spec fn logger_views(loggers: Seq<LoggerPlan>) -> Seq<LoggerView> {
    Seq::new(loggers.len(), |i: int| loggers[i]@)
}

impl AppenderPlan {
    /// The name under which the backend knows the appender.
    pub fn name(&self) -> (r: &'static str)
        ensures
            r@ == match self@ {
                AppenderView::Console { .. } => SIMPLE_LOG_CONSOLE@,
                AppenderView::File { .. } => SIMPLE_LOG_FILE@,
            },
    {
        match self {
            AppenderPlan::Console { .. } => SIMPLE_LOG_CONSOLE,
            AppenderPlan::File { .. } => SIMPLE_LOG_FILE,
        }
    }
}

/// The pattern of a record: its time in `time_format`, or in the default
/// format where none is given, its level, in colour where `color` is set, and
/// the module, the line and the message.
pub open spec fn encoder_pattern(time_format: Option<Seq<char>>, color: bool) -> Seq<char> {
    let time = match time_format {
        Some(format) => format,
        None => DEFAULT_DATE_TIME_FORMAT@,
    };
    let level = if color {
        "{h({l:5})}"@
    } else {
        "{l:5}"@
    };
    "{d("@ + time + ")} ["@ + level + "] "@ + "<{M}:{L}>:{m}{n}"@
}

/// The pattern in which an appender writes a record.
pub fn encoder(time_format: Option<&String>, color: bool) -> (r: String)
    ensures
        r@ == encoder_pattern(
            match time_format {
                Some(format) => Some(format@),
                None => None,
            },
            color,
        ),
{
    let mut pattern = "{d(".to_owned();
    match time_format {
        Some(format) => pattern.append(format.as_str()),
        None => pattern.append(DEFAULT_DATE_TIME_FORMAT),
    }
    pattern.append(")} [");
    if color {
        pattern.append("{h({l:5})}");
    } else {
        pattern.append("{l:5}");
    }
    pattern.append("] ");
    pattern.append("<{M}:{L}>:{m}{n}");
    pattern
}

/// The file appender of a configuration whose path is set, or the error
/// [`SIZE_TOO_LARGE`] where the size in MB is no count of bytes in 64 bits.
pub open spec fn file_plan(config: LogConfigView) -> Result<AppenderView, Seq<char>>
    recommends
        config.path is Some,
{
    if config.size * MB > u64::MAX {
        Err(SIZE_TOO_LARGE@)
    } else {
        Ok(
            AppenderView::File {
                directory: config.directory,
                path: config.path->0,
                pattern: encoder_pattern(config.time_format, false),
                roll_count: config.roll_count,
                size_limit: (config.size * MB) as u64,
            },
        )
    }
}

/// Plans the file appender of `log`.
pub fn file_appender(log: &LogConfig) -> (r: Result<AppenderPlan, String>)
    requires
        log@.path is Some,
    ensures
        match r {
            Ok(plan) => file_plan(log@) == Ok::<AppenderView, Seq<char>>(plan@),
            Err(message) => file_plan(log@) == Err::<AppenderView, Seq<char>>(message@),
        },
{
    let path = match &log.path {
        Some(path) => path.clone(),
        None => String::new(),
    };
    match log.size.checked_mul(MB) {
        Some(size_limit) => Ok(
            AppenderPlan::File {
                directory: copy_opt(&log.directory),
                path,
                pattern: encoder(log.time_format.as_ref(), false),
                roll_count: log.roll_count,
                size_limit,
            },
        ),
        None => Err(SIZE_TOO_LARGE.to_owned()),
    }
}

/// The path of the log file once routing is planned: where a file sink is
/// asked for under a directory and no path is given, the default base name;
/// else the path as it is.
pub open spec fn routed_path(config: LogConfigView, program: Option<Seq<char>>) -> Option<
    Seq<char>,
> {
    if config.out_kind.contains(OutKind::File) && config.directory is Some && config.path is None {
        Some(basename_of(program))
    } else {
        config.path
    }
}

/// The configuration once routing is planned.
pub open spec fn routed(config: LogConfigView, program: Option<Seq<char>>) -> LogConfigView {
    LogConfigView { path: routed_path(config, program), ..config }
}

/// The appenders for `kinds`, in their order: a console appender for every
/// console sink, and for every file sink the file appender of `config`, or
/// none where `config` has no path.
pub open spec fn appenders_for(kinds: Seq<OutKind>, config: LogConfigView) -> Seq<AppenderView>
    decreases kinds.len(),
{
    if kinds.len() == 0 {
        Seq::empty()
    } else {
        let before = appenders_for(kinds.drop_last(), config);
        match kinds.last() {
            OutKind::Console => before.push(
                AppenderView::Console { pattern: encoder_pattern(config.time_format, true) },
            ),
            OutKind::File => if config.path is Some {
                before.push(file_plan(config)->Ok_0)
            } else {
                before
            },
        }
    }
}

/// The level of every target, in the order of the targets; a level that is no
/// level name counts as `Debug`.
pub open spec fn loggers_for(targets: Seq<FilterTargetView>) -> Seq<LoggerView> {
    Seq::new(
        targets.len(),
        |i: int| LoggerView { name: targets[i].name, level: level_or_debug(targets[i].level) },
    )
}

/// The routing plan of a configuration, or the error of its file appender
/// where a file sink is asked for, a path is there and the appender cannot be
/// planned.
pub open spec fn routing_of(config: LogConfigView, program: Option<Seq<char>>) -> Result<
    RoutingView,
    Seq<char>,
> {
    let config = routed(config, program);
    if config.out_kind.contains(OutKind::File) && config.path is Some && file_plan(config) is Err {
        Err(file_plan(config)->Err_0)
    } else {
        Ok(
            RoutingView {
                appenders: appenders_for(config.out_kind, config),
                loggers: loggers_for(config.filter_target),
                root_level: level_or_debug(config.level),
            },
        )
    }
}

/// Plans the level of every target of the configuration.
fn loggers(targets: &Vec<FilterTarget>) -> (r: Vec<LoggerPlan>)
    ensures
        logger_views(r@) == loggers_for(crate::config::target_views(targets@)),
{
    let mut plans: Vec<LoggerPlan> = Vec::new();
    let mut i: usize = 0;
    while i < targets.len()
        invariant
            i <= targets.len(),
            plans.len() == i,
            forall|k: int|
                0 <= k < i ==> (#[trigger] plans[k])@ == (LoggerView {
                    name: targets[k]@.name,
                    level: level_or_debug(targets[k]@.level),
                }),
        decreases targets.len() - i,
    {
        let target = &targets[i];
        plans.push(
            LoggerPlan {
                name: target.name().clone(),
                level: form_log_level(target.level().as_str()),
            },
        );
        i = i + 1;
    }
    assert(logger_views(plans@) =~= loggers_for(crate::config::target_views(targets@)));
    plans
}

/// The first `i + 1` sinks are the first `i` and the one that follows them.
proof fn lemma_take_one_more(kinds: Seq<OutKind>, i: int)
    requires
        0 <= i < kinds.len(),
    ensures
        kinds.take(i + 1).drop_last() == kinds.take(i),
        kinds.take(i + 1).last() == kinds[i],
        kinds.take(i + 1).contains(OutKind::File) <==> kinds.take(i).contains(OutKind::File)
            || kinds[i] == OutKind::File,
        kinds[i] == OutKind::File ==> kinds.contains(OutKind::File),
{
    assert(kinds.take(i + 1).drop_last() =~= kinds.take(i));
    if kinds.take(i).contains(OutKind::File) {
        let k = choose|k: int| 0 <= k < i && kinds.take(i)[k] == OutKind::File;
        assert(kinds.take(i + 1)[k] == OutKind::File);
    }
    if kinds[i] == OutKind::File {
        assert(kinds.take(i + 1)[i] == OutKind::File);
    }
}

/// Plans the routing of a configuration. Where a file sink is asked for under
/// a directory and no path is given, the path of `log` becomes the default
/// base name; nothing else of `log` changes. `program` is the base name of
/// the running program, where it is known.
pub fn build_config(log: &mut LogConfig, program: Option<&str>) -> (r: Result<Routing, String>)
    ensures
        final(log)@ == routed(old(log)@, opt_str(program)),
        match r {
            Ok(routing) => routing_of(old(log)@, opt_str(program)) == Ok::<RoutingView, Seq<char>>(
                routing@,
            ),
            Err(message) => routing_of(old(log)@, opt_str(program)) == Err::<
                RoutingView,
                Seq<char>,
            >(message@),
        },
{
    let mut appenders: Vec<AppenderPlan> = Vec::new();
    let mut i: usize = 0;
    while i < log.out_kind.len()
        invariant
            i <= log.out_kind.len(),
            log@.out_kind == old(log)@.out_kind,
            log@ == (LogConfigView { path: log@.path, ..old(log)@ }),
            log@.path == if log@.out_kind.take(i as int).contains(OutKind::File)
                && old(log)@.directory is Some && old(log)@.path is None {
                Some(basename_of(opt_str(program)))
            } else {
                old(log)@.path
            },
            log@.out_kind.take(i as int).contains(OutKind::File) && log@.path is Some
                ==> file_plan(routed(old(log)@, opt_str(program))) is Ok,
            appender_views(appenders@) == appenders_for(
                log@.out_kind.take(i as int),
                routed(old(log)@, opt_str(program)),
            ),
        decreases log.out_kind.len() - i,
    {
        let ghost before = appender_views(appenders@);
        proof {
            lemma_take_one_more(log@.out_kind, i as int);
        }
        match log.out_kind[i] {
            OutKind::File => {
                if log.directory.is_some() && log.path.is_none() {
                    log.path = Some(default_basename(program));
                }
                assert(log@ == routed(old(log)@, opt_str(program)));
                if log.path.is_some() {
                    match file_appender(log) {
                        Ok(plan) => {
                            appenders.push(plan);
                            assert(appender_views(appenders@) =~= before.push(plan@));
                        },
                        Err(message) => {
                            return Err(message);
                        },
                    }
                }
            },
            OutKind::Console => {
                let plan = AppenderPlan::Console {
                    pattern: encoder(log.time_format.as_ref(), true),
                };
                appenders.push(plan);
                assert(appender_views(appenders@) =~= before.push(plan@));
            },
        }
        i = i + 1;
    }
    assert(log@.out_kind.take(i as int) =~= log@.out_kind);
    let loggers = loggers(&log.filter_target);
    let root_level = form_log_level(log.level.as_str());
    Ok(Routing { appenders, loggers, root_level })
}

} // verus!
