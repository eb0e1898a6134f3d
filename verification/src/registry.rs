//! The registry: the configuration that is active, and the decisions on
//! installing and replacing it.
//!
//! The registry has two states. It is uninitialized until the first
//! configuration is installed, and active from then on, when it holds that
//! configuration and the handle of the backend that runs it. It never touches
//! the backend itself: a decision says what the backend is to build, and the
//! registry takes the new configuration only once it is told that the backend
//! has done so. A failure on the way leaves the registry as it was.

use vstd::prelude::*;
use vstd::string::*;

use crate::config::{as_text, init_default_log, level_as_written, LogConfig, LogConfigView};
use crate::level::parser::{directive, failure_message};
use crate::level::LevelInto;
use crate::log_level::{
    lemma_level_names_are_those_of_log, level_of, unknown_level_message, validate_log_level, DEBUG,
};
use crate::out_kind::OutKind;
use crate::severity::level_filter_named;
use crate::routing::{
    build_config, routed, routing_of, Routing, RoutingView, DEFAULT_DATE_TIME_FORMAT,
};
use crate::text::opt_str;

verus! {

/// What a [`LogError`] holds, as plain values.
pub enum LogErrorView {
    NotInitialized,
    Level(Seq<char>),
    Routing(Seq<char>),
    Backend(Seq<char>),
}

/// What an [`Install`] holds, as plain values.
pub enum InstallView {
    AlreadyActive,
    Start { config: LogConfigView, routing: RoutingView },
}

/// What a [`Replace`] holds, as plain values.
pub struct ReplaceView {
    pub config: LogConfigView,
    pub routing: RoutingView,
}

/// Why a call on the registry failed.
#[derive(Debug, PartialEq, Eq)]
pub enum LogError {
    /// No configuration is installed yet.
    NotInitialized,
    /// The level is no level name, or no directive; the message says what
    /// is at fault.
    Level(String),
    /// The routing of the configuration cannot be planned.
    Routing(String),
    /// The backend could not build or install the routing.
    Backend(String),
}

/// What is to be done to install a configuration.
#[derive(Debug, PartialEq, Eq)]
pub enum Install {
    /// A configuration is active already: nothing is to be done.
    AlreadyActive,
    /// The backend is to build `routing` and install it; `config` is what the
    /// registry then holds.
    Start { config: LogConfig, routing: Routing },
}

/// What is to be done to replace the active configuration: the backend is to
/// build `routing` and swap it in; `config` is what the registry then holds.
#[derive(Debug, PartialEq, Eq)]
pub struct Replace {
    pub config: LogConfig,
    pub routing: Routing,
}

/// The holder of the active configuration and of the handle of the backend
/// that runs it. What a handle is, is up to the backend.
#[derive(Debug, PartialEq, Eq)]
pub struct Registry<H> {
    active: Option<(LogConfig, H)>,
}

impl View for LogError {
    type V = LogErrorView;

    open spec fn view(&self) -> LogErrorView {
        match self {
            LogError::NotInitialized => LogErrorView::NotInitialized,
            LogError::Level(message) => LogErrorView::Level(message@),
            LogError::Routing(message) => LogErrorView::Routing(message@),
            LogError::Backend(message) => LogErrorView::Backend(message@),
        }
    }
}

impl View for Install {
    type V = InstallView;

    open spec fn view(&self) -> InstallView {
        match self {
            Install::AlreadyActive => InstallView::AlreadyActive,
            Install::Start { config, routing } => InstallView::Start {
                config: config@,
                routing: routing@,
            },
        }
    }
}

impl View for Replace {
    type V = ReplaceView;

    open spec fn view(&self) -> ReplaceView {
        ReplaceView { config: self.config@, routing: self.routing@ }
    }
}

impl<H> View for Registry<H> {
    /// The active configuration, or `None` while the registry is
    /// uninitialized.
    type V = Option<LogConfigView>;

    closed spec fn view(&self) -> Option<LogConfigView> {
        match self.active {
            Some((config, _)) => Some(config@),
            None => None,
        }
    }
}

/// The text of the error for a registry that holds no configuration yet.
pub const NOT_INITIALIZED: &'static str = "the log configuration is not initialized";

impl LogError {
    /// The error as text.
    pub fn message(&self) -> (r: String)
        ensures
            r@ == match self@ {
                LogErrorView::NotInitialized => NOT_INITIALIZED@,
                LogErrorView::Level(message) => message,
                LogErrorView::Routing(message) => message,
                LogErrorView::Backend(message) => message,
            },
    {
        match self {
            LogError::NotInitialized => NOT_INITIALIZED.to_owned(),
            LogError::Level(message) => message.clone(),
            LogError::Routing(message) => message.clone(),
            LogError::Backend(message) => message.clone(),
        }
    }
}

/// The decision on installing `config`: nothing is to be done where a
/// configuration is active; else the routing of `config` is to be built, if it
/// can be planned.
pub open spec fn install_of(
    state: Option<LogConfigView>,
    config: LogConfigView,
    program: Option<Seq<char>>,
) -> Result<InstallView, LogErrorView> {
    if state is Some {
        Ok(InstallView::AlreadyActive)
    } else {
        match routing_of(config, program) {
            Ok(routing) => Ok(InstallView::Start { config: routed(config, program), routing }),
            Err(message) => Err(LogErrorView::Routing(message)),
        }
    }
}

/// The decision on replacing the active configuration by `config`.
pub open spec fn replace_of(
    state: Option<LogConfigView>,
    config: LogConfigView,
    program: Option<Seq<char>>,
) -> Result<ReplaceView, LogErrorView> {
    if state is None {
        Err(LogErrorView::NotInitialized)
    } else {
        match routing_of(config, program) {
            Ok(routing) => Ok(ReplaceView { config: routed(config, program), routing }),
            Err(message) => Err(LogErrorView::Routing(message)),
        }
    }
}

/// The state once the backend has answered an install: the first
/// configuration whose install succeeded is active, and stays.
pub open spec fn after_install(
    state: Option<LogConfigView>,
    config: LogConfigView,
    done: bool,
) -> Option<LogConfigView> {
    if done && state is None {
        Some(config)
    } else {
        state
    }
}

/// The state once the backend has answered a replacement: an active
/// configuration gives way to the new one where the backend has swapped.
pub open spec fn after_replace(
    state: Option<LogConfigView>,
    config: LogConfigView,
    done: bool,
) -> Option<LogConfigView> {
    if done && state is Some {
        Some(config)
    } else {
        state
    }
}

/// The view of a decision on an install.
pub open spec fn install_view(r: Result<Install, LogError>) -> Result<InstallView, LogErrorView> {
    match r {
        Ok(install) => Ok(install@),
        Err(error) => Err(error@),
    }
}

/// The view of a decision on a replacement.
pub open spec fn replace_view(r: Result<Replace, LogError>) -> Result<ReplaceView, LogErrorView> {
    match r {
        Ok(replace) => Ok(replace@),
        Err(error) => Err(error@),
    }
}

impl<H> Registry<H> {
    /// The handle of the backend, while a configuration is active.
    pub closed spec fn live(&self) -> Option<H> {
        match self.active {
            Some((_, handle)) => Some(handle),
            None => None,
        }
    }

    /// A handle is held exactly while a configuration is active.
    pub proof fn lemma_live_while_active(&self)
        ensures
            self.live() is Some <==> self@ is Some,
    {
    }

    /// The registry in which nothing is installed.
    pub fn new() -> (r: Registry<H>)
        ensures
            r@ is None,
            r.live() is None,
    {
        Registry { active: None }
    }

    /// Whether a configuration is active.
    pub fn is_active(&self) -> (r: bool)
        ensures
            r == (self@ is Some),
    {
        self.active.is_some()
    }

    /// The handle of the backend, while a configuration is active.
    pub fn handle(&self) -> (r: Option<&H>)
        ensures
            r is Some <==> self@ is Some,
            r matches Some(handle) ==> self.live() == Some(*handle),
    {
        match &self.active {
            Some((_, handle)) => Some(handle),
            None => None,
        }
    }

    /// Takes note of how the install of `config` ended: with the handle of
    /// the backend, or with its error. Where the backend failed, its error is
    /// handed on and nothing changes. Where it succeeded, `config` becomes the
    /// active configuration and the handle is kept, unless a configuration is
    /// active already, which then stays with its handle.
    pub fn installed(&mut self, config: LogConfig, outcome: Result<H, String>) -> (r: Result<
        (),
        LogError,
    >)
        ensures
            final(self)@ == after_install(old(self)@, config@, outcome is Ok),
            final(self).live() == if outcome is Ok && old(self)@ is None {
                Some(outcome->Ok_0)
            } else {
                old(self).live()
            },
            match outcome {
                Ok(_) => r is Ok,
                Err(message) => r matches Err(error) && error@ == LogErrorView::Backend(message@),
            },
    {
        match outcome {
            Ok(handle) => {
                if self.active.is_none() {
                    self.active = Some((config, handle));
                }
                Ok(())
            },
            Err(message) => Err(LogError::Backend(message)),
        }
    }

    /// Takes note of how the replacement by `config` ended. Where the backend
    /// failed, its error is handed on and nothing changes. Where it swapped,
    /// `config` becomes the active configuration, and a copy of it is
    /// returned.
    pub fn replaced(&mut self, config: LogConfig, outcome: Result<(), String>) -> (r: Result<
        LogConfig,
        LogError,
    >)
        ensures
            final(self)@ == after_replace(old(self)@, config@, outcome is Ok),
            final(self).live() == old(self).live(),
            match outcome {
                Ok(_) => match old(self)@ {
                    Some(_) => r matches Ok(copy) && copy@ == config@,
                    None => r matches Err(error) && error@ == LogErrorView::NotInitialized,
                },
                Err(message) => r matches Err(error) && error@ == LogErrorView::Backend(message@),
            },
    {
        match outcome {
            Ok(_) => {
                let copy = config.clone();
                match &mut self.active {
                    Some(active) => {
                        active.0 = config;
                        Ok(copy)
                    },
                    None => Err(LogError::NotInitialized),
                }
            },
            Err(message) => Err(LogError::Backend(message)),
        }
    }
}

/// Decides on the install of `log_config` as it stands, with no default
/// filled in.
pub fn init_log_conf<H>(registry: &Registry<H>, log_config: LogConfig, program: Option<&str>) -> (r:
    Result<Install, LogError>)
    ensures
        install_view(r) == install_of(registry@, log_config@, opt_str(program)),
{
    if registry.is_active() {
        return Ok(Install::AlreadyActive);
    }
    let mut config = log_config;
    match build_config(&mut config, program) {
        Ok(routing) => Ok(Install::Start { config, routing }),
        Err(message) => Err(LogError::Routing(message)),
    }
}

/// Decides on the replacement of the active configuration by `log_config`.
/// The registry itself changes only when [`Registry::replaced`] is told that
/// the backend has swapped.
pub fn update_log_conf<H>(registry: &Registry<H>, log_config: LogConfig, program: Option<&str>) -> (r:
    Result<Replace, LogError>)
    ensures
        replace_view(r) == replace_of(registry@, log_config@, opt_str(program)),
{
    if !registry.is_active() {
        return Err(LogError::NotInitialized);
    }
    let mut config = log_config;
    match build_config(&mut config, program) {
        Ok(routing) => Ok(Replace { config, routing }),
        Err(message) => Err(LogError::Routing(message)),
    }
}

/// The decision on giving the active configuration the level and the targets
/// of the directive `level`: a text that is no directive is an error with the
/// message of its fault; else the active configuration is to be replaced by
/// itself with that level and those targets.
pub open spec fn level_update_of(
    state: Option<LogConfigView>,
    level: Seq<char>,
    program: Option<Seq<char>>,
) -> Result<ReplaceView, LogErrorView> {
    match state {
        None => Err(LogErrorView::NotInitialized),
        Some(active) => match directive(level) {
            Err(fault) => Err(LogErrorView::Level(failure_message(level, fault))),
            Ok(_) => replace_of(state, active.with_level(level), program),
        },
    }
}

/// Decides on the replacement of the active configuration by itself with the
/// level and the targets of the directive `level`. A text that is no
/// directive is an error, and nothing is decided. What is decided holds the
/// level of the directive as it is written, its targets and no others, and
/// the root of the routing is at that level.
pub fn update_log_level<H>(registry: &Registry<H>, level: &str, program: Option<&str>) -> (r: Result<
    Replace,
    LogError,
>)
    ensures
        replace_view(r) == level_update_of(registry@, level@, opt_str(program)),
        registry@ is Some && directive(level@) is Err ==> (r matches Err(error) && error@
            == LogErrorView::Level(failure_message(level@, directive(level@)->Err_0))),
        r matches Ok(replace) ==> (directive(level@) matches Ok(read) && replace@.config.level
            == level_as_written(level@) && level_filter_named(replace@.config.level) == Some(
            read.level,
        ) && replace@.config.filter_target == as_text(read.targets)
            && replace@.routing.root_level == read.level),
{
    let mut config = match &registry.active {
        Some((active, _)) => active.clone(),
        None => {
            return Err(LogError::NotInitialized);
        },
    };
    match config.try_set_level(level) {
        Ok(_) => {},
        Err(message) => {
            return Err(LogError::Level(message));
        },
    }
    proof {
        lemma_level_names_are_those_of_log(
            level_as_written(level@),
            directive(level@)->Ok_0.level,
        );
    }
    match build_config(&mut config, program) {
        Ok(routing) => Ok(Replace { config, routing }),
        Err(message) => Err(LogError::Routing(message)),
    }
}

/// A copy of the active configuration.
pub fn get_log_conf<H>(registry: &Registry<H>) -> (r: Result<LogConfig, LogError>)
    ensures
        match registry@ {
            Some(active) => r matches Ok(config) && config@ == active,
            None => r matches Err(error) && error@ == LogErrorView::NotInitialized,
        },
{
    match &registry.active {
        Some((active, _)) => Ok(active.clone()),
        None => Err(LogError::NotInitialized),
    }
}

/// Decides on the install of `log_config` with its defaults filled in.
pub fn new<H>(registry: &Registry<H>, log_config: LogConfig, program: Option<&str>) -> (r: Result<
    Install,
    LogError,
>)
    ensures
        install_view(r) == install_of(
            registry@,
            log_config@.defaulted(opt_str(program)),
            opt_str(program),
        ),
{
    let mut config = log_config;
    init_default_log(&mut config, program);
    init_log_conf(registry, config, program)
}

/// Decides on the install of the configuration that has defaults only, at the
/// level `debug`.
pub fn quick<H>(registry: &Registry<H>, program: Option<&str>) -> (r: Result<Install, LogError>)
    ensures
        install_view(r) == quick_install_of(registry@, DEBUG@, None, opt_str(program)),
{
    quick_log_level(registry, DEBUG, None, program)
}

/// The configuration of a quick start: the level and, where one is given, the
/// path; all else at its default.
pub open spec fn quick_config(level: Seq<char>, path: Option<Seq<char>>) -> LogConfigView {
    (LogConfigView { path, ..LogConfigView::empty() }).with_level(level)
}

/// The decision on a quick start: the level has to be a level name.
pub open spec fn quick_install_of(
    state: Option<LogConfigView>,
    level: Seq<char>,
    path: Option<Seq<char>>,
    program: Option<Seq<char>>,
) -> Result<InstallView, LogErrorView> {
    if level_of(level) is None {
        Err(LogErrorView::Level(unknown_level_message(level)))
    } else {
        install_of(state, quick_config(level, path).defaulted(program), program)
    }
}

/// Decides on the install of the configuration that has defaults only, at the
/// given level and with the given path. A level that is no level name is an
/// error.
pub fn quick_log_level<H, S: LevelInto>(
    registry: &Registry<H>,
    level: S,
    path: Option<&str>,
    program: Option<&str>,
) -> (r: Result<Install, LogError>)
    ensures
        install_view(r) == quick_install_of(
            registry@,
            level.level_text(),
            opt_str(path),
            opt_str(program),
        ),
{
    let level = level.into_level();
    match validate_log_level(level) {
        Ok(_) => {},
        Err(message) => {
            return Err(LogError::Level(message));
        },
    }
    let mut config = LogConfig::default();
    config.path = match path {
        Some(path) => Some(path.to_owned()),
        None => None,
    };
    config.set_level(level);
    init_default_log(&mut config, program);
    init_log_conf(registry, config, program)
}

/// The configuration that writes to the console only.
pub open spec fn console_config(level: Seq<char>) -> LogConfigView {
    (LogConfigView {
        out_kind: seq![OutKind::Console],
        time_format: Some(DEFAULT_DATE_TIME_FORMAT@),
        ..LogConfigView::empty()
    }).with_level(level)
}

/// The decision on the install of a configuration whose level is given by
/// the directive `level`: a text that is no directive is an error with the
/// message of its fault.
pub open spec fn directive_install_of(
    state: Option<LogConfigView>,
    level: Seq<char>,
    config: LogConfigView,
    program: Option<Seq<char>>,
) -> Result<InstallView, LogErrorView> {
    match directive(level) {
        Err(fault) => Err(LogErrorView::Level(failure_message(level, fault))),
        Ok(_) => install_of(state, config, program),
    }
}

/// Decides on the install of the configuration that writes to the console
/// only, at the level and with the targets of the directive `level`. A text
/// that is no directive is an error.
pub fn console<H>(registry: &Registry<H>, level: &str, program: Option<&str>) -> (r: Result<
    Install,
    LogError,
>)
    ensures
        install_view(r) == directive_install_of(
            registry@,
            level@,
            console_config(level@),
            opt_str(program),
        ),
{
    let mut out_kind: Vec<OutKind> = Vec::new();
    out_kind.push(OutKind::Console);
    let mut config = LogConfig {
        path: None,
        directory: None,
        level: String::new(),
        size: 0,
        out_kind,
        roll_count: 0,
        time_format: Some(DEFAULT_DATE_TIME_FORMAT.to_owned()),
        filter_target: Vec::new(),
    };
    assert(config@.out_kind =~= seq![OutKind::Console]);
    match config.try_set_level(level) {
        Ok(_) => init_log_conf(registry, config, program),
        Err(message) => Err(LogError::Level(message)),
    }
}

/// The configuration that writes to one file only.
pub open spec fn file_config(path: Seq<char>, level: Seq<char>, size: u64, roll_count: u32)
    -> LogConfigView {
    (LogConfigView {
        path: Some(path),
        size,
        out_kind: seq![OutKind::File],
        roll_count,
        time_format: Some(DEFAULT_DATE_TIME_FORMAT@),
        ..LogConfigView::empty()
    }).with_level(level)
}

/// Decides on the install of the configuration that writes to the file `path`
/// only, at the level and with the targets of the directive `level`. The file
/// is rolled at `size` MB, and `roll_count` rolled files are kept. A text that
/// is no directive is an error.
pub fn file<H>(
    registry: &Registry<H>,
    path: &str,
    level: &str,
    size: u64,
    roll_count: u32,
    program: Option<&str>,
) -> (r: Result<Install, LogError>)
    ensures
        install_view(r) == directive_install_of(
            registry@,
            level@,
            file_config(path@, level@, size, roll_count),
            opt_str(program),
        ),
{
    let mut out_kind: Vec<OutKind> = Vec::new();
    out_kind.push(OutKind::File);
    let mut config = LogConfig {
        path: Some(path.to_owned()),
        directory: None,
        level: String::new(),
        size,
        out_kind,
        roll_count,
        time_format: Some(DEFAULT_DATE_TIME_FORMAT.to_owned()),
        filter_target: Vec::new(),
    };
    assert(config@.out_kind =~= seq![OutKind::File]);
    match config.try_set_level(level) {
        Ok(_) => init_log_conf(registry, config, program),
        Err(message) => Err(LogError::Level(message)),
    }
}

/// The number of installs that reach the backend, and the state in the end,
/// when the configurations of `configs` are installed one after the other and
/// the backend succeeds every time.
pub open spec fn installs(
    state: Option<LogConfigView>,
    configs: Seq<LogConfigView>,
    program: Option<Seq<char>>,
) -> (nat, Option<LogConfigView>)
    decreases configs.len(),
{
    if configs.len() == 0 {
        (0, state)
    } else {
        match install_of(state, configs.first(), program) {
            Ok(InstallView::Start { config, routing }) => {
                let rest = installs(
                    after_install(state, config, true),
                    configs.drop_first(),
                    program,
                );
                (rest.0 + 1, rest.1)
            },
            _ => installs(state, configs.drop_first(), program),
        }
    }
}

/// Once a configuration is active, an install asks nothing of the backend and
/// changes nothing, however the backend would answer.
pub proof fn lemma_install_once_active(
    active: LogConfigView,
    config: LogConfigView,
    program: Option<Seq<char>>,
    done: bool,
)
    ensures
        install_of(Some(active), config, program) == Ok::<InstallView, LogErrorView>(
            InstallView::AlreadyActive,
        ),
        after_install(Some(active), config, done) == Some(active),
{
}

/// Whether the routing of the configuration at `i` can be planned.
pub open spec fn can_be_planned(
    configs: Seq<LogConfigView>,
    program: Option<Seq<char>>,
    i: int,
) -> bool {
    0 <= i < configs.len() && routing_of(configs[i], program) is Ok
}

/// Of any number of installs, one after the other, at most one reaches the
/// backend. On a registry that is active, none does. On one that is
/// uninitialized, exactly one does wherever the routing of any of the
/// configurations can be planned, and none where that of none can.
pub proof fn lemma_installs_are_exclusive(
    state: Option<LogConfigView>,
    configs: Seq<LogConfigView>,
    program: Option<Seq<char>>,
)
    ensures
        installs(state, configs, program).0 <= 1,
        state is Some ==> installs(state, configs, program) == (0nat, state),
        state is None ==> (installs(state, configs, program).0 == 1 <==> exists|i: int|
            can_be_planned(configs, program, i)),
        state is None && installs(state, configs, program).0 == 0 ==> installs(
            state,
            configs,
            program,
        ).1 is None,
    decreases configs.len(),
{
    if configs.len() > 0 {
        let rest = configs.drop_first();
        match install_of(state, configs.first(), program) {
            Ok(InstallView::Start { config, routing }) => {
                lemma_installs_are_exclusive(after_install(state, config, true), rest, program);
                assert(can_be_planned(configs, program, 0));
            },
            _ => {
                lemma_installs_are_exclusive(state, rest, program);
                if state is None {
                    assert(!can_be_planned(configs, program, 0));
                    if exists|i: int| can_be_planned(rest, program, i) {
                        let i = choose|i: int| can_be_planned(rest, program, i);
                        assert(rest[i] == configs[i + 1]);
                        assert(can_be_planned(configs, program, i + 1));
                    }
                    if exists|i: int| can_be_planned(configs, program, i) {
                        let i = choose|i: int| can_be_planned(configs, program, i);
                        assert(rest[i - 1] == configs[i]);
                        assert(can_be_planned(rest, program, i - 1));
                    }
                }
            },
        }
    }
}

/// The install that reaches the backend is the first whose routing can be
/// planned: all that follow it do nothing, and its configuration is the
/// active one in the end.
pub proof fn lemma_first_install_wins(
    configs: Seq<LogConfigView>,
    program: Option<Seq<char>>,
    first: int,
)
    requires
        can_be_planned(configs, program, first),
        forall|i: int| 0 <= i < first ==> !can_be_planned(configs, program, i),
    ensures
        installs(None, configs, program) == (1nat, Some(routed(configs[first], program))),
    decreases configs.len(),
{
    let rest = configs.drop_first();
    if first == 0 {
        lemma_installs_are_exclusive(Some(routed(configs[0], program)), rest, program);
    } else {
        assert(!can_be_planned(configs, program, 0));
        assert(rest[first - 1] == configs[first]);
        assert forall|i: int| 0 <= i < first - 1 implies !can_be_planned(rest, program, i) by {
            assert(rest[i] == configs[i + 1]);
            assert(!can_be_planned(configs, program, i + 1));
        }
        lemma_first_install_wins(rest, program, first - 1);
    }
}

/// A replacement that fails leaves the active configuration as it was:
/// whether its routing cannot be planned or the backend fails, what is read
/// afterwards is what was active before.
pub proof fn lemma_failed_update_changes_nothing(
    state: Option<LogConfigView>,
    config: LogConfigView,
    program: Option<Seq<char>>,
)
    ensures
        routing_of(config, program) is Err ==> replace_of(state, config, program) is Err,
        after_replace(state, config, false) == state,
        state is None ==> after_replace(state, config, true) is None,
{
}

} // verus!
