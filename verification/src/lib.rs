//! Logging configuration front end: a directive string such as
//! `debug,auth::session=warn` and a description of the output sinks become a
//! validated configuration value, a routing plan for a logging backend, and a
//! registry state that can be swapped while the program runs.

pub mod config;
pub mod level;
pub mod log_level;
pub mod out_kind;
pub mod registry;
pub mod routing;
pub mod severity;
pub mod text;

pub use config::{
    default_basename, get_root_level, init_default_log, FilterTarget, LogConfig, LogConfigBuilder,
};
pub use level::{parse_directive, parse_level, LevelInto, LevelSerde, ParseError, TargetLevel};
pub use log_level::{form_log_level, validate_log_level};
pub use out_kind::{deserialize_out_kind, serialize_out_kind, KindSerde, KindTokens, OutKind};
pub use crate::registry::file;
pub use registry::{
    console, get_log_conf, init_log_conf, new, quick, quick_log_level, update_log_conf,
    update_log_level, Install, LogError, Registry, Replace,
};
pub use routing::{build_config, encoder, file_appender, AppenderPlan, LoggerPlan, Routing};
pub use severity::{Level, LevelFilter};
