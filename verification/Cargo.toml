[package]
name = "simple_log"
version = "0.1.0"
edition = "2021"
publish = false

[dependencies]
log = "0.4"
log4rs = { version = "1", default-features = false, features = ["console_appender", "rolling_file_appender", "compound_policy", "size_trigger", "fixed_window_roller", "pattern_encoder", "gzip"] }
once_cell = "1"
serde = { version = "1", features = ["derive"] }

[dev-dependencies]
serde_json = "1"
winnow = "0.7"
