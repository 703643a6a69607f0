[package]
name = "mars_robots"
version = "0.1.0"
edition = "2021"
publish = false

[dependencies]
rand = "0.8"
crossterm = "0.27"
ratatui = "0.26"
thiserror = "1"
tracing = "0.1"
tracing-appender = "0.2"
tracing-subscriber = "0.3"
