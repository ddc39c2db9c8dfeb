[package]
name = "mdx_astro"
version = "0.1.0"
edition = "2021"
publish = false

[dependencies]
deunicode = "=1.4.4"
clap = { version = "=4.6.7", features = ["derive"] }
notify = "=8.2.0"
notify-debouncer-mini = "=0.7.0"
tokio = { version = "=1.53.2", features = ["macros", "rt-multi-thread"] }
