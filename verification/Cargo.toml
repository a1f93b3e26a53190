[package]
name = "classroom"
version = "0.1.0"
edition = "2021"
publish = false

[dependencies]
bcrypt = "*"
chrono = { version = "0.4", features = ["serde"] }
diesel = { version = "1.4", features = ["postgres", "chrono"] }
rocket = { version = "0.5", features = ["json"] }
rocket_dyn_templates = { version = "*", features = ["handlebars"] }
serde = { version = "1", features = ["derive"] }
tokio = { version = "1", features = ["rt"] }
