[package]
name = "quizdown"
version = "0.1.0"
edition = "2021"
publish = false

[dependencies]
pulldown-cmark = "0.8"
syntect = { version = "4", default-features = false, features = ["default-fancy"] }
xmlwriter = "0.1"
clap = "2"
