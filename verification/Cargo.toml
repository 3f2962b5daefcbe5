[package]
name = "photo_service"
version = "0.1.0"
edition = "2021"
publish = false

[dependencies]
actix-web = "3"
async-trait = "0.1"
chrono = "0.4"
convert_case = "0.4"
diesel = { version = "1.4", features = ["mysql", "chrono"] }
dotenv = "0.15"
juniper = "0.15"
juniper-from-schema = "0.5"
juniper_actix = "0.2"
strum_macros = "0.20"
thiserror = "1"
uuid = { version = "0.8", features = ["v4"] }
