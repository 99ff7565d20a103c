[package]
name = "equipment_inventory"
version = "0.1.0"
edition = "2021"
publish = false

[dependencies]
chrono = { version = "=0.4.45", features = ["serde"] }
diesel = { version = "=1.4.8", features = ["mysql", "chrono", "r2d2"] }
dotenv = "=0.15.0"
r2d2 = "=0.8.10"
rocket = { version = "0.5", features = ["json"] }
serde = { version = "=1.0.229", features = ["derive"] }
