[package]
name = "napoleon_amp_core"
version = "0.1.0"
edition = "2021"
publish = false

[dependencies]
rand = "=0.10.3"
rodio = "=0.21.1"
symphonia = "=0.5.5"
dirs-next = "=2.0.0"
discord-rich-presence = "=1.1.0"
chrono = "=0.4.45"
