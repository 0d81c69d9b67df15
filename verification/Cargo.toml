[package]
name = "usrs_core"
version = "0.1.0"
edition = "2021"
publish = false

[dependencies]
pitch_calc = "=0.12.0"
ultrastar-txt = "=0.1.3"
termion = "=4.0.6"
colored = "=3.1.1"
clap = "=4.6.7"
alto = "=3.0.4"
