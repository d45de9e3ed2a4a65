[package]
name = "exo_markup"
version = "0.1.0"
edition = "2021"
publish = false

[dependencies]
regex = "1"
select = "0.6"
ureq = "2"
clipboard = "0.5"
alert = "*"
