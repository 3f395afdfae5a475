[package]
name = "spinspector"
version = "0.1.0"
edition = "2021"
publish = false

[dependencies]
anyhow = "*"
atspi = "*"
femtovg = "*"
gio = "*"
glib = "*"
glow = "*"
gtk4 = "*"
libadwaita = "*"
libloading = "*"
log = "*"
