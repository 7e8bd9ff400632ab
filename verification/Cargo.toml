[package]
name = "tuifw"
version = "0.1.0"
edition = "2021"
publish = false

[dependencies]
tuifw-screen-base = "*"
components-arena = "*"
unicode-width = "*"
unicode-segmentation = "*"
either = "*"
xml = "*"
timer-no-std = "*"
