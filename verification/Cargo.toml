[package]
name = "carapace"
version = "0.1.0"
edition = "2021"
publish = false

[dependencies]
clap = "2"
dirs-next = "2"
glob = "0.3"
is_executable = "1"
json = "0.12"
libc = "0.2"
regex-syntax = "0.8"
rustyline = "6"
shlex = "1"
termcolor = "1"

[dev-dependencies]
regex = "1"
