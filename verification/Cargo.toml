[package]
name = "rustkr"
version = "0.1.0"
edition = "2021"
publish = false

[dependencies]
pulldown-cmark = "*"
mustache = "*"
iron = "*"
router = "*"
mount = "*"
persistent = "*"
staticfile = "*"
getopts = "*"
env_logger = "*"
log = "*"
mime = "*"
typemap = "*"
