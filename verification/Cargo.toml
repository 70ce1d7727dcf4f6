[package]
name = "conetty"
version = "0.1.0"
edition = "2021"
publish = false

[dependencies]
arrayvec = "0.7"
co_managed = "*"
crossbeam = "0.8"
log = "0.4"
may = "*"
may_waiter = "*"
