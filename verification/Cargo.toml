[package]
name = "json_ld_model"
version = "0.1.0"
edition = "2021"
publish = false

[dependencies]
json-syntax = "=0.12.5"
langtag = "=0.4.0"
locspan = "=0.8.2"
rdf-types = "=0.22.5"
iref = "=3.2.2"
linked-data = "=0.1.2"
