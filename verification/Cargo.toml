[package]
name = "gsc"
version = "0.1.0"
edition = "2021"
publish = false

[dependencies]
dotenv = "0.15"
google-sheets4 = "1"
hyper = "0.10"
hyper-native-tls = "0.3"
yup-oauth2 = "1"
