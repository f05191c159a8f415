[package]
name = "docx_you_want"
version = "0.1.0"
edition = "2021"
publish = false

[dependencies]
tempfile = "*"
resvg = "*"
usvg = "*"
tiny-skia = "*"
png = "*"
zip = "*"
zip-extensions = "*"
format_xml = "*"
