pub mod toml;
