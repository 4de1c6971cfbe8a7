pub mod internet;
