[package]
name = "plot_monitor"
version = "0.1.0"
edition = "2021"
publish = false

[dependencies]
dashmap = "=6.2.1"
eframe = { version = "=0.32.3", default-features = false, features = ["default_fonts", "glow", "x11", "wayland"] }
egui-plotter = "=0.5.0"
plotters = { version = "=0.3.7", default-features = false, features = ["line_series", "colormaps", "all_elements"] }
tokio = { version = "=1.54.1", features = ["full"] }
