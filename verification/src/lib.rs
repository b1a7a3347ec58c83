//! Icon-asset generation for desktop and mobile applications, and the small
//! amount of project tooling around it.
//!
//! From one source image the library renders the rasters of each platform
//! (`icon`, `mask`, `canvas`), packs them into a Windows or macOS container
//! or writes them as flat images (`container`, `generate`), and plans the
//! relocation of the mobile files (`layout`); `pipeline` orders a run. The
//! other modules read what the tools of a project print.
//!
//! Everything is verified but the calls into the image and pattern crates,
//! which stand behind the trusted items of `codec` and `search`, and the
//! lower-case mapping of `text`. The library touches no file and starts no
//! program: callers hand it what they have read and carry out what it
//! answers.

pub mod assets;
pub mod canvas;
pub mod codec;
pub mod config;
pub mod container;
pub mod env_check;
pub mod errors;
pub mod generate;
pub mod git;
pub mod icon;
pub mod layout;
pub mod mask;
pub mod mobile;
pub mod models;
pub mod pipeline;
pub mod project_init;
pub mod quick_commands;
pub mod raster;
pub mod readback;
pub mod runner;
pub mod search;
pub mod text;
