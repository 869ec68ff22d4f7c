//! Verified core of the Codex Skin Workshop: theme validation, the renderer
//! payload, DevTools target checks, image import decisions and the theme
//! store's rules. The desktop shell performs the file, process and network
//! work and hands this library plain values.
pub mod cdp;
pub mod codex;
pub mod color_map;
pub mod commands;
pub mod error;
pub mod ids;
pub mod image_tools;
pub mod store;
pub mod text;
pub mod theme;

pub use error::AppError;
