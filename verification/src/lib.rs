//! Pick a wallpaper image and plan the external commands that paint it.
//!
//! The library holds the logic of a small wallpaper-setting tool: deciding
//! which directory entries count as image files, drawing one of them
//! uniformly at random, validating the target path of each subcommand, and
//! building the exact argument lists for the external painting programs.
//! Running those programs, and all other I/O, is left to the binary around
//! the library.

mod compositor;
mod dispatch;
mod error;
mod image;
mod select;

pub use compositor::Compositor;
pub use compositor::parse_compositor;
pub use dispatch::Command;
pub use dispatch::Invocation;
pub use dispatch::InvocationModel;
pub use dispatch::default_x11_target;
pub use dispatch::hsetroot_default_model;
pub use dispatch::hsetroot_screen_model;
pub use dispatch::pkill_model;
pub use dispatch::plan;
pub use dispatch::plan_model;
pub use dispatch::swaybg_model;
pub use dispatch::validate_target;
pub use error::Error;
pub use error::message_spec;
pub use image::extension_of;
pub use image::is_image;
pub use image::lemma_image_suffix;
pub use image::lemma_is_image_case_insensitive;
pub use image::is_image_ext;
pub use image::is_image_spec;
pub use image::last_index;
pub use image::lower_char;
pub use image::lower_seq;
pub use select::choose_image;
pub use select::has_image;
