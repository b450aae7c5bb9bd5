//! Photo culling: scanning a folder for photos, rating them one by one,
//! navigating among the ones still to decide, and planning the moves that
//! sort the decided ones into a kept and a rejected folder.

pub mod commit;
pub mod models;
pub mod navigation;
pub mod paths;
pub mod scanner;
pub mod session;
pub mod textures;

pub use models::{ImageInfo, Rating};
pub use session::BlitzApp;
