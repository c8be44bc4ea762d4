//! The logic of a photo and video viewer: which file comes next, what a key
//! press does, which decoded frame is due, and how pixels, samples and bytes
//! are laid out. Windows, codecs, devices and the file system are left to the
//! program around it.

pub mod audio;
pub mod decode;
pub mod demuxer;
pub mod frames;
pub mod jpeg;
pub mod media;
pub mod navigation;
pub mod picture;
pub mod pixels;
pub mod playback;
pub mod player;
pub mod scenario;
pub mod shared;
pub mod text;
pub mod texture;
pub mod thumbnails;
pub mod viewer;
pub mod worker;
