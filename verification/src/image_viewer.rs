//! Entries, images and the storage services that the shell is built on.
//! The services are traits that each device implements.
use vstd::prelude::*;
use std::rc::Rc;
use crate::framebuffer::Rotation;
use crate::palm::prc::PrcInfo;
use crate::palm::runtime::ResourceBlob;
use crate::trbk::TrbkBookInfo;

verus! {

#[derive(Clone, Copy, Debug, PartialEq, Eq, Structural)]
pub enum EntryKind {
    Dir,
    File,
}

/// A directory entry.
#[derive(Clone, Debug)]
pub struct ImageEntry {
    pub name: String,
    pub kind: EntryKind,
}

/// A decoded picture.
#[derive(Clone, Debug)]
pub enum ImageData {
    /// 8-bit grey levels, row by row.
    Gray8 { width: u32, height: u32, pixels: Vec<u8> },
    /// Two-bit grey as three planes one after the other: base, low bit, high bit.
    Gray2 { width: u32, height: u32, data: Vec<u8> },
    /// Two-bit grey kept in storage under `key`.
    Gray2Stream { width: u32, height: u32, key: String },
    /// One bit per pixel, row by row, most significant bit first.
    Mono1 { width: u32, height: u32, bits: Vec<u8> },
}

#[derive(Clone, Debug)]
pub enum ImageError {
    Io,
    Decode,
    Unsupported,
    Message(String),
}

/// Browsing storage and loading pictures and Palm applications from it.
pub trait ImageSource {
    fn refresh(&mut self, path: &[String]) -> Result<Vec<ImageEntry>, ImageError>;

    fn load(&mut self, path: &[String], entry: &ImageEntry) -> Result<ImageData, ImageError>;

    /// By default a source cannot read Palm databases.
    fn load_prc_info(&mut self, _path: &[String], _entry: &ImageEntry) -> (r: Result<PrcInfo, ImageError>)
        default_ensures
            r matches Err(ImageError::Unsupported),
    {
        Err(ImageError::Unsupported)
    }

    fn load_prc_code_resource(
        &mut self,
        _path: &[String],
        _entry: &ImageEntry,
        _resource_id: u16,
    ) -> (r: Result<Vec<u8>, ImageError>)
        default_ensures
            r matches Err(ImageError::Unsupported),
    {
        Err(ImageError::Unsupported)
    }

    fn load_prc_bytes(&mut self, _path: &[String], _entry: &ImageEntry) -> (r: Result<Vec<u8>, ImageError>)
        default_ensures
            r matches Err(ImageError::Unsupported),
    {
        Err(ImageError::Unsupported)
    }

    /// Extra resources that belong to an application (such as an overlay
    /// database with the same creator).
    fn load_prc_app_resources(&mut self, _path: &[String], _entry: &ImageEntry, _info: &PrcInfo) -> (r: Vec<
        ResourceBlob,
    >)
        default_ensures
            r@.len() == 0,
    {
        Vec::new()
    }

    fn load_prc_system_resources(&mut self) -> (r: Vec<ResourceBlob>)
        default_ensures
            r@.len() == 0,
    {
        Vec::new()
    }

    /// The installed applications, for the launcher's Apps category.
    fn list_installed_apps(&mut self) -> (r: Vec<InstalledAppEntry>)
        default_ensures
            r@.len() == 0,
    {
        Vec::new()
    }
}

/// An installed Palm application.
#[derive(Clone, Debug)]
pub struct InstalledAppEntry {
    pub title: String,
    pub path: String,
    pub icon: Option<ImageData>,
}

/// Opening books and reading their images.
pub trait BookSource {
    fn open_trbk(&mut self, _path: &[String], _entry: &ImageEntry) -> (r: Result<Rc<TrbkBookInfo>, ImageError>)
        default_ensures
            r matches Err(ImageError::Unsupported),
    {
        Err(ImageError::Unsupported)
    }

    fn trbk_image(&mut self, _image_index: usize) -> (r: Result<ImageData, ImageError>)
        default_ensures
            r matches Err(ImageError::Unsupported),
    {
        Err(ImageError::Unsupported)
    }

    fn close_trbk(&mut self) {
    }
}

/// Reading two-bit grey pictures kept in storage straight into the planes.
pub trait Gray2StreamSource {
    fn load_gray2_stream(
        &mut self,
        _key: &str,
        _width: u32,
        _height: u32,
        _rotation: Rotation,
        _base: &mut [u8],
        _lsb: &mut [u8],
        _msb: &mut [u8],
    ) -> (r: Result<(), ImageError>)
        default_ensures
            r matches Err(ImageError::Unsupported),
    {
        Err(ImageError::Unsupported)
    }

    fn load_gray2_stream_region(
        &mut self,
        _key: &str,
        _width: u32,
        _height: u32,
        _rotation: Rotation,
        _base: &mut [u8],
        _lsb: &mut [u8],
        _msb: &mut [u8],
        _dst_x: i32,
        _dst_y: i32,
    ) -> (r: Result<(), ImageError>)
        default_ensures
            r matches Err(ImageError::Unsupported),
    {
        Err(ImageError::Unsupported)
    }

    fn load_gray2_stream_thumbnail(
        &mut self,
        _key: &str,
        _width: u32,
        _height: u32,
        _thumb_w: u32,
        _thumb_h: u32,
    ) -> (r: Option<ImageData>)
        default_ensures
            r is None,
    {
        None
    }
}

/// What the shell keeps between sessions.
pub trait PersistenceSource {
    fn save_resume(&mut self, _name: Option<&str>) {
    }

    fn load_resume(&mut self) -> (r: Option<String>)
        default_ensures
            r is None,
    {
        None
    }

    fn save_book_positions(&mut self, _entries: &[(String, usize)]) {
    }

    fn load_book_positions(&mut self) -> (r: Vec<(String, usize)>)
        default_ensures
            r@.len() == 0,
    {
        Vec::new()
    }

    fn save_recent_entries(&mut self, _entries: &[String]) {
    }

    fn load_recent_entries(&mut self) -> (r: Vec<String>)
        default_ensures
            r@.len() == 0,
    {
        Vec::new()
    }

    fn load_thumbnail(&mut self, _key: &str) -> (r: Option<ImageData>)
        default_ensures
            r is None,
    {
        None
    }

    fn save_thumbnail(&mut self, _key: &str, _image: &ImageData) {
    }

    fn load_thumbnail_title(&mut self, _key: &str) -> (r: Option<String>)
        default_ensures
            r is None,
    {
        None
    }

    fn save_thumbnail_title(&mut self, _key: &str, _title: &str) {
    }
}

pub trait PowerSource {
    fn sleep(&mut self) {
    }

    fn wake(&mut self) {
    }
}

/// Everything the shell needs from the device.
pub trait AppSource: ImageSource + BookSource + Gray2StreamSource + PersistenceSource + PowerSource {

}

impl<T> AppSource for T where
    T: ImageSource + BookSource + Gray2StreamSource + PersistenceSource + PowerSource,
 {

}

} // verus!
