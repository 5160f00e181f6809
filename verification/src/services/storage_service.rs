//! Where the asset store keeps its files.
use vstd::prelude::*;

use crate::models::{Frame, frame_filename};
use crate::paths::{join_path, path_join};
use crate::services::decoder_service::frame_path_in;
use vstd::string::*;

verus! {

/// The directories of the asset store, under its data directory.
#[derive(Debug, Clone, PartialEq, Eq)]
pub struct StoragePaths {
    /// The application's data directory.
    pub data_dir: String,
    /// Where imported originals are kept.
    pub assets_dir: String,
    /// Where decoded frames are kept, one directory per asset.
    pub frames_dir: String,
}

impl StoragePaths {
    /// The directory of an asset's frames: the asset id inside the frames directory.
    pub open spec fn spec_frame_dir(&self, asset_id: Seq<char>) -> Seq<char> {
        path_join(self.frames_dir@, asset_id)
    }

    /// The file of one frame: its standard name inside the asset's frame directory.
    pub open spec fn spec_frame_path(&self, asset_id: Seq<char>, frame_index: u32) -> Seq<char> {
        path_join(self.spec_frame_dir(asset_id), frame_filename(frame_index))
    }

    /// The store under `data_dir`: `assets` and `frames` inside it.
    pub fn new(data_dir: &str) -> (p: Self)
        ensures
            p.data_dir@ == data_dir@,
            p.assets_dir@ == path_join(data_dir@, "assets"@),
            p.frames_dir@ == path_join(data_dir@, "frames"@),
    {
        StoragePaths {
            data_dir: String::from_str(data_dir),
            assets_dir: join_path(data_dir, "assets"),
            frames_dir: join_path(data_dir, "frames"),
        }
    }

    /// The database file, `aam.db` in the data directory.
    pub fn database_path(&self) -> (p: String)
        ensures
            p@ == path_join(self.data_dir@, "aam.db"@),
    {
        join_path(self.data_dir.as_str(), "aam.db")
    }

    /// The directory of an asset's frames.
    pub fn get_frame_dir(&self, asset_id: &str) -> (p: String)
        ensures
            p@ == self.spec_frame_dir(asset_id@),
    {
        join_path(self.frames_dir.as_str(), asset_id)
    }

    /// The file of one frame of an asset.
    pub fn get_frame_path(&self, asset_id: &str, frame_index: u32) -> (p: String)
        ensures
            p@ == self.spec_frame_path(asset_id@, frame_index),
    {
        let dir = self.get_frame_dir(asset_id);
        let name = Frame::filename_for_index(frame_index);
        join_path(dir.as_str(), name.as_str())
    }

    /// The directory for temporary files, `temp` in the data directory.
    pub fn get_temp_dir(&self) -> (p: String)
        ensures
            p@ == path_join(self.data_dir@, "temp"@),
    {
        join_path(self.data_dir.as_str(), "temp")
    }
}


/// What the decoder writes, the store finds: when an asset's frame directory is the
/// one the store gives it, frame `index` is written exactly where the store looks
/// for that frame.
pub proof fn lemma_decoded_frame_is_found(
    paths: StoragePaths,
    asset_id: Seq<char>,
    frame_directory: Seq<char>,
    index: u32,
)
    requires
        frame_directory == paths.spec_frame_dir(asset_id),
    ensures
        frame_path_in(frame_directory, index) == paths.spec_frame_path(asset_id, index),
{
}

} // verus!
