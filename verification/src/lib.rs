//! Content resolution for a streaming-audio client: typed identifiers, the
//! addresses under which metadata is requested, regional restrictions, the
//! choice of the audio file that best fits a list of preferred formats, and
//! references to playlists.

pub mod audio_file;
pub mod base16;
pub mod error;
pub mod item_id;
pub mod metadata;
pub mod playlist;
pub mod protocol;
pub mod restriction;
