//! Typed identifiers of catalog items and of audio files.
//!
//! Both kinds wrap the raw bytes under which the catalog knows an entity. An
//! identifier is never empty and never changes once made.

use crate::base16::{base16, to_base16};
use vstd::prelude::*;
use vstd::slice::slice_to_vec;

verus! {

/// What kind of catalog entity an [`ItemId`] names.
#[derive(Clone, Copy, Debug, PartialEq, Eq, Hash, Structural)]
pub enum ItemIdType {
    Track,
    Album,
    Artist,
}

/// The mathematical content of an [`ItemId`].
pub struct ItemIdView {
    /// The raw identifying bytes; never empty in the view of an identifier.
    pub bytes: Seq<u8>,
    /// The kind of entity named.
    pub kind: ItemIdType,
}

/// Identifier of one catalog entity.
#[derive(Debug, PartialEq, Eq, Hash)]
pub struct ItemId {
    raw: Vec<u8>,
    id_type: ItemIdType,
}

/// Identifier of one encoded audio file.
#[derive(Debug, PartialEq, Eq, Hash)]
pub struct FileId {
    raw: Vec<u8>,
}

/// The identifier that `raw` and `kind` make: none from missing or empty bytes.
pub open spec fn item_id_of(raw: Option<Seq<u8>>, kind: ItemIdType) -> Option<ItemIdView> {
    match raw {
        Some(bytes) if bytes.len() > 0 => Some(ItemIdView { bytes, kind }),
        _ => None,
    }
}

/// The file identifier that `raw` makes: none from missing or empty bytes.
pub open spec fn file_id_of(raw: Option<Seq<u8>>) -> Option<Seq<u8>> {
    match raw {
        Some(bytes) if bytes.len() > 0 => Some(bytes),
        _ => None,
    }
}

impl View for ItemId {
    type V = ItemIdView;

    closed spec fn view(&self) -> ItemIdView {
        ItemIdView { bytes: self.raw@, kind: self.id_type }
    }
}

impl View for FileId {
    type V = Seq<u8>;

    closed spec fn view(&self) -> Seq<u8> {
        self.raw@
    }
}

impl ItemId {
    #[verifier::type_invariant]
    spec fn well_formed(&self) -> bool {
        self.raw@.len() > 0
    }

    /// Wraps `data` as an identifier of the given kind; empty data names
    /// nothing.
    pub fn from_raw(data: &[u8], id_type: ItemIdType) -> (id: Option<ItemId>)
        ensures
            id is Some <==> data@.len() > 0,
            id matches Some(made) ==> made@ == (ItemIdView { bytes: data@, kind: id_type }),
    {
        if data.len() == 0 {
            None
        } else {
            Some(ItemId { raw: slice_to_vec(data), id_type })
        }
    }

    /// The raw identifying bytes.
    pub fn as_bytes(&self) -> (bytes: &[u8])
        ensures
            bytes@ == self@.bytes,
            bytes@.len() > 0,
    {
        proof {
            use_type_invariant(self);
        }
        self.raw.as_slice()
    }

    /// The kind of entity named.
    pub fn id_type(&self) -> (kind: ItemIdType)
        ensures
            kind == self@.kind,
    {
        self.id_type
    }

    /// The identifier in lowercase hexadecimal, as request addresses carry it.
    pub fn to_base16(&self) -> (text: String)
        ensures
            text@ == base16(self@.bytes),
            text@.len() == 2 * self@.bytes.len(),
    {
        to_base16(self.raw.as_slice())
    }
}

impl FileId {
    #[verifier::type_invariant]
    spec fn well_formed(&self) -> bool {
        self.raw@.len() > 0
    }

    /// Wraps `data` as a file identifier; empty data names nothing.
    pub fn from_raw(data: &[u8]) -> (id: Option<FileId>)
        ensures
            id is Some <==> data@.len() > 0,
            id matches Some(made) ==> made@ == data@,
    {
        if data.len() == 0 {
            None
        } else {
            Some(FileId { raw: slice_to_vec(data) })
        }
    }

    /// The raw identifying bytes.
    pub fn as_bytes(&self) -> (bytes: &[u8])
        ensures
            bytes@ == self@,
            bytes@.len() > 0,
    {
        proof {
            use_type_invariant(self);
        }
        self.raw.as_slice()
    }
}

impl Clone for ItemId {
    fn clone(&self) -> (copy: Self)
        ensures
            copy@ == self@,
    {
        proof {
            use_type_invariant(self);
        }
        ItemId { raw: self.raw.clone(), id_type: self.id_type }
    }
}

impl Clone for FileId {
    fn clone(&self) -> (copy: Self)
        ensures
            copy@ == self@,
    {
        proof {
            use_type_invariant(self);
        }
        FileId { raw: self.raw.clone() }
    }
}

} // verus!
