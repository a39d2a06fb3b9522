//! Cross-file object references and their resolution against a registry.

use vstd::prelude::*;
use crate::error::Error;
use crate::serialized_file::{SerializedFile, spec_externals, spec_tt_object_post};
use crate::type_tree::TypeTreeObject;
use crate::unity_asset_view::{UnityAssetViewer, spec_lookup_by_name, spec_find_id};

verus! {

/// A decoded object reference: which file owns the target (zero for the
/// same file, a positive value as a one-based index into the externals
/// list), the target's path id, and the registry id of the file the
/// reference was decoded from.
#[derive(Debug, Clone, Copy, PartialEq, Eq, Structural)]
pub struct ObjectPointer {
    pub file_id: i64,
    pub path_id: i64,
    pub serialized_file_id: i64,
}

/// What a reference exposes to interpreters.
pub trait PPtrObject {
    fn get_path_id(&self) -> i64;

    fn get_file_id(&self) -> i64;

    fn get_serialized_file_id(&self) -> i64;
}

impl PPtrObject for ObjectPointer {
    fn get_path_id(&self) -> (r: i64)
        ensures
            r == self.path_id,
    {
        self.path_id
    }

    fn get_file_id(&self) -> (r: i64)
        ensures
            r == self.file_id,
    {
        self.file_id
    }

    fn get_serialized_file_id(&self) -> (r: i64)
        ensures
            r == self.serialized_file_id,
    {
        self.serialized_file_id
    }
}

/// The file-name component of a path: the bytes after the last `/` or
/// `\\` separator, or the whole path when it holds none.
pub open spec fn spec_file_name_of(p: Seq<u8>, j: int) -> Seq<u8>
    decreases j,
    when j <= p.len()
{
    if j <= 0 {
        p
    } else if p[j - 1] == 0x2f || p[j - 1] == 0x5c {
        p.subrange(j, p.len() as int)
    } else {
        spec_file_name_of(p, j - 1)
    }
}

/// Extracts the file-name component of a path.
pub fn file_name_of(p: &Vec<u8>) -> (r: Vec<u8>)
    ensures
        r@ == spec_file_name_of(p@, p@.len() as int),
{
    let mut j: usize = p.len();
    while j > 0
        invariant
            j <= p@.len(),
            spec_file_name_of(p@, p@.len() as int) == spec_file_name_of(p@, j as int),
        decreases j,
    {
        if p[j - 1] == 0x2f || p[j - 1] == 0x5c {
            return match crate::raw::read_bytes(p, j, p.len() - j) {
                Ok((v, _)) => {
                    proof {
                        assert(v@ =~= spec_file_name_of(p@, j as int));
                    }
                    v
                },
                Err(_) => {
                    proof {
                        assert(false);
                    }
                    Vec::new()
                },
            };
        }
        j -= 1;
    }
    let r = match crate::raw::read_bytes(p, 0, p.len()) {
        Ok((v, _)) => v,
        Err(_) => {
            proof {
                assert(false);
            }
            Vec::new()
        },
    };
    proof {
        assert(r@ =~= p@);
    }
    r
}

/// The file a reference resolves to: the file it was decoded from for
/// file id zero; else, with a registry at hand, the registry file
/// registered under the file name of the one-based externals entry.  A
/// missing registry or an unregistered name is an unfound external; a
/// file id outside the externals list is out of range.
pub open spec fn spec_resolution(
    p: ObjectPointer,
    sf: SerializedFile,
    viewer: Option<&UnityAssetViewer>,
) -> Result<SerializedFile, Error> {
    if p.file_id == 0 {
        Ok(sf)
    } else {
        match viewer {
            Option::None => Err(Error::ExternalSerializedFileNotFound),
            Option::Some(vw) => {
                let ext = spec_externals(sf.content@);
                if !(1 <= p.file_id <= ext.len()) {
                    Err(Error::FileIdOutOfRange)
                } else {
                    let path = ext[p.file_id - 1].path;
                    match spec_lookup_by_name(*vw, spec_file_name_of(path, path.len() as int)) {
                        Option::Some(f) => Ok(f),
                        Option::None => Err(Error::ExternalSerializedFileNotFound),
                    }
                }
            },
        }
    }
}

/// What dereferencing a pointer against a given file and registry
/// promises: path id zero is the defined "no object"; otherwise the
/// resolution outcome decides, and a resolved file's object is pinned by
/// [`spec_tt_object_post`].
pub open spec fn spec_pointer_object_post(
    p: ObjectPointer,
    sf: SerializedFile,
    viewer: Option<&UnityAssetViewer>,
    r: Result<Option<TypeTreeObject>, Error>,
) -> bool {
    &&& p.path_id == 0 ==> (r matches Ok(o) && o is None)
    &&& p.path_id != 0 ==> match spec_resolution(p, sf, viewer) {
        Ok(f) => spec_tt_object_post(f.data@, f.content@, p.path_id, r),
        Err(e) => r matches Err(x) && x == e,
    }
}

/// What dereferencing a pointer through the registry promises: an
/// unregistered owning file id is the not-found error; otherwise the
/// result is resolution against the looked-up file.
pub open spec fn spec_in_view_post(
    p: ObjectPointer,
    viewer: &UnityAssetViewer,
    r: Result<Option<TypeTreeObject>, Error>,
) -> bool {
    let j = spec_find_id(viewer.serialized_file_map@, p.serialized_file_id, 0);
    if j >= viewer.serialized_file_map@.len() {
        r matches Err(e) && e == Error::SerializedFileNotFound
    } else {
        spec_pointer_object_post(p, viewer.serialized_file_map@[j].1, Some(viewer), r)
    }
}

/// Resolving the same pointer twice against an unchanged registry yields
/// the same outcome, and on success value trees with identical content:
/// no caching exists, and every decode is a function of the registry's
/// bytes and metadata alone.
pub proof fn lemma_pointer_resolution_idempotent(
    p: ObjectPointer,
    viewer: &UnityAssetViewer,
    r1: Result<Option<TypeTreeObject>, Error>,
    r2: Result<Option<TypeTreeObject>, Error>,
)
    requires
        spec_in_view_post(p, viewer, r1),
        spec_in_view_post(p, viewer, r2),
    ensures
        r1 is Ok <==> r2 is Ok,
        r1 is Ok && r2 is Ok ==> (r1.unwrap() is Some <==> r2.unwrap() is Some),
        r1 is Ok && r2 is Ok && r1.unwrap() is Some && r2.unwrap() is Some ==> r1.unwrap().unwrap().data@
            == r2.unwrap().unwrap().data@ && r1.unwrap().unwrap().class_id
            == r2.unwrap().unwrap().class_id,
{
}

impl ObjectPointer {
    pub fn new(file_id: i64, path_id: i64, serialized_file_id: i64) -> (r: ObjectPointer)
        ensures
            r == (ObjectPointer { file_id, path_id, serialized_file_id }),
    {
        ObjectPointer { file_id, path_id, serialized_file_id }
    }

    /// The serialized file this reference points into: the file it was
    /// decoded from for file id zero, else the registry file registered
    /// under the file name of the named externals entry.  A file id
    /// outside the externals list is refused as out of range; an
    /// unregistered name as an unfound external.
    pub fn get_serialized_file<'a>(
        &self,
        self_serialized_file: &'a SerializedFile,
        viewer: Option<&'a UnityAssetViewer>,
    ) -> (r: Result<&'a SerializedFile, Error>)
        ensures
            match spec_resolution(*self, *self_serialized_file, viewer) {
                Ok(f) => r matches Ok(x) && *x == f,
                Err(e) => r matches Err(x) && x == e,
            },
    {
        if self.file_id == 0 {
            return Ok(self_serialized_file);
        }
        let viewer = match viewer {
            Some(v) => v,
            None => { return Err(Error::ExternalSerializedFileNotFound) },
        };
        let externals = self_serialized_file.get_externals();
        if !(self.file_id >= 1 && self.file_id as u64 <= externals.len() as u64) {
            return Err(Error::FileIdOutOfRange);
        }
        proof {
            assert(externals.deep_view().len() == externals@.len());
        }
        let idx = (self.file_id - 1) as usize;
        let name = file_name_of(&externals[idx].path);
        match viewer.get_serialized_file_by_path(&name) {
            Some(f) => Ok(f),
            None => Err(Error::ExternalSerializedFileNotFound),
        }
    }

    /// Decodes the object this reference designates.  A path id of zero is
    /// the defined "no object": it yields `Ok(None)` before any file
    /// resolution, whatever the file id — even one out of range.
    pub fn get_type_tree_object(
        &self,
        self_serialized_file: &SerializedFile,
        viewer: Option<&UnityAssetViewer>,
    ) -> (r: Result<Option<TypeTreeObject>, Error>)
        ensures
            spec_pointer_object_post(*self, *self_serialized_file, viewer, r),
    {
        if self.path_id == 0 {
            return Ok(None);
        }
        let serialized_file = match self.get_serialized_file(self_serialized_file, viewer) {
            Ok(f) => f,
            Err(e) => { return Err(e) },
        };
        serialized_file.get_tt_object_by_path_id(self.path_id)
    }

    /// Decodes the object this reference designates, locating the owning
    /// file through the registry id the reference was decoded under.
    pub fn get_type_tree_object_in_view(&self, viewer: &UnityAssetViewer) -> (r: Result<
        Option<TypeTreeObject>,
        Error,
    >)
        ensures
            spec_in_view_post(*self, viewer, r),
    {
        let self_serialized_file = match viewer.get_serialized_file_by_id(self.serialized_file_id) {
            Some(f) => f,
            None => { return Err(Error::SerializedFileNotFound) },
        };
        self.get_type_tree_object(self_serialized_file, Some(viewer))
    }
}

} // verus!
