//! The registry: serialized files keyed by a synthetic id, name-based
//! lookup for resolving externals, and container paths mapped to objects.

use vstd::prelude::*;
use crate::error::Error;
use crate::serialized_file::SerializedFile;

verus! {

/// A session-scoped registry of serialized files.  Files are keyed by the
/// synthetic id they were given when added; externals are resolved by the
/// file name they were registered under; container paths map a logical
/// name to a (file id, path id) pair.
pub struct UnityAssetViewer {
    pub serialized_file_map: Vec<(i64, SerializedFile)>,
    pub file_names: Vec<(i64, Vec<u8>)>,
    pub container_maps: Vec<(Vec<u8>, (i64, i64))>,
    pub next_id: i64,
}

/// First index at or after `j` of an entry with the given id, or the
/// length.
pub open spec fn spec_find_id(m: Seq<(i64, SerializedFile)>, id: i64, j: int) -> int
    decreases m.len() - j,
    when 0 <= j
{
    if j >= m.len() {
        m.len() as int
    } else if m[j].0 == id {
        j
    } else {
        spec_find_id(m, id, j + 1)
    }
}

/// First index at or after `j` of a name entry with the given name, or
/// the length.
pub open spec fn spec_find_name(m: Seq<(i64, Seq<u8>)>, name: Seq<u8>, j: int) -> int
    decreases m.len() - j,
    when 0 <= j
{
    if j >= m.len() {
        m.len() as int
    } else if m[j].1 == name {
        j
    } else {
        spec_find_name(m, name, j + 1)
    }
}

impl UnityAssetViewer {
    /// An empty registry.
    pub fn new() -> (r: UnityAssetViewer)
        ensures
            r.serialized_file_map@.len() == 0,
            r.file_names@.len() == 0,
            r.container_maps@.len() == 0,
            r.next_id == 1,
    {
        UnityAssetViewer {
            serialized_file_map: Vec::new(),
            file_names: Vec::new(),
            container_maps: Vec::new(),
            next_id: 1,
        }
    }

    /// Parses a serialized file and adds it under a fresh id, registered
    /// under the given file name for externals resolution.  Fails exactly
    /// when the ids are exhausted or the bytes parse as no supported
    /// revision, and then changes nothing.
    pub fn add_serialized_file(&mut self, data: Vec<u8>, name: Vec<u8>) -> (r: Result<i64, Error>)
        ensures
            r is Err <==> (old(self).next_id == i64::MAX
                || !crate::serialized_file::spec_read_ok(data@)),
            match r {
                Ok(id) => {
                    &&& id == old(self).next_id
                    &&& final(self).next_id == old(self).next_id + 1
                    &&& final(self).serialized_file_map@.len() == old(
                        self,
                    ).serialized_file_map@.len() + 1
                    &&& final(self).serialized_file_map@.last().0 == id
                    &&& final(self).serialized_file_map@.last().1.data@ == data@
                    &&& final(self).serialized_file_map@.last().1.content@
                        == crate::serialized_file::spec_read_content(data@)
                    &&& final(self).serialized_file_map@.subrange(
                        0,
                        old(self).serialized_file_map@.len() as int,
                    ) == old(self).serialized_file_map@
                    &&& final(self).file_names@ == old(self).file_names@.push((id, name))
                    &&& final(self).container_maps@ == old(self).container_maps@
                },
                Err(_) => *final(self) == *old(self),
            },
    {
        if self.next_id == i64::MAX {
            return Err(Error::InvalidValue);
        }
        let sf = match SerializedFile::read(data) {
            Ok(v) => v,
            Err(e) => { return Err(e) },
        };
        let id = self.next_id;
        self.serialized_file_map.push((id, sf));
        self.file_names.push((id, name));
        self.next_id = id + 1;
        proof {
            assert(self.serialized_file_map@.subrange(
                0,
                old(self).serialized_file_map@.len() as int,
            ) =~= old(self).serialized_file_map@);
        }
        Ok(id)
    }

    /// The serialized file added under `id`, if any.
    pub fn get_serialized_file_by_id(&self, id: i64) -> (r: Option<&SerializedFile>)
        ensures
            ({
                let k = spec_find_id(self.serialized_file_map@, id, 0);
                if k < self.serialized_file_map@.len() {
                    r matches Some(f) && *f == self.serialized_file_map@[k].1
                } else {
                    r is None
                }
            }),
    {
        let n = self.serialized_file_map.len();
        let mut k: usize = 0;
        while k < n
            invariant
                n == self.serialized_file_map@.len(),
                k <= n,
                forall|j: int| 0 <= j < k ==> #[trigger] self.serialized_file_map@[j].0 != id,
            decreases n - k,
        {
            if self.serialized_file_map[k].0 == id {
                proof {
                    lemma_find_id_skip(self.serialized_file_map@, id, 0, k as int);
                }
                return Some(&self.serialized_file_map[k].1);
            }
            k += 1;
        }
        proof {
            lemma_find_id_skip(self.serialized_file_map@, id, 0, n as int);
        }
        None
    }

    /// The serialized file registered under the given file name, if any:
    /// the name table names an id, and the file table's entry for that id
    /// is returned.  `None` exactly when the name is unregistered or its
    /// id has no file.
    pub fn get_serialized_file_by_path(&self, name: &Vec<u8>) -> (r: Option<&SerializedFile>)
        ensures
            match spec_lookup_by_name(*self, name@) {
                Some(f) => r matches Some(x) && *x == f,
                None => r is None,
            },
    {
        let ghost namesv = self.file_names.deep_view();
        let n = self.file_names.len();
        let mut k: usize = 0;
        while k < n
            invariant
                n == self.file_names@.len(),
                namesv == self.file_names.deep_view(),
                namesv.len() == n,
                k <= n,
                forall|j: int| 0 <= j < k ==> #[trigger] namesv[j].1 != name@,
            decreases n - k,
        {
            proof {
                assert(namesv[k as int].1 == self.file_names@[k as int].1@);
                assert(namesv[k as int].0 == self.file_names@[k as int].0);
            }
            if crate::strutil::bytes_eq(&self.file_names[k].1, name) {
                proof {
                    lemma_find_name_skip(namesv, name@, 0, k as int);
                }
                let id = self.file_names[k].0;
                return match self.get_serialized_file_by_id(id) {
                    Some(f) => {
                        proof {
                            let kk = spec_find_id(self.serialized_file_map@, id, 0);
                            lemma_find_id_bounds(self.serialized_file_map@, id, 0);
                        }
                        Some(f)
                    },
                    None => None,
                };
            }
            k += 1;
        }
        proof {
            lemma_find_name_skip(namesv, name@, 0, n as int);
        }
        None
    }

    /// Records that a container path names the object `path_id` of file
    /// `file_id`.
    pub fn add_container_map(&mut self, container_path: Vec<u8>, file_id: i64, path_id: i64)
        ensures
            final(self).container_maps@.len() == old(self).container_maps@.len() + 1,
            final(self).container_maps@.last().0@ == container_path@,
            final(self).container_maps@.last().1 == (file_id, path_id),
            final(self).container_maps@.subrange(0, old(self).container_maps@.len() as int) == old(
                self,
            ).container_maps@,
            final(self).serialized_file_map@ == old(self).serialized_file_map@,
            final(self).file_names@ == old(self).file_names@,
            final(self).next_id == old(self).next_id,
    {
        self.container_maps.push((container_path, (file_id, path_id)));
        proof {
            assert(self.container_maps@.subrange(0, old(self).container_maps@.len() as int)
                =~= old(self).container_maps@);
        }
    }
}

/// The file the registry returns for a name: the first name-table entry
/// carrying the name gives an id, and the first file-table entry carrying
/// that id gives the file.
pub open spec fn spec_lookup_by_name(v: UnityAssetViewer, name: Seq<u8>) -> Option<SerializedFile> {
    let k = spec_find_name(v.file_names.deep_view(), name, 0);
    if k >= v.file_names@.len() {
        None
    } else {
        let id = v.file_names.deep_view()[k].0;
        let j = spec_find_id(v.serialized_file_map@, id, 0);
        if j >= v.serialized_file_map@.len() {
            None
        } else {
            Some(v.serialized_file_map@[j].1)
        }
    }
}

/// The id scan stays in bounds.
pub proof fn lemma_find_id_bounds(m: Seq<(i64, SerializedFile)>, id: i64, j: int)
    requires
        0 <= j <= m.len(),
    ensures
        j <= spec_find_id(m, id, j) <= m.len(),
        spec_find_id(m, id, j) < m.len() ==> m[spec_find_id(m, id, j)].0 == id,
    decreases m.len() - j,
{
    if j < m.len() && m[j].0 != id {
        lemma_find_id_bounds(m, id, j + 1);
    }
}

/// The id scan skips entries with other ids.
pub proof fn lemma_find_id_skip(m: Seq<(i64, SerializedFile)>, id: i64, j: int, k: int)
    requires
        0 <= j <= k <= m.len(),
        forall|x: int| j <= x < k ==> #[trigger] m[x].0 != id,
    ensures
        spec_find_id(m, id, j) == spec_find_id(m, id, k),
    decreases k - j,
{
    if j < k {
        lemma_find_id_skip(m, id, j + 1, k);
    }
}

/// The name scan skips entries with other names.
pub proof fn lemma_find_name_skip(m: Seq<(i64, Seq<u8>)>, name: Seq<u8>, j: int, k: int)
    requires
        0 <= j <= k <= m.len(),
        forall|x: int| j <= x < k ==> #[trigger] m[x].1 != name,
    ensures
        spec_find_name(m, name, j) == spec_find_name(m, name, k),
    decreases k - j,
{
    if j < k {
        lemma_find_name_skip(m, name, j + 1, k);
    }
}

} // verus!
