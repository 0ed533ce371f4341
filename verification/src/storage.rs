//! Byte storage for PDFs: the upload validation rule, the path layout of the
//! local backend, and an in-memory blob store with the same capability set.
use vstd::prelude::*;

use crate::cache::b64_of;
use vstd::string::StringExecFns;

verus! {

/// Failures of the blob store.
#[derive(Debug)]
pub enum StorageError {
    NotFound(String),
    Io(String),
    InvalidFormat,
    Other(String),
}

impl StorageError {
    /// A missing blob, as opposed to a faulty one or a faulty medium.
    pub open spec fn spec_is_not_found(self) -> bool {
        self is NotFound
    }

    /// Whether this failure means the blob does not exist.
    pub fn is_not_found(&self) -> (r: bool)
        ensures
            r == self.spec_is_not_found(),
    {
        match self {
            StorageError::NotFound(_) => true,
            _ => false,
        }
    }

    /// A short description of the failure.
    pub fn describe(&self) -> (r: String)
        ensures
            self matches StorageError::NotFound(m) ==> r@ == "File not found: "@ + m@,
            self matches StorageError::Io(m) ==> r@ == "IO error: "@ + m@,
            self is InvalidFormat ==> r@ == "Invalid file format"@,
            self matches StorageError::Other(m) ==> r@ == "Storage error: "@ + m@,
    {
        match self {
            StorageError::NotFound(m) => {
                let mut s: String = "File not found: ".to_owned();
                s.append(m.as_str());
                s
            },
            StorageError::Io(m) => {
                let mut s: String = "IO error: ".to_owned();
                s.append(m.as_str());
                s
            },
            StorageError::InvalidFormat => "Invalid file format".to_owned(),
            StorageError::Other(m) => {
                let mut s: String = "Storage error: ".to_owned();
                s.append(m.as_str());
                s
            },
        }
    }
}

/// The upload validation rule: stored bytes must begin with `%PDF`.
pub open spec fn valid_pdf_header(data: Seq<u8>) -> bool {
    data.len() >= 4 && data[0] == 0x25u8 && data[1] == 0x50u8 && data[2] == 0x44u8 && data[3]
        == 0x46u8
}

/// Whether the bytes begin with the `%PDF` marker.
pub fn has_pdf_header(data: &Vec<u8>) -> (r: bool)
    ensures
        r == valid_pdf_header(data@),
{
    data.len() >= 4 && data[0] == 0x25 && data[1] == 0x50 && data[2] == 0x44 && data[3] == 0x46
}

/// A copy of a byte vector.
pub fn clone_bytes(v: &Vec<u8>) -> (r: Vec<u8>)
    ensures
        r@ == v@,
{
    let r = v.clone();
    proof {
        assert(r@ =~= v@);
    }
    r
}

/// The local file-system backend's path layout. The transport around the
/// library creates the directories and moves the bytes; the layout itself is
/// plain string arithmetic.
pub struct LocalStorage {
    pub base_path: String,
}

impl LocalStorage {
    /// A backend rooted at the given directory.
    pub fn new(base_path: String) -> (r: LocalStorage)
        ensures
            r.base_path@ == base_path@,
    {
        LocalStorage { base_path }
    }

    /// Where the document's PDF bytes live.
    pub fn pdf_path(&self, document_id: &String) -> (r: String)
        ensures
            r@ == self.base_path@ + "/pdfs/"@ + document_id@ + ".pdf"@,
    {
        let mut s = self.base_path.clone();
        s.append("/pdfs/");
        s.append(document_id.as_str());
        s.append(".pdf");
        s
    }

    /// Where the document's metadata bytes live.
    pub fn metadata_path(&self, document_id: &String) -> (r: String)
        ensures
            r@ == self.base_path@ + "/metadata/"@ + document_id@ + ".json"@,
    {
        let mut s = self.base_path.clone();
        s.append("/metadata/");
        s.append(document_id.as_str());
        s.append(".json");
        s
    }
}

/// One stored blob: its id and its bytes.
pub struct Blob {
    pub id: String,
    pub data: Vec<u8>,
}

/// Blob ids are pairwise distinct.
pub open spec fn unique_blob_ids(blobs: Seq<Blob>) -> bool {
    forall|i: int, j: int| 0 <= i < j < blobs.len() ==> blobs[i].id@ != blobs[j].id@
}

/// Some blob has this id.
pub open spec fn has_blob(blobs: Seq<Blob>, id: Seq<char>) -> bool {
    exists|i: int| 0 <= i < blobs.len() && blobs[i].id@ == id
}

/// The bytes of the blob with this id (any index that matches; ids are
/// unique under well-formedness).
pub open spec fn blob_bytes(blobs: Seq<Blob>, id: Seq<char>) -> Seq<u8> {
    blobs[choose|i: int| 0 <= i < blobs.len() && blobs[i].id@ == id].data@
}

/// An in-memory blob store with the same capability set as the local
/// file-system backend: store, fetch, exists, delete, fetch-as-base64, and
/// the metadata side files.
pub struct MemoryBlobStore {
    objects: Vec<Blob>,
    metadata: Vec<Blob>,
}

/// What storing a PDF does: bytes without the `%PDF` marker are rejected
/// without a change; a taken id fails without a change; otherwise exactly
/// one blob with the given id and bytes is appended. Metadata side files
/// never change.
pub open spec fn store_pdf_post(
    pre: MemoryBlobStore,
    post: MemoryBlobStore,
    data: Seq<u8>,
    fresh: Seq<char>,
    r: Result<String, StorageError>,
) -> bool {
    &&& post.meta_blobs() == pre.meta_blobs()
    &&& if !valid_pdf_header(data) {
        &&& (r matches Err(e) && e is InvalidFormat)
        &&& post.blobs() == pre.blobs()
    } else if has_blob(pre.blobs(), fresh) {
        &&& (r matches Err(e) && e is Other)
        &&& post.blobs() == pre.blobs()
    } else {
        &&& (r matches Ok(id) && id@ == fresh)
        &&& post.blobs().len() == pre.blobs().len() + 1
        &&& post.blobs().subrange(0, pre.blobs().len() as int) == pre.blobs()
        &&& post.blobs().last().id@ == fresh
        &&& post.blobs().last().data@ == data
    }
}

impl MemoryBlobStore {
    /// The stored PDFs.
    pub closed spec fn blobs(self) -> Seq<Blob> {
        self.objects@
    }

    /// The stored metadata side files.
    pub closed spec fn meta_blobs(self) -> Seq<Blob> {
        self.metadata@
    }

    /// Ids are unique, every stored PDF carries the header, and every blob
    /// is small enough to encode.
    pub open spec fn wf(self) -> bool {
        &&& unique_blob_ids(self.blobs())
        &&& (forall|i: int|
            0 <= i < self.blobs().len() ==> valid_pdf_header(#[trigger] self.blobs()[i].data@)
                && self.blobs()[i].data@.len() * 4 <= usize::MAX)
        &&& unique_blob_ids(self.meta_blobs())
    }

    /// An empty store.
    pub fn new() -> (r: MemoryBlobStore)
        ensures
            r.wf(),
            r.blobs().len() == 0,
            r.meta_blobs().len() == 0,
    {
        MemoryBlobStore { objects: Vec::new(), metadata: Vec::new() }
    }

    /// The index of the blob with this id, if any.
    fn find_blob(&self, id: &String) -> (r: Option<usize>)
        ensures
            r matches Some(i) ==> i < self.blobs().len() && self.blobs()[i as int].id@ == id@,
            r is None ==> !has_blob(self.blobs(), id@),
    {
        let mut i: usize = 0;
        while i < self.objects.len()
            invariant
                i <= self.blobs().len(),
                forall|k: int| 0 <= k < i ==> self.blobs()[k].id@ != id@,
            decreases self.blobs().len() - i,
        {
            if crate::text::string_eq_str(&self.objects[i].id, id.as_str()) {
                return Some(i);
            }
            i += 1;
        }
        None
    }

    /// Stores PDF bytes under the given fresh id.
    pub fn store_pdf_at(&mut self, data: Vec<u8>, fresh_id: &String) -> (r: Result<
        String,
        StorageError,
    >)
        requires
            old(self).wf(),
            data@.len() * 4 <= usize::MAX,
        ensures
            final(self).wf(),
            store_pdf_post(*old(self), *final(self), data@, fresh_id@, r),
    {
        if !has_pdf_header(&data) {
            return Err(StorageError::InvalidFormat);
        }
        if self.find_blob(fresh_id).is_some() {
            return Err(StorageError::Other("blob id already exists".to_owned()));
        }
        self.objects.push(Blob { id: fresh_id.clone(), data });
        proof {
            let pre = old(self).blobs();
            let post = self.blobs();
            assert(post.subrange(0, pre.len() as int) =~= pre);
            assert forall|a: int, b: int| 0 <= a < b < post.len() implies post[a].id@
                != post[b].id@ by {
                if b < post.len() - 1 {
                    assert(post[a] == pre[a] && post[b] == pre[b]);
                } else {
                    assert(post[b].id@ == fresh_id@);
                    if a < post.len() - 1 {
                        assert(post[a] == pre[a]);
                        assert(!(0 <= a < pre.len() && pre[a].id@ == fresh_id@));
                    }
                }
            }
            assert forall|a: int|
                0 <= a < post.len() implies valid_pdf_header(#[trigger] post[a].data@)
                && post[a].data@.len() * 4 <= usize::MAX by {
                if a < post.len() - 1 {
                    assert(post[a] == pre[a]);
                    assert(valid_pdf_header(pre[a].data@));
                }
            }
            assert(unique_blob_ids(self.blobs()));
            assert(forall|i: int|
                0 <= i < self.blobs().len() ==> valid_pdf_header(#[trigger] self.blobs()[i].data@)
                    && self.blobs()[i].data@.len() * 4 <= usize::MAX);
            assert(unique_blob_ids(self.meta_blobs()));
        }
        Ok(fresh_id.clone())
    }

    /// Stores PDF bytes under a drawn id and returns the id. Whatever id was
    /// drawn: bytes without the `%PDF` marker are rejected, a collision with
    /// a held id fails without a change, and otherwise exactly one blob with
    /// the returned id and the given bytes is appended.
    pub fn store_pdf(&mut self, filename: &String, data: Vec<u8>) -> (r: Result<
        String,
        StorageError,
    >)
        requires
            old(self).wf(),
            data@.len() * 4 <= usize::MAX,
        ensures
            final(self).wf(),
            exists|fresh: Seq<char>|
                #[trigger] store_pdf_post(*old(self), *final(self), data@, fresh, r),
            r matches Ok(id) ==> store_pdf_post(*old(self), *final(self), data@, id@, r),
    {
        let _ = filename;
        let fresh = crate::host::fresh_uuid();
        let r = self.store_pdf_at(data, &fresh);
        proof {
            assert(store_pdf_post(*old(self), *self, data@, fresh@, r));
        }
        r
    }

    /// The bytes stored under the id, or a not-found failure.
    pub fn get_pdf(&self, document_id: &String) -> (r: Result<Vec<u8>, StorageError>)
        ensures
            has_blob(self.blobs(), document_id@) <==> r is Ok,
            r matches Ok(d) ==> exists|i: int|
                0 <= i < self.blobs().len() && self.blobs()[i].id@ == document_id@ && d@ == (
                #[trigger] self.blobs()[i]).data@,
            r matches Err(e) ==> e is NotFound,
    {
        match self.find_blob(document_id) {
            Some(i) => Ok(clone_bytes(&self.objects[i].data)),
            None => Err(StorageError::NotFound(document_id.clone())),
        }
    }

    /// Whether a blob with this id exists.
    pub fn has_pdf(&self, document_id: &String) -> (r: bool)
        ensures
            r == has_blob(self.blobs(), document_id@),
    {
        self.find_blob(document_id).is_some()
    }

    /// Removes the PDF and metadata stored under the id, if any; deleting
    /// again is not an error. Afterward the id maps to nothing on either
    /// side, and every other entry is kept in place.
    pub fn delete(&mut self, document_id: &String) -> (r: Result<(), StorageError>)
        requires
            old(self).wf(),
        ensures
            final(self).wf(),
            r is Ok,
            !has_blob(final(self).blobs(), document_id@),
            !has_blob(final(self).meta_blobs(), document_id@),
            has_blob(old(self).blobs(), document_id@) ==> exists|i: int|
                0 <= i < old(self).blobs().len() && old(self).blobs()[i].id@ == document_id@
                    && final(self).blobs() == old(self).blobs().remove(i),
            !has_blob(old(self).blobs(), document_id@) ==> final(self).blobs() == old(self).blobs(),
            has_blob(old(self).meta_blobs(), document_id@) ==> exists|i: int|
                0 <= i < old(self).meta_blobs().len() && old(self).meta_blobs()[i].id@
                    == document_id@ && final(self).meta_blobs() == old(self).meta_blobs().remove(i),
            !has_blob(old(self).meta_blobs(), document_id@) ==> final(self).meta_blobs() == old(self).meta_blobs(),
    {
        match self.find_blob(document_id) {
            Some(i) => {
                let _ = self.objects.remove(i);
                proof {
                    let pre = old(self).objects@;
                    let post = self.objects@;
                    assert(post =~= pre.remove(i as int));
                    assert forall|a: int|
                        0 <= a < post.len() implies post[a].id@ != document_id@ && valid_pdf_header(
                        #[trigger] post[a].data@,
                    ) && post[a].data@.len() * 4 <= usize::MAX by {
                        let pa: int = if a < i {
                            a
                        } else {
                            a + 1
                        };
                        assert(post[a] == pre[pa]);
                        assert(valid_pdf_header(pre[pa].data@));
                    }
                    assert forall|a: int, b: int|
                        0 <= a < b < post.len() implies post[a].id@ != post[b].id@ by {
                        let pa: int = if a < i {
                            a
                        } else {
                            a + 1
                        };
                        let pb: int = if b < i {
                            b
                        } else {
                            b + 1
                        };
                        assert(post[a] == pre[pa]);
                        assert(post[b] == pre[pb]);
                    }
                }
            },
            None => (),
        }
        match self.find_meta(document_id) {
            Some(i) => {
                let _ = self.metadata.remove(i);
                proof {
                    let pre = old(self).metadata@;
                    let post = self.metadata@;
                    assert(post =~= pre.remove(i as int));
                    assert forall|a: int|
                        0 <= a < post.len() implies post[a].id@ != document_id@ by {
                        let pa: int = if a < i {
                            a
                        } else {
                            a + 1
                        };
                        assert(post[a] == pre[pa]);
                    }
                    assert forall|a: int, b: int|
                        0 <= a < b < post.len() implies post[a].id@ != post[b].id@ by {
                        let pa: int = if a < i {
                            a
                        } else {
                            a + 1
                        };
                        let pb: int = if b < i {
                            b
                        } else {
                            b + 1
                        };
                        assert(post[a] == pre[pa]);
                        assert(post[b] == pre[pb]);
                    }
                }
            },
            None => (),
        }
        Ok(())
    }

    /// The base64 text of the bytes stored under the id, or a not-found
    /// failure.
    pub fn get_pdf_base64(&self, document_id: &String) -> (r: Result<String, StorageError>)
        requires
            self.wf(),
        ensures
            has_blob(self.blobs(), document_id@) <==> r is Ok,
            r matches Ok(t) ==> exists|i: int|
                0 <= i < self.blobs().len() && self.blobs()[i].id@ == document_id@ && t@ == b64_of(
                (#[trigger] self.blobs()[i]).data@,
            ),
            r matches Err(e) ==> e is NotFound,
    {
        match self.find_blob(document_id) {
            Some(i) => Ok(crate::cache::base64_encode(&self.objects[i].data)),
            None => Err(StorageError::NotFound(document_id.clone())),
        }
    }

    /// The index of the metadata blob with this id, if any.
    fn find_meta(&self, id: &String) -> (r: Option<usize>)
        ensures
            r matches Some(i) ==> i < self.meta_blobs().len() && self.meta_blobs()[i as int].id@
                == id@,
            r is None ==> !has_blob(self.meta_blobs(), id@),
    {
        let mut i: usize = 0;
        while i < self.metadata.len()
            invariant
                i <= self.meta_blobs().len(),
                forall|k: int| 0 <= k < i ==> self.meta_blobs()[k].id@ != id@,
            decreases self.meta_blobs().len() - i,
        {
            if crate::text::string_eq_str(&self.metadata[i].id, id.as_str()) {
                return Some(i);
            }
            i += 1;
        }
        None
    }

    /// Stores metadata bytes under the id: an existing entry's bytes are
    /// replaced, otherwise one entry is appended; every other entry is kept
    /// in place, and afterward the id holds exactly the given bytes.
    pub fn store_metadata(&mut self, document_id: &String, metadata: &Vec<u8>) -> (r: Result<
        (),
        StorageError,
    >)
        requires
            old(self).wf(),
        ensures
            final(self).wf(),
            r is Ok,
            final(self).blobs() == old(self).blobs(),
            !has_blob(old(self).meta_blobs(), document_id@) ==> {
                &&& final(self).meta_blobs().len() == old(self).meta_blobs().len() + 1
                &&& final(self).meta_blobs().subrange(0, old(self).meta_blobs().len() as int)
                    == old(self).meta_blobs()
                &&& final(self).meta_blobs().last().id@ == document_id@
                &&& final(self).meta_blobs().last().data@ == metadata@
            },
            has_blob(old(self).meta_blobs(), document_id@) ==> exists|i: int|
                {
                    &&& 0 <= i < old(self).meta_blobs().len()
                    &&& old(self).meta_blobs()[i].id@ == document_id@
                    &&& final(self).meta_blobs().len() == old(self).meta_blobs().len()
                    &&& (#[trigger] final(self).meta_blobs()[i]).id@ == document_id@
                    &&& final(self).meta_blobs()[i].data@ == metadata@
                    &&& (forall|k: int|
                        0 <= k < old(self).meta_blobs().len() && k != i ==> final(self).meta_blobs()[k] == old(self).meta_blobs()[k])
                },
    {
        match self.find_meta(document_id) {
            Some(k) => {
                let e = &mut self.metadata[k];
                e.data = clone_bytes(metadata);
                proof {
                    assert forall|a: int, b: int|
                        0 <= a < b < self.meta_blobs().len() implies self.meta_blobs()[a].id@
                        != self.meta_blobs()[b].id@ by {
                        assert(self.meta_blobs()[a].id@ == old(self).meta_blobs()[a].id@);
                        assert(self.meta_blobs()[b].id@ == old(self).meta_blobs()[b].id@);
                    }
                    assert(self.meta_blobs()[k as int].id@ == document_id@);
                }
                Ok(())
            },
            None => {
                self.metadata.push(Blob { id: document_id.clone(), data: clone_bytes(metadata) });
                proof {
                    let pre = old(self).meta_blobs();
                    let post = self.meta_blobs();
                    assert(post.subrange(0, pre.len() as int) =~= pre);
                    assert(post.last().id@ == document_id@);
                    assert forall|a: int, b: int|
                        0 <= a < b < post.len() implies post[a].id@ != post[b].id@ by {
                        if b < post.len() - 1 {
                            assert(post[a] == pre[a] && post[b] == pre[b]);
                        } else {
                            assert(post[b].id@ == document_id@);
                            if a < post.len() - 1 {
                                assert(post[a] == pre[a]);
                                assert(!(0 <= a < pre.len() && pre[a].id@ == document_id@));
                            }
                        }
                    }
                }
                Ok(())
            },
        }
    }

    /// The metadata bytes stored under the id, if any.
    pub fn get_metadata(&self, document_id: &String) -> (r: Result<Option<Vec<u8>>, StorageError>)
        ensures
            r is Ok,
            (r matches Ok(o) && o is Some) ==> has_blob(self.meta_blobs(), document_id@),
            r matches Ok(o) ==> ((o matches Some(d) ==> exists|i: int|
                0 <= i < self.meta_blobs().len() && self.meta_blobs()[i].id@ == document_id@ && d@
                    == (#[trigger] self.meta_blobs()[i]).data@) && (o is None ==> !has_blob(
                self.meta_blobs(),
                document_id@,
            ))),
    {
        let mut k: usize = 0;
        while k < self.metadata.len()
            invariant
                k <= self.meta_blobs().len(),
                forall|t: int| 0 <= t < k ==> self.meta_blobs()[t].id@ != document_id@,
            decreases self.meta_blobs().len() - k,
        {
            if crate::text::string_eq_str(&self.metadata[k].id, document_id.as_str()) {
                let d = clone_bytes(&self.metadata[k].data);
                proof {
                    assert(self.meta_blobs()[k as int].id@ == document_id@ && d@
                        == self.meta_blobs()[k as int].data@);
                }
                return Ok(Some(d));
            }
            k += 1;
        }
        Ok(None)
    }
}

} // verus!
