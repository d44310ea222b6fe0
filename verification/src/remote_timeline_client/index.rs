//! The index of a timeline's remote copy, and what it is made of.
//!
//! The index lists every layer file that is part of the timeline on the
//! remote, with its metadata. A file on the remote that the index does not
//! list is not part of the remote state.

use vstd::prelude::*;
use vstd::utf8::{decode_utf8, encode_utf8, encode_utf8_decode_utf8, encode_utf8_valid_utf8, valid_utf8};
use crate::encoding::{
    be_bytes_u32, be_bytes_u64, lemma_be_bytes_u32_round_trip, lemma_be_bytes_u64_round_trip,
    lemma_encoded_lengths, put_slice, put_u32, put_u64, put_u8, read_u32_be, read_u64_be, u32_of_be_bytes, u64_of_be_bytes,
};
use crate::lsn::Lsn;
use crate::metadata::{MetadataError, TimelineMetadata};

verus! {

/// The bytes of a name: the name in UTF-8.
#[verifier::opaque]
pub open spec fn name_bytes(name: Seq<char>) -> Seq<u8> {
    encode_utf8(name)
}

/// Whether bytes spell a name: whether they are valid UTF-8.
#[verifier::opaque]
pub open spec fn spells_name(bytes: Seq<u8>) -> bool {
    valid_utf8(bytes)
}

/// The name that bytes spell, if they spell one.
#[verifier::opaque]
pub open spec fn name_spelled(bytes: Seq<u8>) -> Seq<char> {
    decode_utf8(bytes)
}

/// The bytes of a name spell the name.
pub proof fn lemma_name_round_trip(name: Seq<char>)
    ensures
        spells_name(name_bytes(name)),
        name_spelled(name_bytes(name)) == name,
{
    reveal(name_bytes);
    reveal(spells_name);
    reveal(name_spelled);
    encode_utf8_valid_utf8(name);
    encode_utf8_decode_utf8(name);
}

/// The string that `bytes` spell in UTF-8, if they spell one. Calls
/// `String::from_utf8`, which gives the string whose bytes are the bytes
/// given when these are valid UTF-8, and an error otherwise.
#[verifier::external_body]
fn string_from_utf8(bytes: Vec<u8>) -> (r: Option<String>)
    ensures
        match r {
            Some(s) => valid_utf8(bytes@) && encode_utf8(s@) == bytes@,
            None => !valid_utf8(bytes@),
        },
{
    match String::from_utf8(bytes) {
        Ok(s) => Some(s),
        Err(_) => None,
    }
}

/// Name of a layer file: a token that stands for one immutable file.
#[derive(Clone, Debug, PartialEq, Eq, Hash)]
pub struct LayerFileName {
    name: String,
}

impl View for LayerFileName {
    type V = Seq<char>;

    closed spec fn view(&self) -> Seq<char> {
        self.name@
    }
}

impl LayerFileName {
    /// The layer file with this file name.
    pub fn new(file_name: &str) -> (r: LayerFileName)
        ensures
            r@ == file_name@,
    {
        LayerFileName { name: file_name.to_owned() }
    }

    /// The file name: the string the name was made from.
    pub fn file_name(&self) -> (r: String)
        ensures
            r@ == self@,
    {
        self.name.clone()
    }

    /// The file name in UTF-8.
    pub fn as_bytes(&self) -> (r: &[u8])
        ensures
            r@ == name_bytes(self@),
    {
        reveal(name_bytes);
        self.name.as_str().as_bytes()
    }

    /// The layer file whose file name these bytes spell in UTF-8, if they
    /// spell a string.
    pub fn from_utf8(bytes: Vec<u8>) -> (r: Option<LayerFileName>)
        ensures
            match r {
                Some(name) => spells_name(bytes@) && name@ == name_spelled(bytes@),
                None => !spells_name(bytes@),
            },
    {
        reveal(spells_name);
        reveal(name_spelled);
        match string_from_utf8(bytes) {
            Some(name) => {
                proof {
                    encode_utf8_decode_utf8(name@);
                }
                Some(LayerFileName { name })
            },
            None => None,
        }
    }

    /// Whether two names are the same.
    pub fn same_as(&self, other: &LayerFileName) -> (r: bool)
        ensures
            r == (self@ == other@),
    {
        self.name == other.name
    }

    /// A copy of the name.
    pub fn duplicate(&self) -> (r: LayerFileName)
        ensures
            r@ == self@,
    {
        LayerFileName { name: self.name.clone() }
    }
}

/// What the index records of a layer file.
#[derive(Clone, Copy, Debug, PartialEq, Eq, Structural)]
pub struct LayerFileMetadata {
    /// Size of the file in bytes.
    pub file_size: u64,
}

impl LayerFileMetadata {
    /// Size of the file in bytes.
    pub open spec fn spec_file_size(&self) -> u64 {
        self.file_size
    }

    /// Metadata of a file of `file_size` bytes.
    pub fn new(file_size: u64) -> (r: LayerFileMetadata)
        ensures
            r.spec_file_size() == file_size,
    {
        LayerFileMetadata { file_size }
    }

    /// Size of the file in bytes.
    #[verifier::when_used_as_spec(spec_file_size)]
    pub fn file_size(&self) -> (r: u64)
        ensures
            r == self.spec_file_size(),
    {
        self.file_size
    }
}

/// A point in time: seconds since the start of 1970 in UTC, and nanoseconds
/// within the second.
#[derive(Clone, Copy, Debug, PartialEq, Eq, Structural)]
pub struct Timestamp {
    pub secs: i64,
    pub nanos: u32,
}

/// A set of layer files as a list without repetition: names with metadata.
pub type FilesView = Seq<(Seq<char>, LayerFileMetadata)>;

/// The names of `files`, in their order.
pub open spec fn layer_names(files: FilesView) -> Seq<Seq<char>> {
    files.map_values(|e: (Seq<char>, LayerFileMetadata)| e.0)
}

/// Whether no name occurs twice in `files`.
pub open spec fn distinct_names(files: FilesView) -> bool {
    layer_names(files).no_duplicates()
}

/// `files` as a map from names to metadata.
pub open spec fn files_map(files: FilesView) -> Map<Seq<char>, LayerFileMetadata> {
    Map::new(
        |name: Seq<char>| layer_names(files).contains(name),
        |name: Seq<char>| files[layer_names(files).index_of(name)].1,
    )
}

/// `files` with `name` recorded: in place if the name is there already,
/// else at the end.
pub open spec fn files_insert(files: FilesView, name: Seq<char>, metadata: LayerFileMetadata) -> FilesView {
    if layer_names(files).contains(name) {
        files.update(layer_names(files).index_of(name), (name, metadata))
    } else {
        files.push((name, metadata))
    }
}

/// `files` without `name`.
pub open spec fn files_remove(files: FilesView, name: Seq<char>) -> FilesView {
    if layer_names(files).contains(name) {
        files.remove(layer_names(files).index_of(name))
    } else {
        files
    }
}

/// `files` without each of `names`.
pub open spec fn files_remove_all(files: FilesView, names: Seq<Seq<char>>) -> FilesView
    decreases names.len(),
{
    if names.len() == 0 {
        files
    } else {
        files_remove(files_remove_all(files, names.drop_last()), names.last())
    }
}

/// Sum of the sizes of `files`.
pub open spec fn total_size(files: FilesView) -> int
    decreases files.len(),
{
    if files.len() == 0 {
        0
    } else {
        total_size(files.drop_last()) + files.last().1.spec_file_size()
    }
}

/// The sum of the sizes of `files`, or the largest number of 64 bits if the
/// sum is larger than that.
pub open spec fn saturated_total_size(files: FilesView) -> u64 {
    if total_size(files) > u64::MAX {
        u64::MAX
    } else {
        total_size(files) as u64
    }
}

/// Recording a file keeps names distinct and acts on the map as an insert.
pub proof fn lemma_files_insert(files: FilesView, name: Seq<char>, metadata: LayerFileMetadata)
    requires
        distinct_names(files),
    ensures
        distinct_names(files_insert(files, name, metadata)),
        files_map(files_insert(files, name, metadata)) == files_map(files).insert(name, metadata),
{
    let names = layer_names(files);
    let after = files_insert(files, name, metadata);
    let after_names = layer_names(after);
    if names.contains(name) {
        let i = names.index_of(name);
        assert(after_names =~= names);
        assert forall|k: Seq<char>| #[trigger] after_names.contains(k) implies files_map(after)[k]
            == files_map(files).insert(name, metadata)[k] by {
            let j = after_names.index_of(k);
            let j0 = names.index_of(k);
            assert(names[j] == k && names[j0] == k);
            assert(j == j0);
        }
        assert(files_map(after) =~= files_map(files).insert(name, metadata));
    } else {
        assert(after_names =~= names.push(name));
        assert forall|k: Seq<char>| #[trigger] after_names.contains(k) implies files_map(after)[k]
            == files_map(files).insert(name, metadata)[k] by {
            let j = after_names.index_of(k);
            if k != name {
                assert(names[j] == k);
                let j0 = names.index_of(k);
                assert(j == j0);
            }
        }
        assert forall|k: Seq<char>| files_map(files).insert(name, metadata).contains_key(k) implies #[trigger]
            after_names.contains(k) by {
            if k == name {
                assert(after_names[names.len() as int] == name);
            } else {
                let j0 = names.index_of(k);
                assert(after_names[j0] == k);
            }
        }
        assert(files_map(after) =~= files_map(files).insert(name, metadata));
    }
}

/// Dropping a file keeps names distinct and acts on the map as a removal.
pub proof fn lemma_files_remove(files: FilesView, name: Seq<char>)
    requires
        distinct_names(files),
    ensures
        distinct_names(files_remove(files, name)),
        files_map(files_remove(files, name)) == files_map(files).remove(name),
        files_remove(files, name).len() <= files.len(),
{
    let names = layer_names(files);
    let after = files_remove(files, name);
    let after_names = layer_names(after);
    if names.contains(name) {
        let i = names.index_of(name);
        assert(after_names =~= names.remove(i));
        assert forall|k: Seq<char>| #[trigger] after_names.contains(k) implies k != name
            && names.contains(k) && files_map(after)[k] == files_map(files)[k] by {
            let j = after_names.index_of(k);
            let j_old = if j < i {
                j
            } else {
                j + 1
            };
            assert(names[j_old] == k);
            let j0 = names.index_of(k);
            assert(j0 == j_old);
        }
        assert forall|k: Seq<char>| k != name && names.contains(k) implies #[trigger]
            after_names.contains(k) by {
            let j0 = names.index_of(k);
            if j0 < i {
                assert(after_names[j0] == k);
            } else {
                assert(after_names[j0 - 1] == k);
            }
        }
        assert(files_map(after) =~= files_map(files).remove(name));
    } else {
        assert(files_map(after) =~= files_map(files).remove(name));
    }
}

/// Dropping files one after the other keeps names distinct, never adds a
/// file, and acts on the map as the removal of all the names.
pub proof fn lemma_files_remove_all(files: FilesView, names: Seq<Seq<char>>)
    requires
        distinct_names(files),
    ensures
        distinct_names(files_remove_all(files, names)),
        files_remove_all(files, names).len() <= files.len(),
        files_map(files_remove_all(files, names)) == files_map(files).remove_keys(names.to_set()),
    decreases names.len(),
{
    if names.len() == 0 {
        assert(names.to_set() =~= Set::empty());
        assert(files_map(files).remove_keys(names.to_set()) =~= files_map(files));
    } else {
        lemma_files_remove_all(files, names.drop_last());
        lemma_files_remove(files_remove_all(files, names.drop_last()), names.last());
        assert(names.to_set() =~= names.drop_last().to_set().insert(names.last())) by {
            assert forall|k: Seq<char>| names.to_set().contains(k) implies names.drop_last().to_set().insert(
                names.last(),
            ).contains(k) by {
                let j = choose|j: int| 0 <= j < names.len() && names[j] == k;
                if j < names.len() - 1 {
                    assert(names.drop_last()[j] == k);
                }
            }
            assert forall|k: Seq<char>|
                names.drop_last().to_set().insert(names.last()).contains(
                    k,
                ) implies names.to_set().contains(k) by {
                if k != names.last() {
                    let j = choose|j: int| 0 <= j < names.drop_last().len() && names.drop_last()[j] == k;
                    assert(names[j] == k);
                } else {
                    assert(names[names.len() - 1] == k);
                }
            }
        }
        assert(files_map(files).remove_keys(names.to_set()) =~= files_map(files).remove_keys(
            names.drop_last().to_set(),
        ).remove(names.last()));
    }
}

/// One layer file of a set.
#[derive(Clone, Debug, PartialEq, Eq)]
pub struct LayerEntry {
    name: LayerFileName,
    metadata: LayerFileMetadata,
}

/// A set of layer files with their metadata, in the order in which the
/// names were first recorded.
///
/// The entries stand in a vector, and that no name occurs twice is an
/// invariant that every method is proved to keep. A name is a string of any
/// length, and a hash map keyed by it would make every lookup rest on how
/// the key hashes, of which nothing could be proved here.
#[derive(Clone, Debug, PartialEq, Eq)]
pub struct LayerFiles {
    entries: Vec<LayerEntry>,
}

impl View for LayerFiles {
    type V = FilesView;

    closed spec fn view(&self) -> FilesView {
        self.entries@.map_values(|e: LayerEntry| (e.name@, e.metadata))
    }
}

impl LayerFiles {
    /// No name occurs twice.
    pub open spec fn wf(&self) -> bool {
        distinct_names(self@)
    }

    /// The empty set.
    pub fn new() -> (r: LayerFiles)
        ensures
            r.wf(),
            r@ == FilesView::empty(),
    {
        let r = LayerFiles { entries: Vec::new() };
        assert(r@ =~= FilesView::empty());
        r
    }

    /// Number of files.
    pub fn len(&self) -> (r: usize)
        ensures
            r == self@.len(),
    {
        self.entries.len()
    }

    /// Where `name` stands in the list, if it does.
    fn position(&self, name: &LayerFileName) -> (r: Option<usize>)
        ensures
            match r {
                Some(i) => i < self@.len() && layer_names(self@)[i as int] == name@,
                None => !layer_names(self@).contains(name@),
            },
    {
        let mut i: usize = 0;
        while i < self.entries.len()
            invariant
                i <= self.entries@.len(),
                forall|k: int| 0 <= k < i ==> layer_names(self@)[k] != name@,
            decreases self.entries@.len() - i,
        {
            if self.entries[i].name.same_as(name) {
                return Some(i);
            }
            i += 1;
        }
        None
    }

    /// Whether `name` is in the set.
    pub fn contains(&self, name: &LayerFileName) -> (r: bool)
        ensures
            r == files_map(self@).contains_key(name@),
    {
        self.position(name).is_some()
    }

    /// The metadata recorded for `name`, if it is in the set.
    pub fn get(&self, name: &LayerFileName) -> (r: Option<LayerFileMetadata>)
        requires
            self.wf(),
        ensures
            r == (if files_map(self@).contains_key(name@) {
                Some(files_map(self@)[name@])
            } else {
                None
            }),
    {
        match self.position(name) {
            Some(i) => {
                assert(layer_names(self@).index_of(name@) == i);
                Some(self.entries[i].metadata)
            },
            None => None,
        }
    }

    /// Records `metadata` for `name`, in place of what was recorded for it
    /// before, if anything.
    pub fn insert(&mut self, name: LayerFileName, metadata: LayerFileMetadata)
        requires
            old(self).wf(),
        ensures
            final(self).wf(),
            final(self)@ == files_insert(old(self)@, name@, metadata),
            files_map(final(self)@) == files_map(old(self)@).insert(name@, metadata),
    {
        proof {
            lemma_files_insert(self@, name@, metadata);
        }
        match self.position(&name) {
            Some(i) => {
                assert(layer_names(self@).index_of(name@) == i);
                self.entries.set(i, LayerEntry { name, metadata });
                assert(self@ =~= files_insert(old(self)@, name@, metadata));
            },
            None => {
                self.entries.push(LayerEntry { name, metadata });
                assert(self@ =~= files_insert(old(self)@, name@, metadata));
            },
        }
    }

    /// Takes `name` out of the set, if it is there.
    pub fn remove(&mut self, name: &LayerFileName)
        requires
            old(self).wf(),
        ensures
            final(self).wf(),
            final(self)@ == files_remove(old(self)@, name@),
            files_map(final(self)@) == files_map(old(self)@).remove(name@),
    {
        proof {
            lemma_files_remove(self@, name@);
        }
        match self.position(name) {
            Some(i) => {
                assert(layer_names(self@).index_of(name@) == i);
                self.entries.remove(i);
                assert(self@ =~= files_remove(old(self)@, name@));
            },
            None => {},
        }
    }

    /// The name of the `i`-th file.
    pub fn name_at(&self, i: usize) -> (r: &LayerFileName)
        requires
            i < self@.len(),
        ensures
            r@ == self@[i as int].0,
    {
        &self.entries[i].name
    }

    /// The metadata of the `i`-th file.
    pub fn metadata_at(&self, i: usize) -> (r: LayerFileMetadata)
        requires
            i < self@.len(),
        ensures
            r == self@[i as int].1,
    {
        self.entries[i].metadata
    }

    /// The sum of the sizes of the files, held at the largest number of 64
    /// bits if it is larger than that.
    pub fn total_size(&self) -> (r: u64)
        ensures
            r == saturated_total_size(self@),
    {
        let mut sum: u64 = 0;
        let mut i: usize = 0;
        assert(self@.take(0) =~= FilesView::empty());
        while i < self.entries.len()
            invariant
                i <= self.entries@.len(),
                self@.len() == self.entries@.len(),
                total_size(self@.take(i as int)) >= 0,
                sum == saturated_total_size(self@.take(i as int)),
            decreases self.entries@.len() - i,
        {
            proof {
                assert(self@.take(i + 1).drop_last() =~= self@.take(i as int));
                assert(self@.take(i + 1).last() == self@[i as int]);
            }
            sum = sum.saturating_add(self.entries[i].metadata.file_size());
            i += 1;
        }
        assert(self@.take(i as int) =~= self@);
        sum
    }

    /// A copy of the set.
    pub fn duplicate(&self) -> (r: LayerFiles)
        ensures
            r@ == self@,
    {
        let mut entries: Vec<LayerEntry> = Vec::with_capacity(self.entries.len());
        let mut i: usize = 0;
        while i < self.entries.len()
            invariant
                i <= self.entries@.len(),
                entries@.len() == i,
                forall|k: int|
                    0 <= k < i ==> (#[trigger] entries@[k]).name@ == self.entries@[k].name@
                        && entries@[k].metadata == self.entries@[k].metadata,
            decreases self.entries@.len() - i,
        {
            entries.push(
                LayerEntry {
                    name: self.entries[i].name.duplicate(),
                    metadata: self.entries[i].metadata,
                },
            );
            i += 1;
        }
        let r = LayerFiles { entries };
        assert(r@ =~= self@);
        r
    }
}

/// Name of the index file on the remote.
pub const INDEX_PART_FILE_NAME: &'static str = "index_part.json";

/// The index as callers see it.
#[verifier::ext_equal]
pub struct IndexPartView {
    /// Every file that is part of the timeline on the remote.
    pub layer_metadata: FilesView,
    /// The position on disk when the index was made.
    pub disk_consistent_lsn: Lsn,
    /// The serialized metadata of the timeline.
    pub metadata_bytes: Seq<u8>,
    /// When the timeline was marked as deleted, if it was.
    pub deleted_at: Option<Timestamp>,
}

/// The index file of a timeline: what its remote copy consists of.
#[derive(Clone, Debug, PartialEq, Eq)]
pub struct IndexPart {
    layer_metadata: LayerFiles,
    disk_consistent_lsn: Lsn,
    metadata_bytes: Vec<u8>,
    deleted_at: Option<Timestamp>,
}

impl View for IndexPart {
    type V = IndexPartView;

    closed spec fn view(&self) -> IndexPartView {
        IndexPartView {
            layer_metadata: self.layer_metadata@,
            disk_consistent_lsn: self.disk_consistent_lsn,
            metadata_bytes: self.metadata_bytes@,
            deleted_at: self.deleted_at,
        }
    }
}

/// A copy of `bytes`.
pub fn copy_bytes(bytes: &Vec<u8>) -> (r: Vec<u8>)
    ensures
        r@ == bytes@,
{
    vstd::slice::slice_to_vec(bytes.as_slice())
}

impl IndexPart {
    /// No file is listed twice.
    pub open spec fn wf(&self) -> bool {
        distinct_names(self@.layer_metadata)
    }

    /// The index of a timeline that is not deleted.
    pub fn new(
        layers_and_metadata: LayerFiles,
        disk_consistent_lsn: Lsn,
        metadata_bytes: Vec<u8>,
    ) -> (r: IndexPart)
        ensures
            r@ == (IndexPartView {
                layer_metadata: layers_and_metadata@,
                disk_consistent_lsn,
                metadata_bytes: metadata_bytes@,
                deleted_at: None,
            }),
    {
        IndexPart {
            layer_metadata: layers_and_metadata,
            disk_consistent_lsn,
            metadata_bytes,
            deleted_at: None,
        }
    }

    /// The files that are part of the timeline on the remote.
    pub fn layer_metadata(&self) -> (r: &LayerFiles)
        ensures
            r@ == self@.layer_metadata,
    {
        &self.layer_metadata
    }

    /// The position on disk when the index was made.
    pub fn disk_consistent_lsn(&self) -> (r: Lsn)
        ensures
            r == self@.disk_consistent_lsn,
    {
        self.disk_consistent_lsn
    }

    /// The serialized metadata of the timeline.
    pub fn metadata_bytes(&self) -> (r: &Vec<u8>)
        ensures
            r@ == self@.metadata_bytes,
    {
        &self.metadata_bytes
    }

    /// When the timeline was marked as deleted, if it was.
    pub fn deleted_at(&self) -> (r: Option<Timestamp>)
        ensures
            r == self@.deleted_at,
    {
        self.deleted_at
    }

    /// Marks the timeline as deleted at `at`, or as not deleted.
    pub fn set_deleted_at(&mut self, at: Option<Timestamp>)
        ensures
            final(self)@ == (IndexPartView { deleted_at: at, ..old(self)@ }),
    {
        self.deleted_at = at;
    }

    /// Reads the metadata of the timeline from its serialized form.
    pub fn parse_metadata(&self) -> (r: Result<TimelineMetadata, MetadataError>)
        ensures
            r == TimelineMetadata::spec_from_bytes(self@.metadata_bytes),
    {
        TimelineMetadata::from_bytes(self.metadata_bytes.as_slice())
    }

    /// A copy of the index.
    pub fn duplicate(&self) -> (r: IndexPart)
        ensures
            r@ == self@,
    {
        IndexPart {
            layer_metadata: self.layer_metadata.duplicate(),
            disk_consistent_lsn: self.disk_consistent_lsn,
            metadata_bytes: copy_bytes(&self.metadata_bytes),
            deleted_at: self.deleted_at,
        }
    }
}

/// Version of the format of the index file.
pub const INDEX_FORMAT_VERSION: u32 = 1;

/// Bytes of the index file before the serialized metadata: the version,
/// the position, the mark of deletion, and the length of the metadata.
pub const INDEX_FIXED_SIZE: usize = 33;

/// Why bytes are not an index file.
#[derive(Clone, Copy, Debug, PartialEq, Eq, Structural)]
pub enum IndexPartError {
    /// The bytes end before the index does.
    Truncated,
    /// The bytes begin with the number of another format.
    UnknownVersion,
    /// The mark of deletion is marked as neither there nor missing.
    BadOptionTag,
    /// The name of a layer file is not a string.
    InvalidName,
    /// A layer file is listed twice.
    DuplicateName,
    /// The index ends before the bytes do.
    TrailingBytes,
}

/// The mark of deletion in bytes: whether it is there, then the seconds and
/// the nanoseconds of its time, which are zero if it is not.
pub open spec fn deleted_at_bytes(at: Option<Timestamp>) -> Seq<u8> {
    match at {
        Some(t) => seq![1u8] + be_bytes_u64(t.secs as u64) + be_bytes_u32(t.nanos),
        None => seq![0u8] + be_bytes_u64(0) + be_bytes_u32(0),
    }
}

/// One layer file in bytes: the length of its name, the name in UTF-8, and
/// the size of the file.
pub open spec fn layer_bytes(entry: (Seq<char>, LayerFileMetadata)) -> Seq<u8> {
    be_bytes_u64(name_bytes(entry.0).len() as u64) + name_bytes(entry.0) + be_bytes_u64(
        entry.1.file_size,
    )
}

/// The layer files in bytes, one after the other.
pub open spec fn layers_bytes(files: FilesView) -> Seq<u8>
    decreases files.len(),
{
    if files.len() == 0 {
        Seq::empty()
    } else {
        layers_bytes(files.drop_last()) + layer_bytes(files.last())
    }
}

/// The index file up to the layer files: the version of the format, the
/// position, the mark of deletion, the serialized metadata behind its
/// length, and the number of layer files.
pub open spec fn index_header_bytes(index_part: IndexPartView) -> Seq<u8> {
    be_bytes_u32(INDEX_FORMAT_VERSION) + be_bytes_u64(index_part.disk_consistent_lsn.0)
        + deleted_at_bytes(index_part.deleted_at) + be_bytes_u64(
        index_part.metadata_bytes.len() as u64,
    ) + index_part.metadata_bytes + be_bytes_u64(index_part.layer_metadata.len() as u64)
}

/// The index file. All numbers are written most significant byte first.
pub open spec fn index_part_bytes(index_part: IndexPartView) -> Seq<u8> {
    index_header_bytes(index_part) + layers_bytes(index_part.layer_metadata)
}

/// Whether every length of the index fits the 64 bits it is written in.
pub open spec fn index_part_fits(index_part: IndexPartView) -> bool {
    &&& index_part.metadata_bytes.len() <= u64::MAX
    &&& index_part.layer_metadata.len() <= u64::MAX
    &&& forall|i: int|
        0 <= i < index_part.layer_metadata.len() ==> name_bytes(
            (#[trigger] index_part.layer_metadata[i]).0,
        ).len() <= u64::MAX
}

/// What `count` layer files that begin at `pos` say, behind the files
/// `done` that were read before them: each file is the length of its name,
/// the name, and the size. The name must be a string that no file before it
/// has, and the bytes must end with the last file.
pub open spec fn parse_layers(bytes: Seq<u8>, pos: int, count: nat, done: FilesView) -> Result<
    FilesView,
    IndexPartError,
>
    decreases count,
{
    if count == 0 {
        if pos == bytes.len() {
            Ok(done)
        } else {
            Err(IndexPartError::TrailingBytes)
        }
    } else if pos + 8 > bytes.len() {
        Err(IndexPartError::Truncated)
    } else {
        let name_len = u64_of_be_bytes(bytes.subrange(pos, pos + 8)) as int;
        if pos + 8 + name_len + 8 > bytes.len() {
            Err(IndexPartError::Truncated)
        } else {
            let spelled = bytes.subrange(pos + 8, pos + 8 + name_len);
            if !spells_name(spelled) {
                Err(IndexPartError::InvalidName)
            } else if layer_names(done).contains(name_spelled(spelled)) {
                Err(IndexPartError::DuplicateName)
            } else {
                parse_layers(
                    bytes,
                    pos + 8 + name_len + 8,
                    (count - 1) as nat,
                    done.push(
                        (
                            name_spelled(spelled),
                            LayerFileMetadata {
                                file_size: u64_of_be_bytes(
                                    bytes.subrange(pos + 8 + name_len, pos + 8 + name_len + 8),
                                ),
                            },
                        ),
                    ),
                )
            }
        }
    }
}

/// What the bytes of an index file say, or why they say nothing.
pub open spec fn parse_index_part(bytes: Seq<u8>) -> Result<IndexPartView, IndexPartError> {
    if bytes.len() < INDEX_FIXED_SIZE {
        Err(IndexPartError::Truncated)
    } else if u32_of_be_bytes(bytes.subrange(0, 4)) != INDEX_FORMAT_VERSION {
        Err(IndexPartError::UnknownVersion)
    } else if bytes[12] > 1 {
        Err(IndexPartError::BadOptionTag)
    } else {
        let metadata_len = u64_of_be_bytes(bytes.subrange(25, 33)) as int;
        if 33 + metadata_len + 8 > bytes.len() {
            Err(IndexPartError::Truncated)
        } else {
            let count = u64_of_be_bytes(bytes.subrange(33 + metadata_len, 41 + metadata_len));
            match parse_layers(bytes, 41 + metadata_len, count as nat, FilesView::empty()) {
                Err(e) => Err(e),
                Ok(files) => Ok(
                    IndexPartView {
                        layer_metadata: files,
                        disk_consistent_lsn: Lsn(u64_of_be_bytes(bytes.subrange(4, 12))),
                        metadata_bytes: bytes.subrange(33, 33 + metadata_len),
                        deleted_at: if bytes[12] == 1 {
                            Some(
                                Timestamp {
                                    secs: u64_of_be_bytes(bytes.subrange(13, 21)) as i64,
                                    nanos: u32_of_be_bytes(bytes.subrange(21, 25)),
                                },
                            )
                        } else {
                            None
                        },
                    },
                ),
            }
        }
    }
}

/// The bytes of the first files are the beginning of the bytes of all.
proof fn lemma_layers_bytes_prefix(files: FilesView, k: int)
    requires
        0 <= k <= files.len(),
    ensures
        layers_bytes(files.take(k)).len() <= layers_bytes(files).len(),
        layers_bytes(files).take(layers_bytes(files.take(k)).len() as int) == layers_bytes(
            files.take(k),
        ),
        k < files.len() ==> layers_bytes(files.take(k + 1)) == layers_bytes(files.take(k))
            + layer_bytes(files[k]),
    decreases files.len() - k,
{
    if k == files.len() {
        assert(files.take(k) =~= files);
        assert(layers_bytes(files).take(layers_bytes(files).len() as int) =~= layers_bytes(files));
    } else {
        assert(files.take(k + 1).drop_last() =~= files.take(k));
        assert(files.take(k + 1).last() == files[k]);
        lemma_layers_bytes_prefix(files, k + 1);
        let next = layers_bytes(files.take(k + 1));
        let this = layers_bytes(files.take(k));
        assert(next.take(this.len() as int) =~= this);
        assert(layers_bytes(files).take(this.len() as int) =~= layers_bytes(files).take(
            next.len() as int,
        ).take(this.len() as int));
    }
}

/// The layer files that were written are the layer files that are read.
#[verifier::rlimit(50)]
proof fn lemma_parse_layers_round_trip(head: Seq<u8>, files: FilesView, k: int)
    requires
        0 <= k <= files.len(),
        distinct_names(files),
        forall|i: int| 0 <= i < files.len() ==> name_bytes((#[trigger] files[i]).0).len()
            <= u64::MAX,
    ensures
        parse_layers(
            head + layers_bytes(files),
            (head.len() + layers_bytes(files.take(k)).len()) as int,
            (files.len() - k) as nat,
            files.take(k),
        ) == Ok::<FilesView, IndexPartError>(files),
    decreases files.len() - k,
{
    let bytes = head + layers_bytes(files);
    let pos = (head.len() + layers_bytes(files.take(k)).len()) as int;
    lemma_encoded_lengths();
    lemma_layers_bytes_prefix(files, k);
    if k == files.len() {
        assert(files.take(k) =~= files);
    } else {
        lemma_layers_bytes_prefix(files, k + 1);
        let entry = files[k];
        let name_bytes = name_bytes(entry.0);
        let this = layers_bytes(files.take(k));
        let next = layers_bytes(files.take(k + 1));
        let all = layers_bytes(files);
        assert(next == this + layer_bytes(entry));
        assert(layer_bytes(entry).len() == 8 + name_bytes.len() + 8);
        assert(all.take(next.len() as int) == next);
        // Where the parts of the file stand in the bytes.
        let name_len = name_bytes.len() as int;
        let tail = all.skip(next.len() as int);
        assert(all =~= all.take(next.len() as int) + tail);
        let len_part = be_bytes_u64(name_bytes.len() as u64);
        let size_part = be_bytes_u64(entry.1.file_size);
        assert(len_part.len() == 8 && size_part.len() == 8);
        assert(bytes =~= head + this + len_part + name_bytes + size_part + tail);
        assert(bytes.subrange(pos, pos + 8) =~= len_part);
        lemma_be_bytes_u64_round_trip(name_bytes.len() as u64);
        assert(bytes.subrange(pos + 8, pos + 8 + name_len) =~= name_bytes);
        assert(bytes.subrange(pos + 8 + name_len, pos + 8 + name_len + 8) =~= size_part);
        lemma_be_bytes_u64_round_trip(entry.1.file_size);
        lemma_name_round_trip(entry.0);
        // The name was not read before.
        assert(!layer_names(files.take(k)).contains(entry.0)) by {
            if layer_names(files.take(k)).contains(entry.0) {
                let j = choose|j: int|
                    0 <= j < layer_names(files.take(k)).len() && layer_names(files.take(k))[j]
                        == entry.0;
                assert(layer_names(files)[j] == entry.0);
                assert(layer_names(files)[k] == entry.0);
            }
        }
        assert(files.take(k).push(
            (entry.0, LayerFileMetadata { file_size: entry.1.file_size }),
        ) =~= files.take(k + 1));
        lemma_parse_layers_round_trip(head, files, k + 1);
    }
}

/// An index that was written reads back as the index that was written.
#[verifier::rlimit(50)]
pub proof fn lemma_index_part_round_trip(index_part: IndexPartView)
    requires
        distinct_names(index_part.layer_metadata),
        index_part_fits(index_part),
    ensures
        parse_index_part(index_part_bytes(index_part)) == Ok::<IndexPartView, IndexPartError>(
            index_part,
        ),
{
    let head = index_header_bytes(index_part);
    let bytes = index_part_bytes(index_part);
    let metadata_len = index_part.metadata_bytes.len() as int;
    lemma_encoded_lengths();
    assert(deleted_at_bytes(index_part.deleted_at).len() == 13);
    assert(head.len() == 41 + metadata_len);
    assert(bytes.subrange(0, 4) =~= be_bytes_u32(INDEX_FORMAT_VERSION));
    assert(bytes.subrange(4, 12) =~= be_bytes_u64(index_part.disk_consistent_lsn.0));
    assert(bytes.subrange(12, 25) =~= deleted_at_bytes(index_part.deleted_at));
    assert(bytes.subrange(25, 33) =~= be_bytes_u64(metadata_len as u64));
    assert(bytes.subrange(33, 33 + metadata_len) =~= index_part.metadata_bytes);
    assert(bytes.subrange(33 + metadata_len, 41 + metadata_len) =~= be_bytes_u64(
        index_part.layer_metadata.len() as u64,
    ));
    lemma_be_bytes_u32_round_trip(INDEX_FORMAT_VERSION);
    lemma_be_bytes_u64_round_trip(index_part.disk_consistent_lsn.0);
    lemma_be_bytes_u64_round_trip(metadata_len as u64);
    lemma_be_bytes_u64_round_trip(index_part.layer_metadata.len() as u64);
    let d = bytes.subrange(12, 25);
    assert(bytes[12] == d[0]);
    assert(bytes.subrange(13, 21) =~= d.subrange(1, 9));
    assert(bytes.subrange(21, 25) =~= d.subrange(9, 13));
    match index_part.deleted_at {
        Some(t) => {
            lemma_be_bytes_u64_round_trip(t.secs as u64);
            lemma_be_bytes_u32_round_trip(t.nanos);
            assert(d.subrange(1, 9) =~= be_bytes_u64(t.secs as u64));
            assert(d.subrange(9, 13) =~= be_bytes_u32(t.nanos));
            let secs = t.secs;
            assert((secs as u64) as i64 == secs) by (bit_vector);
        },
        None => {},
    }
    assert(index_part.layer_metadata.take(0) =~= FilesView::empty());
    lemma_parse_layers_round_trip(head, index_part.layer_metadata, 0);
    assert(layers_bytes(FilesView::empty()).len() == 0);
    let parsed = parse_index_part(bytes);
    assert(parsed is Ok);
    assert(parsed->Ok_0 =~= index_part);
}

/// A copy of `bytes[start..end]`.
fn copy_range(bytes: &[u8], start: usize, end: usize) -> (r: Vec<u8>)
    requires
        start <= end <= bytes@.len(),
    ensures
        r@ == bytes@.subrange(start as int, end as int),
{
    vstd::slice::slice_to_vec(vstd::slice::slice_subrange(bytes, start, end))
}

impl IndexPart {
    /// Writes the index file: see [`index_part_bytes`]. What is written
    /// reads back as this index.
    pub fn to_bytes(&self) -> (r: Vec<u8>)
        ensures
            r@ == index_part_bytes(self@),
            index_part_fits(self@),
            self.wf() ==> parse_index_part(r@) == Ok::<IndexPartView, IndexPartError>(self@),
    {
        let mut out: Vec<u8> = Vec::new();
        put_u32(&mut out, INDEX_FORMAT_VERSION);
        put_u64(&mut out, self.disk_consistent_lsn.0);
        match self.deleted_at {
            Some(t) => {
                put_u8(&mut out, 1);
                put_u64(&mut out, #[verifier::truncate] (t.secs as u64));
                put_u32(&mut out, t.nanos);
            },
            None => {
                put_u8(&mut out, 0);
                put_u64(&mut out, 0);
                put_u32(&mut out, 0);
            },
        }
        put_u64(&mut out, self.metadata_bytes.len() as u64);
        put_slice(&mut out, self.metadata_bytes.as_slice());
        put_u64(&mut out, self.layer_metadata.len() as u64);
        assert(out@ =~= index_header_bytes(self@));
        let ghost head = out@;
        let ghost files = self@.layer_metadata;
        let n = self.layer_metadata.len();
        let mut i: usize = 0;
        assert(files.take(0) =~= FilesView::empty());
        while i < n
            invariant
                i <= n,
                n == files.len(),
                files == self@.layer_metadata,
                out@ == head + layers_bytes(files.take(i as int)),
                forall|k: int| 0 <= k < i ==> name_bytes((#[trigger] files[k]).0).len() <= u64::MAX,
            decreases n - i,
        {
            let name = self.layer_metadata.name_at(i).as_bytes();
            let size = self.layer_metadata.metadata_at(i).file_size;
            proof {
                assert(files.take(i + 1).drop_last() =~= files.take(i as int));
                assert(files.take(i + 1).last() == files[i as int]);
            }
            put_u64(&mut out, name.len() as u64);
            put_slice(&mut out, name);
            put_u64(&mut out, size);
            assert(out@ =~= head + layers_bytes(files.take(i + 1)));
            i += 1;
        }
        assert(files.take(n as int) =~= files);
        proof {
            if self.wf() {
                lemma_index_part_round_trip(self@);
            }
        }
        out
    }

    /// Reads `count` layer files from `start` on: see [`parse_layers`].
    fn layers_from_bytes(bytes: &[u8], start: usize, count: u64) -> (r: Result<
        LayerFiles,
        IndexPartError,
    >)
        requires
            start <= bytes@.len(),
        ensures
            match parse_layers(bytes@, start as int, count as nat, FilesView::empty()) {
                Ok(files) => r matches Ok(f) && f@ == files && f.wf(),
                Err(e) => r matches Err(f) && f == e,
            },
    {
        let len = bytes.len();
        let mut files = LayerFiles::new();
        let mut pos = start;
        let mut left = count;
        while left > 0
            invariant
                pos <= bytes@.len(),
                len == bytes@.len(),
                files.wf(),
                parse_layers(bytes@, pos as int, left as nat, files@) == parse_layers(
                    bytes@,
                    start as int,
                    count as nat,
                    FilesView::empty(),
                ),
            decreases left,
        {
            if len - pos < 8 {
                return Err(IndexPartError::Truncated);
            }
            let name_len = read_u64_be(bytes, pos);
            if name_len > (len - pos - 8) as u64 || (len - pos - 8) as u64 - name_len < 8 {
                return Err(IndexPartError::Truncated);
            }
            let name_len = name_len as usize;
            let name = match LayerFileName::from_utf8(copy_range(bytes, pos + 8, pos + 8 + name_len)) {
                Some(name) => name,
                None => {
                    return Err(IndexPartError::InvalidName);
                },
            };
            if files.contains(&name) {
                return Err(IndexPartError::DuplicateName);
            }
            let file_size = read_u64_be(bytes, pos + 8 + name_len);
            files.insert(name, LayerFileMetadata { file_size });
            pos = pos + 8 + name_len + 8;
            left = left - 1;
        }
        if pos != len {
            return Err(IndexPartError::TrailingBytes);
        }
        Ok(files)
    }

    /// Reads an index file: see [`parse_index_part`].
    pub fn from_bytes(bytes: &[u8]) -> (r: Result<IndexPart, IndexPartError>)
        ensures
            match parse_index_part(bytes@) {
                Ok(index_part) => r matches Ok(i) && i@ == index_part && i.wf(),
                Err(e) => r matches Err(f) && f == e,
            },
    {
        let len = bytes.len();
        if len < INDEX_FIXED_SIZE {
            return Err(IndexPartError::Truncated);
        }
        if read_u32_be(bytes, 0) != INDEX_FORMAT_VERSION {
            return Err(IndexPartError::UnknownVersion);
        }
        if bytes[12] > 1 {
            return Err(IndexPartError::BadOptionTag);
        }
        let disk_consistent_lsn = Lsn(read_u64_be(bytes, 4));
        let deleted_at = if bytes[12] == 1 {
            Some(
                Timestamp {
                    secs: #[verifier::truncate] (read_u64_be(bytes, 13) as i64),
                    nanos: read_u32_be(bytes, 21),
                },
            )
        } else {
            None
        };
        let metadata_len = read_u64_be(bytes, 25);
        if metadata_len > (len - 33) as u64 || (len - 33) as u64 - metadata_len < 8 {
            return Err(IndexPartError::Truncated);
        }
        let metadata_len = metadata_len as usize;
        let metadata_bytes = copy_range(bytes, 33, 33 + metadata_len);
        let count = read_u64_be(bytes, 33 + metadata_len);
        let layer_metadata = match Self::layers_from_bytes(bytes, 41 + metadata_len, count) {
            Ok(files) => files,
            Err(e) => {
                return Err(e);
            },
        };
        Ok(IndexPart { layer_metadata, disk_consistent_lsn, metadata_bytes, deleted_at })
    }

    /// An index that was written reads back as the index that was written.
    pub proof fn lemma_round_trip(&self)
        requires
            self.wf(),
            index_part_fits(self@),
        ensures
            parse_index_part(index_part_bytes(self@)) == Ok::<IndexPartView, IndexPartError>(self@),
    {
        lemma_index_part_round_trip(self@);
    }
}

} // verus!
