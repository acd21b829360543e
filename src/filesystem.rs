use vstd::prelude::*;
use vstd::string::*;

use crate::hash::{hex_text, lemma_hex_text_injective, WasmHash};

verus! {

#[verifier::external_type_specification]
#[verifier::external_body]
pub struct ExIoError(std::io::Error);

#[verifier::external_type_specification]
#[verifier::external_body]
pub struct ExModule(wasmer::Module);

#[verifier::external_type_specification]
#[verifier::external_body]
pub struct ExSerializeError(wasmer::SerializeError);

#[verifier::external_type_specification]
#[verifier::external_body]
pub struct ExDeserializeError(wasmer::DeserializeError);

/// Relies on `wasmer::Module::serialize`: the module's compiled artifact as bytes, or the
/// reason it could not be written out. Two calls on one module need not give the same bytes
/// (the artifact holds hash maps, written out in the order they are walked), so nothing is
/// claimed of the bytes.
#[verifier::external_body]
fn serialize_module(module: &wasmer::Module) -> (r: Result<Vec<u8>, wasmer::SerializeError>) {
    match module.serialize() {
        Ok(bytes) => Ok(bytes.to_vec()),
        Err(e) => Err(e),
    }
}

/// A failure on the store path: the entry could not be written, or the module could not be
/// turned into bytes.
#[derive(Debug)]
pub enum IoSerializeError {
    Io(std::io::Error),
    Serialize(wasmer::SerializeError),
}

/// A failure on the load path: the entry could not be opened or mapped, or its bytes are not
/// a module that this runtime can rebuild.
#[derive(Debug)]
pub enum IoDeserializeError {
    Io(std::io::Error),
    Deserialize(wasmer::DeserializeError),
}

/// What a look at the root path found before a cache is built over it.
#[derive(Clone, Copy, Debug, PartialEq, Eq, Structural)]
pub enum PathStatus {
    /// Nothing exists at the path.
    Missing,
    /// A directory exists at the path.
    Directory { readonly: bool },
    /// Something that is not a directory (a regular file, for instance) exists at the path.
    NotDirectory,
}

/// Why a cache cannot be built over a path; both are permission-denied conditions.
#[derive(Clone, Copy, Debug, PartialEq, Eq, Structural)]
pub enum SetupError {
    ReadOnlyDirectory,
    NotADirectory,
}

/// A directory of compiled modules, one file per key, named by the key's hexadecimal text.
#[derive(Debug)]
pub struct FileSystemCache {
    path: String,
}

/// A cache that construction accepted, and whether its directory, with every missing
/// ancestor, has to be created before it is used.
#[derive(Debug)]
pub struct Setup {
    pub cache: FileSystemCache,
    pub create_dirs: bool,
}

/// One file to write: create or truncate `path`, then write `contents` whole.
#[derive(Debug)]
pub struct EntryWrite {
    pub path: String,
    pub contents: Vec<u8>,
}

/// `name` placed under the directory `root`, with one separator between them.
pub open spec fn join(root: Seq<char>, name: Seq<char>) -> Seq<char> {
    if root.len() == 0 {
        name
    } else if root.last() == '/' {
        root + name
    } else {
        root + seq!['/'] + name
    }
}

/// The file that holds the entry of `key` in the cache rooted at `root`.
pub open spec fn entry_of(root: Seq<char>, key: Seq<u8>) -> Seq<char> {
    join(root, hex_text(key))
}

/// What construction decides for a path in the given state.
pub open spec fn setup_of(status: PathStatus) -> Result<bool, SetupError> {
    match status {
        PathStatus::Missing => Ok(true),
        PathStatus::Directory { readonly } => if readonly {
            Err(SetupError::ReadOnlyDirectory)
        } else {
            Ok(false)
        },
        PathStatus::NotDirectory => Err(SetupError::NotADirectory),
    }
}

impl FileSystemCache {
    /// The root directory.
    pub closed spec fn root(&self) -> Seq<char> {
        self.path@
    }

    /// Builds a cache over `path`, given what exists there. A writable directory is used as it
    /// is; a missing path is accepted and must be created with all its ancestors; a read-only
    /// directory or anything that is not a directory is refused.
    pub fn new(path: String, status: PathStatus) -> (r: Result<Setup, SetupError>)
        ensures
            r matches Ok(s) ==> s.cache.root() == path@ && setup_of(status) == Ok::<
                bool,
                SetupError,
            >(s.create_dirs),
            r matches Err(e) ==> setup_of(status) == Err::<bool, SetupError>(e),
    {
        match status {
            PathStatus::Missing => Ok(Setup { cache: FileSystemCache { path }, create_dirs: true }),
            PathStatus::Directory { readonly } => {
                if readonly {
                    Err(SetupError::ReadOnlyDirectory)
                } else {
                    Ok(Setup { cache: FileSystemCache { path }, create_dirs: false })
                }
            },
            PathStatus::NotDirectory => Err(SetupError::NotADirectory),
        }
    }

    /// The root directory's path.
    pub fn path(&self) -> (r: &String)
        ensures
            r@ == self.root(),
    {
        &self.path
    }

    /// The path of the file that holds the entry of `key`.
    pub fn entry_path(&self, key: &WasmHash) -> (r: String)
        ensures
            r@ == entry_of(self.root(), key.view()),
    {
        let name = key.to_string();
        let mut p = self.path.clone();
        let n = self.path.as_str().unicode_len();
        if n > 0 && self.path.as_str().get_char(n - 1) != '/' {
            p.push('/');
        }
        p.append(name.as_str());
        p
    }

    /// The write that stores `bytes` as the entry of `key`, replacing any earlier entry.
    pub fn store_bytes(&self, key: WasmHash, bytes: Vec<u8>) -> (r: EntryWrite)
        ensures
            r.path@ == entry_of(self.root(), key.view()),
            r.contents@ == bytes@,
            forall|files: Files| #[trigger]
                written(files, r) == stored(files, self.root(), key, bytes@),
    {
        EntryWrite { path: self.entry_path(&key), contents: bytes }
    }

    /// The write that stores `module` under `key`: the bytes that serializing it gave, planned
    /// as `store_bytes` plans them, in the key's file. Fails with a serialization error, and
    /// plans no write, where the module cannot be serialized.
    pub fn store(&self, key: WasmHash, module: &wasmer::Module) -> (r: Result<
        EntryWrite,
        IoSerializeError,
    >)
        ensures
            r matches Ok(w) ==> w.path@ == entry_of(self.root(), key.view()) && forall|
                files: Files,
            | #[trigger] written(files, w) == stored(files, self.root(), key, w.contents@),
            r matches Err(e) ==> e is Serialize,
    {
        match serialize_module(module) {
            Ok(bytes) => Ok(self.store_bytes(key, bytes)),
            Err(e) => Err(IoSerializeError::Serialize(e)),
        }
    }
}

/// The files under a cache's root, as the store and load paths see them: path to contents.
pub type Files = Map<Seq<char>, Seq<u8>>;

/// The files after `w` has been carried out.
pub open spec fn written(files: Files, w: EntryWrite) -> Files {
    files.insert(w.path@, w.contents@)
}

/// The files after storing `bytes` under `key` in the cache rooted at `root`.
pub open spec fn stored(files: Files, root: Seq<char>, key: WasmHash, bytes: Seq<u8>) -> Files {
    files.insert(entry_of(root, key.view()), bytes)
}

/// The files after each store of `entries`, in order.
pub open spec fn stored_all(files: Files, root: Seq<char>, entries: Seq<(WasmHash, Seq<u8>)>) -> Files
    decreases entries.len(),
{
    if entries.len() == 0 {
        files
    } else {
        stored(
            stored_all(files, root, entries.drop_last()),
            root,
            entries.last().0,
            entries.last().1,
        )
    }
}

/// What the entry of `key` holds: the bytes of its file, or `None` where no file exists at the
/// key's entry path.
pub open spec fn lookup(files: Files, root: Seq<char>, key: WasmHash) -> Option<Seq<u8>> {
    if files.contains_key(entry_of(root, key.view())) {
        Some(files[entry_of(root, key.view())])
    } else {
        None
    }
}

/// Under one root, distinct names give distinct paths.
pub proof fn lemma_join_injective(root: Seq<char>, a: Seq<char>, b: Seq<char>)
    requires
        join(root, a) == join(root, b),
    ensures
        a == b,
{
    let k = join(root, a).len() - a.len();
    assert(join(root, a).subrange(k, join(root, a).len() as int) =~= a);
    assert(join(root, b).subrange(k, join(root, b).len() as int) =~= b);
}

/// Distinct keys have distinct entry files.
pub proof fn lemma_entries_distinct(root: Seq<char>, k1: WasmHash, k2: WasmHash)
    requires
        k1.view() != k2.view(),
    ensures
        entry_of(root, k1.view()) != entry_of(root, k2.view()),
{
    k1.lemma_len();
    k2.lemma_len();
    if entry_of(root, k1.view()) == entry_of(root, k2.view()) {
        lemma_join_injective(root, hex_text(k1.view()), hex_text(k2.view()));
        lemma_hex_text_injective(k1.view(), k2.view());
    }
}

/// Loading a key right after storing bytes under it yields those bytes.
pub proof fn lemma_round_trip(files: Files, root: Seq<char>, key: WasmHash, bytes: Seq<u8>)
    ensures
        lookup(stored(files, root, key, bytes), root, key) == Some(bytes),
{
}

/// Storing under one key leaves what every other key loads as it was.
pub proof fn lemma_store_keeps_other_keys(
    files: Files,
    root: Seq<char>,
    key: WasmHash,
    other: WasmHash,
    bytes: Seq<u8>,
)
    requires
        key.view() != other.view(),
    ensures
        lookup(stored(files, root, key, bytes), root, other) == lookup(files, root, other),
{
    lemma_entries_distinct(root, key, other);
}

/// A key that was never stored, in a directory that held no entry for it, is not found,
/// whatever was stored under other keys meanwhile.
pub proof fn lemma_miss(
    files: Files,
    root: Seq<char>,
    key: WasmHash,
    entries: Seq<(WasmHash, Seq<u8>)>,
)
    requires
        lookup(files, root, key) is None,
        forall|i: int| 0 <= i < entries.len() ==> entries[i].0.view() != key.view(),
    ensures
        lookup(stored_all(files, root, entries), root, key) is None,
    decreases entries.len(),
{
    if entries.len() > 0 {
        let rest = entries.drop_last();
        lemma_miss(files, root, key, rest);
        lemma_store_keeps_other_keys(
            stored_all(files, root, rest),
            root,
            entries.last().0,
            key,
            entries.last().1,
        );
    }
}

/// A second store under a key replaces the first whole: loading yields the second bytes.
pub proof fn lemma_overwrite(
    files: Files,
    root: Seq<char>,
    key: WasmHash,
    first: Seq<u8>,
    second: Seq<u8>,
)
    ensures
        lookup(stored(stored(files, root, key, first), root, key, second), root, key) == Some(
            second,
        ),
{
}

} // verus!
