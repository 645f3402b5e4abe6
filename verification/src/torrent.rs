//! The torrent-like file sharing protocol: files are identified by an info
//! hash (SHA-256 of the file name and size), split into 64 KiB pieces, each
//! verified by its SHA-256; a server answers file lists, metadata and
//! pieces from the files it shares.
use vstd::prelude::*;
use vstd::string::*;
use crate::keyed::{entries_map, unique_keys, lemma_entries_value, lemma_entries_update, lemma_entries_push, lemma_entries_dom, find_key};

verus! {

/// Size of a piece in bytes (64 KiB).
pub const PIECE_SIZE: usize = 65536;

/// The SHA-256 digest of `data`.
pub uninterp spec fn sha256_digest(data: Seq<u8>) -> Seq<u8>;

/// The lower-case hexadecimal digit of a value below sixteen.
pub open spec fn hex_digit(v: nat) -> char {
    if v < 10 {
        crate::text::digit_char(v)
    } else if v == 10 {
        'a'
    } else if v == 11 {
        'b'
    } else if v == 12 {
        'c'
    } else if v == 13 {
        'd'
    } else if v == 14 {
        'e'
    } else {
        'f'
    }
}

/// Lower-case hexadecimal rendering of bytes, two digits per byte.
pub open spec fn hex_lower(bytes: Seq<u8>) -> Seq<char>
    decreases bytes.len(),
{
    if bytes.len() == 0 {
        Seq::empty()
    } else {
        hex_lower(bytes.drop_last()) + seq![
            hex_digit((bytes.last() / 16) as nat),
            hex_digit((bytes.last() % 16) as nat),
        ]
    }
}

/// The SHA-256 of `data` in lower-case hexadecimal.
///
/// Trusted: calls `sha2::Sha256::digest` and formats the digest with `{:x}`,
/// which `generic-array` implements by writing each byte as two lower-case
/// hexadecimal digits, high nibble first. The digest is named, not stated.
#[verifier::external_body]
pub(crate) fn sha256_hex(data: &[u8]) -> (r: String)
    ensures
        r@ == hex_lower(sha256_digest(data@)),
{
    format!("{:x}", <sha2::Sha256 as sha2::Digest>::digest(data))
}

/// The eight little-endian bytes of `v` (what `to_le_bytes` gives).
pub open spec fn le_bytes(v: u64) -> Seq<u8> {
    Seq::new(8, |i: int| ((v >> (8 * i) as u64) & 0xff) as u8)
}

/// The info hash of a file: the SHA-256 of its name's UTF-8 bytes followed
/// by the little-endian bytes of its size, in hexadecimal.
pub open spec fn info_hash_spec(filename: Seq<char>, size: u64) -> Seq<char> {
    hex_lower(sha256_digest(vstd::utf8::encode_utf8(filename) + le_bytes(size)))
}

/// The info hash of a file of name `filename` and `size` bytes.
pub fn info_hash(filename: &str, size: u64) -> (r: String)
    ensures
        r@ == info_hash_spec(filename@, size),
{
    let name = filename.as_bytes();
    let mut data: Vec<u8> = Vec::new();
    let mut i: usize = 0;
    while i < name.len()
        invariant
            i <= name@.len(),
            data@ == name@.subrange(0, i as int),
        decreases name.len() - i,
    {
        data.push(name[i]);
        i = i + 1;
        assert(data@ =~= name@.subrange(0, i as int));
    }
    assert(name@.subrange(0, name@.len() as int) =~= name@);
    let ghost prefix = data@;
    let mut k: u64 = 0;
    while k < 8
        invariant
            k <= 8,
            prefix == vstd::utf8::encode_utf8(filename@),
            data@ == prefix + le_bytes(size).subrange(0, k as int),
        decreases 8 - k,
    {
        let b = ((size >> (8 * k)) & 0xff) as u8;
        data.push(b);
        k = k + 1;
        assert(data@ =~= prefix + le_bytes(size).subrange(0, k as int));
    }
    assert(le_bytes(size).subrange(0, 8) =~= le_bytes(size));
    sha256_hex(data.as_slice())
}

/// Number of pieces of a file of `len` bytes.
pub open spec fn piece_count(len: nat) -> nat {
    if len == 0 {
        0
    } else {
        ((len - 1) / (PIECE_SIZE as int) + 1) as nat
    }
}

/// Piece `i` of `data`: the bytes from `i` times the piece size, up to one
/// piece size of them.
pub open spec fn piece_spec(data: Seq<u8>, i: int) -> Seq<u8> {
    let start = i * PIECE_SIZE;
    let end = if start + PIECE_SIZE <= data.len() {
        start + PIECE_SIZE
    } else {
        data.len() as int
    };
    data.subrange(start, end)
}

fn copy_bytes(v: &[u8], start: usize, end: usize) -> (r: Vec<u8>)
    requires
        start <= end <= v@.len(),
    ensures
        r@ == v@.subrange(start as int, end as int),
{
    let mut out: Vec<u8> = Vec::new();
    let mut i: usize = start;
    while i < end
        invariant
            start <= i <= end,
            end <= v@.len(),
            out@ == v@.subrange(start as int, i as int),
        decreases end - i,
    {
        out.push(v[i]);
        i = i + 1;
        assert(out@ =~= v@.subrange(start as int, i as int));
    }
    out
}

/// Splits file contents into pieces (what `chunks(PIECE_SIZE)` yields).
pub fn split_pieces(data: &Vec<u8>) -> (r: Vec<Vec<u8>>)
    ensures
        r@.len() == piece_count(data@.len()),
        forall|i: int| 0 <= i < r@.len() ==> (#[trigger] r@[i])@ == piece_spec(data@, i),
{
    let len = data.len();
    let mut out: Vec<Vec<u8>> = Vec::new();
    let mut start: usize = 0;
    while start < len
        invariant
            len == data@.len(),
            start == out@.len() * PIECE_SIZE || start == len,
            start <= len,
            start < len ==> start == out@.len() * PIECE_SIZE,
            out@.len() == if start == 0 {
                0
            } else {
                piece_count(start as nat)
            },
            start == len && len > 0 ==> out@.len() == piece_count(len as nat),
            forall|i: int| 0 <= i < out@.len() ==> (#[trigger] out@[i])@ == piece_spec(data@, i),
        decreases len - start,
    {
        let end = if len - start > PIECE_SIZE {
            start + PIECE_SIZE
        } else {
            len
        };
        let piece = copy_bytes(data.as_slice(), start, end);
        proof {
            assert(piece@ == piece_spec(data@, out@.len() as int));
        }
        out.push(piece);
        start = end;
    }
    out
}

/// A shared file's metadata.
#[derive(Debug)]
pub struct TorrentMetadata {
    pub info_hash: String,
    pub filename: String,
    pub file_size: u64,
    pub piece_size: u64,
    /// SHA-256 of each piece, in hexadecimal
    pub pieces: Vec<String>,
    /// Peer addresses
    pub announce: Vec<String>,
}

/// A shared file as listed.
#[derive(Debug)]
pub struct TorrentFileInfo {
    pub info_hash: String,
    pub filename: String,
    pub size: u64,
}

/// Messages of the torrent protocol.
#[derive(Debug)]
pub enum TorrentMessage {
    RequestPiece { info_hash: String, piece_index: u64 },
    PieceData { info_hash: String, piece_index: u64, data: Vec<u8> },
    RequestMetadata { info_hash: String },
    Metadata { metadata: TorrentMetadata },
    ListFiles,
    FileList { files: Vec<TorrentFileInfo> },
}

/// A shared file: where it lies, its metadata and its pieces.
#[derive(Debug)]
pub struct TorrentFile {
    pub path: String,
    pub metadata: TorrentMetadata,
    pub pieces: Vec<Vec<u8>>,
}

/// The metadata and pieces are those of `data`, a file of name `filename`.
pub open spec fn file_is(f: TorrentFile, filename: Seq<char>, data: Seq<u8>) -> bool {
    &&& f.metadata.info_hash@ == info_hash_spec(filename, data.len() as u64)
    &&& f.metadata.filename@ == filename
    &&& f.metadata.file_size == data.len()
    &&& f.metadata.piece_size == PIECE_SIZE
    &&& f.metadata.pieces@.len() == piece_count(data.len())
    &&& forall|i: int|
        0 <= i < f.metadata.pieces@.len() ==> (#[trigger] f.metadata.pieces@[i])@ == hex_lower(
            sha256_digest(piece_spec(data, i)),
        )
    &&& f.metadata.announce@.len() == 0
    &&& f.pieces@.len() == piece_count(data.len())
    &&& forall|i: int| 0 <= i < f.pieces@.len() ==> (#[trigger] f.pieces@[i])@ == piece_spec(data, i)
}

fn copy_strings(v: &Vec<String>) -> (r: Vec<String>)
    ensures
        r@.len() == v@.len(),
        forall|i: int| 0 <= i < r@.len() ==> (#[trigger] r@[i])@ == v@[i]@,
{
    let mut out: Vec<String> = Vec::new();
    let mut i: usize = 0;
    while i < v.len()
        invariant
            i <= v@.len(),
            out@.len() == i,
            forall|j: int| 0 <= j < i ==> (#[trigger] out@[j])@ == v@[j]@,
        decreases v.len() - i,
    {
        out.push(v[i].clone());
        i = i + 1;
    }
    out
}

/// Two metadata records say the same: the same hash, name, sizes, piece
/// hashes and peers.
pub open spec fn metadata_same(a: TorrentMetadata, b: TorrentMetadata) -> bool {
    &&& a.info_hash@ == b.info_hash@
    &&& a.filename@ == b.filename@
    &&& a.file_size == b.file_size
    &&& a.piece_size == b.piece_size
    &&& a.pieces@.len() == b.pieces@.len()
    &&& forall|i: int| 0 <= i < a.pieces@.len() ==> (#[trigger] a.pieces@[i])@ == b.pieces@[i]@
    &&& a.announce@.len() == b.announce@.len()
    &&& forall|i: int| 0 <= i < a.announce@.len() ==> (#[trigger] a.announce@[i])@ == b.announce@[i]@
}

impl TorrentMetadata {
    /// A copy of the metadata.
    pub fn duplicate(&self) -> (r: TorrentMetadata)
        ensures
            metadata_same(r, *self),
    {
        TorrentMetadata {
            info_hash: self.info_hash.clone(),
            filename: self.filename.clone(),
            file_size: self.file_size,
            piece_size: self.piece_size,
            pieces: copy_strings(&self.pieces),
            announce: copy_strings(&self.announce),
        }
    }
}

impl TorrentFile {
    /// The shared file of name `filename` at `path` with contents `data`:
    /// its info hash, its 64 KiB pieces and their hashes.
    pub fn from_data(path: String, filename: &str, data: Vec<u8>) -> (r: TorrentFile)
        requires
            data@.len() <= u64::MAX,
        ensures
            r.path == path,
            file_is(r, filename@, data@),
    {
        let file_size = data.len() as u64;
        let info = info_hash(filename, file_size);
        let pieces = split_pieces(&data);
        let mut hashes: Vec<String> = Vec::new();
        let mut i: usize = 0;
        while i < pieces.len()
            invariant
                i <= pieces@.len(),
                hashes@.len() == i,
                forall|j: int| 0 <= j < i ==> (#[trigger] hashes@[j])@ == hex_lower(sha256_digest(pieces@[j]@)),
            decreases pieces.len() - i,
        {
            hashes.push(sha256_hex(pieces[i].as_slice()));
            i = i + 1;
        }
        let metadata = TorrentMetadata {
            info_hash: info,
            filename: String::from_str(filename),
            file_size,
            piece_size: PIECE_SIZE as u64,
            pieces: hashes,
            announce: Vec::new(),
        };
        TorrentFile { path, metadata, pieces }
    }
}

/// The hashes of the pieces of `data`, in order.
pub open spec fn piece_hashes_of(data: Seq<u8>, hashes: Seq<String>) -> bool {
    &&& hashes.len() == piece_count(data.len())
    &&& forall|i: int| 0 <= i < hashes.len() ==> (#[trigger] hashes[i])@ == hex_lower(sha256_digest(piece_spec(data, i)))
}

/// The metadata a node serves for a file it seeds under `info_hash`, named
/// and sized as `info` lists it, with contents `data`: 64 KiB pieces and
/// their hashes, and no peers.
pub fn seeded_metadata(info_hash: &str, info: &TorrentFileInfo, data: &Vec<u8>) -> (r: TorrentMetadata)
    ensures
        r.info_hash@ == info_hash@,
        r.filename@ == info.filename@,
        r.file_size == info.size,
        r.piece_size == PIECE_SIZE,
        piece_hashes_of(data@, r.pieces@),
        r.announce@.len() == 0,
{
    let pieces = split_pieces(data);
    let mut hashes: Vec<String> = Vec::new();
    let mut i: usize = 0;
    while i < pieces.len()
        invariant
            i <= pieces@.len(),
            pieces@.len() == piece_count(data@.len()),
            forall|j: int| 0 <= j < pieces@.len() ==> (#[trigger] pieces@[j])@ == piece_spec(data@, j),
            hashes@.len() == i,
            forall|j: int| 0 <= j < i ==> (#[trigger] hashes@[j])@ == hex_lower(sha256_digest(piece_spec(data@, j))),
        decreases pieces.len() - i,
    {
        hashes.push(sha256_hex(pieces[i].as_slice()));
        i = i + 1;
    }
    TorrentMetadata {
        info_hash: String::from_str(info_hash),
        filename: info.filename.clone(),
        file_size: info.size,
        piece_size: PIECE_SIZE as u64,
        pieces: hashes,
        announce: Vec::new(),
    }
}

/// Piece `index` of a seeded file with contents `data`, if the file has
/// it.
pub fn seeded_piece(data: &Vec<u8>, index: u64) -> (r: Option<Vec<u8>>)
    requires
        index * PIECE_SIZE <= usize::MAX,
    ensures
        match r {
            Some(p) => index < piece_count(data@.len()) && p@ == piece_spec(data@, index as int),
            None => index >= piece_count(data@.len()),
        },
{
    let start: usize = index as usize * PIECE_SIZE;
    let len = data.len();
    if start < len {
        let end = if len - start > PIECE_SIZE {
            start + PIECE_SIZE
        } else {
            len
        };
        proof {
            assert(index < piece_count(len as nat)) by (nonlinear_arith)
                requires
                    start == index * PIECE_SIZE,
                    start < len,
                    PIECE_SIZE == 65536,
            ;
        }
        Some(copy_bytes(data.as_slice(), start, end))
    } else {
        proof {
            assert(index >= piece_count(len as nat)) by (nonlinear_arith)
                requires
                    start == index * PIECE_SIZE,
                    start >= len,
                    PIECE_SIZE == 65536,
            ;
        }
        None
    }
}

/// The extensions of the files a server shares.
pub open spec fn shared_extension(ext: Seq<char>) -> bool {
    ext == "gguf"@ || ext == "safetensors"@
}

/// Whether a file with extension `ext` is shared.
pub fn is_shared_extension(ext: &str) -> (r: bool)
    ensures
        r == shared_extension(ext@),
{
    crate::text::str_eq(ext, "gguf") || crate::text::str_eq(ext, "safetensors")
}

/// The files a server shares, by info hash.
pub struct TorrentServer {
    share_dir: String,
    files: Vec<(String, TorrentFile)>,
}

impl TorrentServer {
    /// The shared files, by info hash.
    pub closed spec fn files(&self) -> Map<Seq<char>, TorrentFile> {
        entries_map(self.files@)
    }

    pub closed spec fn spec_share_dir(&self) -> Seq<char> {
        self.share_dir@
    }

    /// Each info hash occurs once, and each file is filed under its own.
    pub closed spec fn wf(&self) -> bool {
        &&& unique_keys(self.files@)
        &&& forall|i: int|
            0 <= i < self.files@.len() ==> (#[trigger] self.files@[i]).0@ == self.files@[i].1.metadata.info_hash@
    }

    /// A server sharing nothing yet from `share_dir` (by default
    /// `models_cache/shards`).
    pub fn new(share_dir: &str) -> (r: TorrentServer)
        ensures
            r.wf(),
            r.files() == Map::<Seq<char>, TorrentFile>::empty(),
            r.spec_share_dir() == if share_dir@.len() == 0 {
                "models_cache/shards"@
            } else {
                share_dir@
            },
    {
        let dir = if share_dir.unicode_len() == 0 {
            String::from_str("models_cache/shards")
        } else {
            String::from_str(share_dir)
        };
        let r = TorrentServer { share_dir: dir, files: Vec::new() };
        assert(r.files() =~= Map::<Seq<char>, TorrentFile>::empty());
        r
    }

    /// The directory of the shared files.
    pub fn share_dir(&self) -> (r: &str)
        ensures
            r@ == self.spec_share_dir(),
    {
        self.share_dir.as_str()
    }

    /// Stops sharing every file (before a new scan).
    pub fn clear_files(&mut self)
        ensures
            final(self).wf(),
            final(self).files() == Map::<Seq<char>, TorrentFile>::empty(),
            final(self).spec_share_dir() == old(self).spec_share_dir(),
    {
        self.files = Vec::new();
        assert(self.files() =~= Map::<Seq<char>, TorrentFile>::empty());
    }

    /// Shares a file under its info hash (replacing one of the same hash).
    pub fn add_file(&mut self, file: TorrentFile)
        requires
            old(self).wf(),
        ensures
            final(self).wf(),
            final(self).files() == old(self).files().insert(file.metadata.info_hash@, file),
            final(self).spec_share_dir() == old(self).spec_share_dir(),
    {
        let key = file.metadata.info_hash.clone();
        match find_key(&self.files, key.as_str()) {
            Some(i) => {
                proof {
                    lemma_entries_update(self.files@, i as int, (key, file));
                }
                self.files.set(i, (key, file));
            },
            None => {
                proof {
                    lemma_entries_push(self.files@, (key, file));
                }
                self.files.push((key, file));
            },
        }
    }

    /// `list` names each shared file by hash, name and size, and every
    /// shared file is in it.
    pub open spec fn lists_files(&self, list: Seq<TorrentFileInfo>) -> bool {
        &&& list.len() == self.files().len()
        &&& forall|i: int|
            0 <= i < list.len() ==> {
                let e = #[trigger] list[i];
                &&& self.files().dom().contains(e.info_hash@)
                &&& e.filename@ == self.files()[e.info_hash@].metadata.filename@
                &&& e.size == self.files()[e.info_hash@].metadata.file_size
            }
        &&& forall|h: Seq<char>|
            self.files().dom().contains(h) ==> exists|i: int| 0 <= i < list.len() && (#[trigger] list[i]).info_hash@ == h
    }

    /// The shared files, listed by info hash, name and size.
    pub fn get_file_list(&self) -> (r: Vec<TorrentFileInfo>)
        requires
            self.wf(),
        ensures
            self.lists_files(r@),
    {
        proof {
            crate::keyed::lemma_entries_len(self.files@);
        }
        let mut out: Vec<TorrentFileInfo> = Vec::new();
        let mut i: usize = 0;
        while i < self.files.len()
            invariant
                self.wf(),
                i <= self.files@.len(),
                out@.len() == i,
                forall|j: int|
                    0 <= j < i ==> {
                        let e = #[trigger] out@[j];
                        &&& e.info_hash@ == self.files@[j].0@
                        &&& e.filename@ == self.files@[j].1.metadata.filename@
                        &&& e.size == self.files@[j].1.metadata.file_size
                    },
            decreases self.files.len() - i,
        {
            let f = &self.files[i].1;
            out.push(
                TorrentFileInfo {
                    info_hash: f.metadata.info_hash.clone(),
                    filename: f.metadata.filename.clone(),
                    size: f.metadata.file_size,
                },
            );
            i = i + 1;
        }
        proof {
            assert forall|j: int| 0 <= j < out@.len() implies {
                let e = #[trigger] out@[j];
                &&& self.files().dom().contains(e.info_hash@)
                &&& e.filename@ == self.files()[e.info_hash@].metadata.filename@
                &&& e.size == self.files()[e.info_hash@].metadata.file_size
            } by {
                lemma_entries_value(self.files@, j);
            }
            assert forall|h: Seq<char>| self.files().dom().contains(h) implies exists|j: int|
                0 <= j < out@.len() && (#[trigger] out@[j]).info_hash@ == h by {
                lemma_entries_dom(self.files@, h);
                let j = choose|j: int| 0 <= j < self.files@.len() && (#[trigger] self.files@[j]).0@ == h;
                assert(out@[j].info_hash@ == h);
            }
        }
        out
    }

    /// The metadata of the file with info hash `info_hash`.
    pub fn get_metadata(&self, info_hash: &str) -> (r: Option<&TorrentMetadata>)
        requires
            self.wf(),
        ensures
            r is Some <==> self.files().dom().contains(info_hash@),
            r is Some ==> *r->0 == self.files()[info_hash@].metadata,
    {
        match find_key(&self.files, info_hash) {
            Some(i) => {
                proof {
                    lemma_entries_value(self.files@, i as int);
                }
                Some(&self.files[i].1.metadata)
            },
            None => None,
        }
    }

    /// Piece `piece_index` of the file with info hash `info_hash`.
    pub fn get_piece(&self, info_hash: &str, piece_index: u64) -> (r: Option<Vec<u8>>)
        requires
            self.wf(),
        ensures
            r is Some <==> self.files().dom().contains(info_hash@) && piece_index
                < self.files()[info_hash@].pieces@.len(),
            r is Some ==> r->0@ == self.files()[info_hash@].pieces@[piece_index as int]@,
    {
        match find_key(&self.files, info_hash) {
            Some(i) => {
                proof {
                    lemma_entries_value(self.files@, i as int);
                }
                let pieces = &self.files[i].1.pieces;
                if piece_index < pieces.len() as u64 {
                    let p = &pieces[piece_index as usize];
                    Some(copy_bytes(p.as_slice(), 0, p.len()))
                } else {
                    None
                }
            },
            None => None,
        }
    }

    /// The answer to a request of the torrent protocol: the file list, the
    /// metadata or the piece asked for; a request for an unknown file or
    /// piece, and any other message, is answered with an empty file list.
    pub fn answer(&self, request: &TorrentMessage) -> (r: TorrentMessage)
        requires
            self.wf(),
        ensures
            match *request {
                TorrentMessage::ListFiles => r matches TorrentMessage::FileList { files } && self.lists_files(
                    files@,
                ),
                TorrentMessage::RequestMetadata { info_hash } => if self.files().dom().contains(info_hash@) {
                    r matches TorrentMessage::Metadata { metadata } && metadata_same(
                        metadata,
                        self.files()[info_hash@].metadata,
                    )
                } else {
                    r matches TorrentMessage::FileList { files } && files@.len() == 0
                },
                TorrentMessage::RequestPiece { info_hash, piece_index } => if self.files().dom().contains(
                    info_hash@,
                ) && piece_index < self.files()[info_hash@].pieces@.len() {
                    r matches TorrentMessage::PieceData { info_hash: h, piece_index: i, data } && h@
                        == info_hash@ && i == piece_index && data@
                        == self.files()[info_hash@].pieces@[piece_index as int]@
                } else {
                    r matches TorrentMessage::FileList { files } && files@.len() == 0
                },
                _ => r matches TorrentMessage::FileList { files } && files@.len() == 0,
            },
    {
        match request {
            TorrentMessage::ListFiles => TorrentMessage::FileList { files: self.get_file_list() },
            TorrentMessage::RequestMetadata { info_hash } => match self.get_metadata(info_hash.as_str()) {
                Some(m) => TorrentMessage::Metadata { metadata: m.duplicate() },
                None => TorrentMessage::FileList { files: Vec::new() },
            },
            TorrentMessage::RequestPiece { info_hash, piece_index } => match self.get_piece(
                info_hash.as_str(),
                *piece_index,
            ) {
                Some(data) => TorrentMessage::PieceData {
                    info_hash: info_hash.clone(),
                    piece_index: *piece_index,
                    data,
                },
                None => TorrentMessage::FileList { files: Vec::new() },
            },
            _ => TorrentMessage::FileList { files: Vec::new() },
        }
    }
}

} // verus!
