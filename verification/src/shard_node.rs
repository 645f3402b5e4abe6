//! The state of a shard node: the shard it serves, the files it seeds, the
//! shard files it has loaded, its downloads of missing shard files piece by
//! piece, and its request counters; and its answers to the commands peers
//! send it.
//!
//! Reading and writing files, and the network, are the caller's: it tells
//! the state whether a shard file exists, hands it what peers sent, and
//! writes out the files the state assembles.
use vstd::prelude::*;
pub mod handlers;
use vstd::string::*;
use std::collections::HashMap;
use crate::text::{
    append_decimal, decimal, is_prefix, is_suffix, parse_u32, parse_u32_spec, str_ends_with, str_starts_with,
};
use crate::torrent::{TorrentFileInfo, TorrentMetadata, hex_lower, sha256_digest, sha256_hex, info_hash, info_hash_spec};
use crate::kademlia_shard_discovery::{KademliaShardDiscovery, ShardAnnouncement, ShardCapabilities, layout_fits};
use crate::keyed::{entries_map, unique_keys, lemma_entries_value, lemma_entries_update, lemma_entries_push, lemma_entries_dom, find_key};

verus! {

broadcast use vstd::std_specs::hash::group_hash_axioms;

/// The file name of a shard: `shard-{id}.gguf`.
pub open spec fn shard_file_name_spec(shard_id: u32) -> Seq<char> {
    "shard-"@ + decimal(shard_id as nat) + ".gguf"@
}

/// The file name of a shard.
pub fn shard_file_name(shard_id: u32) -> (r: String)
    ensures
        r@ == shard_file_name_spec(shard_id),
{
    let mut s = String::from_str("shard-");
    append_decimal(&mut s, shard_id as u128);
    s.append(".gguf");
    s
}

/// A file name inside a directory, as `Path::join` forms it for a relative
/// name: the name alone for an empty directory, no second separator after
/// a trailing one.
pub open spec fn join_path_spec(dir: Seq<char>, name: Seq<char>) -> Seq<char> {
    if dir.len() == 0 {
        name
    } else if dir.last() == '/' {
        dir + name
    } else {
        dir + "/"@ + name
    }
}

/// A file name inside a directory.
pub fn join_path(dir: &str, name: &str) -> (r: String)
    ensures
        r@ == join_path_spec(dir@, name@),
{
    let n = dir.unicode_len();
    if n == 0 {
        return String::from_str(name);
    }
    let mut s = String::from_str(dir);
    if dir.get_char(n - 1) != '/' {
        s.append("/");
    }
    s.append(name);
    s
}

/// The shard id in a file name `shard-{id}.gguf`, if it is one.
pub open spec fn shard_id_of_file_spec(name: Seq<char>) -> Option<u32> {
    if is_prefix("shard-"@, name) && is_suffix(".gguf"@, name.subrange(6, name.len() as int)) {
        parse_u32_spec(name.subrange(6, name.len() - 5))
    } else {
        None
    }
}

/// The shard id in a file name `shard-{id}.gguf`, if it is one.
pub fn shard_id_of_file(name: &str) -> (r: Option<u32>)
    ensures
        r == shard_id_of_file_spec(name@),
{
    proof {
        reveal_strlit("shard-");
        reveal_strlit(".gguf");
    }
    if !str_starts_with(name, "shard-") {
        return None;
    }
    let n = name.unicode_len();
    let rest = name.substring_char(6, n);
    if !str_ends_with(rest, ".gguf") {
        return None;
    }
    let mid = name.substring_char(6, n - 5);
    assert(mid@ =~= name@.subrange(6, n - 5));
    parse_u32(mid)
}

/// Whether a directory scan passes over a file as one of the first four
/// shards (seeded before the scan): a 13-byte name `shard-{id}.gguf` with
/// an id below four.
pub open spec fn skipped_in_scan_spec(name: &str) -> bool {
    &&& name.len() == 13
    &&& shard_id_of_file_spec(name@) matches Some(id) && id < 4
}

/// Whether a directory scan passes over a file as one of the first four
/// shards.
pub fn skipped_in_scan(name: &str) -> (r: bool)
    ensures
        r == skipped_in_scan_spec(name),
{
    if name.len() != 13 {
        return false;
    }
    match shard_id_of_file(name) {
        Some(id) => id < 4,
        None => false,
    }
}

/// The torrent entry of a seeded file of name `filename` and `size` bytes.
pub fn create_torrent_file_info(filename: &str, size: u64) -> (r: TorrentFileInfo)
    ensures
        r.info_hash@ == info_hash_spec(filename@, size),
        r.filename@ == filename@,
        r.size == size,
{
    TorrentFileInfo { info_hash: info_hash(filename, size), filename: String::from_str(filename), size }
}

/// The fallback info hash of a shard file: the SHA-256 of its name.
pub open spec fn fallback_info_hash_spec(shard_id: u32) -> Seq<char> {
    hex_lower(sha256_digest(vstd::utf8::encode_utf8(shard_file_name_spec(shard_id))))
}

/// The fallback info hash of a shard file, used when no seeded file has the
/// shard's name.
pub fn find_shard_info_hash(shard_id: u32) -> (r: String)
    ensures
        r@ == fallback_info_hash_spec(shard_id),
{
    let name = shard_file_name(shard_id);
    sha256_hex(name.as_str().as_bytes())
}

/// Law: reading back the shard id of a shard's file name gives the id it
/// was named after, for every id.
pub proof fn lemma_shard_file_name_roundtrip(shard_id: u32)
    ensures
        shard_id_of_file_spec(shard_file_name_spec(shard_id)) == Some(shard_id),
{
    let name = shard_file_name_spec(shard_id);
    let d = decimal(shard_id as nat);
    reveal_strlit("shard-");
    reveal_strlit(".gguf");
    crate::dht_keys::lemma_decimal_digits(shard_id as nat);
    assert(name.subrange(0, 6) =~= "shard-"@);
    let rest = name.subrange(6, name.len() as int);
    assert(rest =~= d + ".gguf"@);
    assert(rest.subrange(rest.len() - 5, rest.len() as int) =~= ".gguf"@);
    assert(name.subrange(6, name.len() - 5) =~= d);
    assert(d.len() > 0);
    assert(d[0] != '+');
}

/// What became of a received piece.
#[derive(Debug, Clone, Copy, PartialEq, Eq, Structural)]
pub enum PieceReceipt {
    /// No download has this info hash.
    UnknownDownload,
    /// The index lies beyond the pieces the metadata lists.
    InvalidIndex,
    /// The piece's hash is not the one the metadata lists.
    HashMismatch,
    /// The piece was stored.
    Stored,
}

/// An active download of a file.
#[derive(Debug)]
pub struct DownloadState {
    pub info_hash: String,
    pub filename: String,
    pub target_path: String,
    pub metadata: Option<TorrentMetadata>,
    /// Received pieces by index
    pub pieces: HashMap<u64, Vec<u8>>,
    /// The indices of the received pieces, each once, first arrival first
    pub piece_order: Vec<u64>,
    pub total_pieces: usize,
    pub downloaded_pieces: usize,
    /// The peer the file comes from
    pub peer_id: Option<String>,
}

/// The bytes of the stored pieces below index `n`, in index order.
pub open spec fn assembled(pieces: Map<u64, Vec<u8>>, n: nat) -> Seq<u8>
    decreases n,
{
    if n == 0 {
        Seq::empty()
    } else {
        assembled(pieces, (n - 1) as nat) + if pieces.contains_key((n - 1) as u64) {
            pieces[(n - 1) as u64]@
        } else {
            Seq::empty()
        }
    }
}

/// Every stored piece lies within the metadata and has the listed hash.
pub open spec fn pieces_valid(pieces: Map<u64, Vec<u8>>, hashes: Seq<String>) -> bool {
    forall|k: u64|
        #[trigger] pieces.contains_key(k) ==> k < hashes.len() && hex_lower(sha256_digest(pieces[k]@))
            == hashes[k as int]@
}

/// A prefix of `s` of at most `n` items.
pub open spec fn truncated(s: Seq<u8>, n: nat) -> Seq<u8> {
    if s.len() > n {
        s.subrange(0, n as int)
    } else {
        s
    }
}

/// The pieces below `n` that `m` holds are those of `data`, in order.
proof fn lemma_assembled_prefix(m: Map<u64, Vec<u8>>, data: Seq<u8>, n: nat)
    requires
        n <= crate::torrent::piece_count(data.len()),
        data.len() <= u64::MAX,
        forall|i: u64|
            i < crate::torrent::piece_count(data.len()) ==> #[trigger] m.contains_key(i) && m[i]@
                == crate::torrent::piece_spec(data, i as int),
    ensures
        assembled(m, n) == data.subrange(
            0,
            if n * 65536 <= data.len() {
                (n * 65536) as int
            } else {
                data.len() as int
            },
        ),
    decreases n,
{
    if n == 0 {
        assert(assembled(m, 0) =~= data.subrange(0, 0));
    } else {
        let k = (n - 1) as nat;
        lemma_assembled_prefix(m, data, k);
        let len = data.len();
        assert(k * 65536 < len) by (nonlinear_arith)
            requires
                k < ((len - 1) / 65536 + 1),
                len > 0,
        ;
        assert(m.contains_key(k as u64));
        assert(data.subrange(0, (k * 65536) as int) + crate::torrent::piece_spec(data, k as int) =~= data.subrange(
            0,
            if n * 65536 <= len {
                (n * 65536) as int
            } else {
                len as int
            },
        ));
    }
}

/// Law: a download that holds every piece of a file, as the file was split,
/// reassembles to exactly that file.
pub proof fn lemma_pieces_reassemble(m: Map<u64, Vec<u8>>, data: Seq<u8>)
    requires
        data.len() <= u64::MAX,
        forall|i: u64|
            i < crate::torrent::piece_count(data.len()) ==> #[trigger] m.contains_key(i) && m[i]@
                == crate::torrent::piece_spec(data, i as int),
    ensures
        truncated(assembled(m, crate::torrent::piece_count(data.len())), data.len()) == data,
{
    let len = data.len();
    let n = crate::torrent::piece_count(len);
    lemma_assembled_prefix(m, data, n);
    if len > 0 {
        assert(n * 65536 >= len) by (nonlinear_arith)
            requires
                n == (len - 1) / 65536 + 1,
                len > 0,
        ;
    }
    assert(data.subrange(0, len as int) =~= data);
}

impl DownloadState {
    /// The order list holds exactly the stored indices, each once.
    pub open spec fn wf(&self) -> bool {
        &&& self.piece_order@.no_duplicates()
        &&& forall|k: u64| self.pieces@.contains_key(k) <==> #[trigger] self.piece_order@.contains(k)
    }

    /// A download of `filename` into `target_path`, with nothing received.
    pub fn new(info_hash: String, filename: String, target_path: String, peer_id: Option<String>) -> (r:
        DownloadState)
        ensures
            r.wf(),
            r.info_hash == info_hash,
            r.filename == filename,
            r.target_path == target_path,
            r.metadata is None,
            r.pieces@ == Map::<u64, Vec<u8>>::empty(),
            r.total_pieces == 0,
            r.downloaded_pieces == 0,
            r.peer_id == peer_id,
    {
        DownloadState {
            info_hash,
            filename,
            target_path,
            metadata: None,
            pieces: HashMap::new(),
            piece_order: Vec::new(),
            total_pieces: 0,
            downloaded_pieces: 0,
            peer_id,
        }
    }

    /// Takes in the file's metadata: the number of pieces becomes known.
    pub fn receive_metadata(&mut self, metadata: TorrentMetadata)
        requires
            old(self).wf(),
        ensures
            final(self).wf(),
            final(self).metadata == Some(metadata),
            final(self).total_pieces == metadata.pieces@.len(),
            final(self).pieces@ == old(self).pieces@,
            final(self).downloaded_pieces == old(self).downloaded_pieces,
            final(self).info_hash == old(self).info_hash,
            final(self).filename == old(self).filename,
            final(self).target_path == old(self).target_path,
            final(self).peer_id == old(self).peer_id,
    {
        self.total_pieces = metadata.pieces.len();
        self.metadata = Some(metadata);
    }

    /// Takes in piece `piece_index`: with metadata, a piece beyond it or
    /// with another hash is discarded; otherwise it is stored (replacing one
    /// of the same index) and counted.
    pub fn receive_piece(&mut self, piece_index: u64, data: Vec<u8>) -> (r: PieceReceipt)
        requires
            old(self).wf(),
            old(self).downloaded_pieces < usize::MAX,
        ensures
            final(self).wf(),
            final(self).metadata == old(self).metadata,
            final(self).total_pieces == old(self).total_pieces,
            final(self).info_hash == old(self).info_hash,
            final(self).filename == old(self).filename,
            final(self).target_path == old(self).target_path,
            final(self).peer_id == old(self).peer_id,
            r == match old(self).metadata {
                Some(m) => if piece_index >= m.pieces@.len() {
                    PieceReceipt::InvalidIndex
                } else if hex_lower(sha256_digest(data@)) != m.pieces@[piece_index as int]@ {
                    PieceReceipt::HashMismatch
                } else {
                    PieceReceipt::Stored
                },
                None => PieceReceipt::Stored,
            },
            r == PieceReceipt::Stored ==> final(self).pieces@ == old(self).pieces@.insert(piece_index, data)
                && final(self).downloaded_pieces == old(self).downloaded_pieces + 1,
            r != PieceReceipt::Stored ==> final(self).pieces@ == old(self).pieces@
                && final(self).downloaded_pieces == old(self).downloaded_pieces,
    {
        match &self.metadata {
            Some(m) => {
                if piece_index >= m.pieces.len() as u64 {
                    return PieceReceipt::InvalidIndex;
                }
                let computed = sha256_hex(data.as_slice());
                if !crate::text::str_eq(computed.as_str(), m.pieces[piece_index as usize].as_str()) {
                    return PieceReceipt::HashMismatch;
                }
            },
            None => {},
        }
        let known = self.pieces.contains_key(&piece_index);
        if !known {
            self.piece_order.push(piece_index);
        }
        self.pieces.insert(piece_index, data);
        self.downloaded_pieces = self.downloaded_pieces + 1;
        proof {
            assert forall|k: u64| self.pieces@.contains_key(k) <==> #[trigger] self.piece_order@.contains(k) by {
                if !known {
                    assert(self.piece_order@ =~= old(self).piece_order@.push(piece_index));
                    if k == piece_index {
                        assert(self.piece_order@[self.piece_order@.len() - 1] == k);
                    }
                    if self.piece_order@.contains(k) && k != piece_index {
                        let i = choose|i: int| 0 <= i < self.piece_order@.len() && self.piece_order@[i] == k;
                        assert(old(self).piece_order@[i] == k);
                    }
                    if old(self).piece_order@.contains(k) {
                        let i = choose|i: int| 0 <= i < old(self).piece_order@.len() && old(self).piece_order@[i] == k;
                        assert(self.piece_order@[i] == k);
                    }
                }
            }
            if !known {
                assert(!old(self).piece_order@.contains(piece_index));
            }
        }
        PieceReceipt::Stored
    }

    fn all_pieces_valid(&self, hashes: &Vec<String>) -> (r: bool)
        requires
            self.wf(),
        ensures
            r == pieces_valid(self.pieces@, hashes@),
    {
        let mut i: usize = 0;
        while i < self.piece_order.len()
            invariant
                self.wf(),
                i <= self.piece_order@.len(),
                forall|j: int|
                    0 <= j < i ==> {
                        let k = #[trigger] self.piece_order@[j];
                        k < hashes@.len() && hex_lower(sha256_digest(self.pieces@[k]@)) == hashes@[k as int]@
                    },
            decreases self.piece_order.len() - i,
        {
            let k = self.piece_order[i];
            proof {
                assert(self.piece_order@.contains(k));
            }
            let piece = self.pieces.get(&k).unwrap();
            if k >= hashes.len() as u64 {
                assert(!pieces_valid(self.pieces@, hashes@));
                return false;
            }
            let h = sha256_hex(piece.as_slice());
            if !crate::text::str_eq(h.as_str(), hashes[k as usize].as_str()) {
                assert(!pieces_valid(self.pieces@, hashes@));
                return false;
            }
            i = i + 1;
        }
        proof {
            assert forall|k: u64| #[trigger] self.pieces@.contains_key(k) implies k < hashes@.len() && hex_lower(
                sha256_digest(self.pieces@[k]@),
            ) == hashes@[k as int]@ by {
                assert(self.piece_order@.contains(k));
                let j = choose|j: int| 0 <= j < self.piece_order@.len() && self.piece_order@[j] == k;
            }
        }
        true
    }

    /// Whether the download is complete, and then its file: with metadata
    /// and at least as many pieces received as it lists, every stored piece
    /// is checked against its hash (an error if one fails), and the pieces,
    /// in index order, are joined and cut to the file's size.
    pub fn assemble(&self) -> (r: Result<Option<Vec<u8>>, String>)
        requires
            self.wf(),
        ensures
            match self.metadata {
                Some(m) => if self.downloaded_pieces >= m.pieces@.len() {
                    if pieces_valid(self.pieces@, m.pieces@) {
                        r matches Ok(Some(data)) && data@ == truncated(
                            assembled(self.pieces@, m.pieces@.len()),
                            m.file_size as nat,
                        )
                    } else {
                        r matches Err(e) && e@
                            == "Piece verification failed during assembly - corrupted pieces detected"@
                    }
                } else {
                    r matches Ok(None)
                },
                None => r matches Ok(None),
            },
    {
        let m = match &self.metadata {
            Some(m) => m,
            None => {
                return Ok(None);
            },
        };
        if self.downloaded_pieces < m.pieces.len() {
            return Ok(None);
        }
        if !self.all_pieces_valid(&m.pieces) {
            return Err(String::from_str("Piece verification failed during assembly - corrupted pieces detected"));
        }
        let n = m.pieces.len();
        let mut out: Vec<u8> = Vec::new();
        let mut idx: usize = 0;
        while idx < n
            invariant
                idx <= n,
                out@ == assembled(self.pieces@, idx as nat),
            decreases n - idx,
        {
            let key = idx as u64;
            match self.pieces.get(&key) {
                Some(d) => {
                    let mut j: usize = 0;
                    let ghost before = out@;
                    while j < d.len()
                        invariant
                            j <= d@.len(),
                            out@ == before + d@.subrange(0, j as int),
                        decreases d.len() - j,
                    {
                        out.push(d[j]);
                        j = j + 1;
                        assert(out@ =~= before + d@.subrange(0, j as int));
                    }
                    assert(d@.subrange(0, d@.len() as int) =~= d@);
                },
                None => {
                    assert(out@ =~= assembled(self.pieces@, idx as nat) + Seq::<u8>::empty());
                },
            }
            idx = idx + 1;
        }
        if (out.len() as u128) > (m.file_size as u128) {
            out.truncate(m.file_size as usize);
        }
        Ok(Some(out))
    }
}

/// The state of a shard node.
pub struct ShardNodeState {
    pub peer_id: String,
    pub shard_id: u32,
    pub announcement: ShardAnnouncement,
    /// Whether the announcement is to be made again at once
    pub needs_reannounce: bool,
    pub discovery: KademliaShardDiscovery,
    pub listen_addrs: Vec<String>,
    pub active_requests: u32,
    pub total_requests: u64,
    pub successful_requests: u64,
    /// Seeded files, by info hash
    pub torrent_files: Vec<(String, TorrentFileInfo)>,
    pub shards_dir: String,
    /// Loaded shard files, by shard id
    pub loaded_shards: HashMap<u32, String>,
    /// Active downloads, by info hash
    pub active_downloads: Vec<(String, DownloadState)>,
    /// Whether all required shards are ready for inference
    pub swarm_ready: bool,
}

/// The downloads, each well formed.
pub open spec fn downloads_wf(d: Seq<(String, DownloadState)>) -> bool {
    &&& unique_keys(d)
    &&& forall|i: int| 0 <= i < d.len() ==> (#[trigger] d[i]).1.wf()
}

/// The status line of a shard node.
pub open spec fn status_string_spec(s: ShardNodeState) -> Seq<char> {
    "Shard "@ + decimal(s.shard_id as nat) + " (layers "@ + decimal(s.announcement.layer_start as nat) + "-"@
        + decimal(s.announcement.layer_end as nat) + ") | Requests: "@ + decimal(s.active_requests as nat)
        + "/"@ + decimal(s.announcement.capabilities.max_concurrent as nat) + " active, "@ + decimal(
        s.successful_requests as nat,
    ) + "/"@ + decimal(s.total_requests as nat) + " total"@
}

impl ShardNodeState {
    /// The discovery is well formed with a nonzero expected count, seeded
    /// files and downloads are each under their own key once.
    pub open spec fn wf(&self) -> bool {
        &&& self.discovery.wf()
        &&& self.discovery.spec_expected() != Some(0u32)
        &&& unique_keys(self.torrent_files@)
        &&& downloads_wf(self.active_downloads@)
    }

    /// The seeded files, by info hash.
    pub open spec fn seeded(&self) -> Map<Seq<char>, TorrentFileInfo> {
        entries_map(self.torrent_files@)
    }

    /// The downloads, by info hash.
    pub open spec fn downloads(&self) -> Map<Seq<char>, DownloadState> {
        entries_map(self.active_downloads@)
    }

    /// The path of a shard's file in the shards directory.
    pub open spec fn shard_path_spec(&self, shard_id: u32) -> Seq<char> {
        join_path_spec(self.shards_dir@, shard_file_name_spec(shard_id))
    }

    /// A node of peer `peer_id` serving `shard_id` of `total_shards` (of a
    /// model of `total_layers` layers), announced with `capabilities` at
    /// time `now`, in cluster `cluster`, with its shard files in
    /// `shards_dir`; nothing seeded, loaded or downloading yet.
    pub fn new(
        peer_id: &str,
        shard_id: u32,
        total_shards: u32,
        total_layers: u32,
        model_name: &str,
        cluster: &str,
        shards_dir: &str,
        capabilities: ShardCapabilities,
        now: u64,
    ) -> (r: ShardNodeState)
        requires
            layout_fits(shard_id, total_shards, total_layers),
        ensures
            r.wf(),
            r.peer_id@ == peer_id@,
            r.shard_id == shard_id,
            r.announcement.peer_id@ == peer_id@,
            r.announcement.shard_id == shard_id,
            r.announcement.multiaddr@ == ""@,
            r.announcement.model_name@ == model_name@,
            r.announcement.total_shards == total_shards,
            r.announcement.capabilities == capabilities,
            r.announcement.timestamp == now,
            !r.needs_reannounce,
            r.discovery.entries().len() == 0,
            r.discovery.spec_expected() == Some(total_shards),
            r.discovery.spec_cluster_name() == cluster@,
            r.listen_addrs@.len() == 0,
            r.active_requests == 0,
            r.total_requests == 0,
            r.successful_requests == 0,
            r.torrent_files@.len() == 0,
            r.shards_dir@ == shards_dir@,
            r.loaded_shards@ == Map::<u32, String>::empty(),
            r.active_downloads@.len() == 0,
            !r.swarm_ready,
    {
        let announcement = ShardAnnouncement::new(
            peer_id,
            shard_id,
            total_shards,
            total_layers,
            "",
            model_name,
            capabilities,
            now,
        );
        let discovery = KademliaShardDiscovery::with_expected_shards(cluster, total_shards);
        ShardNodeState {
            peer_id: String::from_str(peer_id),
            shard_id,
            announcement,
            needs_reannounce: false,
            discovery,
            listen_addrs: Vec::new(),
            active_requests: 0,
            total_requests: 0,
            successful_requests: 0,
            torrent_files: Vec::new(),
            shards_dir: String::from_str(shards_dir),
            loaded_shards: HashMap::new(),
            active_downloads: Vec::new(),
            swarm_ready: false,
        }
    }

    /// The path of a shard's file in the shards directory.
    pub fn shard_path(&self, shard_id: u32) -> (r: String)
        ensures
            r@ == self.shard_path_spec(shard_id),
    {
        let name = shard_file_name(shard_id);
        join_path(self.shards_dir.as_str(), name.as_str())
    }

    /// The path of a file of the shards directory.
    pub fn shard_file_path(&self, filename: &str) -> (r: String)
        ensures
            r@ == join_path_spec(self.shards_dir@, filename@),
    {
        join_path(self.shards_dir.as_str(), filename)
    }

    /// The seeded file with info hash `info_hash`, if there is one.
    pub fn seeded_file(&self, info_hash: &str) -> (r: Option<TorrentFileInfo>)
        requires
            self.wf(),
        ensures
            r is Some <==> self.seeded().dom().contains(info_hash@),
            r matches Some(f) ==> f.info_hash@ == self.seeded()[info_hash@].info_hash@ && f.filename@
                == self.seeded()[info_hash@].filename@ && f.size == self.seeded()[info_hash@].size,
    {
        match find_key(&self.torrent_files, info_hash) {
            Some(i) => {
                proof {
                    lemma_entries_value(self.torrent_files@, i as int);
                }
                let f = &self.torrent_files[i].1;
                Some(TorrentFileInfo { info_hash: f.info_hash.clone(), filename: f.filename.clone(), size: f.size })
            },
            None => None,
        }
    }

    /// Seeds a file (replacing one of the same info hash).
    pub fn seed_file(&mut self, info: TorrentFileInfo)
        requires
            old(self).wf(),
        ensures
            final(self).wf(),
            final(self).seeded() == old(self).seeded().insert(info.info_hash@, info),
            *final(self) == (ShardNodeState { torrent_files: final(self).torrent_files, ..*old(self) }),
    {
        let key = info.info_hash.clone();
        match find_key(&self.torrent_files, key.as_str()) {
            Some(i) => {
                proof {
                    lemma_entries_update(self.torrent_files@, i as int, (key, info));
                }
                self.torrent_files.set(i, (key, info));
            },
            None => {
                proof {
                    lemma_entries_push(self.torrent_files@, (key, info));
                }
                self.torrent_files.push((key, info));
            },
        }
    }

    /// Seeds a file unless one of the same info hash is seeded; answers
    /// whether it was added.
    pub fn seed_file_if_new(&mut self, info: TorrentFileInfo) -> (r: bool)
        requires
            old(self).wf(),
        ensures
            final(self).wf(),
            r == !old(self).seeded().dom().contains(info.info_hash@),
            final(self).seeded() == if r {
                old(self).seeded().insert(info.info_hash@, info)
            } else {
                old(self).seeded()
            },
            *final(self) == (ShardNodeState { torrent_files: final(self).torrent_files, ..*old(self) }),
    {
        match find_key(&self.torrent_files, info.info_hash.as_str()) {
            Some(i) => {
                proof {
                    lemma_entries_value(self.torrent_files@, i as int);
                }
                false
            },
            None => {
                self.seed_file(info);
                true
            },
        }
    }

    /// The seeded files.
    pub fn get_torrent_file_list(&self) -> (r: Vec<TorrentFileInfo>)
        requires
            self.wf(),
        ensures
            r@.len() == self.torrent_files@.len(),
            forall|i: int|
                0 <= i < r@.len() ==> {
                    let e = #[trigger] r@[i];
                    let f = self.torrent_files@[i].1;
                    e.info_hash@ == f.info_hash@ && e.filename@ == f.filename@ && e.size == f.size
                },
    {
        let mut out: Vec<TorrentFileInfo> = Vec::new();
        let mut i: usize = 0;
        while i < self.torrent_files.len()
            invariant
                i <= self.torrent_files@.len(),
                out@.len() == i,
                forall|j: int|
                    0 <= j < i ==> {
                        let e = #[trigger] out@[j];
                        let f = self.torrent_files@[j].1;
                        e.info_hash@ == f.info_hash@ && e.filename@ == f.filename@ && e.size == f.size
                    },
            decreases self.torrent_files.len() - i,
        {
            let f = &self.torrent_files[i].1;
            out.push(
                TorrentFileInfo { info_hash: f.info_hash.clone(), filename: f.filename.clone(), size: f.size },
            );
            i = i + 1;
        }
        out
    }

    /// Whether a shard is loaded.
    pub fn is_shard_loaded(&self, shard_id: u32) -> (r: bool)
        ensures
            r == self.loaded_shards@.contains_key(shard_id),
    {
        self.loaded_shards.contains_key(&shard_id)
    }

    /// The path of a loaded shard's file.
    pub fn query_completed_tensor_file(&self, shard_id: u32) -> (r: Option<String>)
        ensures
            match r {
                Some(p) => self.loaded_shards@.contains_key(shard_id) && p@ == self.loaded_shards@[shard_id]@,
                None => !self.loaded_shards@.contains_key(shard_id),
            },
    {
        match self.loaded_shards.get(&shard_id) {
            Some(p) => Some(p.clone()),
            None => None,
        }
    }

    /// Loads a shard's file: one already loaded gives its path; otherwise
    /// the file in the shards directory is loaded if it exists (as
    /// `file_exists` says), else it is an error.
    pub fn load_shard_file(&mut self, shard_id: u32, file_exists: bool) -> (r: Result<String, String>)
        ensures
            if old(self).loaded_shards@.contains_key(shard_id) {
                &&& r matches Ok(p) && p@ == old(self).loaded_shards@[shard_id]@
                &&& *final(self) == *old(self)
            } else if file_exists {
                &&& r matches Ok(p) && p@ == old(self).shard_path_spec(shard_id)
                &&& final(self).loaded_shards@.contains_key(shard_id)
                &&& final(self).loaded_shards@[shard_id]@ == old(self).shard_path_spec(shard_id)
                &&& forall|k: u32| k != shard_id ==> #[trigger] final(self).loaded_shards@.contains_key(k)
                    == old(self).loaded_shards@.contains_key(k) && (old(self).loaded_shards@.contains_key(k)
                    ==> final(self).loaded_shards@[k] == old(self).loaded_shards@[k])
                &&& *final(self) == (ShardNodeState { loaded_shards: final(self).loaded_shards, ..*old(self) })
            } else {
                &&& r matches Err(e) && e@ == "Shard file not found: "@ + old(self).shard_path_spec(shard_id)
                &&& *final(self) == *old(self)
            },
    {
        match self.loaded_shards.get(&shard_id) {
            Some(p) => {
                return Ok(p.clone());
            },
            None => {},
        }
        let path = self.shard_path(shard_id);
        if file_exists {
            self.loaded_shards.insert(shard_id, path.clone());
            Ok(path)
        } else {
            let mut e = String::from_str("Shard file not found: ");
            e.append(path.as_str());
            Err(e)
        }
    }

    /// The info hash of a seeded file named after the shard, if any.
    pub fn get_shard_info_hash(&self, shard_id: u32) -> (r: Option<String>)
        requires
            self.wf(),
        ensures
            match r {
                Some(h) => exists|i: int|
                    0 <= i < self.torrent_files@.len() && (#[trigger] self.torrent_files@[i]).1.filename@
                        == shard_file_name_spec(shard_id) && self.torrent_files@[i].1.info_hash@ == h@,
                None => forall|i: int|
                    0 <= i < self.torrent_files@.len() ==> (#[trigger] self.torrent_files@[i]).1.filename@
                        != shard_file_name_spec(shard_id),
            },
    {
        let name = shard_file_name(shard_id);
        let mut i: usize = 0;
        while i < self.torrent_files.len()
            invariant
                i <= self.torrent_files@.len(),
                name@ == shard_file_name_spec(shard_id),
                forall|j: int| 0 <= j < i ==> (#[trigger] self.torrent_files@[j]).1.filename@ != name@,
            decreases self.torrent_files.len() - i,
        {
            if crate::text::str_eq(self.torrent_files[i].1.filename.as_str(), name.as_str()) {
                return Some(self.torrent_files[i].1.info_hash.clone());
            }
            i = i + 1;
        }
        None
    }

    /// Starts downloading a shard's file from `peer_id`, under the info hash
    /// of the seeded file of that name, else the fallback hash; a download
    /// already under way is kept. Answers the info hash.
    pub fn start_download(&mut self, shard_id: u32, peer_id: &str) -> (r: Result<String, String>)
        requires
            old(self).wf(),
        ensures
            final(self).wf(),
            r matches Ok(h) && final(self).downloads().dom().contains(h@) && (old(self).downloads().dom().contains(h@)
                ==> final(self).downloads() == old(self).downloads()) && (!old(self).downloads().dom().contains(h@) ==> {
                let d = final(self).downloads()[h@];
                &&& final(self).downloads() == old(self).downloads().insert(h@, d)
                &&& d.info_hash@ == h@
                &&& d.filename@ == shard_file_name_spec(shard_id)
                &&& d.target_path@ == old(self).shard_path_spec(shard_id)
                &&& d.metadata is None
                &&& d.pieces@ == Map::<u64, Vec<u8>>::empty()
                &&& d.total_pieces == 0
                &&& d.downloaded_pieces == 0
                &&& opt_string_view(d.peer_id) == Some(peer_id@)
            }),
            (exists|i: int|
                0 <= i < old(self).torrent_files@.len() && (#[trigger] old(self).torrent_files@[i]).1.filename@
                    == shard_file_name_spec(shard_id)) || (r matches Ok(h) && h@ == fallback_info_hash_spec(shard_id)),
            *final(self) == (ShardNodeState { active_downloads: final(self).active_downloads, ..*old(self) }),
    {
        let hash = match self.get_shard_info_hash(shard_id) {
            Some(h) => h,
            None => find_shard_info_hash(shard_id),
        };
        match find_key(&self.active_downloads, hash.as_str()) {
            Some(i) => {
                proof {
                    lemma_entries_value(self.active_downloads@, i as int);
                }
                return Ok(hash);
            },
            None => {},
        }
        let download = DownloadState::new(
            hash.clone(),
            shard_file_name(shard_id),
            self.shard_path(shard_id),
            Some(String::from_str(peer_id)),
        );
        let key = hash.clone();
        proof {
            lemma_entries_push(self.active_downloads@, (key, download));
            lemma_entries_value(self.active_downloads@.push((key, download)), self.active_downloads@.len() as int);
        }
        self.active_downloads.push((key, download));
        Ok(hash)
    }

    /// Takes in the metadata of a download: answers, when a download waits
    /// for it and knows its peer, the peer to request every piece from and
    /// the number of pieces.
    pub fn receive_metadata(&mut self, metadata: TorrentMetadata) -> (r: Option<(String, usize)>)
        requires
            old(self).wf(),
        ensures
            final(self).wf(),
            *final(self) == (ShardNodeState { active_downloads: final(self).active_downloads, ..*old(self) }),
            final(self).downloads().dom() == old(self).downloads().dom(),
            ({
                let h = metadata.info_hash@;
                if old(self).downloads().dom().contains(h) {
                    let o = old(self).downloads()[h];
                    let n = final(self).downloads()[h];
                    &&& final(self).downloads() == old(self).downloads().insert(h, n)
                    &&& n.metadata == Some(metadata)
                    &&& n.total_pieces == metadata.pieces@.len()
                    &&& n.pieces@ == o.pieces@
                    &&& n.downloaded_pieces == o.downloaded_pieces
                    &&& n.filename == o.filename
                    &&& n.target_path == o.target_path
                    &&& n.peer_id == o.peer_id
                    &&& match o.peer_id {
                        Some(p) => r matches Some(req) && req.0@ == p@ && req.1 == metadata.pieces@.len(),
                        None => r is None,
                    }
                } else {
                    &&& final(self).downloads() == old(self).downloads()
                    &&& r is None
                }
            }),
    {
        let ghost old_e = self.active_downloads@;
        let key = metadata.info_hash.clone();
        match find_key(&self.active_downloads, key.as_str()) {
            Some(i) => {
                proof {
                    lemma_entries_value(old_e, i as int);
                }
                let (k, mut d) = self.active_downloads.remove(i);
                let count = metadata.pieces.len();
                d.receive_metadata(metadata);
                let req = match &d.peer_id {
                    Some(p) => Some((p.clone(), count)),
                    None => None,
                };
                proof {
                    assert(old_e[i as int].0 == k);
                    lemma_entries_update(old_e, i as int, (k, d));
                    assert(self.active_downloads@.insert(i as int, (k, d)) =~= old_e.update(i as int, (k, d)));
                }
                self.active_downloads.insert(i, (k, d));
                proof {
                    let u = old_e.update(i as int, (k, d));
                    assert forall|j: int| 0 <= j < u.len() implies (#[trigger] u[j]).1.wf() by {
                        if j != i {
                            assert(u[j] == old_e[j]);
                        }
                    }
                    assert(entries_map(old_e).dom().contains(k@));
                    assert(entries_map(u).dom() =~= entries_map(old_e).dom());
                }
                req
            },
            None => None,
        }
    }

    /// Takes in a piece of the download with info hash `info_hash` (see
    /// `DownloadState::receive_piece`); answers what became of it and, for a
    /// known download, its received and total piece counts.
    pub fn receive_piece(&mut self, info_hash: &str, piece_index: u64, data: Vec<u8>) -> (r: (
        PieceReceipt,
        usize,
        usize,
    ))
        requires
            old(self).wf(),
            old(self).downloads().dom().contains(info_hash@) ==> old(self).downloads()[info_hash@].downloaded_pieces
                < usize::MAX,
        ensures
            final(self).wf(),
            *final(self) == (ShardNodeState { active_downloads: final(self).active_downloads, ..*old(self) }),
            final(self).downloads().dom() == old(self).downloads().dom(),
            if old(self).downloads().dom().contains(info_hash@) {
                let o = old(self).downloads()[info_hash@];
                let n = final(self).downloads()[info_hash@];
                &&& final(self).downloads() == old(self).downloads().insert(info_hash@, n)
                &&& r.0 == match o.metadata {
                    Some(m) => if piece_index >= m.pieces@.len() {
                        PieceReceipt::InvalidIndex
                    } else if hex_lower(sha256_digest(data@)) != m.pieces@[piece_index as int]@ {
                        PieceReceipt::HashMismatch
                    } else {
                        PieceReceipt::Stored
                    },
                    None => PieceReceipt::Stored,
                }
                &&& r.0 == PieceReceipt::Stored ==> n.pieces@ == o.pieces@.insert(piece_index, data)
                    && n.downloaded_pieces == o.downloaded_pieces + 1
                &&& r.0 != PieceReceipt::Stored ==> n.pieces@ == o.pieces@ && n.downloaded_pieces
                    == o.downloaded_pieces
                &&& n == DownloadState { pieces: n.pieces, piece_order: n.piece_order, downloaded_pieces: n.downloaded_pieces, ..o }
                &&& r.1 == n.downloaded_pieces
                &&& r.2 == n.total_pieces
            } else {
                &&& r == (PieceReceipt::UnknownDownload, 0usize, 0usize)
                &&& final(self).downloads() == old(self).downloads()
            },
    {
        let ghost old_e = self.active_downloads@;
        match find_key(&self.active_downloads, info_hash) {
            Some(i) => {
                proof {
                    lemma_entries_value(old_e, i as int);
                }
                let (k, mut d) = self.active_downloads.remove(i);
                let receipt = d.receive_piece(piece_index, data);
                let counts = (d.downloaded_pieces, d.total_pieces);
                proof {
                    assert(old_e[i as int].0 == k);
                    lemma_entries_update(old_e, i as int, (k, d));
                    assert(self.active_downloads@.insert(i as int, (k, d)) =~= old_e.update(i as int, (k, d)));
                }
                self.active_downloads.insert(i, (k, d));
                proof {
                    let u = old_e.update(i as int, (k, d));
                    assert forall|j: int| 0 <= j < u.len() implies (#[trigger] u[j]).1.wf() by {
                        if j != i {
                            assert(u[j] == old_e[j]);
                        }
                    }
                    assert(entries_map(old_e).dom().contains(k@));
                    assert(entries_map(u).dom() =~= entries_map(old_e).dom());
                }
                (receipt, counts.0, counts.1)
            },
            None => (PieceReceipt::UnknownDownload, 0, 0),
        }
    }

    /// Whether the download with info hash `info_hash` is complete, and then
    /// the path to write and the file's bytes (see
    /// `DownloadState::assemble`); an error for an unknown download.
    pub fn check_download_complete(&self, info_hash: &str) -> (r: Result<Option<(String, Vec<u8>)>, String>)
        requires
            self.wf(),
        ensures
            if self.downloads().dom().contains(info_hash@) {
                let d = self.downloads()[info_hash@];
                match d.metadata {
                    Some(m) => if d.downloaded_pieces >= m.pieces@.len() {
                        if pieces_valid(d.pieces@, m.pieces@) {
                            r matches Ok(Some(f)) && f.0@ == d.target_path@ && f.1@ == truncated(
                                assembled(d.pieces@, m.pieces@.len()),
                                m.file_size as nat,
                            )
                        } else {
                            r matches Err(e) && e@
                                == "Piece verification failed during assembly - corrupted pieces detected"@
                        }
                    } else {
                        r matches Ok(None)
                    },
                    None => r matches Ok(None),
                }
            } else {
                r matches Err(e) && e@ == "Download not found: "@ + info_hash@
            },
    {
        match find_key(&self.active_downloads, info_hash) {
            Some(i) => {
                proof {
                    lemma_entries_value(self.active_downloads@, i as int);
                }
                let d = &self.active_downloads[i].1;
                match d.assemble() {
                    Ok(Some(data)) => Ok(Some((d.target_path.clone(), data))),
                    Ok(None) => Ok(None),
                    Err(e) => Err(e),
                }
            },
            None => {
                let mut e = String::from_str("Download not found: ");
                e.append(info_hash);
                Err(e)
            },
        }
    }

    /// Closes the download with info hash `info_hash` once its file is
    /// written: a file named `shard-{id}.gguf` is registered as that shard's
    /// loaded file. Answers the shard id, if the name gives one.
    pub fn finish_download(&mut self, info_hash: &str) -> (r: Option<u32>)
        requires
            old(self).wf(),
        ensures
            final(self).wf(),
            final(self).downloads() == old(self).downloads().remove(info_hash@),
            old(self).downloads().dom().contains(info_hash@) ==> {
                let d = old(self).downloads()[info_hash@];
                &&& r == shard_id_of_file_spec(d.filename@)
                &&& match r {
                    Some(id) => final(self).loaded_shards@ == old(self).loaded_shards@.insert(id, d.target_path),
                    None => final(self).loaded_shards@ == old(self).loaded_shards@,
                }
            },
            !old(self).downloads().dom().contains(info_hash@) ==> r is None && final(self).loaded_shards@
                == old(self).loaded_shards@,
            *final(self) == (ShardNodeState {
                active_downloads: final(self).active_downloads,
                loaded_shards: final(self).loaded_shards,
                ..*old(self)
            }),
    {
        let ghost old_e = self.active_downloads@;
        match find_key(&self.active_downloads, info_hash) {
            Some(i) => {
                proof {
                    lemma_entries_value(old_e, i as int);
                }
                let (k, d) = self.active_downloads.remove(i);
                proof {
                    lemma_entries_remove(old_e, i as int);
                }
                let id = shard_id_of_file(d.filename.as_str());
                match id {
                    Some(sid) => {
                        self.loaded_shards.insert(sid, d.target_path);
                    },
                    None => {},
                }
                id
            },
            None => {
                proof {
                    assert(entries_map(old_e).remove(info_hash@) =~= entries_map(old_e));
                }
                None
            },
        }
    }

    /// Records a listen address (once); the announcement carries the first.
    pub fn update_listen_addr(&mut self, addr: &str)
        ensures
            final(self).listen_addrs@.len() > 0,
            (exists|i: int| 0 <= i < old(self).listen_addrs@.len() && (#[trigger] old(self).listen_addrs@[i])@ == addr@)
                ==> final(self).listen_addrs@ == old(self).listen_addrs@,
            !(exists|i: int| 0 <= i < old(self).listen_addrs@.len() && (#[trigger] old(self).listen_addrs@[i])@ == addr@)
                ==> final(self).listen_addrs@.len() == old(self).listen_addrs@.len() + 1
                && final(self).listen_addrs@.drop_last() == old(self).listen_addrs@
                && final(self).listen_addrs@.last()@ == addr@,
            final(self).announcement == (ShardAnnouncement { multiaddr: final(self).announcement.multiaddr, ..old(self).announcement }),
            final(self).announcement.multiaddr@ == final(self).listen_addrs@[0]@,
            *final(self) == (ShardNodeState {
                listen_addrs: final(self).listen_addrs,
                announcement: final(self).announcement,
                ..*old(self)
            }),
    {
        let mut known = false;
        let mut i: usize = 0;
        while i < self.listen_addrs.len()
            invariant
                i <= self.listen_addrs@.len(),
                known <==> exists|j: int| 0 <= j < i && (#[trigger] self.listen_addrs@[j])@ == addr@,
            decreases self.listen_addrs.len() - i,
        {
            if crate::text::str_eq(self.listen_addrs[i].as_str(), addr) {
                known = true;
            }
            i = i + 1;
        }
        if !known {
            self.listen_addrs.push(String::from_str(addr));
            assert(self.listen_addrs@.drop_last() =~= old(self).listen_addrs@);
        }
        let first = self.listen_addrs[0].clone();
        self.announcement.multiaddr = first;
    }

    /// Takes in an inference request: one more active and one more in
    /// total, and the announcement's active count follows.
    pub fn handle_inference_request(&mut self)
        requires
            old(self).active_requests < u32::MAX,
            old(self).total_requests < u64::MAX,
        ensures
            final(self).active_requests == old(self).active_requests + 1,
            final(self).total_requests == old(self).total_requests + 1,
            final(self).announcement == (ShardAnnouncement {
                capabilities: ShardCapabilities {
                    active_requests: final(self).active_requests,
                    ..old(self).announcement.capabilities
                },
                ..old(self).announcement
            }),
            *final(self) == (ShardNodeState {
                active_requests: final(self).active_requests,
                total_requests: final(self).total_requests,
                announcement: final(self).announcement,
                ..*old(self)
            }),
    {
        self.active_requests = self.active_requests + 1;
        self.total_requests = self.total_requests + 1;
        self.announcement.capabilities.active_requests = self.active_requests;
    }

    /// Ends a request: one fewer active (not below zero), one more
    /// successful if it succeeded, and the announcement's active count
    /// follows.
    pub fn complete_request(&mut self, success: bool)
        requires
            success ==> old(self).successful_requests < u64::MAX,
        ensures
            final(self).active_requests == if old(self).active_requests > 0 {
                old(self).active_requests - 1
            } else {
                0
            },
            final(self).successful_requests == old(self).successful_requests + if success {
                1int
            } else {
                0
            },
            final(self).announcement == (ShardAnnouncement {
                capabilities: ShardCapabilities {
                    active_requests: final(self).active_requests,
                    ..old(self).announcement.capabilities
                },
                ..old(self).announcement
            }),
            *final(self) == (ShardNodeState {
                active_requests: final(self).active_requests,
                successful_requests: final(self).successful_requests,
                announcement: final(self).announcement,
                ..*old(self)
            }),
    {
        self.active_requests = self.active_requests.saturating_sub(1);
        if success {
            self.successful_requests = self.successful_requests + 1;
        }
        self.announcement.capabilities.active_requests = self.active_requests;
    }

    /// Marks the node's shard as loaded, to be announced again at once.
    pub fn mark_shard_loaded(&mut self)
        ensures
            final(self).announcement == (ShardAnnouncement {
                capabilities: ShardCapabilities { shard_loaded: true, ..old(self).announcement.capabilities },
                ..old(self).announcement
            }),
            final(self).needs_reannounce,
            *final(self) == (ShardNodeState {
                announcement: final(self).announcement,
                needs_reannounce: true,
                ..*old(self)
            }),
    {
        self.announcement.capabilities.shard_loaded = true;
        self.needs_reannounce = true;
    }

    /// The status line: `Shard {id} (layers {start}-{end}) | Requests:
    /// {active}/{max} active, {successful}/{total} total`.
    pub fn get_status_string(&self) -> (r: String)
        ensures
            r@ == status_string_spec(*self),
    {
        let mut s = String::from_str("Shard ");
        append_decimal(&mut s, self.shard_id as u128);
        s.append(" (layers ");
        append_decimal(&mut s, self.announcement.layer_start as u128);
        s.append("-");
        append_decimal(&mut s, self.announcement.layer_end as u128);
        s.append(") | Requests: ");
        append_decimal(&mut s, self.active_requests as u128);
        s.append("/");
        append_decimal(&mut s, self.announcement.capabilities.max_concurrent as u128);
        s.append(" active, ");
        append_decimal(&mut s, self.successful_requests as u128);
        s.append("/");
        append_decimal(&mut s, self.total_requests as u128);
        s.append(" total");
        s
    }

    /// The DHT record announcing this node's shard, holding the serialized
    /// announcement `value`.
    pub fn create_announcement_record(&self, value: Vec<u8>) -> (r: libp2p::kad::Record)
        ensures
            r == crate::kademlia_shard_discovery::records::kad_record(
                crate::dht_keys::shard_key_spec(self.discovery.spec_cluster_name(), self.shard_id),
                value@,
            ),
    {
        self.discovery.create_announcement_record(self.shard_id, value)
    }
}

/// Removing an entry of a list with unique keys removes its key from the
/// map the list denotes.
proof fn lemma_entries_remove(e: Seq<(String, DownloadState)>, i: int)
    requires
        downloads_wf(e),
        0 <= i < e.len(),
    ensures
        downloads_wf(e.remove(i)),
        entries_map(e.remove(i)) == entries_map(e).remove(e[i].0@),
{
    let u = e.remove(i);
    assert forall|a: int, b: int| 0 <= a < u.len() && 0 <= b < u.len() && a != b implies (#[trigger] u[a]).0@
        != (#[trigger] u[b]).0@ by {
        let a2 = if a < i { a } else { a + 1 };
        let b2 = if b < i { b } else { b + 1 };
        assert(u[a] == e[a2]);
        assert(u[b] == e[b2]);
    }
    assert forall|j: int| 0 <= j < u.len() implies (#[trigger] u[j]).1.wf() by {
        let j2 = if j < i { j } else { j + 1 };
        assert(u[j] == e[j2]);
    }
    let m1 = entries_map(u);
    let m2 = entries_map(e).remove(e[i].0@);
    assert forall|k: Seq<char>| m1.dom().contains(k) <==> m2.dom().contains(k) by {
        lemma_entries_dom(u, k);
        lemma_entries_dom(e, k);
        if exists|j: int| 0 <= j < u.len() && (#[trigger] u[j]).0@ == k {
            let j = choose|j: int| 0 <= j < u.len() && (#[trigger] u[j]).0@ == k;
            let j2 = if j < i { j } else { j + 1 };
            assert(u[j] == e[j2]);
        }
        if exists|j: int| 0 <= j < e.len() && (#[trigger] e[j]).0@ == k {
            let j = choose|j: int| 0 <= j < e.len() && (#[trigger] e[j]).0@ == k;
            if k != e[i].0@ {
                assert(j != i);
                let j2 = if j < i { j } else { j - 1 };
                assert(u[j2] == e[j]);
            }
        }
    }
    assert forall|k: Seq<char>| m1.dom().contains(k) implies m1[k] == m2[k] by {
        lemma_entries_dom(u, k);
        let j = choose|j: int| 0 <= j < u.len() && (#[trigger] u[j]).0@ == k;
        let j2 = if j < i { j } else { j + 1 };
        assert(u[j] == e[j2]);
        lemma_entries_value(u, j);
        lemma_entries_value(e, j2);
    }
    assert(m1 =~= m2);
}

pub open spec fn opt_string_view(o: Option<String>) -> Option<Seq<char>> {
    match o {
        Some(s) => Some(s@),
        None => None,
    }
}

} // verus!
