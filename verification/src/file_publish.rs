use vstd::prelude::*;

use crate::hash_model::OmniHash;

verus! {

/// The hashes of one level of a file's Merkle tree: the hashes of the blocks of
/// the level below. Level 0 is the file's own content.
#[derive(Debug)]
pub struct MerkleLayer {
    pub rank: u32,
    pub hashes: Vec<OmniHash>,
}

/// The views of a list of digests.
pub open spec fn hash_views(v: Seq<OmniHash>) -> Seq<(crate::hash_model::OmniHashAlgorithmType, Seq<u8>)> {
    v.map_values(|h: OmniHash| h@)
}

/// A block of a file that is being published, before the file is committed.
#[derive(Debug)]
pub struct PublishedUncommittedBlock {
    pub file_id: String,
    pub block_hash: OmniHash,
    pub rank: u32,
    pub index: u32,
}

/// A block of a published file.
#[derive(Debug)]
pub struct PublishedCommittedBlock {
    pub root_hash: OmniHash,
    pub block_hash: OmniHash,
    pub rank: u32,
    pub index: u32,
}

/// A published file. Times are the clock's readings, handed in by the caller.
#[derive(Debug)]
pub struct PublishedCommittedFile {
    pub root_hash: OmniHash,
    pub file_name: String,
    pub block_size: u32,
    pub attrs: Option<String>,
    pub created_at: i64,
    pub updated_at: i64,
}

/// What comes after one level of the Merkle tree has been cut into blocks and
/// hashed: the next level up, or the root when the level took a single block.
#[derive(Debug)]
pub enum MerkleStep {
    Next(MerkleLayer),
    Root(OmniHash),
}

/// The level of the tree that holds the hashes of the content's blocks.
pub fn first_layer(content_block_hashes: Vec<OmniHash>) -> (r: MerkleLayer)
    ensures
        r.rank == 1,
        r.hashes@ == content_block_hashes@,
{
    MerkleLayer { rank: 1, hashes: content_block_hashes }
}

/// Given the hashes of the blocks that the encoding of the level of rank
/// `rank` was cut into, the next step: when that level took one block, its hash
/// is the root; otherwise those hashes form the level of rank `rank + 1`.
pub fn next_step(rank: u32, block_hashes: Vec<OmniHash>) -> (r: MerkleStep)
    requires
        block_hashes@.len() == 1 || rank < u32::MAX,
    ensures
        block_hashes@.len() == 1 ==> (r matches MerkleStep::Root(h) && h@ == block_hashes@[0]@),
        block_hashes@.len() != 1 ==> (r matches MerkleStep::Next(l) && l.rank == rank + 1 && l.hashes@
            == block_hashes@),
{
    if block_hashes.len() == 1 {
        let mut hashes = block_hashes;
        let root = hashes.pop().unwrap();
        MerkleStep::Root(root)
    } else {
        MerkleStep::Next(MerkleLayer { rank: rank + 1, hashes: block_hashes })
    }
}

/// The levels of the tree shrink until one block is left: when each block of
/// the encoding of a level holds the hashes of at least two blocks below, a
/// level over `n >= 2` blocks is cut into fewer blocks than `n`, so the loop
/// from level to level ends.
pub proof fn lemma_levels_shrink(n: int, per_block: int)
    requires
        n >= 2,
        per_block >= 2,
    ensures
        0 < (n + per_block - 1) / per_block < n,
{
    assert((n + per_block - 1) / per_block >= 1) by (nonlinear_arith)
        requires
            n >= 2,
            per_block >= 2,
    ;
    assert((n + per_block - 1) / per_block < n) by (nonlinear_arith)
        requires
            n >= 2,
            per_block >= 2,
    ;
}

/// The records of the blocks of one level, in order: block `i` has index `i`.
pub fn uncommitted_blocks(file_id: &String, block_hashes: &Vec<OmniHash>, rank: u32) -> (r: Vec<
    PublishedUncommittedBlock,
>)
    requires
        block_hashes@.len() <= u32::MAX,
    ensures
        r@.len() == block_hashes@.len(),
        forall|i: int|
            0 <= i < r@.len() ==> {
                &&& #[trigger] r@[i].file_id@ == file_id@
                &&& r@[i].block_hash@ == block_hashes@[i]@
                &&& r@[i].rank == rank
                &&& r@[i].index == i
            },
{
    let mut r: Vec<PublishedUncommittedBlock> = Vec::new();
    let mut i: usize = 0;
    while i < block_hashes.len()
        invariant
            i <= block_hashes@.len(),
            block_hashes@.len() <= u32::MAX,
            r@.len() == i,
            forall|j: int|
                0 <= j < i ==> {
                    &&& #[trigger] r@[j].file_id@ == file_id@
                    &&& r@[j].block_hash@ == block_hashes@[j]@
                    &&& r@[j].rank == rank
                    &&& r@[j].index == j
                },
        decreases block_hashes@.len() - i,
    {
        r.push(
            PublishedUncommittedBlock {
                file_id: file_id.clone(),
                block_hash: block_hashes[i].duplicate(),
                rank,
                index: i as u32,
            },
        );
        i = i + 1;
    }
    r
}

/// What to do once a file's root hash is known, given the committed file with
/// that root hash, if there is one.
#[derive(Debug)]
pub enum CommitPlan {
    /// The same content is already published under the same name: mark the
    /// pending file completed and store nothing.
    AlreadyPublished,
    /// The same content is published under another name: drop the pending
    /// blocks and store the published file again under the new name.
    Rename(PublishedCommittedFile),
    /// New content: store the file and its blocks under the root hash.
    Publish(PublishedCommittedFile, Vec<PublishedCommittedBlock>),
}

/// Decides how a file whose tree has root `root_hash` is committed. `existing`
/// is the committed file with that root hash, if any; `blocks` are the file's
/// pending blocks of all levels; `now` is the clock's reading.
pub fn plan_commit(
    existing: Option<PublishedCommittedFile>,
    file_name: &String,
    block_size: u32,
    attrs: &Option<String>,
    root_hash: &OmniHash,
    blocks: &Vec<PublishedUncommittedBlock>,
    now: i64,
) -> (r: CommitPlan)
    ensures
        match existing {
            Some(c) => if c.file_name@ == file_name@ {
                r is AlreadyPublished
            } else {
                &&& r matches CommitPlan::Rename(f)
                &&& f.file_name@ == file_name@
                &&& f.root_hash@ == c.root_hash@
                &&& f.block_size == c.block_size
                &&& f.attrs == c.attrs
                &&& f.created_at == c.created_at
                &&& f.updated_at == c.updated_at
            },
            None => {
                &&& r matches CommitPlan::Publish(f, bs)
                &&& f.root_hash@ == root_hash@
                &&& f.file_name@ == file_name@
                &&& f.block_size == block_size
                &&& f.attrs == *attrs
                &&& f.created_at == now
                &&& f.updated_at == now
                &&& bs@.len() == blocks@.len()
                &&& forall|i: int|
                    0 <= i < bs@.len() ==> {
                        &&& #[trigger] bs@[i].root_hash@ == root_hash@
                        &&& bs@[i].block_hash@ == blocks@[i].block_hash@
                        &&& bs@[i].rank == blocks@[i].rank
                        &&& bs@[i].index == blocks@[i].index
                    }
            },
        },
{
    match existing {
        Some(c) => {
            if c.file_name == *file_name {
                CommitPlan::AlreadyPublished
            } else {
                CommitPlan::Rename(PublishedCommittedFile { file_name: file_name.clone(), ..c })
            }
        },
        None => {
            let file = PublishedCommittedFile {
                root_hash: root_hash.duplicate(),
                file_name: file_name.clone(),
                block_size,
                attrs: attrs.clone(),
                created_at: now,
                updated_at: now,
            };
            let mut committed: Vec<PublishedCommittedBlock> = Vec::new();
            let mut i: usize = 0;
            while i < blocks.len()
                invariant
                    i <= blocks@.len(),
                    committed@.len() == i,
                    forall|j: int|
                        0 <= j < i ==> {
                            &&& #[trigger] committed@[j].root_hash@ == root_hash@
                            &&& committed@[j].block_hash@ == blocks@[j].block_hash@
                            &&& committed@[j].rank == blocks@[j].rank
                            &&& committed@[j].index == blocks@[j].index
                        },
                decreases blocks@.len() - i,
            {
                committed.push(
                    PublishedCommittedBlock {
                        root_hash: root_hash.duplicate(),
                        block_hash: blocks[i].block_hash.duplicate(),
                        rank: blocks[i].rank,
                        index: blocks[i].index,
                    },
                );
                i = i + 1;
            }
            CommitPlan::Publish(file, committed)
        },
    }
}

} // verus!
