use vstd::prelude::*;

use crate::hash_model::OmniHash;

verus! {

/// Where the download of a subscribed file stands.
#[derive(Debug, Clone, Copy, PartialEq, Eq, Structural)]
pub enum SubscribedFileStatus {
    Downloading,
    Decoding,
    Completed,
    Failed,
}

/// A block that a subscribed file needs, at its level (`rank`) and position.
#[derive(Debug)]
pub struct SubscribedBlock {
    pub root_hash: OmniHash,
    pub block_hash: OmniHash,
    pub rank: u32,
    pub index: u32,
    pub downloaded: bool,
}

/// A subscribed file: the level of its tree being downloaded (`rank`) and how
/// many of that level's blocks are in. Times are the clock's readings.
#[derive(Debug)]
pub struct SubscribedFile {
    pub id: String,
    pub root_hash: OmniHash,
    pub file_path: String,
    pub rank: u32,
    pub block_count_downloaded: u32,
    pub block_count_total: u32,
    pub attrs: Option<String>,
    pub priority: i64,
    pub status: SubscribedFileStatus,
    pub failed_reason: Option<String>,
    pub created_at: i64,
    pub updated_at: i64,
}

/// The number of downloaded blocks in a list.
pub open spec fn downloaded_count(blocks: Seq<SubscribedBlock>) -> nat
    decreases blocks.len(),
{
    if blocks.len() == 0 {
        0
    } else {
        downloaded_count(blocks.drop_last()) + if blocks.last().downloaded {
            1nat
        } else {
            0nat
        }
    }
}

/// The number of downloaded blocks is the number of blocks marked downloaded,
/// wherever they stand in the list.
pub proof fn lemma_downloaded_count_counts_marked_blocks(blocks: Seq<SubscribedBlock>)
    ensures
        downloaded_count(blocks) == blocks.filter(|b: SubscribedBlock| b.downloaded).len(),
        downloaded_count(blocks) <= blocks.len(),
        (forall|i: int| 0 <= i < blocks.len() ==> (#[trigger] blocks[i]).downloaded) ==> downloaded_count(blocks)
            == blocks.len(),
        (forall|i: int| 0 <= i < blocks.len() ==> !(#[trigger] blocks[i]).downloaded) ==> downloaded_count(blocks)
            == 0,
    decreases blocks.len(),
{
    reveal(Seq::filter);
    if blocks.len() > 0 {
        let init = blocks.drop_last();
        lemma_downloaded_count_counts_marked_blocks(init);
        assert forall|i: int| 0 <= i < init.len() implies init[i] == blocks[i] by {}
        if forall|i: int| 0 <= i < blocks.len() ==> (#[trigger] blocks[i]).downloaded {
            assert forall|i: int| 0 <= i < init.len() implies (#[trigger] init[i]).downloaded by {
                assert(init[i] == blocks[i]);
            }
            assert(blocks.last() == blocks[blocks.len() - 1]);
        }
        if forall|i: int| 0 <= i < blocks.len() ==> !(#[trigger] blocks[i]).downloaded {
            assert forall|i: int| 0 <= i < init.len() implies !(#[trigger] init[i]).downloaded by {
                assert(init[i] == blocks[i]);
            }
            assert(blocks.last() == blocks[blocks.len() - 1]);
        }
    }
}

/// The same blocks, all marked downloaded, once their content is stored.
pub fn mark_downloaded(blocks: Vec<SubscribedBlock>) -> (r: Vec<SubscribedBlock>)
    ensures
        r@.len() == blocks@.len(),
        forall|i: int|
            #![trigger r@[i]]
            0 <= i < r@.len() ==> {
                &&& r@[i].root_hash@ == blocks@[i].root_hash@
                &&& r@[i].block_hash@ == blocks@[i].block_hash@
                &&& r@[i].rank == blocks@[i].rank
                &&& r@[i].index == blocks@[i].index
                &&& r@[i].downloaded
            },
{
    let mut r: Vec<SubscribedBlock> = Vec::new();
    let mut i: usize = 0;
    while i < blocks.len()
        invariant
            i <= blocks@.len(),
            r@.len() == i,
            forall|j: int|
                #![trigger r@[j]]
                0 <= j < i ==> {
                    &&& r@[j].root_hash@ == blocks@[j].root_hash@
                    &&& r@[j].block_hash@ == blocks@[j].block_hash@
                    &&& r@[j].rank == blocks@[j].rank
                    &&& r@[j].index == blocks@[j].index
                    &&& r@[j].downloaded
                },
        decreases blocks@.len() - i,
    {
        r.push(
            SubscribedBlock {
                root_hash: blocks[i].root_hash.duplicate(),
                block_hash: blocks[i].block_hash.duplicate(),
                rank: blocks[i].rank,
                index: blocks[i].index,
                downloaded: true,
            },
        );
        i = i + 1;
    }
    r
}

/// How a subscribed file stands after a block of it was stored, given the
/// blocks of the level being downloaded; `None` when the file is not being
/// downloaded, which leaves it as it is. The count of downloaded blocks is
/// taken from those blocks (the same hash may stand at several positions, so
/// it is not the number of blocks received), kept in 32 bits, and the file
/// moves on to decoding once that count reaches the level's total.
pub fn progress_after_write(file: SubscribedFile, current_blocks: &Vec<SubscribedBlock>, now: i64) -> (r: Option<
    SubscribedFile,
>)
    ensures
        file.status != SubscribedFileStatus::Downloading <==> r is None,
        r matches Some(f) ==> {
            &&& f.block_count_downloaded == downloaded_count(current_blocks@) as u32
            &&& f.status == (if (downloaded_count(current_blocks@) as u32) < file.block_count_total {
                SubscribedFileStatus::Downloading
            } else {
                SubscribedFileStatus::Decoding
            })
            &&& f.updated_at == now
            &&& f.id == file.id
            &&& f.root_hash@ == file.root_hash@
            &&& f.file_path == file.file_path
            &&& f.rank == file.rank
            &&& f.block_count_total == file.block_count_total
            &&& f.attrs == file.attrs
            &&& f.priority == file.priority
            &&& f.failed_reason == file.failed_reason
            &&& f.created_at == file.created_at
        },
{
    if file.status != SubscribedFileStatus::Downloading {
        return None;
    }
    let mut n: usize = 0;
    let mut i: usize = 0;
    while i < current_blocks.len()
        invariant
            i <= current_blocks@.len(),
            n == downloaded_count(current_blocks@.take(i as int)),
            n <= i,
        decreases current_blocks@.len() - i,
    {
        assert(current_blocks@.take(i + 1).drop_last() =~= current_blocks@.take(i as int));
        if current_blocks[i].downloaded {
            n = n + 1;
        }
        i = i + 1;
    }
    assert(current_blocks@.take(i as int) =~= current_blocks@);
    let count = n as u32;
    let status = if count < file.block_count_total {
        SubscribedFileStatus::Downloading
    } else {
        SubscribedFileStatus::Decoding
    };
    Some(SubscribedFile { block_count_downloaded: count, status, updated_at: now, ..file })
}

} // verus!
