use vstd::prelude::*;

verus! {

/// The blocks that a byte string is cut into: pieces of `size` bytes, the last
/// one shorter when the length is not a multiple of `size`. An empty string,
/// or a size of 0, gives no block.
pub open spec fn blocks_of(data: Seq<u8>, size: nat) -> Seq<Seq<u8>>
    decreases data.len(),
{
    if size == 0 || data.len() == 0 {
        seq![]
    } else if data.len() <= size {
        seq![data]
    } else {
        seq![data.take(size as int)] + blocks_of(data.skip(size as int), size)
    }
}

/// The byte string that a list of blocks joins into.
pub open spec fn joined(blocks: Seq<Seq<u8>>) -> Seq<u8>
    decreases blocks.len(),
{
    if blocks.len() == 0 {
        seq![]
    } else {
        blocks[0] + joined(blocks.drop_first())
    }
}

/// The views of a list of byte vectors.
pub open spec fn views_of(v: Seq<Vec<u8>>) -> Seq<Seq<u8>> {
    v.map_values(|b: Vec<u8>| b@)
}

/// Cutting into blocks loses and adds nothing: the blocks join back into the
/// data; each block is non-empty and at most `size` bytes long, and every block
/// but the last is exactly `size` bytes long.
pub proof fn lemma_blocks_of_join(data: Seq<u8>, size: nat)
    requires
        size > 0,
    ensures
        joined(blocks_of(data, size)) == data,
        forall|i: int|
            0 <= i < blocks_of(data, size).len() ==> 0 < #[trigger] blocks_of(data, size)[i].len() <= size,
        forall|i: int|
            0 <= i < blocks_of(data, size).len() - 1 ==> #[trigger] blocks_of(data, size)[i].len() == size,
        blocks_of(data, size).len() == (data.len() + size - 1) / (size as int),
    decreases data.len(),
{
    let b = blocks_of(data, size);
    if data.len() == 0 {
        assert(joined(b) =~= data);
        assert((size - 1) / (size as int) == 0) by (nonlinear_arith)
            requires
                size > 0,
        ;
    } else if data.len() <= size {
        assert(b.drop_first() =~= seq![]);
        assert(joined(b.drop_first()) =~= seq![]);
        assert(b[0] == data);
        assert(joined(b) =~= data);
        assert((data.len() + size - 1) / (size as int) == 1) by (nonlinear_arith)
            requires
                size > 0,
                0 < data.len() <= size,
        ;
    } else {
        let rest = data.skip(size as int);
        lemma_blocks_of_join(rest, size);
        assert(b.drop_first() =~= blocks_of(rest, size));
        assert(data =~= data.take(size as int) + rest);
        assert forall|i: int| 0 < i < b.len() implies #[trigger] b[i] == blocks_of(rest, size)[i - 1] by {}
        let n = data.len() as int;
        let s = size as int;
        assert((n + s - 1) / s == (n - s + s - 1) / s + 1) by (nonlinear_arith)
            requires
                s > 0,
                n > s,
        ;
    }
}

/// Cuts `data` into blocks of at most `max_block_size` bytes, as reading the
/// data `max_block_size` bytes at a time until nothing is left would.
pub fn split_into_blocks(data: &[u8], max_block_size: u32) -> (r: Vec<Vec<u8>>)
    ensures
        views_of(r@) == blocks_of(data@, max_block_size as nat),
{
    let mut r: Vec<Vec<u8>> = Vec::new();
    let size = max_block_size as usize;
    let mut pos: usize = 0;
    assert(data@.skip(0) =~= data@);
    if size == 0 {
        assert(views_of(r@) =~= seq![]);
        return r;
    }
    while pos < data.len()
        invariant
            size == max_block_size as nat,
            size > 0,
            pos <= data.len(),
            blocks_of(data@, size as nat) == views_of(r@) + blocks_of(data@.skip(pos as int), size as nat),
        decreases data.len() - pos,
    {
        let rest_len = data.len() - pos;
        let n = if rest_len < size { rest_len } else { size };
        let mut block: Vec<u8> = Vec::new();
        let mut k: usize = 0;
        while k < n
            invariant
                k <= n,
                pos + n <= data.len(),
                block@ == data@.subrange(pos as int, pos + k),
            decreases n - k,
        {
            block.push(data[pos + k]);
            k = k + 1;
            assert(block@ =~= data@.subrange(pos as int, pos + k));
        }
        let ghost rest = data@.skip(pos as int);
        let ghost before = r@;
        r.push(block);
        proof {
            assert(views_of(r@) =~= views_of(before).push(block@));
            if rest.len() <= size {
                assert(block@ =~= rest);
                assert(data@.skip(pos + n) =~= seq![]);
                assert(blocks_of(data@.skip(pos + n), size as nat) =~= seq![]);
                assert(blocks_of(rest, size as nat) =~= seq![rest]);
            } else {
                assert(block@ =~= rest.take(size as int));
                assert(rest.skip(size as int) =~= data@.skip(pos + n));
            }
            assert(views_of(before) + blocks_of(rest, size as nat) =~= views_of(r@) + blocks_of(
                data@.skip(pos + n),
                size as nat,
            ));
        }
        pos = pos + n;
    }
    proof {
        assert(data@.skip(pos as int) =~= seq![]);
        assert(views_of(r@) + seq![] =~= views_of(r@));
    }
    r
}

} // verus!
