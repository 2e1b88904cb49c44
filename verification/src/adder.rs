//! The adder test parachain: a chain whose state is a `u64` that each block
//! increases (wrapping) by an amount.

use vstd::prelude::*;
use crate::parachains::ParaId;
use crate::scale::{
    decode_u64_hash_hash, decode_u64_u64, encode_u64, encode_u64_hash_hash, encode_u64_u64,
    hash_eq, keccak256, keccak_256_of, scale_u64, scale_u64_hash_hash, scale_u64_u64, ScaleDecode,
};

verus! {

/// Head data for this parachain.
#[derive(Default, Clone, Hash, PartialEq, Eq, Debug)]
pub struct HeadData {
    /// Block number
    pub number: u64,
    /// parent block keccak256
    pub parent_hash: [u8; 32],
    /// hash of post-execution state.
    pub post_state: [u8; 32],
}

/// Block data for this parachain.
#[derive(Default, Clone, Debug)]
pub struct BlockData {
    /// State to begin from.
    pub state: u64,
    /// Amount to add (wrapping)
    pub add: u64,
}

/// Start state mismatched with parent header's state hash.
#[derive(Debug)]
pub struct StateMismatch;

/// The SCALE encoding of a head: number, parent hash, post state.
pub open spec fn head_encoding(h: HeadData) -> Seq<u8> {
    scale_u64_hash_hash(h.number, h.parent_hash@, h.post_state@)
}

/// The hash of a head: Keccak-256 of its encoding.
pub open spec fn head_hash(h: HeadData) -> Seq<u8> {
    keccak_256_of(head_encoding(h))
}

/// The hash committing to a state: Keccak-256 of its encoding.
pub open spec fn state_hash(state: u64) -> Seq<u8> {
    keccak_256_of(scale_u64(state))
}

/// The SCALE encoding of a block.
pub open spec fn block_encoding(b: BlockData) -> Seq<u8> {
    scale_u64_u64(b.state, b.add)
}

/// The state after a block: its start state plus its amount, wrapping.
pub open spec fn next_state(b: BlockData) -> u64 {
    ((b.state + b.add) % 0x1_0000_0000_0000_0000) as u64
}

/// Whether a block's start state is the one the parent head commits to.
pub open spec fn block_matches(parent_head: HeadData, b: BlockData) -> bool {
    state_hash(b.state) == parent_head.post_state@
}

impl HeadData {
    /// The SCALE encoding of this head.
    pub fn encode(&self) -> (r: Vec<u8>)
        ensures
            r@ == head_encoding(*self),
    {
        encode_u64_hash_hash(self.number, self.parent_hash, self.post_state)
    }

    /// Decodes a head from the front of `bytes`; `None` when fewer than the
    /// 72 bytes of an encoded head are there.
    pub fn decode(bytes: &[u8]) -> (r: Option<HeadData>)
        ensures
            r.is_some() <==> bytes@.len() >= 72,
            r matches Some(h) ==> head_encoding(h) == bytes@.subrange(0, 72),
    {
        match decode_u64_hash_hash(bytes) {
            Some(t) => Some(HeadData { number: t.0, parent_hash: t.1, post_state: t.2 }),
            None => None,
        }
    }

    /// Keccak-256 of the head's encoding.
    pub fn hash(&self) -> (r: [u8; 32])
        ensures
            r@ == head_hash(*self),
    {
        let enc = self.encode();
        keccak256(enc.as_slice())
    }
}

impl BlockData {
    /// The SCALE encoding of this block.
    pub fn encode(&self) -> (r: Vec<u8>)
        ensures
            r@ == block_encoding(*self),
    {
        encode_u64_u64(self.state, self.add)
    }

    /// Decodes a block from the front of `bytes`; `None` when fewer than 16
    /// bytes are there.
    pub fn decode(bytes: &[u8]) -> (r: Option<BlockData>)
        ensures
            r.is_some() <==> bytes@.len() >= 16,
            r matches Some(b) ==> block_encoding(b) == bytes@.subrange(0, 16),
    {
        match decode_u64_u64(bytes) {
            Some(t) => Some(BlockData { state: t.0, add: t.1 }),
            None => None,
        }
    }
}

impl ScaleDecode for HeadData {
    open spec fn decode_spec(bytes: Seq<u8>) -> Option<HeadData> {
        if bytes.len() >= 72 {
            Some(choose|h: HeadData| head_encoding(h) == bytes.subrange(0, 72))
        } else {
            None
        }
    }

    fn scale_decode(bytes: &[u8]) -> (r: Option<HeadData>) {
        let r = HeadData::decode(bytes);
        proof {
            if r is Some {
                let c = choose|c: HeadData| head_encoding(c) == bytes@.subrange(0, 72);
                head_encoding_determines_head(r->0, c);
            }
        }
        r
    }
}

impl ScaleDecode for BlockData {
    open spec fn decode_spec(bytes: Seq<u8>) -> Option<BlockData> {
        if bytes.len() >= 16 {
            Some(choose|b: BlockData| block_encoding(b) == bytes.subrange(0, 16))
        } else {
            None
        }
    }

    fn scale_decode(bytes: &[u8]) -> (r: Option<BlockData>) {
        let r = BlockData::decode(bytes);
        proof {
            if r is Some {
                let c = choose|c: BlockData| block_encoding(c) == bytes@.subrange(0, 16);
                block_encoding_determines_block(r->0, c);
            }
        }
        r
    }
}

/// Keccak-256 of the state's encoding.
pub fn hash_state(state: u64) -> (r: [u8; 32])
    ensures
        r@ == state_hash(state),
{
    let enc = encode_u64(state);
    keccak256(enc.as_slice())
}

/// Execute a block body on top of given parent head, producing new parent head
/// if valid.
pub fn execute(parent_hash: [u8; 32], parent_head: HeadData, block_data: &BlockData) -> (r: Result<
    HeadData,
    StateMismatch,
>)
    requires
        parent_hash@ == head_hash(parent_head),
        parent_head.number < u64::MAX,
    ensures
        r is Err <==> !block_matches(parent_head, *block_data),
        r matches Ok(h) ==> {
            &&& h.number == parent_head.number + 1
            &&& h.parent_hash == parent_hash
            &&& h.post_state@ == state_hash(next_state(*block_data))
        },
{
    let start = hash_state(block_data.state);
    if !hash_eq(&start, &parent_head.post_state) {
        return Err(StateMismatch);
    }
    let new_state: u64 = block_data.state.wrapping_add(block_data.add);
    Ok(
        HeadData {
            number: parent_head.number + 1,
            parent_hash,
            post_state: hash_state(new_state),
        },
    )
}

/// `execute` for any input: `None` where `execute` has no answer, that is
/// where `parent_hash` is not the parent head's hash (`execute` asserts it)
/// or where the parent's number is the last `u64`.
pub fn try_execute(parent_hash: [u8; 32], parent_head: HeadData, block_data: &BlockData) -> (r: Option<
    Result<HeadData, StateMismatch>,
>)
    ensures
        r is None <==> (parent_hash@ != head_hash(parent_head) || parent_head.number == u64::MAX),
        r matches Some(res) ==> {
            &&& (res is Err <==> !block_matches(parent_head, *block_data))
            &&& res matches Ok(h) ==> {
                &&& h.number == parent_head.number + 1
                &&& h.parent_hash == parent_hash
                &&& h.post_state@ == state_hash(next_state(*block_data))
            }
        },
{
    let actual = parent_head.hash();
    if !hash_eq(&parent_hash, &actual) || parent_head.number == u64::MAX {
        return None;
    }
    Some(execute(parent_hash, parent_head, block_data))
}

/// The parachain the collator collates for when the command line names none.
pub const DEFAULT_PARA_ID: u32 = 100;

/// The parachain the collator collates for: the one the command line names,
/// else the default one.
pub fn collator_para_id(from_cli: Option<u32>) -> (r: ParaId)
    ensures
        r == ParaId(
            match from_cli {
                Some(id) => id,
                None => DEFAULT_PARA_ID,
            },
        ),
{
    match from_cli {
        Some(id) => ParaId(id),
        None => ParaId(DEFAULT_PARA_ID),
    }
}

/// An encoded head is 72 bytes long, and different heads have different
/// encodings: decoding what `HeadData::encode` wrote gives the same head back.
pub proof fn head_encoding_determines_head(h1: HeadData, h2: HeadData)
    requires
        head_encoding(h1) == head_encoding(h2),
    ensures
        head_encoding(h1).len() == 72,
        h1 == h2,
{
    vstd::bytes::lemma_auto_spec_u64_to_from_le_bytes();
    let e1 = head_encoding(h1);
    let e2 = head_encoding(h2);
    assert(scale_u64(h1.number) == e1.subrange(0, 8));
    assert(scale_u64(h2.number) == e2.subrange(0, 8));
    assert(h1.parent_hash@ == e1.subrange(8, 40));
    assert(h2.parent_hash@ == e2.subrange(8, 40));
    assert(h1.post_state@ == e1.subrange(40, 72));
    assert(h2.post_state@ == e2.subrange(40, 72));
    assert(h1.parent_hash =~= h2.parent_hash);
    assert(h1.post_state =~= h2.post_state);
}

/// An encoded block is 16 bytes long, and different blocks have different
/// encodings: decoding what `BlockData::encode` wrote gives the same block back.
pub proof fn block_encoding_determines_block(b1: BlockData, b2: BlockData)
    requires
        block_encoding(b1) == block_encoding(b2),
    ensures
        block_encoding(b1).len() == 16,
        b1 == b2,
{
    vstd::bytes::lemma_auto_spec_u64_to_from_le_bytes();
    let e1 = block_encoding(b1);
    let e2 = block_encoding(b2);
    assert(scale_u64(b1.state) == e1.subrange(0, 8));
    assert(scale_u64(b2.state) == e2.subrange(0, 8));
    assert(scale_u64(b1.add) == e1.subrange(8, 16));
    assert(scale_u64(b2.add) == e2.subrange(8, 16));
}

/// A chain of adder blocks never gets stuck: the head produced by a block
/// commits to the block's resulting state, so a next block that starts from
/// that state, whatever it adds, is accepted on top of it.
pub proof fn produced_head_accepts_next_block(produced: HeadData, block: BlockData, add: u64)
    requires
        produced.post_state@ == state_hash(next_state(block)),
    ensures
        block_matches(produced, BlockData { state: next_state(block), add }),
{
}

} // verus!
