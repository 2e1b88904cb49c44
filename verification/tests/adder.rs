use moonrabbit::adder::{
    collator_para_id, execute, hash_state, try_execute, BlockData, HeadData, DEFAULT_PARA_ID,
};
use moonrabbit::parachains::ParaId;
use moonrabbit::scale::ScaleDecode;

/// Runs a block through the encoding a validator receives it in, as the
/// validation host does: decode the parent head and the block, execute, and
/// encode the new head.
fn validate(parent_head: &HeadData, block_data: &BlockData) -> Result<Vec<u8>, ()> {
    let parent = HeadData::decode(&parent_head.encode()).unwrap();
    let block = BlockData::decode(&block_data.encode()).unwrap();
    let parent_hash = parent.hash();
    match execute(parent_hash, parent, &block) {
        Ok(head) => Ok(head.encode()),
        Err(_) => Err(()),
    }
}

#[test]
fn execute_good_on_parent() {
    let parent_head = HeadData { number: 0, parent_hash: [0; 32], post_state: hash_state(0) };

    let block_data = BlockData { state: 0, add: 512 };

    let ret = validate(&parent_head, &block_data).unwrap();

    let new_head = HeadData::decode(&ret[..]).unwrap();

    assert_eq!(new_head.number, 1);
    assert_eq!(new_head.parent_hash, parent_head.hash());
    assert_eq!(new_head.post_state, hash_state(512));
}

#[test]
fn execute_good_chain_on_parent() {
    let mut number = 0;
    let mut parent_hash = [0; 32];
    let mut last_state = 0;

    for add in 0..10 {
        let parent_head = HeadData { number, parent_hash, post_state: hash_state(last_state) };

        let block_data = BlockData { state: last_state, add };

        let ret = validate(&parent_head, &block_data).unwrap();

        let new_head = HeadData::decode(&ret[..]).unwrap();

        assert_eq!(new_head.number, number + 1);
        assert_eq!(new_head.parent_hash, parent_head.hash());
        assert_eq!(new_head.post_state, hash_state(last_state + add));

        number += 1;
        parent_hash = new_head.hash();
        last_state += add;
    }
}

#[test]
fn execute_bad_on_parent() {
    let parent_head = HeadData { number: 0, parent_hash: [0; 32], post_state: hash_state(0) };

    let block_data = BlockData {
        state: 256, // start state is wrong.
        add: 256,
    };

    let _ret = validate(&parent_head, &block_data).unwrap_err();
}

#[test]
fn head_encoding_is_number_then_hashes() {
    let head = HeadData { number: 0x0102, parent_hash: [7; 32], post_state: [9; 32] };
    let enc = head.encode();
    assert_eq!(enc.len(), 72);
    assert_eq!(&enc[..8], &[2, 1, 0, 0, 0, 0, 0, 0]);
    assert_eq!(&enc[8..40], &[7u8; 32][..]);
    assert_eq!(&enc[40..], &[9u8; 32][..]);
    assert_eq!(HeadData::decode(&enc), Some(head.clone()));
    assert_eq!(HeadData::scale_decode(&enc), Some(head));
}

#[test]
fn short_encodings_do_not_decode() {
    assert_eq!(HeadData::decode(&[0u8; 71]), None);
    assert!(BlockData::decode(&[0u8; 15]).is_none());
    let block = BlockData::decode(&[1, 0, 0, 0, 0, 0, 0, 0, 2, 0, 0, 0, 0, 0, 0, 0, 99]).unwrap();
    assert_eq!((block.state, block.add), (1, 2));
}

#[test]
fn hashes_are_keccak_256() {
    // Keccak-256 of the eight zero bytes that encode the state 0.
    let zero = hash_state(0);
    assert_eq!(
        zero,
        [
            0x01, 0x1b, 0x4d, 0x03, 0xdd, 0x8c, 0x01, 0xf1, 0x04, 0x91, 0x43, 0xcf, 0x9c, 0x4c,
            0x81, 0x7e, 0x4b, 0x16, 0x7f, 0x1d, 0x1b, 0x83, 0xe5, 0xc6, 0xf0, 0xf1, 0x0d, 0x89,
            0xba, 0x1e, 0x7b, 0xce,
        ]
    );
    assert_ne!(hash_state(1), zero);
    let head = HeadData::default();
    assert_eq!(head.hash(), head.hash());
    assert_ne!(head.hash(), zero);
}

#[test]
fn the_state_wraps_around() {
    let parent_head = HeadData { number: 4, parent_hash: [1; 32], post_state: hash_state(u64::MAX) };
    let hash = parent_head.hash();
    let head = execute(hash, parent_head, &BlockData { state: u64::MAX, add: 2 }).unwrap();
    assert_eq!(head.post_state, hash_state(1));
    assert_eq!(head.number, 5);
    assert_eq!(head.parent_hash, hash);
}

#[test]
fn try_execute_refuses_a_wrong_parent_hash_and_the_last_number() {
    let parent_head = HeadData { number: 0, parent_hash: [0; 32], post_state: hash_state(0) };
    let block = BlockData { state: 0, add: 1 };
    assert!(try_execute([3; 32], parent_head.clone(), &block).is_none());
    let good = try_execute(parent_head.hash(), parent_head.clone(), &block).unwrap().unwrap();
    assert_eq!(good.post_state, hash_state(1));
    let bad_state = try_execute(parent_head.hash(), parent_head, &BlockData { state: 5, add: 1 }).unwrap();
    assert!(bad_state.is_err());
    let last = HeadData { number: u64::MAX, parent_hash: [0; 32], post_state: hash_state(0) };
    assert!(try_execute(last.hash(), last, &block).is_none());
}

#[test]
fn a_produced_head_accepts_any_next_block() {
    let parent_head = HeadData { number: 0, parent_hash: [0; 32], post_state: hash_state(7) };
    let head = execute(parent_head.hash(), parent_head, &BlockData { state: 7, add: 3 }).unwrap();
    for add in [0, 1, u64::MAX] {
        assert!(execute(head.hash(), head.clone(), &BlockData { state: 10, add }).is_ok());
    }
}

#[test]
fn the_collator_defaults_to_parachain_100() {
    assert_eq!(DEFAULT_PARA_ID, 100);
    assert_eq!(collator_para_id(None), ParaId(100));
    assert_eq!(collator_para_id(Some(2000)), ParaId(2000));
}

#[test]
fn block_encoding_is_state_then_amount() {
    let block = BlockData { state: 1, add: 0x0203 };
    assert_eq!(block.encode(), vec![1, 0, 0, 0, 0, 0, 0, 0, 3, 2, 0, 0, 0, 0, 0, 0]);
    let back = BlockData::scale_decode(&block.encode()).unwrap();
    assert_eq!((back.state, back.add), (1, 0x0203));
}
