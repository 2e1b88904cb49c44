use moonrabbit::adder::{BlockData, HeadData};
use moonrabbit::double_encoded::DoubleEncoded;

fn head() -> HeadData {
    HeadData { number: 3, parent_hash: [1; 32], post_state: [2; 32] }
}

#[test]
fn nothing_is_decoded_until_asked() {
    let d: DoubleEncoded<HeadData> = head().encode().into();
    assert!(d.as_ref().is_none());
}

#[test]
fn ensure_decoded_decodes_once_and_keeps_the_value() {
    let mut d: DoubleEncoded<HeadData> = head().encode().into();
    assert_eq!(d.ensure_decoded(), Ok(&head()));
    assert_eq!(d.as_ref(), Some(&head()));
    assert_eq!(d.ensure_decoded(), Ok(&head()));
}

#[test]
fn undecodable_bytes_give_an_error() {
    let mut d: DoubleEncoded<HeadData> = vec![1, 2, 3].into();
    assert_eq!(d.ensure_decoded(), Err(()));
    assert!(d.as_ref().is_none());
    assert_eq!(d.take_decoded(), Err(()));
    let d: DoubleEncoded<HeadData> = vec![1, 2, 3].into();
    assert_eq!(d.try_into(), Err(()));
}

#[test]
fn take_decoded_leaves_nothing_decoded() {
    let mut d: DoubleEncoded<HeadData> = head().encode().into();
    assert_eq!(d.ensure_decoded(), Ok(&head()));
    assert_eq!(d.take_decoded(), Ok(head()));
    assert!(d.as_ref().is_none());
    // the bytes are still there
    assert_eq!(d.take_decoded(), Ok(head()));
}

#[test]
fn try_into_gives_the_decoded_value() {
    let d: DoubleEncoded<HeadData> = head().encode().into();
    assert_eq!(d.try_into(), Ok(head()));
}

#[test]
fn into_and_from_keep_the_bytes_and_drop_the_value() {
    let block = BlockData { state: 5, add: 6 };
    let mut d: DoubleEncoded<BlockData> = block.encode().into();
    assert!(d.ensure_decoded().is_ok());
    let e: DoubleEncoded<HeadData> = d.into();
    assert!(e.as_ref().is_none());
    let back: DoubleEncoded<BlockData> = DoubleEncoded::<BlockData>::from(e);
    assert!(back.as_ref().is_none());
    let decoded = back.try_into().unwrap();
    assert_eq!((decoded.state, decoded.add), (5, 6));
}

#[test]
fn equality_and_clone_go_by_the_bytes() {
    let mut a: DoubleEncoded<HeadData> = head().encode().into();
    let b: DoubleEncoded<HeadData> = head().encode().into();
    assert!(a.ensure_decoded().is_ok());
    assert!(a == b);
    let c = a.clone();
    assert!(c == a);
    assert!(c.as_ref().is_none());
    let other: DoubleEncoded<HeadData> = vec![0u8; 72].into();
    assert!(other != b);
    let shorter: DoubleEncoded<HeadData> = vec![0u8; 71].into();
    assert!(other != shorter);
}

#[test]
fn trailing_bytes_are_ignored_when_decoding() {
    let mut bytes = head().encode();
    bytes.push(42);
    let d: DoubleEncoded<HeadData> = bytes.into();
    assert_eq!(d.try_into(), Ok(head()));
}
