use moonrabbit::pvf::Pvf;

fn hex32(s: &str) -> [u8; 32] {
    let mut out = [0u8; 32];
    for i in 0..32 {
        out[i] = u8::from_str_radix(&s[2 * i..2 * i + 2], 16).unwrap();
    }
    out
}

#[test]
fn the_code_hash_is_blake2_256() {
    let pvf = Pvf::from_code(vec![]);
    assert_eq!(
        pvf.as_artifact_id().code_hash,
        hex32("0e5751c026e543b2e8ab2eb06099daa1d1e5df47778f7787faab45cdf12fe3a8")
    );
    let pvf = Pvf::from_code(vec![1, 2, 3]);
    assert_eq!(pvf.code_bytes(), &vec![1, 2, 3]);
    assert_eq!(
        pvf.as_artifact_id().code_hash,
        hex32("11c0e79b71c3976ccd0c02d1310e2516c08edc9d8b6f57ccd680d63a4d8e72da")
    );
}

#[test]
fn a_discriminator_is_its_little_endian_bytes() {
    let pvf = Pvf::from_discriminator(7);
    assert_eq!(pvf.code_bytes(), &vec![7, 0, 0, 0]);
    assert_eq!(
        pvf.as_artifact_id().code_hash,
        hex32("5b8f29db76cf4e676e4fc9b17040312debedafcd5637fb3c7badd2cddce6a445")
    );
    assert_ne!(Pvf::from_discriminator(1).as_artifact_id(), Pvf::from_discriminator(2).as_artifact_id());
    let clone = pvf.clone();
    assert_eq!(clone.as_artifact_id(), pvf.as_artifact_id());
}
