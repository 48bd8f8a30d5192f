use warden_twofactor::outside::{random_bytes, random_uuid, uuid_of, where_filled};

#[test]
fn no_bytes_can_always_be_had() {
    assert_eq!(random_bytes(0), Some(vec![]));
    assert_eq!(random_bytes(32).unwrap().len(), 32);
    assert_ne!(random_bytes(32), random_bytes(32));
}

#[test]
fn bytes_count_where_they_were_filled() {
    assert_eq!(where_filled(vec![1, 2], Ok(())), Some(vec![1, 2]));
    assert_eq!(where_filled(vec![1, 2], Err(getrandom::Error::UNSUPPORTED)), None);
}

#[test]
fn random_bytes_make_a_uuid_of_version_4() {
    let bytes: Vec<u8> = (0..16).map(|i| i * 16 + 15 - i).collect();
    assert_eq!(uuid_of(Some(bytes)).unwrap(), "0f1e2d3c-4b5a-4978-8796-a5b4c3d2e1f0");
    assert_eq!(uuid_of(Some(vec![255; 16])).unwrap(), "ffffffff-ffff-4fff-bfff-ffffffffffff");
    assert_eq!(uuid_of(Some(vec![0; 15])), None);
    assert_eq!(uuid_of(None), None);
    assert_ne!(random_uuid().unwrap(), random_uuid().unwrap());
}
