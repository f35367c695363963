use dynspire::ffi::{new_uuid, uuid_from_hex, uuid_to_hex};
use dynspire::kvmap::{collect_pairs, deserialize_kvmap, serialize_kvmap, KvMap};

fn same(a: &KvMap, b: &KvMap) -> bool {
    a.len() == b.len()
        && a.pairs.iter().all(|(k, v)| b.get(k).map(|x| x == v).unwrap_or(false))
}

#[test]
fn roundtrip_empty() {
    let map = KvMap::new();
    let buf = serialize_kvmap(&map);
    let back = deserialize_kvmap(&buf);
    assert!(back.is_empty());
}

#[test]
fn roundtrip_basic() {
    let mut map = KvMap::new();
    map.insert("backend".into(), "file".into());
    map.insert("path".into(), "/data/db".into());
    map.insert("read_only".into(), "true".into());
    let buf = serialize_kvmap(&map);
    let back = deserialize_kvmap(&buf);
    assert!(same(&back, &map));
}

#[test]
fn deserializes_empty_buffer() {
    let back = deserialize_kvmap(&[]);
    assert!(back.is_empty());
}

#[test]
fn roundtrip_special_chars() {
    let mut map = KvMap::new();
    map.insert("path".into(), "/a&b=c%d".into());
    map.insert("region".into(), "us-east-1".into());
    let buf = serialize_kvmap(&map);
    let back = deserialize_kvmap(&buf);
    assert!(same(&back, &map));
}

#[test]
fn form_is_percent_encoded() {
    let mut map = KvMap::new();
    map.insert("path".into(), "/a&b=c%d".into());
    map.insert("a b".into(), "\u{e9}*-._Z9".into());
    assert_eq!(
        String::from_utf8(serialize_kvmap(&map)).unwrap(),
        "path=%2Fa%26b%3Dc%25d&a+b=%C3%A9*-._Z9"
    );
}

#[test]
fn empty_names_and_values_survive() {
    let mut map = KvMap::new();
    map.insert("".into(), "".into());
    map.insert("k".into(), "".into());
    assert_eq!(serialize_kvmap(&map), b"=&k=");
    assert!(same(&deserialize_kvmap(b"=&k="), &map));
}

#[test]
fn later_pair_replaces_earlier() {
    let back = deserialize_kvmap(b"a=1&b=2&a=3");
    assert_eq!(back.len(), 2);
    assert_eq!(back.get("a").unwrap(), "3");
    assert_eq!(back.get("b").unwrap(), "2");
    assert!(back.get("c").is_none());

    let pairs = vec![("x".to_string(), "1".to_string()), ("x".to_string(), "2".to_string())];
    let map = collect_pairs(pairs);
    assert_eq!(map.len(), 1);
    assert_eq!(map.get("x").unwrap(), "2");
}

#[test]
fn insert_replaces() {
    let mut map = KvMap::new();
    assert!(map.is_empty());
    map.insert("k".into(), "1".into());
    map.insert("k".into(), "2".into());
    assert_eq!(map.len(), 1);
    assert_eq!(map.get("k").unwrap(), "2");
}

#[test]
fn uuid_text_round_trip() {
    let id: [u8; 16] = [
        0x67, 0xe5, 0x50, 0x44, 0x10, 0xb1, 0x42, 0x6f, 0x92, 0x47, 0xbb, 0x68, 0x0e, 0x5f, 0xe0,
        0xc8,
    ];
    let hex = uuid_to_hex(&id);
    assert_eq!(hex, "67e5504410b1426f9247bb680e5fe0c8");
    assert_eq!(uuid_from_hex(&hex), Some(id));
}

#[test]
fn uuid_forms() {
    let id = uuid_from_hex("67e5504410b1426f9247bb680e5fe0c8");
    assert!(id.is_some());
    assert_eq!(uuid_from_hex("67e55044-10b1-426f-9247-bb680e5fe0c8"), id);
    assert_eq!(uuid_from_hex("{67E55044-10B1-426F-9247-BB680E5FE0C8}"), id);
    assert_eq!(uuid_from_hex("URN:uuid:67e55044-10b1-426f-9247-bb680e5fe0c8"), id);
}

#[test]
fn uuid_refusals() {
    assert_eq!(uuid_from_hex(""), None);
    assert_eq!(uuid_from_hex("67e5504410b1426f9247bb680e5fe0c"), None);
    assert_eq!(uuid_from_hex("67e5504410b1426f9247bb680e5fe0cg"), None);
    assert_eq!(uuid_from_hex("67e55044-10b1-426f-9247bb680e5fe0c8-"), None);
    assert_eq!(uuid_from_hex("(67e55044-10b1-426f-9247-bb680e5fe0c8)"), None);
    assert_eq!(uuid_from_hex("urn:uuix:67e55044-10b1-426f-9247-bb680e5fe0c8"), None);
}

#[test]
fn random_uuid_is_marked() {
    let a = new_uuid();
    assert_eq!(a[6] >> 4, 4);
    assert_eq!(a[8] >> 6, 2);
    assert_eq!(uuid_from_hex(&uuid_to_hex(&a)), Some(a));
}
