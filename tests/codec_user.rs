use collection_store::codec::{decode, encode, CodecError};
use collection_store::user::UserStore;
use collection_store::model::StoreError;

#[test]
fn codec_round_trip() {
    let v = decode(r#"{ "k" : [1, 2.5, "z"] }"#).unwrap();
    let text = encode(&v);
    assert_eq!(text, r#"{"k":[1,2.5,"z"]}"#);
    assert_eq!(decode(&text).unwrap(), v);
}

#[test]
fn codec_rejects_invalid_text() {
    assert_eq!(decode("{not json").err(), Some(CodecError::InvalidJson));
    assert_eq!(decode("").err(), Some(CodecError::InvalidJson));
}

#[test]
fn users_get_sequential_ids() {
    let mut users = UserStore::new();
    let a = users.create_user("test".to_string()).unwrap();
    assert_eq!((a.id, a.name.as_str()), (1, "test"));
    let b = users.create_user("other".to_string()).unwrap();
    assert_eq!(b.id, 2);
    assert_eq!(users.get_user(2).unwrap().name, "other");
    assert!(matches!(users.get_user(3), Err(StoreError::NotFound)));
    let all = users.get_users();
    assert_eq!(all.len(), 2);
    assert_eq!(all[0].name, "test");
}

#[test]
fn encode_gives_compact_text() {
    let v = decode("[ true , null ]").unwrap();
    assert_eq!(encode(&v), "[true,null]");
    assert!(collection_store::codec::is_json("[true,null]"));
    assert!(!collection_store::codec::is_json("[true,"));
}

#[test]
fn get_user_finds_each_id() {
    let mut users = UserStore::new();
    for name in ["a", "b", "c"] {
        users.create_user(name.to_string()).unwrap();
    }
    assert_eq!(users.get_user(1).unwrap().name, "a");
    assert_eq!(users.get_user(3).unwrap().name, "c");
    assert!(matches!(users.get_user(0), Err(StoreError::NotFound)));
}
