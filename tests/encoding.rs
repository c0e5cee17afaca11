use warg_client::checkpoint::{encode_checkpoint, Checkpoint, TimestampedCheckpoint};
use warg_client::record::{encode_envelope, encode_record, Entry, Envelope, Record};

fn be(n: u64) -> Vec<u8> {
    n.to_be_bytes().to_vec()
}

#[test]
fn checkpoint_encoding_is_exact() {
    let t = TimestampedCheckpoint {
        checkpoint: Checkpoint { log_length: 258, log_root: "ab".to_string(), map_root: "é".to_string() },
        timestamp: 7,
    };
    let mut expected = be(258);
    expected.extend(be(2));
    expected.extend(b"ab");
    expected.extend(be(2));
    expected.extend("é".as_bytes());
    expected.extend(be(7));
    assert_eq!(encode_checkpoint(&t), expected);
}

#[test]
fn record_encoding_is_exact() {
    let r = Record {
        prev: Some("p".to_string()),
        timestamp: 3,
        entries: vec![
            Entry::Init { key: vec![9, 8] },
            Entry::ImportNamespace { namespace: "n".to_string(), registry: "r".to_string() },
        ],
    };
    let mut expected = vec![1u8];
    expected.extend(be(1));
    expected.extend(b"p");
    expected.extend(be(3));
    expected.extend(be(2));
    expected.push(0);
    expected.extend(be(2));
    expected.extend([9u8, 8]);
    expected.push(6);
    expected.extend(be(1));
    expected.extend(b"n");
    expected.extend(be(1));
    expected.extend(b"r");
    assert_eq!(encode_record(&r), expected);
    let first = Record { prev: None, timestamp: 0, entries: vec![] };
    let mut expected_first = vec![0u8];
    expected_first.extend(be(0));
    expected_first.extend(be(0));
    assert_eq!(encode_record(&first), expected_first);
    let env = Envelope { record: first, key_id: "k".to_string(), signature: vec![1, 2, 3] };
    let mut expected_env = be(expected_first.len() as u64);
    expected_env.extend(expected_first);
    expected_env.extend(be(1));
    expected_env.extend(b"k");
    expected_env.extend(be(3));
    expected_env.extend([1u8, 2, 3]);
    assert_eq!(encode_envelope(&env), expected_env);
}
