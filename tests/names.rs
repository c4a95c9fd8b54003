use lendergroup_indexer::extract::{
    decode_address_output, decode_uint_output, pool_initialization_from_answers,
    CallResponse,
};
use lendergroup_indexer::keys::{join3, segment_at, split_key};
use lendergroup_indexer::sink_sql::Engine;
use lendergroup_indexer::text::{hex_of, u64_text};
use lendergroup_indexer::token::{fmt_address, fmt_address_to_bytes_vec};

#[test]
fn engine_names_round_trip() {
    assert_eq!(Engine::Unset.as_str_name(), "unset");
    assert_eq!(Engine::Postgres.as_str_name(), "postgres");
    assert_eq!(Engine::Clickhouse.as_str_name(), "clickhouse");
    assert_eq!(Engine::from_str_name("postgres"), Some(Engine::Postgres));
    assert_eq!(Engine::from_str_name("clickhouse"), Some(Engine::Clickhouse));
    assert_eq!(Engine::from_str_name("unset"), Some(Engine::Unset));
    assert_eq!(Engine::from_str_name("mysql"), None);
    assert_eq!(Engine::from_str_name(""), None);
}

#[test]
fn address_text_gets_prefix_once() {
    assert_eq!(fmt_address("abcd"), "0xabcd");
    assert_eq!(fmt_address("0xabcd"), "0xabcd");
    assert_eq!(fmt_address(""), "0x");
}

#[test]
fn address_text_to_bytes() {
    assert_eq!(fmt_address_to_bytes_vec("0x0aFF"), vec![0x0a, 0xff]);
    assert_eq!(fmt_address_to_bytes_vec("10"), vec![0x10]);
}

#[test]
fn keys_split_on_colons() {
    let key = join3("group_pool_metric", "aa", "total_interest_collected");
    assert_eq!(key, "group_pool_metric:aa:total_interest_collected");
    assert_eq!(segment_at(&key, 0), Some("group_pool_metric".to_string()));
    assert_eq!(segment_at(&key, 2), Some("total_interest_collected".to_string()));
    assert_eq!(segment_at(&key, 3), None);
    assert_eq!(split_key("a::b"), vec!["a".to_string(), "".to_string(), "b".to_string()]);
    assert_eq!(split_key(""), vec!["".to_string()]);
}

#[test]
fn hex_and_decimal_texts() {
    assert_eq!(hex_of(&[0x00, 0xab, 0x0f]), "00ab0f");
    assert_eq!(hex_of(&[]), "");
    assert_eq!(u64_text(0), "0");
    assert_eq!(u64_text(18446744073709551615), "18446744073709551615");
}

#[test]
fn read_answers_decode_words() {
    let mut word = vec![0u8; 32];
    word[30] = 0x01;
    word[31] = 0x02;
    let ok = CallResponse { failed: false, raw: word.clone() };
    assert_eq!(decode_uint_output(&ok), Some("258".to_string()));
    assert_eq!(decode_uint_output(&CallResponse { failed: true, raw: word.clone() }), None);
    assert_eq!(decode_uint_output(&CallResponse { failed: false, raw: vec![1; 31] }), None);
    let mut addr = vec![0u8; 12];
    addr.extend(vec![0xAB; 20]);
    let a = CallResponse { failed: false, raw: addr };
    assert_eq!(decode_address_output(&a), Some(vec![0xAB; 20]));
    let data = pool_initialization_from_answers(&a, &a).unwrap();
    assert_eq!(data.teller_v2_address, vec![0xAB; 20]);
    assert!(pool_initialization_from_answers(&a, &CallResponse { failed: true, raw: vec![] }).is_none());
}
