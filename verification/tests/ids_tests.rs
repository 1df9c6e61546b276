use gem_finder::ids::{decode_movie_id, encode_movie_id};

#[test]
fn movie_id_examples() {
    assert_eq!(encode_movie_id(42), "mv16");
    assert_eq!(encode_movie_id(1000), "mvrs");
    assert_eq!(encode_movie_id(0), "mv0");
    assert_eq!(decode_movie_id("mv16"), Some(42));
    assert_eq!(decode_movie_id("mvrs"), Some(1000));
}

#[test]
fn movie_id_round_trip() {
    for id in [0i64, 1, 35, 36, 1295, 1296, 99999, i64::MAX] {
        assert_eq!(decode_movie_id(&encode_movie_id(id)), Some(id));
    }
}

#[test]
fn movie_id_rejects_malformed() {
    assert_eq!(decode_movie_id(""), None);
    assert_eq!(decode_movie_id("mv"), None);
    assert_eq!(decode_movie_id("42"), None);
    assert_eq!(decode_movie_id("mv!"), None);
    assert_eq!(decode_movie_id("xx16"), None);
}
