use app_benchmarks::bin_load_streamlock::{
    assemble_token, classify_status, synth_token, token_payload, token_shard, StatusClass,
};

#[test]
fn token_payload_has_unique_jti() {
    assert_eq!(token_payload(0), "{\"jti\":\"bench-tok-0\",\"exp\":9999999999}");
    assert_eq!(token_payload(42), "{\"jti\":\"bench-tok-42\",\"exp\":9999999999}");
    assert_ne!(token_payload(1), token_payload(10));
}

#[test]
fn synth_token_is_jwt_shaped() {
    assert_eq!(
        synth_token(0),
        "eyJhbGciOiJIUzI1NiJ9.eyJqdGkiOiJiZW5jaC10b2stMCIsImV4cCI6OTk5OTk5OTk5OX0.sig"
    );
    assert_eq!(
        synth_token(42),
        "eyJhbGciOiJIUzI1NiJ9.eyJqdGkiOiJiZW5jaC10b2stNDIiLCJleHAiOjk5OTk5OTk5OTl9.sig"
    );
    assert_ne!(synth_token(7), synth_token(8));
}

#[test]
fn assemble_token_joins_with_dots() {
    assert_eq!(assemble_token("h", "p"), "h.p.sig");
}

#[test]
fn token_shard_is_fnv1a_modulo() {
    assert_eq!(token_shard("abc", 128), 75);
    assert_eq!(token_shard("", 128), 37);
    assert_eq!(token_shard("hello", 7), 5);
    for i in 0..50 {
        assert!(token_shard(&synth_token(i), 128) < 128);
    }
    assert_eq!(token_shard("anything", 1), 0);
}

#[test]
fn status_classes() {
    assert!(matches!(classify_status(200), StatusClass::Success));
    assert!(matches!(classify_status(299), StatusClass::Success));
    assert!(matches!(classify_status(429), StatusClass::RateLimited));
    assert!(matches!(classify_status(300), StatusClass::Other));
    assert!(matches!(classify_status(199), StatusClass::Other));
    assert!(matches!(classify_status(500), StatusClass::Other));
}
