use app_benchmarks::bin_load_graphql::graphql_url;
use app_benchmarks::bin_load_vector::urlencoding;
use app_benchmarks::cli::BenchArgs;
use app_benchmarks::runner::target_index;
use app_benchmarks::text::{split_list, u64_to_decimal};

fn args_with(auth: &str, base_url: &str, mode: &str) -> BenchArgs {
    BenchArgs {
        test: "rest-read".to_string(),
        duration: 30,
        vus: 50,
        base_url: base_url.to_string(),
        auth: auth.to_string(),
        warmup: 5,
        mode: mode.to_string(),
        start_vus: 10,
        step_vus: 10,
        step_interval: 5,
        max_vus: 200,
        report_url: "https://localhost".to_string(),
        status_file: None,
    }
}

#[test]
fn auth_parts_splits_at_first_colon() {
    let a = args_with("admin:admin123", "https://localhost", "standard");
    assert_eq!(a.auth_parts(), ("admin", "admin123"));
    let b = args_with("user:pa:ss", "https://localhost", "standard");
    assert_eq!(b.auth_parts(), ("user", "pa:ss"));
}

#[test]
fn auth_parts_without_colon_has_empty_password() {
    let a = args_with("justuser", "https://localhost", "standard");
    assert_eq!(a.auth_parts(), ("justuser", ""));
    let b = args_with(":secret", "https://localhost", "standard");
    assert_eq!(b.auth_parts(), ("", "secret"));
}

#[test]
fn auth_parts_rejoin_to_credentials() {
    let a = args_with("bench:x:y", "https://localhost", "standard");
    let (user, pass) = a.auth_parts();
    assert_eq!(format!("{}:{}", user, pass), "bench:x:y");
}

#[test]
fn primary_url_takes_first_trimmed_target() {
    let a = args_with("a:b", "  https://node1:9996 , https://node2:9996", "standard");
    assert_eq!(a.primary_url(), "https://node1:9996");
    let b = args_with("a:b", "https://solo", "standard");
    assert_eq!(b.primary_url(), "https://solo");
    let c = args_with("a:b", "\u{a0}https://nbsp\t,x", "standard");
    assert_eq!(c.primary_url(), "https://nbsp");
    let d = args_with("a:b", ",https://second", "standard");
    assert_eq!(d.primary_url(), "");
}

#[test]
fn is_ramp_only_for_ramp_mode() {
    assert!(args_with("a:b", "https://x", "ramp").is_ramp());
    assert!(!args_with("a:b", "https://x", "standard").is_ramp());
    assert!(!args_with("a:b", "https://x", "Ramp").is_ramp());
    assert!(!args_with("a:b", "https://x", "ramp ").is_ramp());
}

#[test]
fn decimal_formatting_matches_to_string() {
    for n in [0u64, 7, 10, 99, 100, 12345, u64::MAX] {
        assert_eq!(u64_to_decimal(n), n.to_string());
    }
}

#[test]
fn split_list_trims_and_drops_empty_entries() {
    assert_eq!(split_list("a, ,b ,,  c"), vec!["a", "b", "c"]);
    assert_eq!(split_list(""), Vec::<String>::new());
    assert_eq!(split_list("https://one"), vec!["https://one"]);
}

#[test]
fn urlencoding_keeps_unreserved_and_escapes_the_rest() {
    assert_eq!(urlencoding("abc-_.~XYZ019".to_string()), "abc-_.~XYZ019");
    assert_eq!(urlencoding("a b".to_string()), "a%20b");
    assert_eq!(urlencoding("{\"k\":1}".to_string()), "%7B%22k%22%3A1%7D");
    assert_eq!(urlencoding("é".to_string()), "%C3%A9");
    assert_eq!(urlencoding(String::new()), "");
}

#[test]
fn graphql_url_with_and_without_route() {
    assert_eq!(graphql_url("https://h", ""), "https://h/app-benchmarks/graphql");
    assert_eq!(graphql_url("https://h", "v2"), "https://h/app-benchmarks/v2/graphql");
}

fn percent_decode(s: &str) -> Vec<u8> {
    let b = s.as_bytes();
    let mut out = Vec::new();
    let mut i = 0;
    while i < b.len() {
        if b[i] == b'%' && i + 2 < b.len() {
            let hex = std::str::from_utf8(&b[i + 1..i + 3]).unwrap();
            out.push(u8::from_str_radix(hex, 16).unwrap());
            i += 3;
        } else {
            out.push(b[i]);
            i += 1;
        }
    }
    out
}

#[test]
fn encoded_query_decodes_back() {
    for q in [
        "{\"conditions\":[{\"field\":\"embedding\",\"op\":\"vector\",\"value\":\"quantum computing\"}],\"limit\":10}",
        "100% ~safe_-. é ∑ %41",
        "",
    ] {
        let encoded = urlencoding(q.to_string());
        assert_eq!(percent_decode(&encoded), q.as_bytes());
    }
}

#[test]
fn targets_are_dealt_round_robin() {
    let targets = split_list("https://a:9996, https://b:9996,https://c:9996");
    assert_eq!(targets.len(), 3);
    let picked: Vec<&str> = (0..7u64).map(|vu| targets[target_index(vu, targets.len())].as_str()).collect();
    assert_eq!(
        picked,
        vec!["https://a:9996", "https://b:9996", "https://c:9996", "https://a:9996", "https://b:9996", "https://c:9996", "https://a:9996"]
    );
    assert_eq!(target_index(u64::MAX, 1), 0);
    assert_eq!(target_index(10, 4), 2);
}
