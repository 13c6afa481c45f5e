use app_benchmarks::benchmark_runner::{run_group, status_file_name};
use app_benchmarks::best_results::{best_run, RunScore};
use app_benchmarks::bin_load_blob::{blob_content, blob_url, is_blob_test};
use app_benchmarks::bin_load_graphql::{
    batch_mutation, create_mutation, join_query, read_query, short_id, update_mutation,
};
use app_benchmarks::bin_load_realtime::{expected_deliveries, realtime_test};
use app_benchmarks::bin_load_rest::{
    id_list_url, pick_index, request_url, table_url, update_record_count, WorkloadKind,
};
use app_benchmarks::bin_load_vector::{article_url, sample_topic, search_url, vector_table};
use app_benchmarks::common::{check_writes, storage_config_keys, successful_writes};

const ID: &str = "0f8fad5b-d9cb-469f-a165-70867728950e";

#[test]
fn graphql_queries() {
    assert_eq!(
        read_query("GqlReadBook", "abc"),
        "{ GqlReadBook(id: \"abc\") { id title price } }"
    );
    assert_eq!(
        join_query("GqlJoinBook", "abc"),
        "{ GqlJoinBook(id: \"abc\") { id title author { name } } }"
    );
    assert_eq!(short_id(ID), "0f8fad5b");
}

#[test]
fn graphql_mutations() {
    assert_eq!(
        create_mutation("GqlReadBook", "x1", "Seed Book 7", "9.99"),
        "mutation { createGqlReadBook(input: { id: \"x1\", title: \"Seed Book 7\", price: 9.99, authorId: \"bench-author-1\" }) { id } }"
    );
    assert_eq!(
        update_mutation("GqlUpdateBook", "x1", "42.50"),
        "mutation { updateGqlUpdateBook(id: \"x1\", input: { price: 42.50 }) { id } }"
    );
    let ids = vec!["aaaaaaaa-1".to_string(), "bbbbbbbb-2".to_string()];
    assert_eq!(
        batch_mutation("B", &ids),
        "mutation { m0: createB(input: { id: \"aaaaaaaa-1\", title: \"Batch aaaaaaaa\", price: 9.99, authorId: \"bench-author-1\" }) { id } m1: createB(input: { id: \"bbbbbbbb-2\", title: \"Batch bbbbbbbb\", price: 9.99, authorId: \"bench-author-1\" }) { id } }"
    );
    assert_eq!(batch_mutation("B", &Vec::new()), "mutation {  }");
}

#[test]
fn rest_addresses() {
    let base = "https://localhost";
    assert_eq!(table_url(base, "WriteBook"), "https://localhost/app-benchmarks/WriteBook/");
    assert_eq!(
        request_url(&WorkloadKind::Read, base, "ReadBook", "r1"),
        "https://localhost/app-benchmarks/ReadBook/r1?select=id,title"
    );
    assert_eq!(
        request_url(&WorkloadKind::Join, base, "JoinBook", "r1"),
        "https://localhost/app-benchmarks/JoinBook/r1?select=id,title,author%7Bname%7D"
    );
    assert_eq!(
        request_url(&WorkloadKind::Update, base, "UpdateBook", "r1"),
        "https://localhost/app-benchmarks/UpdateBook/r1"
    );
    assert_eq!(
        request_url(&WorkloadKind::Write, base, "WriteBook", "ignored"),
        "https://localhost/app-benchmarks/WriteBook/"
    );
    assert_eq!(
        id_list_url(base, "ReadBook", 10_000),
        "https://localhost/app-benchmarks/ReadBook?limit=10000&select=id"
    );
}

#[test]
fn ids_are_taken_in_turn() {
    let picks: Vec<usize> = (0..7u64).map(|c| pick_index(c, 3)).collect();
    assert_eq!(picks, vec![0, 1, 2, 0, 1, 2, 0]);
    assert_eq!(update_record_count(50), 5000);
}

#[test]
fn vector_tests_and_addresses() {
    assert_eq!(vector_table("vector-embed"), Some("EmbedArticle"));
    assert_eq!(vector_table("vector-search"), Some("SearchArticle"));
    assert_eq!(vector_table("vector-other"), None);
    assert_eq!(sample_topic(0), "technology innovation artificial intelligence");
    assert_eq!(sample_topic(9), "cybersecurity threat detection");
    assert_eq!(sample_topic(13), "quantum computing breakthroughs");
    assert_eq!(article_url("https://h", "", "SearchArticle"), "https://h/app-benchmarks/SearchArticle/");
    assert_eq!(article_url("https://h", "v2", "SearchArticle"), "https://h/app-benchmarks/v2/SearchArticle/");
    assert_eq!(
        search_url("https://h", "", "SearchArticle", "{\"limit\":10}".to_string()),
        "https://h/app-benchmarks/SearchArticle/?query=%7B%22limit%22%3A10%7D"
    );
}

#[test]
fn blob_article() {
    let content = blob_content();
    assert_eq!(content.len(), 153_900);
    assert!(content.starts_with("Lorem ipsum dolor sit amet, consectetur adipiscing elit. Lorem"));
    assert_eq!(content, "Lorem ipsum dolor sit amet, consectetur adipiscing elit. ".repeat(2700));
    assert!(is_blob_test("blob-retrieval"));
    assert!(!is_blob_test("blob"));
    assert_eq!(blob_url("https://h", "b1"), "https://h/app-benchmarks/BlobData/b1");
}

#[test]
fn write_verification() {
    assert_eq!(successful_writes(1000, 3), 997);
    let c = check_writes(Some(997), 997);
    assert!(c.matched && c.record_count == 997 && c.expected == 997);
    let short = check_writes(Some(10), 997);
    assert!(!short.matched);
    let missing = check_writes(None, 1);
    assert_eq!(missing.record_count, 0);
    assert!(!missing.matched);
    assert!(check_writes(None, 0).matched);
    let keys = vec!["wal".to_string(), "rocksdb".to_string(), "cache".to_string(), "wal".to_string()];
    assert_eq!(storage_config_keys(&keys), vec![1, 2]);
    assert!(storage_config_keys(&vec!["wal".to_string()]).is_empty());
}

#[test]
fn realtime_names_and_deliveries() {
    for name in ["ws", "ws-ramp", "ws-publish", "sse", "sse-ramp", "mqtt"] {
        assert_eq!(realtime_test(name).unwrap().name(), name);
    }
    assert_eq!(expected_deliveries(100, 50), Some(5000));
    assert_eq!(expected_deliveries(0, 50), None);
    assert_eq!(expected_deliveries(100, 0), None);
}

#[test]
fn runner_names() {
    assert_eq!(run_group("rest-read", 1_700_000_000), "rest-read-1700000000");
    assert_eq!(run_group("ws", 0), "ws-0");
    assert_eq!(status_file_name(4242), "yeti-bench-4242.status");
}

fn score(test: Option<&str>, tenths: u64, total: u64, errors: u64) -> RunScore {
    RunScore {
        test_name: test.map(String::from),
        throughput_tenths: tenths,
        total,
        errors,
    }
}

#[test]
fn best_run_picks_highest_valid_throughput() {
    let runs = vec![
        score(Some("rest-read"), 245_312, 735_936, 0),
        score(Some("rest-read"), 300_000, 1000, 11),
        score(Some("rest-write"), 900_000, 1000, 0),
        score(Some("rest-read"), 250_000, 1000, 10),
        score(None, 999_999, 10, 0),
        score(Some("rest-read"), 250_000, 500, 0),
        score(Some("rest-read"), 999_999, 0, 0),
    ];
    // 300000 has 1.1% errors; the 1.0% run at 250000 wins over the later equal one.
    assert_eq!(best_run(&runs, "rest-read"), Some(3));
    assert_eq!(best_run(&runs, "rest-write"), Some(2));
    assert_eq!(best_run(&runs, "graphql-read"), None);
    assert_eq!(best_run(&Vec::new(), "rest-read"), None);
}
