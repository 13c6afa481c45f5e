//! The REST load generator: which workload a test name selects, the tables it works
//! on, and the addresses its requests go to.

use vstd::prelude::*;
use crate::text::{decimal, push_str, str_eq, u64_to_decimal};

verus! {

/// Records per batch request of the batch-write workloads.
pub const WRITE_BATCH_SIZE: u64 = 100;

/// The kind of request a workload sends.
pub enum WorkloadKind {
    Read,
    Write,
    BatchWrite,
    Update,
    Join,
}

/// A workload: what it sends, the book table it uses and the author table, if any.
pub struct Workload {
    pub kind: WorkloadKind,
    pub book_table: &'static str,
    pub author_table: Option<&'static str>,
}

/// The REST workload a test name selects: (kind, book table, author table).
pub open spec fn rest_workload_spec(test: Seq<char>) -> Option<(WorkloadKind, Seq<char>, Option<Seq<char>>)> {
    if test == "rest-read"@ || test == "rest-read-ramp"@ || test == "rest-read-sustained"@ {
        Some((WorkloadKind::Read, "ReadBook"@, Some("ReadAuthor"@)))
    } else if test == "rest-write"@ || test == "rest-write-ramp"@ || test == "rest-write-sustained"@ {
        Some((WorkloadKind::Write, "WriteBook"@, Some("WriteAuthor"@)))
    } else if test == "rest-batch-write"@ {
        Some((WorkloadKind::BatchWrite, "BatchWriteBook"@, None))
    } else if test == "rest-update"@ {
        Some((WorkloadKind::Update, "UpdateBook"@, Some("UpdateAuthor"@)))
    } else if test == "rest-join"@ {
        Some((WorkloadKind::Join, "JoinBook"@, Some("JoinAuthor"@)))
    } else {
        None
    }
}

/// The word for a workload kind in a REST test name: `rest-<word>`.
pub open spec fn rest_kind_word(k: WorkloadKind) -> Seq<char> {
    match k {
        WorkloadKind::Read => "read"@,
        WorkloadKind::Write => "write"@,
        WorkloadKind::BatchWrite => "batch-write"@,
        WorkloadKind::Update => "update"@,
        WorkloadKind::Join => "join"@,
    }
}

/// The word for a workload kind in a table name: `<Word>Book`.
pub open spec fn kind_table_word(k: WorkloadKind) -> Seq<char> {
    match k {
        WorkloadKind::Read => "Read"@,
        WorkloadKind::Write => "Write"@,
        WorkloadKind::BatchWrite => "BatchWrite"@,
        WorkloadKind::Update => "Update"@,
        WorkloadKind::Join => "Join"@,
    }
}

/// `test` is `prefix` and `word`, possibly followed by `-ramp` or `-sustained`.
pub open spec fn names_word(test: Seq<char>, prefix: Seq<char>, word: Seq<char>) -> bool {
    ||| test == prefix + word
    ||| test == prefix + word + "-ramp"@
    ||| test == prefix + word + "-sustained"@
}

/// The kind of the workload a REST test name selects is the one the name says: a
/// selected workload's name is `rest-` and its kind's word (with an optional run-mode
/// suffix), and its book table is named after the same kind.
pub proof fn lemma_rest_kind_follows_name(test: Seq<char>)
    ensures
        match rest_workload_spec(test) {
            Some(w) => names_word(test, "rest-"@, rest_kind_word(w.0)) && w.1 == kind_table_word(w.0)
                + "Book"@,
            None => true,
        },
{
    reveal_rest_names();
}

/// Every kind has its REST test: `rest-<word>` selects a workload of that kind.
pub proof fn lemma_rest_name_selects_kind(k: WorkloadKind)
    ensures
        match rest_workload_spec("rest-"@ + rest_kind_word(k)) {
            Some(w) => w.0 == k,
            None => false,
        },
{
    reveal_rest_names();
    let t = "rest-"@ + rest_kind_word(k);
    match k {
        WorkloadKind::Read => assert(t =~= "rest-read"@),
        WorkloadKind::Write => {
            assert(t =~= "rest-write"@);
            assert(t != "rest-read-ramp"@ && t != "rest-read-sustained"@ && t[5] != "rest-read"@[5]);
        },
        WorkloadKind::BatchWrite => {
            assert(t =~= "rest-batch-write"@);
            assert(t[5] != "rest-read-sustained"@[5] && t[5] != "rest-write-ramp"@[5]);
        },
        WorkloadKind::Update => {
            assert(t =~= "rest-update"@);
            assert(t[5] != "rest-write"@[5] && t[5] != "rest-read-ramp"@[5]);
        },
        WorkloadKind::Join => {
            assert(t =~= "rest-join"@);
            assert(t[5] != "rest-read"@[5] && t[5] != "rest-write"@[5] && t[5] != "rest-update"@[5]);
        },
    }
}

proof fn reveal_rest_names()
    ensures
        "rest-"@ =~= seq!['r', 'e', 's', 't', '-'],
        "read"@ =~= seq!['r', 'e', 'a', 'd'],
        "write"@ =~= seq!['w', 'r', 'i', 't', 'e'],
        "batch-write"@ =~= seq!['b', 'a', 't', 'c', 'h', '-', 'w', 'r', 'i', 't', 'e'],
        "update"@ =~= seq!['u', 'p', 'd', 'a', 't', 'e'],
        "join"@ =~= seq!['j', 'o', 'i', 'n'],
        "-ramp"@ =~= seq!['-', 'r', 'a', 'm', 'p'],
        "-sustained"@ =~= seq!['-', 's', 'u', 's', 't', 'a', 'i', 'n', 'e', 'd'],
        "Book"@ =~= seq!['B', 'o', 'o', 'k'],
        "Read"@ =~= seq!['R', 'e', 'a', 'd'],
        "Write"@ =~= seq!['W', 'r', 'i', 't', 'e'],
        "BatchWrite"@ =~= seq!['B', 'a', 't', 'c', 'h', 'W', 'r', 'i', 't', 'e'],
        "Update"@ =~= seq!['U', 'p', 'd', 'a', 't', 'e'],
        "Join"@ =~= seq!['J', 'o', 'i', 'n'],
        "rest-read"@ =~= "rest-"@ + "read"@,
        "rest-read-ramp"@ =~= "rest-"@ + "read"@ + "-ramp"@,
        "rest-read-sustained"@ =~= "rest-"@ + "read"@ + "-sustained"@,
        "rest-write"@ =~= "rest-"@ + "write"@,
        "rest-write-ramp"@ =~= "rest-"@ + "write"@ + "-ramp"@,
        "rest-write-sustained"@ =~= "rest-"@ + "write"@ + "-sustained"@,
        "rest-batch-write"@ =~= "rest-"@ + "batch-write"@,
        "rest-update"@ =~= "rest-"@ + "update"@,
        "rest-join"@ =~= "rest-"@ + "join"@,
        "ReadBook"@ =~= "Read"@ + "Book"@,
        "WriteBook"@ =~= "Write"@ + "Book"@,
        "BatchWriteBook"@ =~= "BatchWrite"@ + "Book"@,
        "UpdateBook"@ =~= "Update"@ + "Book"@,
        "JoinBook"@ =~= "Join"@ + "Book"@,
{
    reveal_strlit("rest-");
    reveal_strlit("read");
    reveal_strlit("write");
    reveal_strlit("batch-write");
    reveal_strlit("update");
    reveal_strlit("join");
    reveal_strlit("-ramp");
    reveal_strlit("-sustained");
    reveal_strlit("Book");
    reveal_strlit("Read");
    reveal_strlit("Write");
    reveal_strlit("BatchWrite");
    reveal_strlit("Update");
    reveal_strlit("Join");
    reveal_strlit("rest-read");
    reveal_strlit("rest-read-ramp");
    reveal_strlit("rest-read-sustained");
    reveal_strlit("rest-write");
    reveal_strlit("rest-write-ramp");
    reveal_strlit("rest-write-sustained");
    reveal_strlit("rest-batch-write");
    reveal_strlit("rest-update");
    reveal_strlit("rest-join");
    reveal_strlit("ReadBook");
    reveal_strlit("WriteBook");
    reveal_strlit("BatchWriteBook");
    reveal_strlit("UpdateBook");
    reveal_strlit("JoinBook");
}

/// The view of a workload.
pub open spec fn workload_view(w: Workload) -> (WorkloadKind, Seq<char>, Option<Seq<char>>) {
    (
        w.kind,
        w.book_table@,
        match w.author_table {
            Some(a) => Some(a@),
            None => None,
        },
    )
}

/// The REST workload named `test`, if any.
pub fn rest_workload(test: &str) -> (r: Option<Workload>)
    ensures
        match r {
            Some(w) => rest_workload_spec(test@) == Some(workload_view(w)),
            None => rest_workload_spec(test@) is None,
        },
{
    if str_eq(test, "rest-read") || str_eq(test, "rest-read-ramp") || str_eq(test, "rest-read-sustained") {
        Some(Workload { kind: WorkloadKind::Read, book_table: "ReadBook", author_table: Some("ReadAuthor") })
    } else if str_eq(test, "rest-write") || str_eq(test, "rest-write-ramp") || str_eq(
        test,
        "rest-write-sustained",
    ) {
        Some(Workload { kind: WorkloadKind::Write, book_table: "WriteBook", author_table: Some("WriteAuthor") })
    } else if str_eq(test, "rest-batch-write") {
        Some(Workload { kind: WorkloadKind::BatchWrite, book_table: "BatchWriteBook", author_table: None })
    } else if str_eq(test, "rest-update") {
        Some(Workload { kind: WorkloadKind::Update, book_table: "UpdateBook", author_table: Some("UpdateAuthor") })
    } else if str_eq(test, "rest-join") {
        Some(Workload { kind: WorkloadKind::Join, book_table: "JoinBook", author_table: Some("JoinAuthor") })
    } else {
        None
    }
}

/// `{base}/app-benchmarks/{table}/`: the collection records are posted to.
pub open spec fn table_url_spec(base: Seq<char>, table: Seq<char>) -> Seq<char> {
    base + "/app-benchmarks/"@ + table + "/"@
}

/// `{base}/app-benchmarks/{table}/{id}`: one record.
pub open spec fn record_url_spec(base: Seq<char>, table: Seq<char>, id: Seq<char>) -> Seq<char> {
    base + "/app-benchmarks/"@ + table + "/"@ + id
}

/// The address a request of the workload `kind` goes to: a read selects the ID and
/// title of the record, a join adds the author's name, an update patches the record,
/// and writes post to the collection.
pub open spec fn request_url_spec(kind: WorkloadKind, base: Seq<char>, table: Seq<char>, id: Seq<char>) -> Seq<char> {
    match kind {
        WorkloadKind::Read => record_url_spec(base, table, id) + "?select=id,title"@,
        WorkloadKind::Join => record_url_spec(base, table, id) + "?select=id,title,author%7Bname%7D"@,
        WorkloadKind::Update => record_url_spec(base, table, id),
        WorkloadKind::Write | WorkloadKind::BatchWrite => table_url_spec(base, table),
    }
}

/// The collection address of `table`.
pub fn table_url(base: &str, table: &str) -> (r: String)
    ensures
        r@ == table_url_spec(base@, table@),
{
    let mut url = String::from_str(base);
    push_str(&mut url, "/app-benchmarks/");
    push_str(&mut url, table);
    push_str(&mut url, "/");
    url
}

/// The address of one request of the workload `kind` on the record `id` of `table`.
pub fn request_url(kind: &WorkloadKind, base: &str, table: &str, id: &str) -> (r: String)
    ensures
        r@ == request_url_spec(*kind, base@, table@, id@),
{
    match kind {
        WorkloadKind::Write | WorkloadKind::BatchWrite => table_url(base, table),
        _ => {
            let mut url = table_url(base, table);
            push_str(&mut url, id);
            match kind {
                WorkloadKind::Read => push_str(&mut url, "?select=id,title"),
                WorkloadKind::Join => push_str(&mut url, "?select=id,title,author%7Bname%7D"),
                _ => {},
            }
            url
        },
    }
}

/// The address listing the IDs of up to `limit` records of `table`.
pub open spec fn id_list_url_spec(base: Seq<char>, table: Seq<char>, limit: u64) -> Seq<char> {
    base + "/app-benchmarks/"@ + table + "?limit="@ + decimal(limit as nat) + "&select=id"@
}

/// The address listing the IDs of up to `limit` records of `table`.
pub fn id_list_url(base: &str, table: &str, limit: u64) -> (r: String)
    ensures
        r@ == id_list_url_spec(base@, table@, limit),
{
    let mut url = String::from_str(base);
    push_str(&mut url, "/app-benchmarks/");
    push_str(&mut url, table);
    push_str(&mut url, "?limit=");
    let n = u64_to_decimal(limit);
    push_str(&mut url, n.as_str());
    push_str(&mut url, "&select=id");
    url
}

/// The record a virtual user's `counter`-th request uses: the IDs are taken in turn.
pub fn pick_index(counter: u64, len: usize) -> (i: usize)
    requires
        len > 0,
    ensures
        i == (counter as usize) % len,
        i < len,
{
    (counter as usize) % len
}

/// Records seeded per virtual user for the update workload.
pub const UPDATE_RECORDS_PER_VU: u64 = 100;

/// The number of records the update workload seeds for `vus` virtual users.
pub fn update_record_count(vus: u64) -> (n: u64)
    requires
        vus * UPDATE_RECORDS_PER_VU <= u64::MAX,
    ensures
        n == vus * UPDATE_RECORDS_PER_VU,
{
    vus * UPDATE_RECORDS_PER_VU
}

} // verus!
