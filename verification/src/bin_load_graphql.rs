//! The GraphQL load generator: its endpoint address, which workload a test name
//! selects, and the query and mutation texts it sends.

use vstd::prelude::*;
use crate::text::{decimal, push_str, str_eq, u64_to_decimal, views};
use crate::bin_load_rest::{Workload, WorkloadKind, kind_table_word, names_word, workload_view};

verus! {

/// The GraphQL endpoint: `{base_url}/app-benchmarks/graphql`, or with the route
/// between the app and `graphql` when one is given.
pub fn graphql_url(base_url: &str, route: &str) -> (r: String)
    ensures
        r@ == if route@.len() == 0 {
            base_url@ + "/app-benchmarks/graphql"@
        } else {
            base_url@ + "/app-benchmarks/"@ + route@ + "/graphql"@
        },
{
    let mut url = String::from_str(base_url);
    if route.is_empty() {
        push_str(&mut url, "/app-benchmarks/graphql");
    } else {
        push_str(&mut url, "/app-benchmarks/");
        push_str(&mut url, route);
        push_str(&mut url, "/graphql");
    }
    url
}

/// The GraphQL workload a test name selects: (kind, book table, author table).
pub open spec fn graphql_workload_spec(test: Seq<char>) -> Option<(WorkloadKind, Seq<char>, Option<Seq<char>>)> {
    if test == "graphql-read"@ || test == "graphql-read-ramp"@ || test == "graphql-read-sustained"@ {
        Some((WorkloadKind::Read, "GqlReadBook"@, Some("GqlReadAuthor"@)))
    } else if test == "graphql-mutation"@ {
        Some((WorkloadKind::Write, "GqlWriteBook"@, Some("GqlWriteAuthor"@)))
    } else if test == "graphql-batch-write"@ {
        Some((WorkloadKind::BatchWrite, "GqlBatchWriteBook"@, None))
    } else if test == "graphql-update"@ {
        Some((WorkloadKind::Update, "GqlUpdateBook"@, None))
    } else if test == "graphql-join"@ {
        Some((WorkloadKind::Join, "GqlJoinBook"@, Some("GqlJoinAuthor"@)))
    } else {
        None
    }
}

/// The word for a workload kind in a GraphQL test name: `graphql-<word>`; writes are
/// called mutations.
pub open spec fn graphql_kind_word(k: WorkloadKind) -> Seq<char> {
    match k {
        WorkloadKind::Read => "read"@,
        WorkloadKind::Write => "mutation"@,
        WorkloadKind::BatchWrite => "batch-write"@,
        WorkloadKind::Update => "update"@,
        WorkloadKind::Join => "join"@,
    }
}

/// The kind of the workload a GraphQL test name selects is the one the name says: a
/// selected workload's name is `graphql-` and its kind's word (with an optional
/// run-mode suffix), and its book table is `Gql`, the kind's table word and `Book`.
pub proof fn lemma_graphql_kind_follows_name(test: Seq<char>)
    ensures
        match graphql_workload_spec(test) {
            Some(w) => names_word(test, "graphql-"@, graphql_kind_word(w.0)) && w.1 == "Gql"@
                + kind_table_word(w.0) + "Book"@,
            None => true,
        },
{
    reveal_graphql_names();
}

/// Every kind has its GraphQL test: `graphql-<word>` selects a workload of that kind.
pub proof fn lemma_graphql_name_selects_kind(k: WorkloadKind)
    ensures
        match graphql_workload_spec("graphql-"@ + graphql_kind_word(k)) {
            Some(w) => w.0 == k,
            None => false,
        },
{
    reveal_graphql_names();
    let t = "graphql-"@ + graphql_kind_word(k);
    match k {
        WorkloadKind::Read => assert(t =~= "graphql-read"@),
        WorkloadKind::Write => {
            assert(t =~= "graphql-mutation"@);
            assert(t[8] != "graphql-read"@[8] && t[8] != "graphql-read-ramp"@[8] && t[8]
                != "graphql-read-sustained"@[8]);
        },
        WorkloadKind::BatchWrite => {
            assert(t =~= "graphql-batch-write"@);
            assert(t[8] != "graphql-read"@[8] && t[8] != "graphql-read-ramp"@[8] && t[8]
                != "graphql-read-sustained"@[8] && t[8] != "graphql-mutation"@[8]);
        },
        WorkloadKind::Update => {
            assert(t =~= "graphql-update"@);
            assert(t[8] != "graphql-read"@[8] && t[8] != "graphql-read-ramp"@[8] && t[8]
                != "graphql-read-sustained"@[8] && t[8] != "graphql-mutation"@[8] && t[8]
                != "graphql-batch-write"@[8]);
        },
        WorkloadKind::Join => {
            assert(t =~= "graphql-join"@);
            assert(t[8] != "graphql-read"@[8] && t[8] != "graphql-read-ramp"@[8] && t[8]
                != "graphql-read-sustained"@[8] && t[8] != "graphql-mutation"@[8] && t[8]
                != "graphql-batch-write"@[8] && t[8] != "graphql-update"@[8]);
        },
    }
}

proof fn reveal_graphql_names()
    ensures
        "graphql-"@ =~= seq!['g', 'r', 'a', 'p', 'h', 'q', 'l', '-'],
        "read"@ =~= seq!['r', 'e', 'a', 'd'],
        "mutation"@ =~= seq!['m', 'u', 't', 'a', 't', 'i', 'o', 'n'],
        "batch-write"@ =~= seq!['b', 'a', 't', 'c', 'h', '-', 'w', 'r', 'i', 't', 'e'],
        "update"@ =~= seq!['u', 'p', 'd', 'a', 't', 'e'],
        "join"@ =~= seq!['j', 'o', 'i', 'n'],
        "-ramp"@ =~= seq!['-', 'r', 'a', 'm', 'p'],
        "-sustained"@ =~= seq!['-', 's', 'u', 's', 't', 'a', 'i', 'n', 'e', 'd'],
        "Gql"@ =~= seq!['G', 'q', 'l'],
        "Book"@ =~= seq!['B', 'o', 'o', 'k'],
        "Read"@ =~= seq!['R', 'e', 'a', 'd'],
        "Write"@ =~= seq!['W', 'r', 'i', 't', 'e'],
        "BatchWrite"@ =~= seq!['B', 'a', 't', 'c', 'h', 'W', 'r', 'i', 't', 'e'],
        "Update"@ =~= seq!['U', 'p', 'd', 'a', 't', 'e'],
        "Join"@ =~= seq!['J', 'o', 'i', 'n'],
        "graphql-read"@ =~= "graphql-"@ + "read"@,
        "graphql-read-ramp"@ =~= "graphql-"@ + "read"@ + "-ramp"@,
        "graphql-read-sustained"@ =~= "graphql-"@ + "read"@ + "-sustained"@,
        "graphql-mutation"@ =~= "graphql-"@ + "mutation"@,
        "graphql-batch-write"@ =~= "graphql-"@ + "batch-write"@,
        "graphql-update"@ =~= "graphql-"@ + "update"@,
        "graphql-join"@ =~= "graphql-"@ + "join"@,
        "GqlReadBook"@ =~= "Gql"@ + "Read"@ + "Book"@,
        "GqlWriteBook"@ =~= "Gql"@ + "Write"@ + "Book"@,
        "GqlBatchWriteBook"@ =~= "Gql"@ + "BatchWrite"@ + "Book"@,
        "GqlUpdateBook"@ =~= "Gql"@ + "Update"@ + "Book"@,
        "GqlJoinBook"@ =~= "Gql"@ + "Join"@ + "Book"@,
{
    reveal_strlit("graphql-");
    reveal_strlit("read");
    reveal_strlit("mutation");
    reveal_strlit("batch-write");
    reveal_strlit("update");
    reveal_strlit("join");
    reveal_strlit("-ramp");
    reveal_strlit("-sustained");
    reveal_strlit("Gql");
    reveal_strlit("Book");
    reveal_strlit("Read");
    reveal_strlit("Write");
    reveal_strlit("BatchWrite");
    reveal_strlit("Update");
    reveal_strlit("Join");
    reveal_strlit("graphql-read");
    reveal_strlit("graphql-read-ramp");
    reveal_strlit("graphql-read-sustained");
    reveal_strlit("graphql-mutation");
    reveal_strlit("graphql-batch-write");
    reveal_strlit("graphql-update");
    reveal_strlit("graphql-join");
    reveal_strlit("GqlReadBook");
    reveal_strlit("GqlWriteBook");
    reveal_strlit("GqlBatchWriteBook");
    reveal_strlit("GqlUpdateBook");
    reveal_strlit("GqlJoinBook");
}

/// The GraphQL workload named `test`, if any.
pub fn graphql_workload(test: &str) -> (r: Option<Workload>)
    ensures
        match r {
            Some(w) => graphql_workload_spec(test@) == Some(workload_view(w)),
            None => graphql_workload_spec(test@) is None,
        },
{
    if str_eq(test, "graphql-read") || str_eq(test, "graphql-read-ramp") || str_eq(test, "graphql-read-sustained") {
        Some(Workload { kind: WorkloadKind::Read, book_table: "GqlReadBook", author_table: Some("GqlReadAuthor") })
    } else if str_eq(test, "graphql-mutation") {
        Some(Workload { kind: WorkloadKind::Write, book_table: "GqlWriteBook", author_table: Some("GqlWriteAuthor") })
    } else if str_eq(test, "graphql-batch-write") {
        Some(Workload { kind: WorkloadKind::BatchWrite, book_table: "GqlBatchWriteBook", author_table: None })
    } else if str_eq(test, "graphql-update") {
        Some(Workload { kind: WorkloadKind::Update, book_table: "GqlUpdateBook", author_table: None })
    } else if str_eq(test, "graphql-join") {
        Some(Workload { kind: WorkloadKind::Join, book_table: "GqlJoinBook", author_table: Some("GqlJoinAuthor") })
    } else {
        None
    }
}

/// The first eight characters of a record ID. The IDs are UUID strings, all ASCII, so
/// these are also its first eight bytes.
pub fn short_id(id: &str) -> (r: &str)
    requires
        id@.len() >= 8,
    ensures
        r@ == id@.take(8),
{
    let r = id.substring_char(0, 8);
    proof {
        assert(id@.subrange(0, 8) =~= id@.take(8));
    }
    r
}

/// The query reading one book: `{ T(id: "ID") { id title price } }`.
pub open spec fn read_query_spec(table: Seq<char>, id: Seq<char>) -> Seq<char> {
    "{ "@ + table + "(id: \""@ + id + "\") { id title price } }"@
}

/// The query reading one book with its author: `{ T(id: "ID") { id title author { name } } }`.
pub open spec fn join_query_spec(table: Seq<char>, id: Seq<char>) -> Seq<char> {
    "{ "@ + table + "(id: \""@ + id + "\") { id title author { name } } }"@
}

/// One create call: `createT(input: { id: "ID", title: "TITLE", price: PRICE,
/// authorId: "bench-author-1" }) { id }`.
pub open spec fn create_call(table: Seq<char>, id: Seq<char>, title: Seq<char>, price: Seq<char>) -> Seq<char> {
    "create"@ + table + "(input: { id: \""@ + id + "\", title: \""@ + title + "\", price: "@ + price
        + ", authorId: \"bench-author-1\" }) { id }"@
}

/// A mutation holding one create call.
pub open spec fn create_mutation_spec(table: Seq<char>, id: Seq<char>, title: Seq<char>, price: Seq<char>) -> Seq<char> {
    "mutation { "@ + create_call(table, id, title, price) + " }"@
}

/// The update of one book's price: `mutation { updateT(id: "ID", input: { price: PRICE }) { id } }`.
pub open spec fn update_mutation_spec(table: Seq<char>, id: Seq<char>, price: Seq<char>) -> Seq<char> {
    "mutation { update"@ + table + "(id: \""@ + id + "\", input: { price: "@ + price + " }) { id } }"@
}

/// Aliased create call `i` of a batch: `mI: createT(...)` titled `Batch` and the short ID.
pub open spec fn batch_call(i: nat, table: Seq<char>, id: Seq<char>) -> Seq<char> {
    "m"@ + decimal(i) + ": "@ + create_call(table, id, "Batch "@ + id.take(8), "9.99"@)
}

/// The first `n` aliased create calls of a batch, separated by single spaces.
pub open spec fn batch_calls(table: Seq<char>, ids: Seq<Seq<char>>, n: nat) -> Seq<char>
    decreases n,
{
    if n == 0 {
        Seq::empty()
    } else if n == 1 {
        batch_call(0, table, ids[0])
    } else {
        batch_calls(table, ids, (n - 1) as nat) + " "@ + batch_call((n - 1) as nat, table, ids[n - 1])
    }
}

/// A batch mutation: one aliased create call per ID, in one request.
pub open spec fn batch_mutation_spec(table: Seq<char>, ids: Seq<Seq<char>>) -> Seq<char> {
    "mutation { "@ + batch_calls(table, ids, ids.len()) + " }"@
}

/// The query that reads the book `id` from `table`.
pub fn read_query(table: &str, id: &str) -> (r: String)
    ensures
        r@ == read_query_spec(table@, id@),
{
    let mut q = String::from_str("{ ");
    push_str(&mut q, table);
    push_str(&mut q, "(id: \"");
    push_str(&mut q, id);
    push_str(&mut q, "\") { id title price } }");
    q
}

/// The query that reads the book `id` from `table` together with its author's name.
pub fn join_query(table: &str, id: &str) -> (r: String)
    ensures
        r@ == join_query_spec(table@, id@),
{
    let mut q = String::from_str("{ ");
    push_str(&mut q, table);
    push_str(&mut q, "(id: \"");
    push_str(&mut q, id);
    push_str(&mut q, "\") { id title author { name } } }");
    q
}

fn push_create_call(q: &mut String, table: &str, id: &str, title: &str, price: &str)
    ensures
        final(q)@ == old(q)@ + create_call(table@, id@, title@, price@),
{
    push_str(q, "create");
    push_str(q, table);
    push_str(q, "(input: { id: \"");
    push_str(q, id);
    push_str(q, "\", title: \"");
    push_str(q, title);
    push_str(q, "\", price: ");
    push_str(q, price);
    push_str(q, ", authorId: \"bench-author-1\" }) { id }");
    proof {
        assert(final(q)@ =~= old(q)@ + create_call(table@, id@, title@, price@));
    }
}

/// The mutation creating the book `id` with `title` and the price text `price`.
pub fn create_mutation(table: &str, id: &str, title: &str, price: &str) -> (r: String)
    ensures
        r@ == create_mutation_spec(table@, id@, title@, price@),
{
    let mut q = String::from_str("mutation { ");
    push_create_call(&mut q, table, id, title, price);
    push_str(&mut q, " }");
    q
}

/// The mutation setting the price of the book `id` to the price text `price`.
pub fn update_mutation(table: &str, id: &str, price: &str) -> (r: String)
    ensures
        r@ == update_mutation_spec(table@, id@, price@),
{
    let mut q = String::from_str("mutation { update");
    push_str(&mut q, table);
    push_str(&mut q, "(id: \"");
    push_str(&mut q, id);
    push_str(&mut q, "\", input: { price: ");
    push_str(&mut q, price);
    push_str(&mut q, " }) { id } }");
    q
}

/// The batch mutation creating one book per ID, each under its own alias.
pub fn batch_mutation(table: &str, ids: &Vec<String>) -> (r: String)
    requires
        forall|i: int| 0 <= i < ids@.len() ==> #[trigger] ids@[i]@.len() >= 8,
        ids@.len() <= u64::MAX,
    ensures
        r@ == batch_mutation_spec(table@, views(ids@)),
{
    let ghost vs = views(ids@);
    let mut q = String::from_str("mutation { ");
    let n = ids.len();
    for i in 0..n
        invariant
            n == ids@.len(),
            vs == views(ids@),
            forall|k: int| 0 <= k < ids@.len() ==> #[trigger] ids@[k]@.len() >= 8,
            n <= u64::MAX,
            q@ == "mutation { "@ + batch_calls(table@, vs, i as nat),
    {
        let ghost before = q@;
        if i > 0 {
            push_str(&mut q, " ");
        }
        push_str(&mut q, "m");
        let alias = u64_to_decimal(i as u64);
        push_str(&mut q, alias.as_str());
        push_str(&mut q, ": ");
        let id = ids[i].as_str();
        assert(vs[i as int] == id@);
        let mut title = String::from_str("Batch ");
        push_str(&mut title, short_id(id));
        push_create_call(&mut q, table, id, title.as_str(), "9.99");
        proof {
            let call = batch_call(i as nat, table@, vs[i as int]);
            if i == 0 {
                assert(q@ =~= "mutation { "@ + call);
                assert(batch_calls(table@, vs, 1) == call);
            } else {
                assert(q@ =~= before + " "@ + call);
                assert(batch_calls(table@, vs, (i + 1) as nat) == batch_calls(table@, vs, i as nat) + " "@ + call);
                assert(q@ =~= "mutation { "@ + batch_calls(table@, vs, (i + 1) as nat));
            }
        }
    }
    push_str(&mut q, " }");
    proof {
        assert(vs.len() == n);
    }
    q
}

} // verus!
