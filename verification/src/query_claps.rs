//! The handler that reports the claps of a post: it queries every clap item
//! of the post, adds their counts, picks out the count of the reader asking,
//! and answers with a JSON summary.

use vstd::prelude::*;

use crate::dynamo::{
    clap_prefix, is_string_attr, post_key, sort_key_ip, sort_key_names, table_name, NamedAttr,
    QueryRequest, AttrValue, post_key_of,
};
pub use crate::gateway::{Identity, RequestContext};
use crate::gateway::{cors_json_header_list, cors_json_headers, source_ip, Header};
use crate::text::{int_text, int_to_text, json_quoted, parse_i32, parse_i32_spec, quote_json};

verus! {

/// The query string of the request.
#[derive(Clone, Debug, Default, PartialEq)]
pub struct QueryString {
    pub slug: Option<String>,
}

/// The gateway event the handler receives.
#[derive(Clone, Debug, Default, PartialEq)]
pub struct CustomEvent {
    pub query_string_parameters: Option<QueryString>,
    pub body: Option<String>,
    pub request_context: Option<RequestContext>,
}

/// The HTTP response.
#[derive(Clone, Debug, PartialEq)]
pub struct CustomOutput {
    pub is_base64_encoded: bool,
    pub status_code: u16,
    pub body: String,
    pub headers: Vec<Header>,
}

/// `out` is the successful answer with the body `body`: status 200, a plain
/// (not base64) body, and the JSON headers allowing any origin.
pub open spec fn ok_response(out: CustomOutput, body: Seq<char>) -> bool {
    &&& out.status_code == 200
    &&& !out.is_base64_encoded
    &&& out.body@ == body
    &&& cors_json_headers(out.headers@, "*"@)
}

impl CustomOutput {
    /// The successful answer with the body `body`.
    pub fn new(body: String) -> (out: Self)
        ensures
            ok_response(out, body@),
    {
        CustomOutput {
            is_base64_encoded: false,
            status_code: 200,
            body,
            headers: cors_json_header_list("*"),
        }
    }
}

/// The post asked about: the `slug` query parameter, or the empty text.
pub open spec fn slug_of(e: CustomEvent) -> Seq<char> {
    match e.query_string_parameters {
        Some(qs) => match qs.slug {
            Some(slug) => slug@,
            None => Seq::empty(),
        },
        None => Seq::empty(),
    }
}

/// The post asked about: the `slug` query parameter, or the empty text.
pub fn query_slug(e: &CustomEvent) -> (slug: String)
    ensures
        slug@ == slug_of(*e),
{
    let mut slug = String::new();
    if let Some(qs) = &e.query_string_parameters {
        if let Some(qs_slug) = &qs.slug {
            slug = qs_slug.clone();
        }
    }
    slug
}

/// The post the handler asks about is exactly the `slug` query parameter
/// when the event has one, whatever its length, and the query's `:pk` is
/// `POST#` followed by that whole parameter; with no parameter it is the
/// empty text.
pub proof fn lemma_slug_is_the_parameter(e: CustomEvent, q: QueryRequest)
    requires
        is_clap_query(q, slug_of(e)),
    ensures
        e.query_string_parameters matches Some(qs) ==> (qs.slug matches Some(s) ==> slug_of(e)
            == s@),
        !(e.query_string_parameters matches Some(qs) && qs.slug is Some) ==> slug_of(e).len() == 0,
        ({
            let pk = q.expression_attribute_values@[0].value;
            pk matches AttrValue::S(k) && k@.len() == 5 + slug_of(e).len() && k@.subrange(
                5,
                k@.len() as int,
            ) == slug_of(e)
        }),
{
    crate::dynamo::lemma_post_key_keeps_slug(slug_of(e), slug_of(e));
}

/// `q` asks for every clap item of the post `slug`: the items whose
/// partition key is `POST#<slug>` and whose sort key begins with `#CLAP#`.
pub open spec fn is_clap_query(q: QueryRequest, slug: Seq<char>) -> bool {
    &&& q.table_name@ == table_name()
    &&& q.key_condition_expression@ == "PK = :pk AND begins_with(SK, :sk)"@
    &&& q.expression_attribute_values@.len() == 2
    &&& is_string_attr(q.expression_attribute_values@[0], ":pk"@, post_key(slug))
    &&& is_string_attr(q.expression_attribute_values@[1], ":sk"@, clap_prefix())
}

/// The query for every clap item of the post `slug`.
pub fn clap_query(slug: &str) -> (q: QueryRequest)
    ensures
        is_clap_query(q, slug@),
{
    let pk = NamedAttr { name: ":pk".to_owned(), value: AttrValue::S(post_key_of(slug)) };
    let sk = NamedAttr { name: ":sk".to_owned(), value: AttrValue::S("#CLAP#".to_owned()) };
    QueryRequest {
        table_name: "claps".to_owned(),
        key_condition_expression: "PK = :pk AND begins_with(SK, :sk)".to_owned(),
        expression_attribute_values: vec![pk, sk],
    }
}

/// What the handler reads of one returned item: the number text of its
/// `claps` attribute and the string of its `SK` attribute, each `None` where
/// the item lacks it.
#[derive(Clone, Debug, Default, PartialEq)]
pub struct ClapRecord {
    pub claps: Option<String>,
    pub sort_key: Option<String>,
}

/// Why an item could not be counted.
#[derive(Clone, Copy, Debug, PartialEq, Eq)]
pub enum RecordFault {
    /// The item has no number attribute `claps`.
    MissingClaps,
    /// Its `claps` is not the text of an `i32`.
    InvalidClaps,
    /// Adding it would take the total out of the `i32` range.
    Overflow,
    /// The item has no string attribute `SK`.
    MissingSortKey,
    /// Its sort key cannot be cut after six bytes.
    UnsliceableSortKey,
}

/// Why a query result could not be summarised.
#[derive(Clone, Copy, Debug, PartialEq, Eq)]
pub enum QueryFault {
    /// The result holds no item list.
    MissingItems,
    /// The result holds no count.
    MissingCount,
    /// The item at `index` could not be counted.
    Record { index: usize, fault: RecordFault },
}

/// The running total and the reader's count after one more item.
pub open spec fn record_step(acc: (i32, i32), r: ClapRecord, ip: Seq<char>) -> Result<(i32, i32), RecordFault> {
    match r.claps {
        None => Err(RecordFault::MissingClaps),
        Some(text) => match parse_i32_spec(vstd::utf8::encode_utf8(text@)) {
            None => Err(RecordFault::InvalidClaps),
            Some(n) => if !(i32::MIN <= acc.0 + n <= i32::MAX) {
                Err(RecordFault::Overflow)
            } else {
                match r.sort_key {
                    None => Err(RecordFault::MissingSortKey),
                    Some(sk) => match sort_key_ip(sk@) {
                        None => Err(RecordFault::UnsliceableSortKey),
                        Some(tail) => Ok((
                            (acc.0 + n) as i32,
                            if tail == vstd::utf8::encode_utf8(ip) { n } else { acc.1 },
                        )),
                    },
                }
            },
        },
    }
}

/// The tally of `records` for the reader at `ip`, item by item from the
/// first: the sum of all counts and the count of the last item whose sort
/// key names the reader (0 when none does), or the first item that cannot be
/// counted, with its index.
pub open spec fn tally_spec(records: Seq<ClapRecord>, ip: Seq<char>) -> Result<(i32, i32), (int, RecordFault)>
    decreases records.len(),
{
    if records.len() == 0 {
        Ok((0, 0))
    } else {
        match tally_spec(records.drop_last(), ip) {
            Err(e) => Err(e),
            Ok(acc) => match record_step(acc, records.last(), ip) {
                Ok(next) => Ok(next),
                Err(f) => Err((records.len() - 1, f)),
            },
        }
    }
}

proof fn lemma_tally_fault_persists(records: Seq<ClapRecord>, ip: Seq<char>, i: int)
    requires
        0 <= i <= records.len(),
        tally_spec(records.take(i), ip) is Err,
    ensures
        tally_spec(records, ip) == tally_spec(records.take(i), ip),
    decreases records.len(),
{
    if i == records.len() {
        assert(records.take(i) =~= records);
    } else {
        let front = records.drop_last();
        assert(front.take(i) =~= records.take(i));
        lemma_tally_fault_persists(front, ip, i);
    }
}

/// The item's sort key, after its first six bytes, is exactly the bytes of
/// the address `ip`.
pub open spec fn names_reader(r: ClapRecord, ip: Seq<char>) -> bool {
    &&& r.sort_key matches Some(k)
    &&& vstd::utf8::encode_utf8(k@).len() >= 6
    &&& vstd::utf8::encode_utf8(k@).subrange(6, vstd::utf8::encode_utf8(k@).len() as int)
        == vstd::utf8::encode_utf8(ip)
}

/// The number an item's `claps` text stands for (0 where it stands for none).
pub open spec fn item_count(r: ClapRecord) -> int {
    match r.claps {
        Some(text) => match parse_i32_spec(vstd::utf8::encode_utf8(text@)) {
            Some(n) => n as int,
            None => 0,
        },
        None => 0,
    }
}

/// The sum of the numbers of the items.
pub open spec fn count_sum(records: Seq<ClapRecord>) -> int
    decreases records.len(),
{
    if records.len() == 0 {
        0
    } else {
        count_sum(records.drop_last()) + item_count(records.last())
    }
}

/// What a successful tally says of the items: the total is the sum of all
/// their numbers; the reader's count is the number of the last item whose
/// sort key after six bytes is exactly the reader's address, and 0 when no
/// item's is, so an item of another reader never becomes the reader's.
#[verifier::rlimit(40)]
pub proof fn lemma_tally_meaning(records: Seq<ClapRecord>, ip: Seq<char>)
    requires
        tally_spec(records, ip) is Ok,
    ensures
        match tally_spec(records, ip) {
            Ok((total, viewer)) => {
                &&& total == count_sum(records)
                &&& (forall|i: int| 0 <= i < records.len() ==> !names_reader(#[trigger] records[i], ip))
                    ==> viewer == 0
                &&& forall|i: int|
                    0 <= i < records.len() && names_reader(#[trigger] records[i], ip) && (forall|j: int|
                        i < j < records.len() ==> !names_reader(#[trigger] records[j], ip))
                        ==> viewer == item_count(records[i])
            },
            Err(_) => true,
        },
    decreases records.len(),
{
    if records.len() > 0 {
        let front = records.drop_last();
        let last = records.last();
        let n = records.len() - 1;
        lemma_tally_meaning(front, ip);
        let acc = tally_spec(front, ip)->Ok_0;
        let next = tally_spec(records, ip)->Ok_0;
        assert(record_step(acc, last, ip) == Ok::<(i32, i32), RecordFault>(next));
        let k = last.sort_key->Some_0;
        let tail = sort_key_ip(k@)->Some_0;
        assert(names_reader(last, ip) <==> tail == vstd::utf8::encode_utf8(ip));
        assert(next.0 == count_sum(records));
        if names_reader(last, ip) {
            assert(next.1 == item_count(last));
            assert forall|i: int|
                0 <= i < records.len() && names_reader(#[trigger] records[i], ip) && (forall|j: int|
                    i < j < records.len() ==> !names_reader(#[trigger] records[j], ip))
                    implies next.1 == item_count(records[i]) by {
                if i < n {
                    assert(!names_reader(records[n], ip));
                }
            }
        } else {
            assert(next.1 == acc.1);
            assert forall|i: int|
                0 <= i < records.len() && names_reader(#[trigger] records[i], ip) && (forall|j: int|
                    i < j < records.len() ==> !names_reader(#[trigger] records[j], ip))
                    implies next.1 == item_count(records[i]) by {
                assert(i < n);
                assert(records[i] == front[i]);
                assert forall|j: int| i < j < front.len() implies !names_reader(#[trigger] front[j], ip) by {
                    assert(front[j] == records[j]);
                }
            }
            if forall|i: int| 0 <= i < records.len() ==> !names_reader(#[trigger] records[i], ip) {
                assert forall|i: int| 0 <= i < front.len() implies !names_reader(#[trigger] front[i], ip) by {
                    assert(front[i] == records[i]);
                }
            }
        }
    }
}

/// The sum of the counts and the reader's own count.
#[derive(Clone, Copy, Debug, PartialEq, Eq)]
pub struct Tally {
    pub total: i32,
    pub viewer_claps: i32,
}

/// Counts one more item: the new running total and reader's count.
fn count_record(total: i32, viewer: i32, record: &ClapRecord, ip: &str) -> (r: Result<(i32, i32), RecordFault>)
    ensures
        r == record_step((total, viewer), *record, ip@),
{
    let claps = match &record.claps {
        None => return Err(RecordFault::MissingClaps),
        Some(text) => match parse_i32(text.as_str()) {
            None => return Err(RecordFault::InvalidClaps),
            Some(claps) => claps,
        },
    };
    let new_total = match total.checked_add(claps) {
        None => return Err(RecordFault::Overflow),
        Some(t) => t,
    };
    match &record.sort_key {
        None => Err(RecordFault::MissingSortKey),
        Some(sk) => match sort_key_names(sk.as_str(), ip) {
            None => Err(RecordFault::UnsliceableSortKey),
            Some(names_viewer) => Ok((new_total, if names_viewer { claps } else { viewer })),
        },
    }
}

/// Adds up the counts of `records` and picks out the count of the reader at
/// `ip`: the last item whose sort key, after its first six bytes, is `ip`.
pub fn tally_claps(records: &Vec<ClapRecord>, ip: &str) -> (r: Result<Tally, QueryFault>)
    ensures
        match (r, tally_spec(records@, ip@)) {
            (Ok(t), Ok((total, viewer))) => t.total == total && t.viewer_claps == viewer,
            (Err(QueryFault::Record { index, fault }), Err((i, f))) => index == i && fault == f,
            _ => false,
        },
{
    let mut total: i32 = 0;
    let mut viewer: i32 = 0;
    let n = records.len();
    assert(records@.take(0) =~= Seq::<ClapRecord>::empty());
    for i in 0..n
        invariant
            n == records@.len(),
            tally_spec(records@.take(i as int), ip@) == Ok::<(i32, i32), (int, RecordFault)>((total, viewer)),
    {
        let ghost prefix = records@.take(i + 1);
        assert(prefix.drop_last() =~= records@.take(i as int));
        assert(prefix.last() == records@[i as int]);
        let step = count_record(total, viewer, &records[i], ip);
        let fault = match step {
            Ok((new_total, new_viewer)) => {
                total = new_total;
                viewer = new_viewer;
                None
            },
            Err(f) => Some(f),
        };
        if let Some(f) = fault {
            proof {
                lemma_tally_fault_persists(records@, ip@, i + 1);
            }
            return Err(QueryFault::Record { index: i, fault: f });
        }
    }
    assert(records@.take(n as int) =~= records@);
    Ok(Tally { total, viewer_claps: viewer })
}

/// The JSON summary of a post: its slug, the total of its claps, the claps
/// of the reader asking and the number of readers who clapped.
pub open spec fn summary_body(slug: Seq<char>, total: int, viewer: int, voters: int) -> Seq<char> {
    "{\"slug\":"@ + json_quoted(slug) + ",\"total\":"@ + int_text(total) + ",\"viewerClapCount\":"@
        + int_text(viewer) + ",\"voterCount\":"@ + int_text(voters) + "}"@
}

/// The summary carries its numbers: after the quoted slug, the fields
/// `total`, `viewerClapCount` and `voterCount` hold texts that read as
/// exactly the given total, reader's count and number of readers.
pub proof fn lemma_summary_carries_numbers(slug: Seq<char>, total: int, viewer: int, voters: int)
    ensures
        exists|t1: Seq<char>, t2: Seq<char>, t3: Seq<char>|
            {
                &&& summary_body(slug, total, viewer, voters) == "{\"slug\":"@ + json_quoted(slug)
                    + ",\"total\":"@ + t1 + ",\"viewerClapCount\":"@ + t2 + ",\"voterCount\":"@ + t3
                    + "}"@
                &&& crate::text::reads_as_number(t1, total)
                &&& crate::text::reads_as_number(t2, viewer)
                &&& crate::text::reads_as_number(t3, voters)
            },
{
    crate::text::lemma_int_text_reads_as(total);
    crate::text::lemma_int_text_reads_as(viewer);
    crate::text::lemma_int_text_reads_as(voters);
    let t1 = int_text(total);
    let t2 = int_text(viewer);
    let t3 = int_text(voters);
    assert(summary_body(slug, total, viewer, voters) == "{\"slug\":"@ + json_quoted(slug)
        + ",\"total\":"@ + t1 + ",\"viewerClapCount\":"@ + t2 + ",\"voterCount\":"@ + t3 + "}"@);
}

/// The JSON summary of a post.
pub fn summary_text(slug: &str, total: i32, viewer: i32, voters: i64) -> (s: String)
    ensures
        s@ == summary_body(slug@, total as int, viewer as int, voters as int),
{
    let mut s = "{\"slug\":".to_owned();
    s.append(quote_json(slug).as_str());
    s.append(",\"total\":");
    s.append(int_to_text(total as i64).as_str());
    s.append(",\"viewerClapCount\":");
    s.append(int_to_text(viewer as i64).as_str());
    s.append(",\"voterCount\":");
    s.append(int_to_text(voters).as_str());
    s.append("}");
    s
}

/// What the query returned, as far as the handler reads it: the items (each
/// as a `ClapRecord`) and the count of matching items.
#[derive(Clone, Debug, Default, PartialEq)]
pub struct QueryOutcome {
    pub items: Option<Vec<ClapRecord>>,
    pub count: Option<i64>,
}

/// The request the handler makes and what it answers with.
#[derive(Clone, Debug, PartialEq)]
pub struct ClapQuery {
    /// The post asked about.
    pub slug: String,
    /// The reader asking.
    pub ip: String,
    /// The query for the post's clap items.
    pub request: QueryRequest,
}

/// The first half of the handler: the post and reader the event names and
/// the query to run.
pub fn prepare(e: CustomEvent) -> (q: ClapQuery)
    ensures
        q.slug@ == slug_of(e),
        q.ip@ == crate::gateway::source_ip_of(e.request_context),
        is_clap_query(q.request, slug_of(e)),
{
    let slug = query_slug(&e);
    let ip = source_ip(e.request_context);
    let request = clap_query(slug.as_str());
    ClapQuery { slug, ip, request }
}

/// The second half of the handler: the answer to the query result
/// `outcome`. The item list is read first, then the count, then the items in
/// order; the first thing missing or malformed is reported.
pub fn respond(q: &ClapQuery, outcome: QueryOutcome) -> (r: Result<CustomOutput, QueryFault>)
    ensures
        match outcome.items {
            None => r == Err::<CustomOutput, QueryFault>(QueryFault::MissingItems),
            Some(items) => match outcome.count {
                None => r == Err::<CustomOutput, QueryFault>(QueryFault::MissingCount),
                Some(count) => match (r, tally_spec(items@, q.ip@)) {
                    (Ok(out), Ok((total, viewer))) => ok_response(
                        out,
                        summary_body(q.slug@, total as int, viewer as int, count as int),
                    ),
                    (Err(QueryFault::Record { index, fault }), Err((i, f))) => index == i && fault
                        == f,
                    _ => false,
                },
            },
        },
{
    let items = match outcome.items {
        Some(items) => items,
        None => return Err(QueryFault::MissingItems),
    };
    let voter_count = match outcome.count {
        Some(count) => count,
        None => return Err(QueryFault::MissingCount),
    };
    let tally = tally_claps(&items, q.ip.as_str())?;
    let body = summary_text(q.slug.as_str(), tally.total, tally.viewer_claps, voter_count);
    Ok(CustomOutput::new(body))
}

} // verus!
