//! What the query handler reads of what the post handler writes.

use vstd::prelude::*;

use crate::dynamo::{lemma_clap_sort_key_names_its_reader, sort_key_ip, AttrValue, NamedAttr, clap_sort_key};
use crate::post_claps::is_clap_update;
use crate::query_claps::{is_clap_query, record_step, ClapRecord, RecordFault};
use crate::text::{int_text, lemma_int_text_parses_back, parse_i32_spec};

verus! {

/// The text of an attribute value, number or string.
pub open spec fn attr_text(a: NamedAttr) -> Seq<char> {
    match a.value {
        AttrValue::N(v) => v@,
        AttrValue::S(v) => v@,
    }
}

/// The item that the post handler writes is the item that the query handler
/// reads for the same post, and it is read back as the writer's own with the
/// count that was sent: the partition key written is the `:pk` queried, the
/// sort key begins with the queried `:sk` prefix and, cut after its first six
/// bytes, gives back exactly the writer's address, and the number text
/// written parses back to the claps sent when they fit in an `i32`.
pub proof fn lemma_query_reads_what_post_writes(
    r: crate::dynamo::UpdateRequest,
    q: crate::dynamo::QueryRequest,
    slug: Seq<char>,
    claps: u32,
    ip: Seq<char>,
    other_ip: Seq<char>,
)
    requires
        is_clap_update(r, slug, claps, ip),
        is_clap_query(q, slug),
    ensures
        attr_text(r.key@[0]) == attr_text(q.expression_attribute_values@[0]),
        attr_text(q.expression_attribute_values@[1]).is_prefix_of(attr_text(r.key@[1])),
        sort_key_ip(attr_text(r.key@[1])) == Some(vstd::utf8::encode_utf8(ip)),
        (sort_key_ip(attr_text(r.key@[1])) == Some(vstd::utf8::encode_utf8(other_ip))) <==> other_ip
            == ip,
        claps <= i32::MAX ==> parse_i32_spec(
            vstd::utf8::encode_utf8(attr_text(r.expression_attribute_values@[0])),
        ) == Some(claps as i32),
{
    lemma_clap_sort_key_names_its_reader(ip, other_ip);
    let p = crate::dynamo::clap_prefix();
    assert(p.is_prefix_of(p + ip)) by {
        assert((p + ip).subrange(0, p.len() as int) =~= p);
    }
    if claps <= i32::MAX {
        lemma_int_text_parses_back(claps as i32);
    }
}

/// The update a post sends carries the whole request: the partition key is
/// `POST#` followed by the whole slug, the sort key is `#CLAP#` followed by
/// the whole address, and the `:inc` text reads as exactly the claps sent,
/// for every `u32`.
pub proof fn lemma_update_carries_request(
    r: crate::dynamo::UpdateRequest,
    slug: Seq<char>,
    claps: u32,
    ip: Seq<char>,
)
    requires
        is_clap_update(r, slug, claps, ip),
    ensures
        attr_text(r.key@[0]).len() == 5 + slug.len(),
        attr_text(r.key@[0]).subrange(5, attr_text(r.key@[0]).len() as int) == slug,
        attr_text(r.key@[1]).len() == 6 + ip.len(),
        attr_text(r.key@[1]).subrange(6, attr_text(r.key@[1]).len() as int) == ip,
        crate::text::reads_as_number(attr_text(r.expression_attribute_values@[0]), claps as int),
{
    crate::dynamo::lemma_post_key_keeps_slug(slug, slug);
    crate::text::lemma_int_text_reads_as(claps as int);
    reveal_strlit("#CLAP#");
    let k = attr_text(r.key@[1]);
    assert(k.subrange(6, k.len() as int) =~= ip);
}

/// An item holding the count text `int_text(n)` under the sort key of the
/// reader at `ip` adds `n` to the total and becomes that reader's count,
/// when the total stays within `i32`.
pub proof fn lemma_own_item_counts_for_its_reader(acc: (i32, i32), record: ClapRecord, n: i32, ip: Seq<char>)
    requires
        record.claps matches Some(c) && c@ == int_text(n as int),
        record.sort_key matches Some(k) && k@ == clap_sort_key(ip),
        i32::MIN <= acc.0 + n <= i32::MAX,
    ensures
        record_step(acc, record, ip) == Ok::<(i32, i32), RecordFault>(((acc.0 + n) as i32, n)),
{
    lemma_int_text_parses_back(n);
    lemma_clap_sort_key_names_its_reader(ip, ip);
}

} // verus!
