//! The DynamoDB requests of the clap handlers and the keys they use.
//!
//! One item of the `claps` table records the claps of one reader for one
//! post: its partition key `PK` is `POST#<slug>` and its sort key `SK` is
//! `#CLAP#<ip>`, and its attribute `claps` holds the count.

use vstd::prelude::*;

verus! {

/// A DynamoDB attribute value of the kinds the handlers use.
#[derive(Clone, Debug, PartialEq)]
pub enum AttrValue {
    /// A number, carried as its decimal text.
    N(String),
    /// A string.
    S(String),
}

/// An attribute value under a name (an attribute or a `:placeholder`).
#[derive(Clone, Debug, PartialEq)]
pub struct NamedAttr {
    pub name: String,
    pub value: AttrValue,
}

/// `a` is the string attribute `name` = `value`.
pub open spec fn is_string_attr(a: NamedAttr, name: Seq<char>, value: Seq<char>) -> bool {
    &&& a.name@ == name
    &&& a.value matches AttrValue::S(v) && v@ == value
}

/// `a` is the number attribute `name` whose decimal text is `text`.
pub open spec fn is_number_attr(a: NamedAttr, name: Seq<char>, text: Seq<char>) -> bool {
    &&& a.name@ == name
    &&& a.value matches AttrValue::N(v) && v@ == text
}

/// An `UpdateItem` request.
#[derive(Clone, Debug, PartialEq)]
pub struct UpdateRequest {
    pub table_name: String,
    pub key: Vec<NamedAttr>,
    pub update_expression: String,
    pub expression_attribute_values: Vec<NamedAttr>,
    pub condition_expression: String,
    pub return_values: String,
}

/// A `Query` request, without a start key.
#[derive(Clone, Debug, PartialEq)]
pub struct QueryRequest {
    pub table_name: String,
    pub key_condition_expression: String,
    pub expression_attribute_values: Vec<NamedAttr>,
}

/// The table that holds the claps.
pub open spec fn table_name() -> Seq<char> {
    "claps"@
}

/// The prefix of every clap sort key.
pub open spec fn clap_prefix() -> Seq<char> {
    "#CLAP#"@
}

/// The partition key of the claps of the post `slug`.
pub open spec fn post_key(slug: Seq<char>) -> Seq<char> {
    "POST#"@ + slug
}

/// The sort key of the claps of the reader at `ip`.
pub open spec fn clap_sort_key(ip: Seq<char>) -> Seq<char> {
    clap_prefix() + ip
}

/// The bytes of a sort key after its first six, where the handlers find the
/// reader's address; `None` where slicing the key there is not possible
/// (fewer than six bytes, or byte six inside a character).
pub open spec fn sort_key_ip(sk: Seq<char>) -> Option<Seq<u8>> {
    let b = vstd::utf8::encode_utf8(sk);
    if 6 <= b.len() && vstd::utf8::is_char_boundary(b, 6) {
        Some(b.subrange(6, b.len() as int))
    } else {
        None
    }
}

/// `"POST#" + slug`.
pub fn post_key_of(slug: &str) -> (k: String)
    ensures
        k@ == post_key(slug@),
{
    let mut k = "POST#".to_owned();
    k.append(slug);
    k
}

/// `"#CLAP#" + ip`.
pub fn clap_sort_key_of(ip: &str) -> (k: String)
    ensures
        k@ == clap_sort_key(ip@),
{
    let mut k = "#CLAP#".to_owned();
    k.append(ip);
    k
}

/// Whether the sort key `sk` names the reader at `ip`: its text after the
/// first six bytes is `ip`. `None` where the key cannot be sliced there.
pub fn sort_key_names(sk: &str, ip: &str) -> (r: Option<bool>)
    ensures
        r == (match sort_key_ip(sk@) {
            Some(tail) => Some(tail == vstd::utf8::encode_utf8(ip@)),
            None => None,
        }),
{
    let n = sk.as_bytes().len();
    if n < 6 {
        return None;
    }
    if !sk.is_char_boundary(6) {
        return None;
    }
    let (_, tail) = sk.split_at(6);
    let a = tail.as_bytes();
    let b = ip.as_bytes();
    let ghost full = vstd::utf8::encode_utf8(sk@);
    assert(a@ =~= full.subrange(6, full.len() as int));
    assert(sort_key_ip(sk@) == Some(a@));
    if a.len() != b.len() {
        return Some(false);
    }
    let m = a.len();
    for i in 0..m
        invariant
            m == a@.len(),
            m == b@.len(),
            b@ == vstd::utf8::encode_utf8(ip@),
            sort_key_ip(sk@) == Some(a@),
            forall|j: int| 0 <= j < i ==> a@[j] == b@[j],
    {
        if a[i] != b[i] {
            return Some(false);
        }
    }
    assert(a@ =~= b@);
    Some(true)
}

/// The UTF-8 encoding of a concatenation is the concatenation of the
/// encodings.
proof fn lemma_encode_utf8_concat(a: Seq<char>, b: Seq<char>)
    ensures
        vstd::utf8::encode_utf8(a + b) == vstd::utf8::encode_utf8(a) + vstd::utf8::encode_utf8(b),
    decreases a.len(),
{
    if a.len() == 0 {
        assert(a + b =~= b);
        assert(vstd::utf8::encode_utf8(a) =~= Seq::<u8>::empty());
        assert(Seq::<u8>::empty() + vstd::utf8::encode_utf8(b) =~= vstd::utf8::encode_utf8(b));
    } else {
        lemma_encode_utf8_concat(a.drop_first(), b);
        assert((a + b).drop_first() =~= a.drop_first() + b);
        assert((a + b)[0] == a[0]);
        let head = vstd::utf8::encode_scalar(a[0] as u32);
        assert(head + (vstd::utf8::encode_utf8(a.drop_first()) + vstd::utf8::encode_utf8(b))
            =~= (head + vstd::utf8::encode_utf8(a.drop_first())) + vstd::utf8::encode_utf8(b));
    }
}

/// The sort key written for the reader at `ip` is read back as exactly
/// `ip`: slicing it after six bytes succeeds and gives the bytes of `ip`,
/// so it names the reader at `other` just when `other` is `ip`.
pub proof fn lemma_clap_sort_key_names_its_reader(ip: Seq<char>, other: Seq<char>)
    ensures
        sort_key_ip(clap_sort_key(ip)) == Some(vstd::utf8::encode_utf8(ip)),
        (sort_key_ip(clap_sort_key(ip)) == Some(vstd::utf8::encode_utf8(other))) <==> other == ip,
{
    broadcast use vstd::utf8::is_ascii_chars_encode_utf8, vstd::utf8::encode_utf8_valid_utf8,
        vstd::utf8::encode_utf8_decode_utf8;

    reveal_strlit("#CLAP#");
    let p = clap_prefix();
    let ep = vstd::utf8::encode_utf8(p);
    let ei = vstd::utf8::encode_utf8(ip);
    let sk = clap_sort_key(ip);
    lemma_encode_utf8_concat(p, ip);
    let e = vstd::utf8::encode_utf8(sk);
    assert(vstd::utf8::is_ascii_chars(p));
    assert(ep.len() == 6);
    assert(e == ep + ei);
    assert(vstd::utf8::valid_utf8(e));
    if ei.len() == 0 {
        vstd::utf8::is_char_boundary_start_end_of_seq(e);
    } else {
        assert(vstd::utf8::valid_utf8(ei));
        vstd::utf8::is_char_boundary_iff_not_is_continuation_byte(ei, 0);
        assert(vstd::utf8::is_char_boundary(ei, 0));
        assert(e[6] == ei[0]);
        vstd::utf8::is_char_boundary_iff_not_is_continuation_byte(e, 6);
    }
    assert(e.subrange(6, e.len() as int) =~= ei);
    if ei == vstd::utf8::encode_utf8(other) {
        assert(vstd::utf8::decode_utf8(ei) == ip);
        assert(vstd::utf8::decode_utf8(vstd::utf8::encode_utf8(other)) == other);
    }
}


/// The partition key of a post is `POST#` followed by the whole slug: it is
/// five characters longer than the slug, dropping its first five characters
/// gives the slug back, and so different slugs have different keys.
pub proof fn lemma_post_key_keeps_slug(slug: Seq<char>, other: Seq<char>)
    ensures
        post_key(slug).len() == 5 + slug.len(),
        post_key(slug).subrange(0, 5) == seq!['P', 'O', 'S', 'T', '#'],
        post_key(slug).subrange(5, post_key(slug).len() as int) == slug,
        post_key(slug) == post_key(other) ==> slug == other,
{
    reveal_strlit("POST#");
    let k = post_key(slug);
    assert(k.subrange(0, 5) =~= seq!['P', 'O', 'S', 'T', '#']);
    assert(k.subrange(5, k.len() as int) =~= slug);
    let k2 = post_key(other);
    assert(k2.subrange(5, k2.len() as int) =~= other);
}

} // verus!
