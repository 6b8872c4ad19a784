//! The codec: the wire document an error object serializes to, and the
//! inverse decoding, with an exact statement of which fields are emitted,
//! which inputs decode, and which error each malformed input earns.
use vstd::prelude::*;
use vstd::string::StringExecFns;
use crate::builder::detail_of_doc;
use crate::document::deep_view_pairs;
use crate::document::lemma_deep_view_pairs;
use crate::document::lemma_deep_view_pairs_push;
use crate::document::DocValue;
use crate::document::DocView;
use crate::ident::parse_uuid;
use crate::ident::parse_uuid_chars;
use crate::ident::render_uuid;
use crate::ident::uuid_chars;
use crate::ident::lemma_uuid_roundtrip;
use crate::object::detail_entries;
use crate::object::detail_norm;
use crate::object::find_key;
use crate::object::keys_unique;
use crate::object::lemma_find_key;
use crate::object::lemma_upsert_map;
use crate::object::lemma_upsert_norm;
use crate::object::upsert;
use crate::object::upsert_detail;
use crate::object::DetailValue;
use crate::object::DetailView;
use crate::object::Terror;
use crate::object::TerrorView;
use crate::timestamp::parse_rfc3339;
use crate::timestamp::parse_rfc3339_chars;
use crate::timestamp::lemma_rfc3339_roundtrip;
use crate::timestamp::Timestamp;

verus! {

broadcast use vstd::std_specs::vec::group_vec_axioms, vstd::string::group_string_axioms;

/// Why a document failed to decode into an error object: the field, or the
/// expectation on it, that was violated.
#[derive(Clone, Copy, Debug, PartialEq, Eq, Structural)]
pub enum DecodeError {
    /// The document is not an object.
    NotAnObject,
    /// The required `status` field is missing.
    MissingStatus,
    /// The `status` field is not an integer in the unsigned 16-bit range.
    BadStatus,
    /// The required `message` field is missing.
    MissingMessage,
    /// The `message` field is not text.
    BadMessage,
    /// The `short_message` field is present but not text.
    BadShortMessage,
    /// The `error_code` field is present but not text.
    BadErrorCode,
    /// The `details` field is present but not an object.
    BadDetails,
    /// The `reference` field is present but not text.
    BadReference,
    /// The `timestamp` field is present but not an RFC 3339 text.
    BadTimestamp,
    /// The `id` field is present but not a hyphenated hexadecimal
    /// identifier text.
    BadIdentifier,
}

/// The entry a document object carries for key `k`: the last one bearing
/// the key, as later entries override earlier ones.
pub open spec fn doc_lookup(pairs: Seq<(Seq<char>, DocView)>, k: Seq<char>) -> Option<DocView>
    decreases pairs.len(),
{
    if pairs.len() == 0 {
        None
    } else if pairs.last().0 == k {
        Some(pairs.last().1)
    } else {
        doc_lookup(pairs.drop_last(), k)
    }
}

/// The document value a stored detail serializes to: scalars as scalar
/// documents, a structured detail as its document.
pub open spec fn doc_of_detail(d: DetailView) -> DocView {
    match d {
        DetailView::Text(s) => DocView::Text(s),
        DetailView::Int(i) => DocView::Int(i),
        DetailView::Bool(b) => DocView::Bool(b),
        DetailView::Null => DocView::Null,
        DetailView::Structured(doc) => doc,
    }
}

/// The document object entries of a details sequence, in storage order.
pub open spec fn encode_details(s: Seq<(Seq<char>, DetailView)>) -> Seq<(Seq<char>, DocView)> {
    s.map_values(|p: (Seq<char>, DetailView)| (p.0, doc_of_detail(p.1)))
}

/// One optional text field: a singleton entry when present, nothing when
/// absent.
pub open spec fn opt_text_pair(o: Option<Seq<char>>, name: Seq<char>) -> Seq<(Seq<char>, DocView)> {
    match o {
        Some(s) => seq![(name, DocView::Text(s))],
        None => Seq::empty(),
    }
}

/// The `details` entry: present only when the details are non-empty.
pub open spec fn details_pairs(v: TerrorView) -> Seq<(Seq<char>, DocView)> {
    if v.details.len() > 0 {
        seq![("details"@, DocView::Object(encode_details(v.details)))]
    } else {
        Seq::empty()
    }
}

/// The creation instant as text, when present.
pub open spec fn timestamp_text(v: TerrorView) -> Option<Seq<char>> {
    match v.timestamp {
        Some(t) => Some(t.rfc3339_chars()),
        None => None,
    }
}

/// The identifier as text, when present.
pub open spec fn id_text(v: TerrorView) -> Option<Seq<char>> {
    match v.id {
        Some(i) => Some(uuid_chars(i)),
        None => None,
    }
}

/// The entries of the wire document of an error object: one per present
/// field, in the fixed field order.
pub open spec fn encode_pairs(v: TerrorView) -> Seq<(Seq<char>, DocView)> {
    seq![("status"@, DocView::Int(v.status as i64)), ("message"@, DocView::Text(v.message))]
        + opt_text_pair(v.short_message, "short_message"@) + opt_text_pair(
        v.error_code,
        "error_code"@,
    ) + details_pairs(v) + opt_text_pair(v.reference, "reference"@) + opt_text_pair(
        timestamp_text(v),
        "timestamp"@,
    ) + opt_text_pair(id_text(v), "id"@)
}

/// The wire document of an error object: one entry per present field, in
/// the fixed field order; absent optional fields are omitted entirely, empty
/// details are omitted, and tags are never serialized.
pub open spec fn encode_view(v: TerrorView) -> DocView {
    DocView::Object(encode_pairs(v))
}

/// The details a document object decodes to: each entry classified and
/// inserted in order, later entries overriding earlier ones.
pub open spec fn decode_details(pairs: Seq<(Seq<char>, DocView)>) -> Seq<(Seq<char>, DetailView)>
    decreases pairs.len(),
{
    if pairs.len() == 0 {
        Seq::empty()
    } else {
        upsert(
            decode_details(pairs.drop_last()),
            pairs.last().0,
            detail_of_doc(pairs.last().1),
        )
    }
}

/// The decoded `status`: required, an integer in the unsigned 16-bit range.
pub open spec fn field_status(pairs: Seq<(Seq<char>, DocView)>) -> Result<u16, DecodeError> {
    match doc_lookup(pairs, "status"@) {
        None => Err(DecodeError::MissingStatus),
        Some(DocView::Int(n)) => if 0 <= n <= 65535 {
            Ok(n as u16)
        } else {
            Err(DecodeError::BadStatus)
        },
        Some(_) => Err(DecodeError::BadStatus),
    }
}

/// The decoded `message`: required text.
pub open spec fn field_message(pairs: Seq<(Seq<char>, DocView)>) -> Result<Seq<char>, DecodeError> {
    match doc_lookup(pairs, "message"@) {
        None => Err(DecodeError::MissingMessage),
        Some(DocView::Text(s)) => Ok(s),
        Some(_) => Err(DecodeError::BadMessage),
    }
}

/// An optional text field: absent decodes to `None`, text to `Some`, any
/// other value to the given error.
pub open spec fn field_opt_text(
    pairs: Seq<(Seq<char>, DocView)>,
    name: Seq<char>,
    e: DecodeError,
) -> Result<Option<Seq<char>>, DecodeError> {
    match doc_lookup(pairs, name) {
        None => Ok(None),
        Some(DocView::Text(s)) => Ok(Some(s)),
        Some(_) => Err(e),
    }
}

/// The decoded `details`: absent decodes to the empty mapping, an object to
/// its classified entries, any other value to an error.
pub open spec fn field_details(pairs: Seq<(Seq<char>, DocView)>) -> Result<
    Seq<(Seq<char>, DetailView)>,
    DecodeError,
> {
    match doc_lookup(pairs, "details"@) {
        None => Ok(Seq::empty()),
        Some(DocView::Object(ps)) => Ok(decode_details(ps)),
        Some(_) => Err(DecodeError::BadDetails),
    }
}

/// The decoded `timestamp`: absent decodes to `None`, an RFC 3339 text to
/// the instant it denotes, anything else to an error.
pub open spec fn field_timestamp(pairs: Seq<(Seq<char>, DocView)>) -> Result<
    Option<Timestamp>,
    DecodeError,
> {
    match doc_lookup(pairs, "timestamp"@) {
        None => Ok(None),
        Some(DocView::Text(s)) => match parse_rfc3339_chars(s) {
            Some(t) => Ok(Some(t)),
            None => Err(DecodeError::BadTimestamp),
        },
        Some(_) => Err(DecodeError::BadTimestamp),
    }
}

/// The decoded `id`: absent decodes to `None`, a hyphenated hexadecimal
/// text to the identifier it denotes, anything else to an error.
pub open spec fn field_id(pairs: Seq<(Seq<char>, DocView)>) -> Result<Option<u128>, DecodeError> {
    match doc_lookup(pairs, "id"@) {
        None => Ok(None),
        Some(DocView::Text(s)) => match parse_uuid_chars(s) {
            Some(i) => Ok(Some(i)),
            None => Err(DecodeError::BadIdentifier),
        },
        Some(_) => Err(DecodeError::BadIdentifier),
    }
}

/// The error object a document object decodes to, or the first violated
/// expectation in field order.
pub open spec fn decode_obj(pairs: Seq<(Seq<char>, DocView)>) -> Result<TerrorView, DecodeError> {
    match field_status(pairs) {
        Err(e) => Err(e),
        Ok(status) => match field_message(pairs) {
            Err(e) => Err(e),
            Ok(message) => match field_opt_text(pairs, "short_message"@, DecodeError::BadShortMessage) {
                Err(e) => Err(e),
                Ok(short_message) => match field_opt_text(pairs, "error_code"@, DecodeError::BadErrorCode) {
                    Err(e) => Err(e),
                    Ok(error_code) => match field_details(pairs) {
                        Err(e) => Err(e),
                        Ok(details) => match field_opt_text(pairs, "reference"@, DecodeError::BadReference) {
                            Err(e) => Err(e),
                            Ok(reference) => match field_timestamp(pairs) {
                                Err(e) => Err(e),
                                Ok(timestamp) => match field_id(pairs) {
                                    Err(e) => Err(e),
                                    Ok(id) => Ok(
                                        TerrorView {
                                            status,
                                            message,
                                            short_message,
                                            error_code,
                                            details,
                                            reference,
                                            timestamp,
                                            id,
                                            tags: Seq::empty(),
                                        },
                                    ),
                                },
                            },
                        },
                    },
                },
            },
        },
    }
}

/// The error object a wire document decodes to; unknown fields are ignored,
/// and a document that is not an object is refused.
pub open spec fn decode_view(d: DocView) -> Result<TerrorView, DecodeError> {
    match d {
        DocView::Object(pairs) => decode_obj(pairs),
        _ => Err(DecodeError::NotAnObject),
    }
}

/// Serializes one stored detail into its document value.
fn detail_to_doc(d: &DetailValue) -> (r: DocValue)
    ensures
        r.deep_view() == doc_of_detail(d.deep_view()),
{
    match d {
        DetailValue::Text(s) => DocValue::Text(s.clone()),
        DetailValue::Int(i) => DocValue::Int(*i),
        DetailValue::Bool(b) => DocValue::Bool(*b),
        DetailValue::Null => DocValue::Null,
        DetailValue::Structured(doc) => doc.dup(),
    }
}

/// Classifies one document value into the detail it is stored as.
fn doc_to_detail(d: &DocValue) -> (r: DetailValue)
    ensures
        r.deep_view() == detail_of_doc(d.deep_view()),
{
    match d {
        DocValue::Null => DetailValue::Null,
        DocValue::Bool(b) => DetailValue::Bool(*b),
        DocValue::Int(i) => DetailValue::Int(*i),
        DocValue::Text(s) => DetailValue::Text(s.clone()),
        composite => DetailValue::Structured(composite.dup()),
    }
}

/// Every classified document decodes to a normalized detail.
proof fn lemma_detail_of_doc_norm(d: DocView)
    ensures
        detail_norm(detail_of_doc(d)),
{
}

/// Decoded details always carry unique keys and normalized values.
pub proof fn lemma_decode_details_wf(pairs: Seq<(Seq<char>, DocView)>)
    ensures
        keys_unique(decode_details(pairs)),
        forall|i: int| 0 <= i < decode_details(pairs).len() ==> detail_norm(
            (#[trigger] decode_details(pairs)[i]).1,
        ),
    decreases pairs.len(),
{
    if pairs.len() > 0 {
        lemma_decode_details_wf(pairs.drop_last());
        let prev = decode_details(pairs.drop_last());
        lemma_upsert_map(prev, pairs.last().0, detail_of_doc(pairs.last().1));
        lemma_detail_of_doc_norm(pairs.last().1);
        lemma_upsert_norm(prev, pairs.last().0, detail_of_doc(pairs.last().1));
    }
}

/// Finds the entry for `k` in a document object, scanning so that the last
/// entry bearing the key wins.
#[verifier::loop_isolation(false)]
fn lookup<'a>(pairs: &'a Vec<(String, DocValue)>, k: &str) -> (r: Option<&'a DocValue>)
    ensures
        match r {
            Some(x) => doc_lookup(deep_view_pairs(pairs@), k@) == Some(x.deep_view()),
            None => doc_lookup(deep_view_pairs(pairs@), k@) is None,
        },
{
    let ghost pv = deep_view_pairs(pairs@);
    proof {
        lemma_deep_view_pairs(pairs@);
        assert(pv.take(pv.len() as int) =~= pv);
    }
    let mut i: usize = pairs.len();
    while i > 0
        invariant
            i <= pairs.len(),
            doc_lookup(pv, k@) == doc_lookup(pv.take(i as int), k@),
        decreases i,
    {
        i -= 1;
        if crate::text::str_eq(pairs[i].0.as_str(), k) {
            proof {
                assert(pv[i as int].0 == k@);
                assert(pv.take(i + 1 as int).last() == pv[i as int]);
            }
            return Some(&pairs[i].1);
        }
        proof {
            assert(pv.take(i + 1 as int).last() == pv[i as int]);
            assert(pv.take(i + 1 as int).drop_last() =~= pv.take(i as int));
        }
    }
    proof {
        assert(pv.take(0) =~= Seq::<(Seq<char>, DocView)>::empty());
    }
    None
}

/// Reads one optional text field, cloning the text out.
fn take_opt_text(pairs: &Vec<(String, DocValue)>, k: &str, e: DecodeError) -> (r: Result<
    Option<String>,
    DecodeError,
>)
    ensures
        r matches Ok(o) ==> field_opt_text(deep_view_pairs(pairs@), k@, e) == Ok::<
            Option<Seq<char>>,
            DecodeError,
        >(
            match o {
                Some(s) => Some(s@),
                None => None,
            },
        ),
        r matches Err(err) ==> field_opt_text(deep_view_pairs(pairs@), k@, e) == Err::<
            Option<Seq<char>>,
            DecodeError,
        >(err),
{
    match lookup(pairs, k) {
        None => Ok(None),
        Some(DocValue::Text(s)) => Ok(Some(s.clone())),
        Some(_) => Err(e),
    }
}

/// Appends one document object entry.
fn push_pair(pairs: &mut Vec<(String, DocValue)>, name: &str, value: DocValue)
    ensures
        deep_view_pairs(final(pairs)@) == deep_view_pairs(old(pairs)@).push(
            (name@, value.deep_view()),
        ),
{
    let owned = String::from_str(name);
    let ghost entry = (owned, value);
    pairs.push((owned, value));
    proof {
        lemma_deep_view_pairs_push(old(pairs)@, entry);
    }
}

/// Serializes an error object into its wire document: one entry per present
/// field, in the fixed field order; an absent short message, error code,
/// reference, timestamp or identifier is omitted, empty details are omitted,
/// and tags are never serialized.
#[verifier::loop_isolation(false)]
pub fn encode(t: &Terror) -> (d: DocValue)
    requires
        t@.wf(),
    ensures
        d.deep_view() == encode_view(t@),
{
    let ghost v = t@;
    let mut pairs: Vec<(String, DocValue)> = Vec::new();
    proof {
        assert(deep_view_pairs(pairs@) =~= Seq::<(Seq<char>, DocView)>::empty());
    }
    let ghost base = seq![
        ("status"@, DocView::Int(v.status as i64)),
        ("message"@, DocView::Text(v.message)),
    ];
    push_pair(&mut pairs, "status", DocValue::Int(t.status as i64));
    push_pair(&mut pairs, "message", DocValue::Text(t.message.clone()));
    proof {
        assert(deep_view_pairs(pairs@) =~= base);
    }
    if let Some(s) = &t.short_message {
        push_pair(&mut pairs, "short_message", DocValue::Text(s.clone()));
    }
    proof {
        assert(deep_view_pairs(pairs@) =~= base + opt_text_pair(v.short_message, "short_message"@));
    }
    let ghost g1 = base + opt_text_pair(v.short_message, "short_message"@);
    if let Some(s) = &t.error_code {
        push_pair(&mut pairs, "error_code", DocValue::Text(s.clone()));
    }
    proof {
        assert(deep_view_pairs(pairs@) =~= g1 + opt_text_pair(v.error_code, "error_code"@));
    }
    let ghost g2 = g1 + opt_text_pair(v.error_code, "error_code"@);
    if t.details.len() > 0 {
        let mut dp: Vec<(String, DocValue)> = Vec::new();
        proof {
            assert(deep_view_pairs(dp@) =~= Seq::<(Seq<char>, DocView)>::empty());
            assert(encode_details(v.details).take(0) =~= Seq::<(Seq<char>, DocView)>::empty());
        }
        let mut i: usize = 0;
        while i < t.details.len()
            invariant
                i <= t.details.len(),
                deep_view_pairs(dp@) == encode_details(v.details).take(i as int),
            decreases t.details.len() - i,
        {
            let key = t.details[i].0.clone();
            let doc = detail_to_doc(&t.details[i].1);
            let ghost entry = (key, doc);
            let ghost before = dp@;
            dp.push((key, doc));
            proof {
                lemma_deep_view_pairs_push(before, entry);
                assert(dp@ == before.push(entry));
                assert(v.details[i as int] == (
                    t.details@[i as int].0@,
                    t.details@[i as int].1.deep_view(),
                ));
                assert(encode_details(v.details)[i as int] == (
                    v.details[i as int].0,
                    doc_of_detail(v.details[i as int].1),
                ));
                assert(encode_details(v.details).take(i + 1 as int) =~= encode_details(
                    v.details,
                ).take(i as int).push(encode_details(v.details)[i as int]));
                assert(deep_view_pairs(dp@) =~= encode_details(v.details).take(i + 1 as int));
            }
            i += 1;
        }
        proof {
            assert(encode_details(v.details).take(v.details.len() as int) =~= encode_details(
                v.details,
            ));
        }
        push_pair(&mut pairs, "details", DocValue::Object(dp));
    }
    proof {
        assert(deep_view_pairs(pairs@) =~= g2 + details_pairs(v));
    }
    let ghost g3 = g2 + details_pairs(v);
    if let Some(s) = &t.reference {
        push_pair(&mut pairs, "reference", DocValue::Text(s.clone()));
    }
    proof {
        assert(deep_view_pairs(pairs@) =~= g3 + opt_text_pair(v.reference, "reference"@));
    }
    let ghost g4 = g3 + opt_text_pair(v.reference, "reference"@);
    if let Some(ts) = &t.timestamp {
        push_pair(&mut pairs, "timestamp", DocValue::Text(ts.render_rfc3339()));
    }
    proof {
        assert(deep_view_pairs(pairs@) =~= g4 + opt_text_pair(timestamp_text(v), "timestamp"@));
    }
    let ghost g5 = g4 + opt_text_pair(timestamp_text(v), "timestamp"@);
    if let Some(i) = &t.id {
        push_pair(&mut pairs, "id", DocValue::Text(render_uuid(*i)));
    }
    proof {
        assert(deep_view_pairs(pairs@) =~= g5 + opt_text_pair(id_text(v), "id"@));
    }
    DocValue::Object(pairs)
}

/// Deserializes a wire document into an error object.
///
/// Exactly the documents that [`decode_view`] accepts decode, to an object
/// bearing that view; a malformed document earns exactly the error
/// [`decode_view`] assigns it. A missing `details` field decodes to the
/// empty mapping; unknown fields are ignored; tags are never read.
#[verifier::loop_isolation(false)]
pub fn decode(d: &DocValue) -> (r: Result<Terror, DecodeError>)
    ensures
        r matches Ok(t) ==> decode_view(d.deep_view()) == Ok::<TerrorView, DecodeError>(t@)
            && t@.wf() && t@.tags == Seq::<Seq<char>>::empty(),
        r matches Err(e) ==> decode_view(d.deep_view()) == Err::<TerrorView, DecodeError>(e),
{
    let pairs = match d {
        DocValue::Object(ps) => ps,
        _ => {
            return Err(DecodeError::NotAnObject);
        },
    };
    let ghost pv = deep_view_pairs(pairs@);
    let status: u16 = match lookup(pairs, "status") {
        Some(DocValue::Int(n)) => {
            let n = *n;
            if 0 <= n && n <= 65535 {
                proof {
                    assert(field_status(pv) == Ok::<u16, DecodeError>(n as u16));
                }
                n as u16
            } else {
                proof {
                    assert(field_status(pv) == Err::<u16, DecodeError>(DecodeError::BadStatus));
                }
                return Err(DecodeError::BadStatus);
            }
        },
        Some(_) => {
            return Err(DecodeError::BadStatus);
        },
        None => {
            return Err(DecodeError::MissingStatus);
        },
    };
    let message: String = match lookup(pairs, "message") {
        Some(DocValue::Text(s)) => s.clone(),
        Some(_) => {
            return Err(DecodeError::BadMessage);
        },
        None => {
            return Err(DecodeError::MissingMessage);
        },
    };
    let short_message: Option<String> = match take_opt_text(
        pairs,
        "short_message",
        DecodeError::BadShortMessage,
    ) {
        Ok(o) => o,
        Err(e) => {
            return Err(e);
        },
    };
    let error_code: Option<String> = match take_opt_text(
        pairs,
        "error_code",
        DecodeError::BadErrorCode,
    ) {
        Ok(o) => o,
        Err(e) => {
            return Err(e);
        },
    };
    let details: Vec<(String, DetailValue)> = match lookup(pairs, "details") {
        None => {
            let empty: Vec<(String, DetailValue)> = Vec::new();
            proof {
                assert(detail_entries(empty@) =~= Seq::<(Seq<char>, DetailView)>::empty());
                assert(field_details(pv) == Ok::<Seq<(Seq<char>, DetailView)>, DecodeError>(
                    detail_entries(empty@),
                ));
            }
            empty
        },
        Some(DocValue::Object(dp)) => {
            let ghost dpv = deep_view_pairs(dp@);
            proof {
                lemma_deep_view_pairs(dp@);
            }
            let mut out: Vec<(String, DetailValue)> = Vec::new();
            proof {
                assert(detail_entries(out@) =~= Seq::<(Seq<char>, DetailView)>::empty());
                assert(dpv.take(0) =~= Seq::<(Seq<char>, DocView)>::empty());
            }
            let mut i: usize = 0;
            while i < dp.len()
                invariant
                    i <= dp.len(),
                    detail_entries(out@) == decode_details(dpv.take(i as int)),
                decreases dp.len() - i,
            {
                let key = dp[i].0.clone();
                let dv = doc_to_detail(&dp[i].1);
                upsert_detail(&mut out, key, dv);
                proof {
                    assert(dpv.take(i + 1 as int).drop_last() =~= dpv.take(i as int));
                    assert(dpv.take(i + 1 as int).last() == dpv[i as int]);
                    assert(dpv[i as int] == (dp@[i as int].0@, dp@[i as int].1.deep_view()));
                }
                i += 1;
            }
            proof {
                assert(dpv.take(dp@.len() as int) =~= dpv);
                assert(field_details(pv) == Ok::<Seq<(Seq<char>, DetailView)>, DecodeError>(
                    detail_entries(out@),
                ));
            }
            out
        },
        Some(_) => {
            return Err(DecodeError::BadDetails);
        },
    };
    let reference: Option<String> = match take_opt_text(
        pairs,
        "reference",
        DecodeError::BadReference,
    ) {
        Ok(o) => o,
        Err(e) => {
            return Err(e);
        },
    };
    let timestamp: Option<Timestamp> = match lookup(pairs, "timestamp") {
        None => None,
        Some(DocValue::Text(s)) => match parse_rfc3339(s.as_str()) {
            Some(t) => Some(t),
            None => {
                return Err(DecodeError::BadTimestamp);
            },
        },
        Some(_) => {
            return Err(DecodeError::BadTimestamp);
        },
    };
    let id: Option<u128> = match lookup(pairs, "id") {
        None => None,
        Some(DocValue::Text(s)) => match parse_uuid(s.as_str()) {
            Some(i) => Some(i),
            None => {
                return Err(DecodeError::BadIdentifier);
            },
        },
        Some(_) => {
            return Err(DecodeError::BadIdentifier);
        },
    };
    let t = Terror {
        status,
        message,
        short_message,
        error_code,
        details,
        reference,
        timestamp,
        id,
        tags: Vec::new(),
    };
    proof {
        assert(t@.tags =~= Seq::<Seq<char>>::empty());
        assert(decode_obj(pv) == Ok::<TerrorView, DecodeError>(t@)) by {
            assert(t@ =~= (TerrorView {
                status,
                message: t.message@,
                short_message: match short_message {
                    Some(s) => Some(s@),
                    None => None,
                },
                error_code: match error_code {
                    Some(s) => Some(s@),
                    None => None,
                },
                details: detail_entries(t.details@),
                reference: match reference {
                    Some(s) => Some(s@),
                    None => None,
                },
                timestamp,
                id,
                tags: Seq::empty(),
            }));
        }
        assert(t@.wf()) by {
            match doc_lookup(pv, "details"@) {
                Some(dv) => {
                    if dv is Object {
                        lemma_decode_details_wf(dv->Object_0);
                    }
                },
                None => {},
            }
        }
    }
    Ok(t)
}

/// Looking a key up in a concatenation: the right part wins when it has the
/// key.
pub proof fn lemma_doc_lookup_concat(
    a: Seq<(Seq<char>, DocView)>,
    b: Seq<(Seq<char>, DocView)>,
    k: Seq<char>,
)
    ensures
        doc_lookup(a + b, k) == (match doc_lookup(b, k) {
            Some(x) => Some(x),
            None => doc_lookup(a, k),
        }),
    decreases b.len(),
{
    if b.len() == 0 {
        assert(a + b =~= a);
    } else {
        assert((a + b).last() == b.last());
        assert((a + b).drop_last() =~= a + b.drop_last());
        if b.last().0 != k {
            lemma_doc_lookup_concat(a, b.drop_last(), k);
        }
    }
}

/// Looking a key up among the entries of one optional text field.
proof fn lemma_opt_pair_lookup(o: Option<Seq<char>>, name: Seq<char>, k: Seq<char>)
    ensures
        doc_lookup(opt_text_pair(o, name), k) == (if k == name {
            match o {
                Some(s) => Some(DocView::Text(s)),
                None => None::<DocView>,
            }
        } else {
            None::<DocView>
        }),
{
    match o {
        Some(s) => {
            let single = seq![(name, DocView::Text(s))];
            assert(single.len() == 1);
            assert(single.last() == (name, DocView::Text(s)));
            assert(single.drop_last() =~= Seq::<(Seq<char>, DocView)>::empty());
            if k == name {
                assert(doc_lookup(single, k) == Some(DocView::Text(s)));
            } else {
                assert(doc_lookup(single.drop_last(), k) == None::<DocView>);
                assert(doc_lookup(single, k) == None::<DocView>);
            }
            assert(opt_text_pair(o, name) == single);
        },
        None => {
            assert(opt_text_pair(o, name).len() == 0);
            assert(doc_lookup(opt_text_pair(o, name), k) == None::<DocView>);
        },
    }
}

/// Looking a key up among the entries of the `details` field.
proof fn lemma_details_pairs_lookup(v: TerrorView, k: Seq<char>)
    ensures
        doc_lookup(details_pairs(v), k) == (if k == "details"@ && v.details.len() > 0 {
            Some(DocView::Object(encode_details(v.details)))
        } else {
            None::<DocView>
        }),
{
    if v.details.len() > 0 {
        let single = details_pairs(v);
        assert(single.len() == 1);
        assert(single.last() == ("details"@, DocView::Object(encode_details(v.details))));
        assert(single.drop_last() =~= Seq::<(Seq<char>, DocView)>::empty());
        if k == "details"@ {
            assert(doc_lookup(single, k) == Some(DocView::Object(encode_details(v.details))));
        } else {
            assert(doc_lookup(single.drop_last(), k) == None::<DocView>);
            assert(doc_lookup(single, k) == None::<DocView>);
        }
    } else {
        assert(details_pairs(v).len() == 0);
        assert(doc_lookup(details_pairs(v), k) == None::<DocView>);
    }
}

/// The eight field names are pairwise distinct: their lengths, and a first
/// character where lengths tie, tell them apart.
proof fn lemma_distinct_names()
    ensures
        "status"@.len() == 6,
        "message"@.len() == 7,
        "short_message"@.len() == 13,
        "error_code"@.len() == 10,
        "details"@.len() == 7,
        "reference"@.len() == 9,
        "timestamp"@.len() == 9,
        "id"@.len() == 2,
        "message"@[0] == 'm',
        "details"@[0] == 'd',
        "reference"@[0] == 'r',
        "timestamp"@[0] == 't',
{
    reveal_strlit("status");
    reveal_strlit("message");
    reveal_strlit("short_message");
    reveal_strlit("error_code");
    reveal_strlit("details");
    reveal_strlit("reference");
    reveal_strlit("timestamp");
    reveal_strlit("id");
}

/// What each field name finds in an encoded document. The field names are
/// pairwise distinct, so exactly the emitting field answers.
proof fn lemma_encode_lookup(v: TerrorView, k: Seq<char>)
    ensures
        doc_lookup(encode_pairs(v), k) == (if k == "status"@ {
            Some(DocView::Int(v.status as i64))
        } else if k == "message"@ {
            Some(DocView::Text(v.message))
        } else if k == "short_message"@ {
            match v.short_message {
                Some(s) => Some(DocView::Text(s)),
                None => None::<DocView>,
            }
        } else if k == "error_code"@ {
            match v.error_code {
                Some(s) => Some(DocView::Text(s)),
                None => None::<DocView>,
            }
        } else if k == "details"@ {
            if v.details.len() > 0 {
                Some(DocView::Object(encode_details(v.details)))
            } else {
                None::<DocView>
            }
        } else if k == "reference"@ {
            match v.reference {
                Some(s) => Some(DocView::Text(s)),
                None => None::<DocView>,
            }
        } else if k == "timestamp"@ {
            match timestamp_text(v) {
                Some(s) => Some(DocView::Text(s)),
                None => None::<DocView>,
            }
        } else if k == "id"@ {
            match id_text(v) {
                Some(s) => Some(DocView::Text(s)),
                None => None::<DocView>,
            }
        } else {
            None::<DocView>
        }),
{
    lemma_distinct_names();
    let base = seq![
        ("status"@, DocView::Int(v.status as i64)),
        ("message"@, DocView::Text(v.message)),
    ];
    let p1 = opt_text_pair(v.short_message, "short_message"@);
    let p2 = opt_text_pair(v.error_code, "error_code"@);
    let pd = details_pairs(v);
    let p3 = opt_text_pair(v.reference, "reference"@);
    let p4 = opt_text_pair(timestamp_text(v), "timestamp"@);
    let p5 = opt_text_pair(id_text(v), "id"@);
    assert(doc_lookup(base, k) == (if k == "message"@ {
        Some(DocView::Text(v.message))
    } else if k == "status"@ {
        Some(DocView::Int(v.status as i64))
    } else {
        None::<DocView>
    })) by {
        let s1 = seq![("status"@, DocView::Int(v.status as i64))];
        assert(base.len() == 2);
        assert(base.last() == ("message"@, DocView::Text(v.message)));
        assert(base.drop_last() =~= s1);
        assert(s1.last() == ("status"@, DocView::Int(v.status as i64)));
        assert(s1.drop_last() =~= Seq::<(Seq<char>, DocView)>::empty());
        assert(doc_lookup(s1.drop_last(), k) == None::<DocView>);
        assert(doc_lookup(s1, k) == (if k == "status"@ {
            Some(DocView::Int(v.status as i64))
        } else {
            None::<DocView>
        }));
    }
    lemma_opt_pair_lookup(v.short_message, "short_message"@, k);
    lemma_opt_pair_lookup(v.error_code, "error_code"@, k);
    lemma_details_pairs_lookup(v, k);
    lemma_opt_pair_lookup(v.reference, "reference"@, k);
    lemma_opt_pair_lookup(timestamp_text(v), "timestamp"@, k);
    lemma_opt_pair_lookup(id_text(v), "id"@, k);
    lemma_doc_lookup_concat(base, p1, k);
    lemma_doc_lookup_concat(base + p1, p2, k);
    lemma_doc_lookup_concat(base + p1 + p2, pd, k);
    lemma_doc_lookup_concat(base + p1 + p2 + pd, p3, k);
    lemma_doc_lookup_concat(base + p1 + p2 + pd + p3, p4, k);
    lemma_doc_lookup_concat(base + p1 + p2 + pd + p3 + p4, p5, k);
    assert(encode_pairs(v) == base + p1 + p2 + pd + p3 + p4 + p5);
    if k == "status"@ {
        assert(doc_lookup(encode_pairs(v), k) == Some(DocView::Int(v.status as i64)));
    } else if k == "message"@ {
        assert(doc_lookup(encode_pairs(v), k) == Some(DocView::Text(v.message)));
    } else if k == "short_message"@ {
        assert(doc_lookup(encode_pairs(v), k) == doc_lookup(p1, k));
    } else if k == "error_code"@ {
        assert(doc_lookup(encode_pairs(v), k) == doc_lookup(p2, k));
    } else if k == "details"@ {
        assert(doc_lookup(encode_pairs(v), k) == doc_lookup(pd, k));
    } else if k == "reference"@ {
        assert(doc_lookup(encode_pairs(v), k) == doc_lookup(p3, k));
    } else if k == "timestamp"@ {
        assert(doc_lookup(encode_pairs(v), k) == doc_lookup(p4, k));
    } else if k == "id"@ {
        assert(doc_lookup(encode_pairs(v), k) == doc_lookup(p5, k));
    } else {
        assert(doc_lookup(encode_pairs(v), k) == None::<DocView>);
    }
}

/// Encoding a well-formed details sequence and classifying it back yields
/// the original sequence.
pub proof fn lemma_decode_encode_details(s: Seq<(Seq<char>, DetailView)>)
    requires
        keys_unique(s),
        forall|i: int| 0 <= i < s.len() ==> detail_norm((#[trigger] s[i]).1),
    ensures
        decode_details(encode_details(s)) == s,
    decreases s.len(),
{
    let es = encode_details(s);
    if s.len() == 0 {
        assert(decode_details(es) =~= s);
    } else {
        assert(es.drop_last() =~= encode_details(s.drop_last()));
        assert(forall|i: int|
            0 <= i < s.len() - 1 ==> (#[trigger] s.drop_last()[i]) == s[i]);
        lemma_decode_encode_details(s.drop_last());
        assert(s[s.len() - 1] == s.last());
        assert(detail_norm(s.last().1));
        assert(detail_of_doc(doc_of_detail(s.last().1)) == s.last().1);
        assert(es.last() == (s.last().0, doc_of_detail(s.last().1)));
        lemma_find_key(s.drop_last(), s.last().0);
        let f = find_key(s.drop_last(), s.last().0);
        if f >= 0 {
            assert((#[trigger] s[f]).0 == s[s.len() - 1].0);
            assert(false);
        }
        assert(decode_details(es) == upsert(s.drop_last(), s.last().0, s.last().1));
        assert(s.drop_last().push((s.last().0, s.last().1)) =~= s);
    }
}

/// Round trip: every well-formed error object the builder can produce,
/// under any combination of capabilities and with no tags, decodes from its
/// own encoding unchanged. Tags are log-only and never serialized, so an
/// object with tags is excluded: its decoding returns with empty tags.
pub proof fn lemma_round_trip(v: TerrorView)
    requires
        v.wf(),
        v.tags == Seq::<Seq<char>>::empty(),
    ensures
        decode_view(encode_view(v)) == Ok::<TerrorView, DecodeError>(v),
{
    lemma_distinct_names();
    let pairs = encode_pairs(v);
    lemma_encode_lookup(v, "status"@);
    lemma_encode_lookup(v, "message"@);
    lemma_encode_lookup(v, "short_message"@);
    lemma_encode_lookup(v, "error_code"@);
    lemma_encode_lookup(v, "details"@);
    lemma_encode_lookup(v, "reference"@);
    lemma_encode_lookup(v, "timestamp"@);
    lemma_encode_lookup(v, "id"@);
    assert(field_status(pairs) == Ok::<u16, DecodeError>(v.status));
    assert(field_message(pairs) == Ok::<Seq<char>, DecodeError>(v.message));
    assert(field_opt_text(pairs, "short_message"@, DecodeError::BadShortMessage) == Ok::<
        Option<Seq<char>>,
        DecodeError,
    >(v.short_message));
    assert(field_opt_text(pairs, "error_code"@, DecodeError::BadErrorCode) == Ok::<
        Option<Seq<char>>,
        DecodeError,
    >(v.error_code));
    if v.details.len() > 0 {
        lemma_decode_encode_details(v.details);
        assert(field_details(pairs) == Ok::<Seq<(Seq<char>, DetailView)>, DecodeError>(v.details));
    } else {
        assert(v.details =~= Seq::<(Seq<char>, DetailView)>::empty());
        assert(field_details(pairs) == Ok::<Seq<(Seq<char>, DetailView)>, DecodeError>(v.details));
    }
    assert(field_opt_text(pairs, "reference"@, DecodeError::BadReference) == Ok::<
        Option<Seq<char>>,
        DecodeError,
    >(v.reference));
    match v.timestamp {
        Some(t) => {
            lemma_rfc3339_roundtrip(t);
            assert(field_timestamp(pairs) == Ok::<Option<Timestamp>, DecodeError>(v.timestamp));
        },
        None => {
            assert(field_timestamp(pairs) == Ok::<Option<Timestamp>, DecodeError>(v.timestamp));
        },
    }
    match v.id {
        Some(i) => {
            lemma_uuid_roundtrip(i);
            assert(field_id(pairs) == Ok::<Option<u128>, DecodeError>(v.id));
        },
        None => {
            assert(field_id(pairs) == Ok::<Option<u128>, DecodeError>(v.id));
        },
    }
    assert((TerrorView {
        status: v.status,
        message: v.message,
        short_message: v.short_message,
        error_code: v.error_code,
        details: v.details,
        reference: v.reference,
        timestamp: v.timestamp,
        id: v.id,
        tags: Seq::empty(),
    }) =~= v);
}

/// Omission: an object with no short message, no error code and empty
/// details encodes to a document holding only `status` and `message`,
/// besides whichever capability fields are present.
pub proof fn lemma_minimal_encoding(v: TerrorView)
    requires
        v.short_message is None,
        v.error_code is None,
        v.details == Seq::<(Seq<char>, DetailView)>::empty(),
    ensures
        encode_view(v) == DocView::Object(
            seq![
                ("status"@, DocView::Int(v.status as i64)),
                ("message"@, DocView::Text(v.message)),
            ] + opt_text_pair(v.reference, "reference"@) + opt_text_pair(
                timestamp_text(v),
                "timestamp"@,
            ) + opt_text_pair(id_text(v), "id"@),
        ),
{
    assert(encode_pairs(v) =~= seq![
        ("status"@, DocView::Int(v.status as i64)),
        ("message"@, DocView::Text(v.message)),
    ] + opt_text_pair(v.reference, "reference"@) + opt_text_pair(timestamp_text(v), "timestamp"@)
        + opt_text_pair(id_text(v), "id"@));
}

} // verus!
