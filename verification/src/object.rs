//! The immutable error object: its data model, its mathematical view, the
//! last-write-wins theory of its details mapping, the documentation-reference
//! derivation, and the one-line log formatter.
use vstd::prelude::*;
use vstd::string::StringExecFns;
use crate::document::DocValue;
use crate::document::DocView;
use crate::text::dec_chars;
use crate::text::push_dec;
use crate::timestamp::Timestamp;

verus! {

broadcast use vstd::std_specs::vec::group_vec_axioms;

/// A value storable in the details mapping: a scalar, null, or an arbitrary
/// structured document.
#[derive(Debug, PartialEq, Eq)]
pub enum DetailValue {
    Text(String),
    Int(i64),
    Bool(bool),
    Null,
    Structured(DocValue),
}

/// The mathematical shape of a [`DetailValue`].
pub enum DetailView {
    Text(Seq<char>),
    Int(i64),
    Bool(bool),
    Null,
    Structured(DocView),
}

impl DetailValue {
    pub open spec fn deep_view(&self) -> DetailView {
        match self {
            DetailValue::Text(s) => DetailView::Text(s@),
            DetailValue::Int(i) => DetailView::Int(*i),
            DetailValue::Bool(b) => DetailView::Bool(*b),
            DetailValue::Null => DetailView::Null,
            DetailValue::Structured(d) => DetailView::Structured(d.deep_view()),
        }
    }

    /// A deep copy whose view is the view of the original.
    pub fn dup(&self) -> (r: DetailValue)
        ensures
            r.deep_view() == self.deep_view(),
    {
        match self {
            DetailValue::Text(s) => DetailValue::Text(s.clone()),
            DetailValue::Int(i) => DetailValue::Int(*i),
            DetailValue::Bool(b) => DetailValue::Bool(*b),
            DetailValue::Null => DetailValue::Null,
            DetailValue::Structured(d) => DetailValue::Structured(d.dup()),
        }
    }
}

/// A stored structured detail is a composite document (an array or an
/// object); scalar documents are stored as the corresponding scalar detail.
pub open spec fn detail_norm(d: DetailView) -> bool {
    d matches DetailView::Structured(doc) ==> (doc is Array || doc is Object)
}

/// The view of one details entry.
pub open spec fn detail_entry(p: (String, DetailValue)) -> (Seq<char>, DetailView) {
    (p.0@, p.1.deep_view())
}

/// The views of a stored details sequence, entry for entry.
pub open spec fn detail_entries(s: Seq<(String, DetailValue)>) -> Seq<(Seq<char>, DetailView)> {
    s.map_values(|p: (String, DetailValue)| detail_entry(p))
}

/// No two entries share a key.
pub open spec fn keys_unique(s: Seq<(Seq<char>, DetailView)>) -> bool {
    forall|i: int, j: int| 0 <= i < j < s.len() ==> (#[trigger] s[i]).0 != (#[trigger] s[j]).0
}

/// The index of the first entry with key `k`, or `-1` if there is none.
pub open spec fn find_key(s: Seq<(Seq<char>, DetailView)>, k: Seq<char>) -> int
    decreases s.len(),
{
    if s.len() == 0 {
        -1
    } else if s[0].0 == k {
        0
    } else {
        let r = find_key(s.drop_first(), k);
        if r < 0 {
            -1
        } else {
            r + 1
        }
    }
}

/// `find_key` returns the first index bearing the key, or `-1` exactly when
/// no entry bears it.
pub proof fn lemma_find_key(s: Seq<(Seq<char>, DetailView)>, k: Seq<char>)
    ensures
        find_key(s, k) == -1 ==> forall|i: int| 0 <= i < s.len() ==> (#[trigger] s[i]).0 != k,
        find_key(s, k) >= 0 ==> 0 <= find_key(s, k) < s.len() && s[find_key(s, k)].0 == k
            && (forall|j: int| 0 <= j < find_key(s, k) ==> (#[trigger] s[j]).0 != k),
    decreases s.len(),
{
    if s.len() > 0 && s[0].0 != k {
        lemma_find_key(s.drop_first(), k);
        if find_key(s.drop_first(), k) >= 0 {
            assert forall|j: int| 0 <= j < find_key(s, k) implies (#[trigger] s[j]).0 != k by {
                if j > 0 {
                    assert(s.drop_first()[j - 1] == s[j]);
                }
            }
        } else {
            assert forall|i: int| 0 <= i < s.len() implies (#[trigger] s[i]).0 != k by {
                if i > 0 {
                    assert(s.drop_first()[i - 1] == s[i]);
                }
            }
        }
    }
}

/// Inserting at key `k`: the first entry bearing `k` is replaced in place,
/// or a new entry is appended.
pub open spec fn upsert(
    s: Seq<(Seq<char>, DetailView)>,
    k: Seq<char>,
    v: DetailView,
) -> Seq<(Seq<char>, DetailView)> {
    if find_key(s, k) >= 0 {
        s.update(find_key(s, k), (k, v))
    } else {
        s.push((k, v))
    }
}

/// The mapping a details sequence denotes: later entries override earlier
/// ones.
pub open spec fn details_map(s: Seq<(Seq<char>, DetailView)>) -> Map<Seq<char>, DetailView>
    decreases s.len(),
{
    if s.len() == 0 {
        Map::empty()
    } else {
        details_map(s.drop_last()).insert(s.last().0, s.last().1)
    }
}

/// The denoted mapping contains exactly the keys of the entries.
pub proof fn lemma_details_map_domain(s: Seq<(Seq<char>, DetailView)>, k: Seq<char>)
    ensures
        details_map(s).contains_key(k) <==> exists|i: int| 0 <= i < s.len() && (#[trigger] s[i]).0
            == k,
    decreases s.len(),
{
    if s.len() > 0 {
        lemma_details_map_domain(s.drop_last(), k);
        if details_map(s).contains_key(k) {
            if s.last().0 == k {
                assert(s[s.len() - 1].0 == k);
            } else {
                let i = choose|i: int|
                    0 <= i < s.drop_last().len() && (#[trigger] s.drop_last()[i]).0 == k;
                assert(s[i].0 == k);
            }
        } else {
            assert(forall|i: int|
                0 <= i < s.len() - 1 ==> (#[trigger] s[i]) == s.drop_last()[i]);
        }
    }
}

/// Under unique keys, replacing the first entry bearing `k`, or appending a
/// fresh one, denotes exactly a mapping update at `k`.
pub proof fn lemma_upsert_map(s: Seq<(Seq<char>, DetailView)>, k: Seq<char>, v: DetailView)
    requires
        keys_unique(s),
    ensures
        keys_unique(upsert(s, k, v)),
        details_map(upsert(s, k, v)) == details_map(s).insert(k, v),
    decreases s.len(),
{
    lemma_find_key(s, k);
    if find_key(s, k) < 0 {
        assert(details_map(s.push((k, v))) == details_map(s).insert(k, v)) by {
            assert(s.push((k, v)).drop_last() =~= s);
        }
        assert(keys_unique(s.push((k, v)))) by {
            assert(forall|i: int|
                0 <= i < s.len() ==> (#[trigger] s.push((k, v))[i]) == s[i]);
        }
    } else {
        let f = find_key(s, k);
        let t = upsert(s, k, v);
        assert(keys_unique(t)) by {
            assert(forall|i: int| 0 <= i < s.len() && i != f ==> (#[trigger] t[i]) == s[i]);
            assert(t[f].0 == k && s[f].0 == k);
        }
        lemma_update_map(s, f, k, v);
    }
}

/// Updating the only entry bearing its key denotes a mapping update.
proof fn lemma_update_map(s: Seq<(Seq<char>, DetailView)>, f: int, k: Seq<char>, v: DetailView)
    requires
        keys_unique(s),
        0 <= f < s.len(),
        s[f].0 == k,
    ensures
        details_map(s.update(f, (k, v))) == details_map(s).insert(k, v),
    decreases s.len(),
{
    let t = s.update(f, (k, v));
    if f == s.len() - 1 {
        assert(t.drop_last() =~= s.drop_last());
        assert(details_map(t) =~= details_map(s).insert(k, v)) by {
            assert(t.last() == (k, v));
            assert(s.last().0 == k);
        }
    } else {
        assert(t.drop_last() =~= s.drop_last().update(f, (k, v)));
        assert(keys_unique(s.drop_last())) by {
            assert(forall|i: int|
                0 <= i < s.len() - 1 ==> (#[trigger] s.drop_last()[i]) == s[i]);
        }
        lemma_update_map(s.drop_last(), f, k, v);
        assert(s.last().0 != k);
        assert(t.last() == s.last());
        assert(details_map(t) == details_map(s.drop_last()).insert(k, v).insert(
            s.last().0,
            s.last().1,
        ));
        assert(details_map(s.drop_last()).insert(k, v).insert(s.last().0, s.last().1)
            =~= details_map(s.drop_last()).insert(s.last().0, s.last().1).insert(k, v));
    }
}

/// A sequence of insertions applied in order to a details sequence.
pub open spec fn apply_upserts(
    s: Seq<(Seq<char>, DetailView)>,
    ops: Seq<(Seq<char>, DetailView)>,
) -> Seq<(Seq<char>, DetailView)>
    decreases ops.len(),
{
    if ops.len() == 0 {
        s
    } else {
        upsert(apply_upserts(s, ops.drop_last()), ops.last().0, ops.last().1)
    }
}

/// The index of the last insertion bearing key `k`, or `-1` if there is none.
pub open spec fn rfind_key(ops: Seq<(Seq<char>, DetailView)>, k: Seq<char>) -> int
    decreases ops.len(),
{
    if ops.len() == 0 {
        -1
    } else if ops.last().0 == k {
        ops.len() - 1
    } else {
        rfind_key(ops.drop_last(), k)
    }
}

/// Insertion keeps every stored detail normalized.
pub proof fn lemma_upsert_norm(s: Seq<(Seq<char>, DetailView)>, k: Seq<char>, v: DetailView)
    requires
        forall|i: int| 0 <= i < s.len() ==> detail_norm((#[trigger] s[i]).1),
        detail_norm(v),
    ensures
        forall|i: int| 0 <= i < upsert(s, k, v).len() ==> detail_norm(
            (#[trigger] upsert(s, k, v)[i]).1,
        ),
{
    let u = upsert(s, k, v);
    lemma_find_key(s, k);
    assert forall|i: int| 0 <= i < u.len() implies detail_norm((#[trigger] u[i]).1) by {
        if find_key(s, k) >= 0 {
            if i != find_key(s, k) {
                assert(u[i] == s[i]);
            }
        } else {
            if i < s.len() {
                assert(u[i] == s[i]);
            }
        }
    }
}

/// Inserts or replaces the entry for `name` in a stored details sequence;
/// the first entry bearing the name is replaced in place, a fresh name is
/// appended.
#[verifier::loop_isolation(false)]
pub fn upsert_detail(details: &mut Vec<(String, DetailValue)>, name: String, value: DetailValue)
    ensures
        detail_entries(final(details)@) == upsert(
            detail_entries(old(details)@),
            name@,
            value.deep_view(),
        ),
{
    let ghost entries = detail_entries(old(details)@);
    proof {
        lemma_find_key(entries, name@);
    }
    let mut i: usize = 0;
    while i < details.len()
        invariant
            i <= details.len(),
            *details == *old(details),
            entries == detail_entries(details@),
            forall|j: int| 0 <= j < i ==> (#[trigger] entries[j]).0 != name@,
        decreases details.len() - i,
    {
        if details[i].0 == name {
            proof {
                assert(entries[i as int].0 == name@);
                assert(find_key(entries, name@) == i as int) by {
                    let f = find_key(entries, name@);
                    if f < i as int {
                        assert(entries[f].0 != name@);
                    }
                }
            }
            details[i] = (name, value);
            proof {
                assert(detail_entries(details@) =~= upsert(entries, name@, value.deep_view()));
            }
            return;
        }
        i += 1;
    }
    proof {
        assert(find_key(entries, name@) == -1) by {
            if find_key(entries, name@) >= 0 {
                assert(entries[find_key(entries, name@)].0 != name@);
            }
        }
    }
    details.push((name, value));
    proof {
        assert(detail_entries(details@) =~= upsert(entries, name@, value.deep_view()));
    }
}

/// `rfind_key` stays in range and lands on its key.
pub proof fn lemma_rfind_key(ops: Seq<(Seq<char>, DetailView)>, k: Seq<char>)
    ensures
        -1 <= rfind_key(ops, k) < ops.len(),
        rfind_key(ops, k) >= 0 ==> ops[rfind_key(ops, k)].0 == k,
    decreases ops.len(),
{
    if ops.len() > 0 && ops.last().0 != k {
        lemma_rfind_key(ops.drop_last(), k);
        if rfind_key(ops.drop_last(), k) >= 0 {
            assert(ops.drop_last()[rfind_key(ops.drop_last(), k)] == ops[rfind_key(
                ops.drop_last(),
                k,
            )]);
        }
    }
}

/// After any sequence of insertions into an empty details sequence, the
/// denoted mapping holds exactly the keys inserted, each bearing the last
/// value written for it.
pub proof fn lemma_details_last_write(ops: Seq<(Seq<char>, DetailView)>, k: Seq<char>)
    ensures
        keys_unique(apply_upserts(Seq::empty(), ops)),
        details_map(apply_upserts(Seq::empty(), ops)).contains_key(k) <==> rfind_key(ops, k) >= 0,
        rfind_key(ops, k) >= 0 ==> details_map(apply_upserts(Seq::empty(), ops))[k] == ops[rfind_key(
            ops,
            k,
        )].1,
    decreases ops.len(),
{
    if ops.len() == 0 {
        assert(apply_upserts(Seq::empty(), ops) =~= Seq::<(Seq<char>, DetailView)>::empty());
        assert(!details_map(Seq::<(Seq<char>, DetailView)>::empty()).contains_key(k));
    } else {
        let prev = apply_upserts(Seq::empty(), ops.drop_last());
        lemma_details_last_write(ops.drop_last(), k);
        lemma_upsert_map(prev, ops.last().0, ops.last().1);
        if ops.last().0 == k {
            assert(rfind_key(ops, k) == ops.len() - 1);
        } else {
            lemma_rfind_key(ops.drop_last(), k);
            if rfind_key(ops, k) >= 0 {
                assert(rfind_key(ops, k) < ops.len() - 1);
                assert(ops.drop_last()[rfind_key(ops, k)] == ops[rfind_key(ops, k)]);
            }
        }
    }
}

/// The immutable, serializable error object.
///
/// All fields are public; the contracts of the codec and of the laws hold of
/// objects satisfying [`TerrorView::wf`], which every object produced by the
/// builder or the decoder does.
#[derive(Debug, PartialEq, Eq)]
pub struct Terror {
    /// HTTP status code.
    pub status: u16,
    /// Full error message.
    pub message: String,
    /// Shortened error message.
    pub short_message: Option<String>,
    /// Caller-defined machine error code.
    pub error_code: Option<String>,
    /// Arbitrary named details; keys unique, last write wins.
    pub details: Vec<(String, DetailValue)>,
    /// A documentation reference for the status code.
    pub reference: Option<String>,
    /// Creation instant, when that capability is enabled.
    pub timestamp: Option<Timestamp>,
    /// Unique identifier, when that capability is enabled.
    pub id: Option<u128>,
    /// Debug tags, rendered by the log formatter only.
    pub tags: Vec<String>,
}

/// The mathematical view of a [`Terror`] (and of a builder in progress).
#[verifier::ext_equal]
pub struct TerrorView {
    pub status: u16,
    pub message: Seq<char>,
    pub short_message: Option<Seq<char>>,
    pub error_code: Option<Seq<char>>,
    pub details: Seq<(Seq<char>, DetailView)>,
    pub reference: Option<Seq<char>>,
    pub timestamp: Option<Timestamp>,
    pub id: Option<u128>,
    pub tags: Seq<Seq<char>>,
}

impl TerrorView {
    /// Well-formedness: unique detail keys, normalized structured details,
    /// and a renderable timestamp.
    pub open spec fn wf(&self) -> bool {
        &&& keys_unique(self.details)
        &&& forall|i: int| 0 <= i < self.details.len() ==> detail_norm(
            (#[trigger] self.details[i]).1,
        )
        &&& self.timestamp matches Some(t) ==> t.wf()
    }

    /// The mapping the details carry.
    pub open spec fn details_as_map(&self) -> Map<Seq<char>, DetailView> {
        details_map(self.details)
    }
}

impl View for Terror {
    type V = TerrorView;

    open spec fn view(&self) -> TerrorView {
        TerrorView {
            status: self.status,
            message: self.message@,
            short_message: match self.short_message {
                Some(s) => Some(s@),
                None => None,
            },
            error_code: match self.error_code {
                Some(s) => Some(s@),
                None => None,
            },
            details: detail_entries(self.details@),
            reference: match self.reference {
                Some(s) => Some(s@),
                None => None,
            },
            timestamp: self.timestamp,
            id: self.id,
            tags: self.tags@.map_values(|t: String| t@),
        }
    }
}

/// The fixed base of the documentation reference.
pub open spec fn mdn_base_chars() -> Seq<char> {
    "https://developer.mozilla.org/en-US/docs/Web/HTTP/Status"@
}

/// The documentation reference for a status code: the fixed base, a slash,
/// and the decimal status.
pub open spec fn reference_chars(status: u16) -> Seq<char> {
    mdn_base_chars() + seq!['/'] + dec_chars(status as int)
}

/// Renders the documentation reference for `status`.
pub fn render_reference(status: u16) -> (r: String)
    ensures
        r@ == reference_chars(status),
{
    proof {
        reveal_strlit("/");
    }
    let mut s = String::from_str("https://developer.mozilla.org/en-US/docs/Web/HTTP/Status");
    s.append("/");
    push_dec(&mut s, status);
    proof {
        assert(s@ =~= reference_chars(status));
    }
    s
}

/// Tags joined by single spaces, in order.
pub open spec fn join_tags(tags: Seq<Seq<char>>) -> Seq<char>
    decreases tags.len(),
{
    if tags.len() == 0 {
        Seq::empty()
    } else if tags.len() == 1 {
        tags[0]
    } else {
        join_tags(tags.drop_last()) + seq![' '] + tags.last()
    }
}

/// The one-line log rendering: the bracketed tags when there are any, then
/// `({status}) :: {message}`; nothing is escaped.
pub open spec fn log_line_chars(v: TerrorView) -> Seq<char> {
    let base = seq!['('] + dec_chars(v.status as int) + seq![')', ' ', ':', ':', ' '] + v.message;
    if v.tags.len() == 0 {
        base
    } else {
        seq!['['] + join_tags(v.tags) + seq![']', ' '] + base
    }
}

impl Terror {
    /// Formats the object into a log line. At the minimum, prints the HTTP
    /// status along with the error message, as in
    /// `(409) :: failed to persist entity due to version conflict`; tags,
    /// when present, are prefixed in brackets.
    #[verifier::loop_isolation(false)]
    pub fn log_line(&self) -> (r: String)
        ensures
            r@ == log_line_chars(self@),
    {
        proof {
            reveal_strlit("[");
            reveal_strlit("] ");
            reveal_strlit("(");
            reveal_strlit(") :: ");
            reveal_strlit(" ");
        }
        let ghost tagviews = self@.tags;
        let mut s = String::new();
        if self.tags.len() > 0 {
            s.append("[");
            s.append(self.tags[0].as_str());
            proof {
                assert(tagviews.take(1) =~= seq![tagviews[0]]);
                assert(s@ =~= seq!['['] + join_tags(tagviews.take(1)));
            }
            let mut i: usize = 1;
            while i < self.tags.len()
                invariant
                    1 <= i <= self.tags.len(),
                    s@ == seq!['['] + join_tags(tagviews.take(i as int)),
                decreases self.tags.len() - i,
            {
                s.append(" ");
                s.append(self.tags[i].as_str());
                proof {
                    let t = tagviews.take(i + 1 as int);
                    assert(t.drop_last() =~= tagviews.take(i as int));
                    assert(t.last() == tagviews[i as int]);
                    assert(s@ =~= seq!['['] + join_tags(tagviews.take(i + 1 as int)));
                }
                i += 1;
            }
            s.append("] ");
            proof {
                assert(tagviews.take(tagviews.len() as int) =~= tagviews);
            }
        }
        s.append("(");
        push_dec(&mut s, self.status);
        s.append(") :: ");
        s.append(self.message.as_str());
        proof {
            assert(s@ =~= log_line_chars(self@));
        }
        s
    }

    /// The value stored for `name` in the details, if any.
    pub fn detail(&self, name: &str) -> (r: Option<&DetailValue>)
        ensures
            r matches Some(v) ==> self@.details_as_map().contains_key(name@)
                && self@.details_as_map()[name@] == v.deep_view(),
            r is None ==> !self@.details_as_map().contains_key(name@),
    {
        let ghost entries = detail_entries(self.details@);
        let mut i: usize = self.details.len();
        while i > 0
            invariant
                i <= self.details.len(),
                entries == detail_entries(self.details@),
                forall|j: int| i <= j < entries.len() ==> (#[trigger] entries[j]).0 != name@,
            decreases i,
        {
            i -= 1;
            if crate::text::str_eq(self.details[i].0.as_str(), name) {
                proof {
                    assert(entries[i as int].0 == name@);
                    lemma_last_match(entries, name@, i as int);
                }
                return Some(&self.details[i].1);
            }
        }
        proof {
            lemma_details_map_domain(entries, name@);
        }
        None
    }
}

/// The last entry bearing a key carries the denoted mapping's value for it.
pub proof fn lemma_last_match(s: Seq<(Seq<char>, DetailView)>, k: Seq<char>, i: int)
    requires
        0 <= i < s.len(),
        s[i].0 == k,
        forall|j: int| i < j < s.len() ==> (#[trigger] s[j]).0 != k,
    ensures
        details_map(s).contains_key(k),
        details_map(s)[k] == s[i].1,
    decreases s.len(),
{
    if i == s.len() - 1 {
    } else {
        assert(s.last().0 != k);
        assert(s.drop_last()[i] == s[i]);
        assert(forall|j: int|
            i < j < s.len() - 1 ==> (#[trigger] s.drop_last()[j]) == s[j]);
        lemma_last_match(s.drop_last(), k, i);
    }
}

impl Default for Terror {
    /// The generic error: status 500, message `generic error`, nothing else.
    fn default() -> (r: Terror)
        ensures
            r@.status == 500,
            r@.message == "generic error"@,
            r@.short_message is None,
            r@.error_code is None,
            r@.details =~= Seq::<(Seq<char>, DetailView)>::empty(),
            r@.reference is None,
            r@.timestamp is None,
            r@.id is None,
            r@.tags =~= Seq::<Seq<char>>::empty(),
            r@.wf(),
    {
        let r = Terror {
            status: 500,
            message: String::from_str("generic error"),
            short_message: None,
            error_code: None,
            details: Vec::new(),
            reference: None,
            timestamp: None,
            id: None,
            tags: Vec::new(),
        };
        proof {
            assert(r@.details =~= Seq::<(Seq<char>, DetailView)>::empty());
            assert(r@.tags =~= Seq::<Seq<char>>::empty());
        }
        r
    }
}

} // verus!
