//! The schemaless document values that form the wire representation: a closed
//! variant over null, booleans, 64-bit signed integers, text, arrays and
//! objects, together with its mathematical view.
use vstd::prelude::*;

verus! {

broadcast use vstd::std_specs::vec::group_vec_axioms;

/// An arbitrary, recursively-typed document value (object / array / string /
/// integer / bool / null), as carried on the wire and inside structured
/// details.
#[derive(Debug, PartialEq, Eq)]
pub enum DocValue {
    Null,
    Bool(bool),
    Int(i64),
    Text(String),
    Array(Vec<DocValue>),
    Object(Vec<(String, DocValue)>),
}

/// The mathematical shape of a [`DocValue`]: text becomes a character
/// sequence, arrays and objects become sequences.
pub enum DocView {
    Null,
    Bool(bool),
    Int(i64),
    Text(Seq<char>),
    Array(Seq<DocView>),
    Object(Seq<(Seq<char>, DocView)>),
}

impl DocValue {
    /// The view of a document value, element for element.
    pub open spec fn deep_view(&self) -> DocView
        decreases self,
    {
        match self {
            DocValue::Null => DocView::Null,
            DocValue::Bool(b) => DocView::Bool(*b),
            DocValue::Int(i) => DocView::Int(*i),
            DocValue::Text(s) => DocView::Text(s@),
            DocValue::Array(items) => DocView::Array(deep_view_items(items@)),
            DocValue::Object(pairs) => DocView::Object(deep_view_pairs(pairs@)),
        }
    }

    /// A deep copy whose view is the view of the original.
    #[verifier::loop_isolation(false)]
    pub fn dup(&self) -> (r: DocValue)
        ensures
            r.deep_view() == self.deep_view(),
        decreases self,
    {
        match self {
            DocValue::Null => DocValue::Null,
            DocValue::Bool(b) => DocValue::Bool(*b),
            DocValue::Int(i) => DocValue::Int(*i),
            DocValue::Text(s) => DocValue::Text(s.clone()),
            DocValue::Array(items) => {
                let mut out: Vec<DocValue> = Vec::new();
                let mut i: usize = 0;
                while i < items.len()
                    invariant
                        i <= items.len(),
                        out@.len() == i,
                        forall|j: int|
                            0 <= j < i ==> (#[trigger] out@[j]).deep_view()
                                == items@[j].deep_view(),
                    decreases items.len() - i,
                {
                    proof {
                        assert(decreases_to!(*self => (*self)->Array_0));
                        assert(decreases_to!((*self)->Array_0 => (*self)->Array_0@));
                        assert(decreases_to!((*self)->Array_0@ => (*self)->Array_0@[i as int]));
                        assert(decreases_to!(*self => items@[i as int]));
                    }
                    out.push(items[i].dup());
                    i += 1;
                }
                proof {
                    lemma_deep_view_items(out@);
                    lemma_deep_view_items(items@);
                    assert(deep_view_items(out@) =~= deep_view_items(items@));
                }
                DocValue::Array(out)
            },
            DocValue::Object(pairs) => {
                let mut out: Vec<(String, DocValue)> = Vec::new();
                let mut i: usize = 0;
                while i < pairs.len()
                    invariant
                        i <= pairs.len(),
                        out@.len() == i,
                        forall|j: int|
                            0 <= j < i ==> (#[trigger] out@[j]).0@ == pairs@[j].0@
                                && out@[j].1.deep_view() == pairs@[j].1.deep_view(),
                    decreases pairs.len() - i,
                {
                    proof {
                        assert(decreases_to!(*self => (*self)->Object_0));
                        assert(decreases_to!((*self)->Object_0 => (*self)->Object_0@));
                        assert(decreases_to!((*self)->Object_0@ => (*self)->Object_0@[i as int]));
                        assert(decreases_to!(pairs@[i as int] => pairs@[i as int].1));
                        assert(decreases_to!(*self => pairs@[i as int].1));
                    }
                    let key = pairs[i].0.clone();
                    let val = pairs[i].1.dup();
                    out.push((key, val));
                    i += 1;
                }
                proof {
                    lemma_deep_view_pairs(out@);
                    lemma_deep_view_pairs(pairs@);
                    assert(deep_view_pairs(out@) =~= deep_view_pairs(pairs@));
                }
                DocValue::Object(out)
            },
        }
    }
}

/// The views of the elements of a document array, in order.
pub open spec fn deep_view_items(items: Seq<DocValue>) -> Seq<DocView>
    decreases items,
{
    if items.len() == 0 {
        Seq::empty()
    } else {
        deep_view_items(items.drop_last()).push(items.last().deep_view())
    }
}

/// The views of the entries of a document object, in order.
pub open spec fn deep_view_pairs(pairs: Seq<(String, DocValue)>) -> Seq<(Seq<char>, DocView)>
    decreases pairs,
{
    if pairs.len() == 0 {
        Seq::empty()
    } else {
        deep_view_pairs(pairs.drop_last()).push((pairs.last().0@, pairs.last().1.deep_view()))
    }
}

/// Appending an entry appends its view.
pub proof fn lemma_deep_view_pairs_push(pairs: Seq<(String, DocValue)>, p: (String, DocValue))
    ensures
        deep_view_pairs(pairs.push(p)) == deep_view_pairs(pairs).push((p.0@, p.1.deep_view())),
{
    assert(pairs.push(p).drop_last() =~= pairs);
    assert(pairs.push(p).last() == p);
}

/// `deep_view_items` maps the sequence element for element.
pub proof fn lemma_deep_view_items(items: Seq<DocValue>)
    ensures
        deep_view_items(items).len() == items.len(),
        forall|i: int| #![trigger deep_view_items(items)[i]]
            0 <= i < items.len() ==> deep_view_items(items)[i] == items[i].deep_view(),
    decreases items.len(),
{
    if items.len() > 0 {
        lemma_deep_view_items(items.drop_last());
        assert forall|i: int| #![trigger deep_view_items(items)[i]]
            0 <= i < items.len() implies deep_view_items(items)[i]
            == items[i].deep_view() by {
            if i < items.len() - 1 {
                assert(items.drop_last()[i] == items[i]);
                assert(deep_view_items(items)[i] == deep_view_items(items.drop_last())[i]);
            }
        }
    }
}

/// `deep_view_pairs` maps the sequence entry for entry.
pub proof fn lemma_deep_view_pairs(pairs: Seq<(String, DocValue)>)
    ensures
        deep_view_pairs(pairs).len() == pairs.len(),
        forall|i: int| #![trigger deep_view_pairs(pairs)[i]]
            0 <= i < pairs.len() ==> deep_view_pairs(pairs)[i]
                == (pairs[i].0@, pairs[i].1.deep_view()),
    decreases pairs.len(),
{
    if pairs.len() > 0 {
        lemma_deep_view_pairs(pairs.drop_last());
        assert forall|i: int| #![trigger deep_view_pairs(pairs)[i]]
            0 <= i < pairs.len() implies deep_view_pairs(pairs)[i]
            == (pairs[i].0@, pairs[i].1.deep_view()) by {
            if i < pairs.len() - 1 {
                assert(pairs.drop_last()[i] == pairs[i]);
                assert(deep_view_pairs(pairs)[i] == deep_view_pairs(pairs.drop_last())[i]);
            }
        }
    }
}

} // verus!
