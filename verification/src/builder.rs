//! The consuming, single-use builder: every configuration call takes the
//! builder by value and returns the next builder state, and `build` consumes
//! it for good, so reuse after finalization cannot compile.
use vstd::prelude::*;
use crate::document::DocValue;
use crate::document::DocView;
use crate::ident::fresh_id;
use crate::object::detail_entries;
use crate::object::detail_norm;
use crate::object::lemma_upsert_map;
use crate::object::lemma_upsert_norm;
use crate::object::upsert_detail;
use crate::object::reference_chars;
use crate::object::render_reference;
use crate::object::upsert;
use crate::object::DetailValue;
use crate::object::DetailView;
use crate::object::Terror;
use crate::object::TerrorView;
use crate::timestamp::Timestamp;

verus! {

/// The optional capabilities of a deployment: which extra fields a builder
/// captures at creation.
#[derive(Clone, Copy, Debug, PartialEq, Eq, Structural)]
pub struct Capabilities {
    /// Capture the creation instant.
    pub timestamp: bool,
    /// Assign a fresh random identifier.
    pub identifier: bool,
    /// Attach the documentation reference for the status eagerly.
    pub reference: bool,
}

/// A builder for [`Terror`], intended for one-time use and consumed by
/// [`Builder::build`].
pub struct Builder {
    status: u16,
    message: String,
    short_message: Option<String>,
    error_code: Option<String>,
    details: Vec<(String, DetailValue)>,
    reference: Option<String>,
    timestamp: Option<Timestamp>,
    id: Option<u128>,
    tags: Vec<String>,
}

impl View for Builder {
    type V = TerrorView;

    closed spec fn view(&self) -> TerrorView {
        TerrorView {
            status: self.status,
            message: self.message@,
            short_message: match self.short_message {
                Some(s) => Some(s@),
                None => None,
            },
            error_code: match self.error_code {
                Some(s) => Some(s@),
                None => None,
            },
            details: detail_entries(self.details@),
            reference: match self.reference {
                Some(s) => Some(s@),
                None => None,
            },
            timestamp: self.timestamp,
            id: self.id,
            tags: self.tags@.map_values(|t: String| t@),
        }
    }
}

/// The detail a document value is stored as: scalars as the corresponding
/// scalar detail, composites as a structured detail.
pub open spec fn detail_of_doc(d: DocView) -> DetailView {
    match d {
        DocView::Null => DetailView::Null,
        DocView::Bool(b) => DetailView::Bool(b),
        DocView::Int(i) => DetailView::Int(i),
        DocView::Text(s) => DetailView::Text(s),
        DocView::Array(_) => DetailView::Structured(d),
        DocView::Object(_) => DetailView::Structured(d),
    }
}

/// The view of a freshly created builder: exactly the given status and
/// message, and nothing else.
pub open spec fn minimal_view(status: u16, message: Seq<char>) -> TerrorView {
    TerrorView {
        status,
        message,
        short_message: None,
        error_code: None,
        details: Seq::empty(),
        reference: None,
        timestamp: None,
        id: None,
        tags: Seq::empty(),
    }
}

/// For every status and message, an object built at once from a fresh
/// builder carries exactly that status and message, an empty details
/// mapping, and every optional field absent.
pub proof fn lemma_minimal_build(status: u16, message: Seq<char>)
    ensures
        ({
            let v = minimal_view(status, message);
            &&& v.status == status
            &&& v.message == message
            &&& v.short_message is None
            &&& v.error_code is None
            &&& v.details_as_map() == Map::<Seq<char>, DetailView>::empty()
            &&& v.reference is None
            &&& v.timestamp is None
            &&& v.id is None
            &&& v.tags == Seq::<Seq<char>>::empty()
            &&& v.wf()
        }),
{
}

impl Terror {
    /// Constructs a builder with the minimal data and no optional
    /// capability.
    pub fn new(status: u16, message: String) -> (b: Builder)
        ensures
            b@ == minimal_view(status, message@),
            b@.wf(),
    {
        let b = Builder {
            status,
            message,
            short_message: None,
            error_code: None,
            details: Vec::new(),
            reference: None,
            timestamp: None,
            id: None,
            tags: Vec::new(),
        };
        proof {
            assert(b@ =~= minimal_view(status, b.message@));
        }
        b
    }

    /// Constructs a builder with the given capabilities: an enabled
    /// timestamp or identifier is captured now, not at `build`; an enabled
    /// reference is derived from `status` now.
    pub fn new_with(caps: Capabilities, status: u16, message: String) -> (b: Builder)
        ensures
            b@.status == status,
            b@.message == message@,
            b@.short_message is None,
            b@.error_code is None,
            b@.details == Seq::<(Seq<char>, DetailView)>::empty(),
            b@.reference == if caps.reference {
                Some(reference_chars(status))
            } else {
                None::<Seq<char>>
            },
            b@.timestamp is Some <==> caps.timestamp,
            b@.id is Some <==> caps.identifier,
            b@.id matches Some(i) ==> i / 0x10000000000000000000 % 16 == 4 && i
                / 0x4000000000000000 % 4 == 2,
            b@.tags == Seq::<Seq<char>>::empty(),
            b@.wf(),
    {
        let timestamp = if caps.timestamp {
            Some(Timestamp::now())
        } else {
            None
        };
        let id = if caps.identifier {
            Some(fresh_id())
        } else {
            None
        };
        let reference = if caps.reference {
            Some(render_reference(status))
        } else {
            None
        };
        let b = Builder {
            status,
            message,
            short_message: None,
            error_code: None,
            details: Vec::new(),
            reference,
            timestamp,
            id,
            tags: Vec::new(),
        };
        proof {
            assert(b@.details =~= Seq::<(Seq<char>, DetailView)>::empty());
            assert(b@.tags =~= Seq::<Seq<char>>::empty());
        }
        b
    }

    /// Constructs a builder from a rendered error cause, with HTTP status
    /// 500 (internal server error).
    pub fn from_error(message: String) -> (b: Builder)
        ensures
            b@ == minimal_view(500, message@),
            b@.wf(),
    {
        Terror::new(500, message)
    }

    /// Constructs a builder from a rendered error cause with the given
    /// capabilities and HTTP status 500 (internal server error).
    pub fn from_error_with(caps: Capabilities, message: String) -> (b: Builder)
        ensures
            b@.status == 500,
            b@.message == message@,
            b@.short_message is None,
            b@.error_code is None,
            b@.details == Seq::<(Seq<char>, DetailView)>::empty(),
            b@.reference == if caps.reference {
                Some(reference_chars(500))
            } else {
                None::<Seq<char>>
            },
            b@.timestamp is Some <==> caps.timestamp,
            b@.id is Some <==> caps.identifier,
            b@.tags == Seq::<Seq<char>>::empty(),
            b@.wf(),
    {
        Terror::new_with(caps, 500, message)
    }
}

impl Builder {
    /// Adds a short error message; a later call overwrites an earlier one.
    pub fn shorthand(self, message: String) -> (b: Builder)
        requires
            self@.wf(),
        ensures
            b@ == (TerrorView { short_message: Some(message@), ..self@ }),
            b@.wf(),
    {
        Builder { short_message: Some(message), ..self }
    }

    /// Adds an error code; a later call overwrites an earlier one.
    pub fn error_code(self, code: String) -> (b: Builder)
        requires
            self@.wf(),
        ensures
            b@ == (TerrorView { error_code: Some(code@), ..self@ }),
            b@.wf(),
    {
        Builder { error_code: Some(code), ..self }
    }

    /// Adds a text detail.
    pub fn add_text_detail(self, name: String, value: String) -> (b: Builder)
        requires
            self@.wf(),
        ensures
            b@ == (TerrorView {
                details: upsert(self@.details, name@, DetailView::Text(value@)),
                ..self@
            }),
            b@.wf(),
    {
        self.add_detail(name, DetailValue::Text(value))
    }

    /// Adds an integer detail.
    pub fn add_int_detail(self, name: String, value: i64) -> (b: Builder)
        requires
            self@.wf(),
        ensures
            b@ == (TerrorView {
                details: upsert(self@.details, name@, DetailView::Int(value)),
                ..self@
            }),
            b@.wf(),
    {
        self.add_detail(name, DetailValue::Int(value))
    }

    /// Adds a boolean detail.
    pub fn add_bool_detail(self, name: String, value: bool) -> (b: Builder)
        requires
            self@.wf(),
        ensures
            b@ == (TerrorView {
                details: upsert(self@.details, name@, DetailView::Bool(value)),
                ..self@
            }),
            b@.wf(),
    {
        self.add_detail(name, DetailValue::Bool(value))
    }

    /// Adds a `null` detail.
    pub fn add_null_detail(self, name: String) -> (b: Builder)
        requires
            self@.wf(),
        ensures
            b@ == (TerrorView { details: upsert(self@.details, name@, DetailView::Null), ..self@ }),
            b@.wf(),
    {
        self.add_detail(name, DetailValue::Null)
    }

    /// Adds a document value as a detail: a scalar document is stored as the
    /// corresponding scalar detail, a composite one as a structured detail.
    pub fn add_value_detail(self, name: String, value: DocValue) -> (b: Builder)
        requires
            self@.wf(),
        ensures
            b@ == (TerrorView {
                details: upsert(self@.details, name@, detail_of_doc(value.deep_view())),
                ..self@
            }),
            b@.wf(),
    {
        let detail = match value {
            DocValue::Null => DetailValue::Null,
            DocValue::Bool(b) => DetailValue::Bool(b),
            DocValue::Int(i) => DetailValue::Int(i),
            DocValue::Text(s) => DetailValue::Text(s),
            composite => DetailValue::Structured(composite),
        };
        self.add_detail(name, detail)
    }

    /// Inserts `value` at `name`: the shared last-write-wins insertion.
    fn add_detail(self, name: String, value: DetailValue) -> (b: Builder)
        requires
            self@.wf(),
            detail_norm(value.deep_view()),
        ensures
            b@ == (TerrorView {
                details: upsert(self@.details, name@, value.deep_view()),
                ..self@
            }),
            b@.wf(),
    {
        let ghost old_view = self@;
        let Builder {
            status,
            message,
            short_message,
            error_code,
            mut details,
            reference,
            timestamp,
            id,
            tags,
        } = self;
        upsert_detail(&mut details, name, value);
        let b = Builder {
            status,
            message,
            short_message,
            error_code,
            details,
            reference,
            timestamp,
            id,
            tags,
        };
        proof {
            assert(b@ =~= (TerrorView {
                details: upsert(old_view.details, name@, value.deep_view()),
                ..old_view
            }));
            lemma_upsert_map(old_view.details, name@, value.deep_view());
            lemma_upsert_norm(old_view.details, name@, value.deep_view());
        }
        b
    }

    /// Appends a debug tag for the log formatter.
    pub fn add_tag(self, tag: String) -> (b: Builder)
        requires
            self@.wf(),
        ensures
            b@ == (TerrorView { tags: self@.tags.push(tag@), ..self@ }),
            b@.wf(),
    {
        let ghost old_view = self@;
        let Builder {
            status,
            message,
            short_message,
            error_code,
            details,
            reference,
            timestamp,
            id,
            mut tags,
        } = self;
        tags.push(tag);
        let b = Builder {
            status,
            message,
            short_message,
            error_code,
            details,
            reference,
            timestamp,
            id,
            tags,
        };
        proof {
            assert(b@.tags =~= old_view.tags.push(tag@));
            assert(b@ =~= (TerrorView { tags: old_view.tags.push(tag@), ..old_view }));
        }
        b
    }

    /// Attaches the documentation reference for the current status.
    pub fn reference(self) -> (b: Builder)
        requires
            self@.wf(),
        ensures
            b@ == (TerrorView { reference: Some(reference_chars(self@.status)), ..self@ }),
            b@.wf(),
    {
        let r = render_reference(self.status);
        Builder { reference: Some(r), ..self }
    }

    /// Concludes the configuration and produces the immutable [`Terror`],
    /// fully consuming the builder.
    pub fn build(self) -> (t: Terror)
        requires
            self@.wf(),
        ensures
            t@ == self@,
            t@.wf(),
    {
        let Builder {
            status,
            message,
            short_message,
            error_code,
            details,
            reference,
            timestamp,
            id,
            tags,
        } = self;
        Terror {
            status,
            message,
            short_message,
            error_code,
            details,
            reference,
            timestamp,
            id,
            tags,
        }
    }
}

} // verus!
