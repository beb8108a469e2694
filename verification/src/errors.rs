//! The error model: an error-kind taxonomy, line errors carrying a location
//! path, and the split between recoverable line errors (collected) and fatal
//! errors (propagated at once).

use vstd::prelude::*;

verus! {

/// The kind of one validation failure. Parsing kinds carry the diagnostic
/// text of the external grammar verbatim.
#[derive(Debug, PartialEq, Eq)]
pub enum ErrorKind {
    /// The input was not a mapping.
    DictType,
    /// The input was not an integer.
    IntType,
    /// The input was not a string.
    StrType,
    /// A mapping had fewer entries than `min_items` allows.
    TooShort { min_length: usize },
    /// A mapping had more entries than `max_items` allows.
    TooLong { max_length: usize },
    /// A self-referential schema met the same input again.
    RecursionLoop,
    /// A date byte string did not parse; the text is the grammar's diagnostic.
    DateParsing { error: String },
    /// A time byte string or timestamp did not parse.
    TimeParsing { error: String },
    /// A datetime byte string or timestamp did not parse.
    DateTimeParsing { error: String },
    /// A duration byte string or pair of magnitudes did not parse.
    TimeDeltaParsing { error: String },
}

impl Clone for ErrorKind {
    /// A clone is equal to the original.
    fn clone(&self) -> (r: ErrorKind)
        ensures
            r == *self,
    {
        match self {
            ErrorKind::DictType => ErrorKind::DictType,
            ErrorKind::IntType => ErrorKind::IntType,
            ErrorKind::StrType => ErrorKind::StrType,
            ErrorKind::TooShort { min_length } => ErrorKind::TooShort { min_length: *min_length },
            ErrorKind::TooLong { max_length } => ErrorKind::TooLong { max_length: *max_length },
            ErrorKind::RecursionLoop => ErrorKind::RecursionLoop,
            ErrorKind::DateParsing { error } => ErrorKind::DateParsing { error: error.clone() },
            ErrorKind::TimeParsing { error } => ErrorKind::TimeParsing { error: error.clone() },
            ErrorKind::DateTimeParsing { error } => ErrorKind::DateTimeParsing { error: error.clone() },
            ErrorKind::TimeDeltaParsing { error } => ErrorKind::TimeDeltaParsing { error: error.clone() },
        }
    }
}

/// One step of a location path: a mapping key or a sequence index.
/// The synthetic key text `"[key]"` marks a failure on the key itself,
/// as opposed to the value under it.
#[derive(Debug, PartialEq, Eq)]
pub enum LocItem {
    Key(String),
    Index(usize),
}

impl Clone for LocItem {
    /// A clone is equal to the original.
    fn clone(&self) -> (r: LocItem)
        ensures
            r == *self,
    {
        match self {
            LocItem::Key(s) => LocItem::Key(s.clone()),
            LocItem::Index(i) => LocItem::Index(*i),
        }
    }
}

/// One recoverable validation failure: a kind plus a location path.
///
/// Location items are pushed innermost-first as the error propagates
/// outward through enclosing frames, so the stored sequence reads
/// inside-out; [`ValLineError::path`] reverses it to read outside-in.
#[derive(Debug, PartialEq, Eq)]
pub struct ValLineError {
    pub kind: ErrorKind,
    pub location: Vec<LocItem>,
}

/// The views of pushing one element agree with pushing the views.
pub proof fn lemma_deep_view_push<T: DeepView>(a: Vec<T>, b: Vec<T>, x: T)
    requires
        b@ == a@.push(x),
    ensures
        b.deep_view() == a.deep_view().push(x.deep_view()),
{
    assert(b.deep_view() =~= a.deep_view().push(x.deep_view()));
}

impl Clone for ValLineError {
    /// A clone has the same mathematical form.
    fn clone(&self) -> (r: ValLineError)
        ensures
            r.deep_view() == self.deep_view(),
    {
        let r = ValLineError { kind: self.kind.clone(), location: self.location.clone() };
        proof {
            assert(r.location.deep_view() =~= self.location.deep_view());
            assert(r.deep_view() =~~= self.deep_view());
        }
        r
    }
}

impl ValLineError {
    /// A line error with an empty location path.
    pub fn new(kind: ErrorKind) -> (r: ValLineError)
        ensures
            r.kind == kind,
            r.location@ == Seq::<LocItem>::empty(),
    {
        ValLineError { kind, location: Vec::new() }
    }

    /// Records that this error propagated out of the frame `loc`:
    /// the item is appended to the stored (inside-out) path.
    pub fn with_outer_location(self, loc: LocItem) -> (r: ValLineError)
        ensures
            r.kind == self.kind,
            r.location@ == self.location@.push(loc),
    {
        let mut e = self;
        e.location.push(loc);
        e
    }

    /// The location path read outside-in: the stored items reversed.
    pub fn path(self) -> (r: Vec<LocItem>)
        ensures
            r@ == self.location@.reverse(),
    {
        let mut loc = self.location;
        let ghost stored = loc@;
        let mut r: Vec<LocItem> = Vec::new();
        proof {
            assert(stored.subrange(0, stored.len() as int) =~= stored);
        }
        while loc.len() > 0
            invariant
                loc@.len() <= stored.len(),
                loc@ == stored.subrange(0, loc@.len() as int),
                r@ == stored.subrange(loc@.len() as int, stored.len() as int).reverse(),
            decreases loc@.len(),
        {
            let ghost loc0 = loc@;
            let ghost n = loc0.len() as int;
            let item = loc.pop().unwrap();
            r.push(item);
            proof {
                assert(loc0[n - 1] == stored[n - 1]);
                assert(loc@ =~= stored.subrange(0, n - 1));
                assert(stored.subrange(n - 1, stored.len() as int).reverse()
                    =~= stored.subrange(n, stored.len() as int).reverse().push(stored[n - 1]));
            }
        }
        r
    }
}

/// The mathematical form of an [`ErrorKind`].
pub enum ErrorKindV {
    DictType,
    IntType,
    StrType,
    TooShort { min_length: int },
    TooLong { max_length: int },
    RecursionLoop,
    DateParsing { error: Seq<char> },
    TimeParsing { error: Seq<char> },
    DateTimeParsing { error: Seq<char> },
    TimeDeltaParsing { error: Seq<char> },
}

impl DeepView for ErrorKind {
    type V = ErrorKindV;

    open spec fn deep_view(&self) -> ErrorKindV {
        match self {
            ErrorKind::DictType => ErrorKindV::DictType,
            ErrorKind::IntType => ErrorKindV::IntType,
            ErrorKind::StrType => ErrorKindV::StrType,
            ErrorKind::TooShort { min_length } => ErrorKindV::TooShort { min_length: *min_length as int },
            ErrorKind::TooLong { max_length } => ErrorKindV::TooLong { max_length: *max_length as int },
            ErrorKind::RecursionLoop => ErrorKindV::RecursionLoop,
            ErrorKind::DateParsing { error } => ErrorKindV::DateParsing { error: error@ },
            ErrorKind::TimeParsing { error } => ErrorKindV::TimeParsing { error: error@ },
            ErrorKind::DateTimeParsing { error } => ErrorKindV::DateTimeParsing { error: error@ },
            ErrorKind::TimeDeltaParsing { error } => ErrorKindV::TimeDeltaParsing { error: error@ },
        }
    }
}

/// The mathematical form of a [`LocItem`].
pub enum LocItemV {
    Key(Seq<char>),
    Index(int),
}

impl DeepView for LocItem {
    type V = LocItemV;

    open spec fn deep_view(&self) -> LocItemV {
        match self {
            LocItem::Key(s) => LocItemV::Key(s@),
            LocItem::Index(i) => LocItemV::Index(*i as int),
        }
    }
}

/// The mathematical form of a [`ValLineError`].
#[verifier::ext_equal]
pub struct LineErrV {
    pub kind: ErrorKindV,
    pub location: Seq<LocItemV>,
}

impl DeepView for ValLineError {
    type V = LineErrV;

    open spec fn deep_view(&self) -> LineErrV {
        LineErrV { kind: self.kind.deep_view(), location: self.location.deep_view() }
    }
}

/// The mathematical form of a [`ValError`].
#[verifier::ext_equal]
pub enum ValErrorV {
    LineErrors(Seq<LineErrV>),
    Internal(Seq<char>),
}

impl DeepView for ValError {
    type V = ValErrorV;

    open spec fn deep_view(&self) -> ValErrorV {
        match self {
            ValError::LineErrors(v) => ValErrorV::LineErrors(v.deep_view()),
            ValError::Internal(s) => ValErrorV::Internal(s@),
        }
    }
}

/// One line error of kind `kind` with an empty location, aggregated alone:
/// the form of a failure reported before any per-entry work.
pub open spec fn single_line_error(kind: ErrorKindV) -> ValErrorV {
    ValErrorV::LineErrors(seq![LineErrV { kind, location: Seq::empty() }])
}

/// The kind of `e` when it holds exactly one line error with an empty
/// location path, and `None` otherwise.
pub open spec fn single_error_kind(e: ValError) -> Option<ErrorKind> {
    match e {
        ValError::LineErrors(v) => if v@.len() == 1 && v@[0].location@.len() == 0 {
            Some(v@[0].kind)
        } else {
            None::<ErrorKind>
        },
        ValError::Internal(_) => None::<ErrorKind>,
    }
}

/// A validation outcome that is not success: either a collection of
/// recoverable line errors, or a fatal error that aborts the call at once
/// and is never aggregated.
#[derive(Debug, Clone, PartialEq, Eq)]
pub enum ValError {
    LineErrors(Vec<ValLineError>),
    Internal(String),
}

impl ValError {
    /// A single line error with an empty location, wrapped for aggregation.
    pub fn new(kind: ErrorKind) -> (r: ValError)
        ensures
            r matches ValError::LineErrors(v)
                && v@.len() == 1
                && v@[0].kind == kind
                && v@[0].location@ == Seq::<LocItem>::empty(),
    {
        let mut v: Vec<ValLineError> = Vec::new();
        v.push(ValLineError::new(kind));
        ValError::LineErrors(v)
    }
}

} // verus!
