//! Client errors raised while reading a request's query parameters.
use vstd::prelude::*;

use crate::json::map_keys;
use crate::text::{decimal_text, format_u64, opt_string};

verus! {

/// A request parameter that the service refuses; names the offending field where there is one.
#[derive(Debug, Clone, PartialEq, Eq)]
pub enum QueryError {
    /// A recognised field whose value has the wrong form, or that is given twice.
    InvalidParameter(String),
    /// A field that the service does not know.
    UnknownParameter(String),
    /// A bounding box that is not 4 or 6 numbers.
    InvalidBbox,
    /// A coordinate reference system that cannot be resolved or stored.
    InvalidCrs,
}

/// The mathematical form of a [`QueryError`].
pub enum ErrorView {
    InvalidParameter(Seq<char>),
    UnknownParameter(Seq<char>),
    InvalidBbox,
    InvalidCrs,
}

impl View for QueryError {
    type V = ErrorView;

    open spec fn view(&self) -> ErrorView {
        match self {
            QueryError::InvalidParameter(f) => ErrorView::InvalidParameter(f@),
            QueryError::UnknownParameter(f) => ErrorView::UnknownParameter(f@),
            QueryError::InvalidBbox => ErrorView::InvalidBbox,
            QueryError::InvalidCrs => ErrorView::InvalidCrs,
        }
    }
}

} // verus!

verus! {

/// A problem description in the manner of RFC 7807.
#[derive(Debug, PartialEq)]
pub struct Exception {
    /// A URI reference that identifies the problem type.
    pub problem_type: String,
    /// A short, human-readable summary of the problem type.
    pub title: Option<String>,
    /// The HTTP status code of this occurrence of the problem.
    pub status: Option<u16>,
    /// A human-readable explanation specific to this occurrence.
    pub detail: Option<String>,
    /// A URI reference that identifies this occurrence.
    pub instance: Option<String>,
    /// Further members of the problem object.
    pub additional_properties: serde_json::Map<String, serde_json::Value>,
}

/// The problem type of an HTTP status.
pub open spec fn status_type_spec(status: u16) -> Seq<char> {
    "https://httpwg.org/specs/rfc7231.html#status."@ + decimal_text(status as nat)
}

/// The detail of a client error: what was wrong, and with which field.
pub open spec fn error_detail_spec(e: ErrorView) -> Seq<char> {
    match e {
        ErrorView::InvalidParameter(f) => "invalid value for query parameter "@ + f,
        ErrorView::UnknownParameter(f) => "unknown query parameter "@ + f,
        ErrorView::InvalidBbox => "bbox must hold 4 or 6 numbers"@,
        ErrorView::InvalidCrs => "unsupported coordinate reference system"@,
    }
}

impl Exception {
    /// A problem of the given type, with nothing else set.
    pub fn new(problem_type: &str) -> (r: Exception)
        ensures
            r.problem_type@ == problem_type@,
            r.title is None,
            r.status is None,
            r.detail is None,
            r.instance is None,
            map_keys(r.additional_properties) == Set::<Seq<char>>::empty(),
    {
        Exception {
            problem_type: String::from_str(problem_type),
            title: None,
            status: None,
            detail: None,
            instance: None,
            additional_properties: serde_json::Map::new(),
        }
    }

    /// The problem of an HTTP status, typed by the status's definition.
    pub fn new_from_status(status: u16) -> (r: Exception)
        ensures
            r.problem_type@ == status_type_spec(status),
            r.status == Some(status),
            r.title is None,
            r.detail is None,
            r.instance is None,
            map_keys(r.additional_properties) == Set::<Seq<char>>::empty(),
    {
        let mut t = String::from_str("https://httpwg.org/specs/rfc7231.html#status.");
        let code = format_u64(status as u64);
        t.append(code.as_str());
        Exception::new(t.as_str()).status(status)
    }

    pub fn title(self, title: &str) -> (r: Exception)
        ensures
            opt_string(r.title) == Some(title@),
            r.problem_type == self.problem_type,
            r.status == self.status,
            r.detail == self.detail,
            r.instance == self.instance,
            r.additional_properties == self.additional_properties,
    {
        let mut e = self;
        e.title = Some(String::from_str(title));
        e
    }

    pub fn status(self, status: u16) -> (r: Exception)
        ensures
            r.status == Some(status),
            r.problem_type == self.problem_type,
            r.title == self.title,
            r.detail == self.detail,
            r.instance == self.instance,
            r.additional_properties == self.additional_properties,
    {
        let mut e = self;
        e.status = Some(status);
        e
    }

    pub fn detail(self, detail: &str) -> (r: Exception)
        ensures
            opt_string(r.detail) == Some(detail@),
            r.problem_type == self.problem_type,
            r.title == self.title,
            r.status == self.status,
            r.instance == self.instance,
            r.additional_properties == self.additional_properties,
    {
        let mut e = self;
        e.detail = Some(String::from_str(detail));
        e
    }

    pub fn instance(self, instance: &str) -> (r: Exception)
        ensures
            opt_string(r.instance) == Some(instance@),
            r.problem_type == self.problem_type,
            r.title == self.title,
            r.status == self.status,
            r.detail == self.detail,
            r.additional_properties == self.additional_properties,
    {
        let mut e = self;
        e.instance = Some(String::from_str(instance));
        e
    }

    /// The client-error problem (status 400) that reports `e`.
    pub fn from_error(e: &QueryError) -> (r: Exception)
        ensures
            r.problem_type@ == status_type_spec(400),
            r.status == Some(400u16),
            opt_string(r.title) == Some("Bad Request"@),
            opt_string(r.detail) == Some(error_detail_spec(e@)),
            r.instance is None,
            map_keys(r.additional_properties) == Set::<Seq<char>>::empty(),
    {
        let mut d = String::new();
        match e {
            QueryError::InvalidParameter(f) => {
                d.append("invalid value for query parameter ");
                d.append(f.as_str());
            },
            QueryError::UnknownParameter(f) => {
                d.append("unknown query parameter ");
                d.append(f.as_str());
            },
            QueryError::InvalidBbox => {
                d.append("bbox must hold 4 or 6 numbers");
            },
            QueryError::InvalidCrs => {
                d.append("unsupported coordinate reference system");
            },
        }
        assert(d@ =~= error_detail_spec(e@));
        Exception::new_from_status(400).title("Bad Request").detail(d.as_str())
    }
}

} // verus!
