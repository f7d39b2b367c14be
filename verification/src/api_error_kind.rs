use vstd::prelude::*;

verus! {

/// The kind of an error that the API returns to its clients.
#[derive(Debug, Clone, Copy, PartialEq, Eq, Structural)]
pub enum ApiErrorKind {
    /// Unknown error.
    Unknown,
    /// The client gave an input that is not valid.
    InvalidInput,
    /// The operation ran out of time before it completed.
    DeadlineExceeded,
    /// A requested entity was not found.
    NotFound,
    /// An entity to create exists already.
    AlreadyExists,
    /// The operation went past the valid range.
    OutOfRange,
    /// The operation is not implemented, supported or enabled.
    Unimplemented,
    /// The request lacks valid credentials for the operation.
    Unauthenticated,
    /// An invariant of the system underneath was broken.
    Internal,
}

/// The name under which an API error kind is written.
pub open spec fn api_error_kind_name(kind: ApiErrorKind) -> Seq<char> {
    match kind {
        ApiErrorKind::Unknown => "unknown"@,
        ApiErrorKind::InvalidInput => "invalid_input"@,
        ApiErrorKind::DeadlineExceeded => "deadline_exceeded"@,
        ApiErrorKind::NotFound => "not_found"@,
        ApiErrorKind::AlreadyExists => "already_exists"@,
        ApiErrorKind::OutOfRange => "out_of_range"@,
        ApiErrorKind::Unimplemented => "unimplemented"@,
        ApiErrorKind::Unauthenticated => "unauthenticated"@,
        ApiErrorKind::Internal => "internal"@,
    }
}

/// The name of each kind on the wire: the kind's name in snake case.
pub proof fn lemma_api_error_kind_names()
    ensures
        api_error_kind_name(ApiErrorKind::Unknown) == "unknown"@,
        api_error_kind_name(ApiErrorKind::InvalidInput) == "invalid_input"@,
        api_error_kind_name(ApiErrorKind::DeadlineExceeded) == "deadline_exceeded"@,
        api_error_kind_name(ApiErrorKind::NotFound) == "not_found"@,
        api_error_kind_name(ApiErrorKind::AlreadyExists) == "already_exists"@,
        api_error_kind_name(ApiErrorKind::OutOfRange) == "out_of_range"@,
        api_error_kind_name(ApiErrorKind::Unimplemented) == "unimplemented"@,
        api_error_kind_name(ApiErrorKind::Unauthenticated) == "unauthenticated"@,
        api_error_kind_name(ApiErrorKind::Internal) == "internal"@,
{
}

/// The kind whose name is `s`, if any.
pub open spec fn api_error_kind_of_name(s: Seq<char>) -> Option<ApiErrorKind> {
    if s == "unknown"@ {
        Some(ApiErrorKind::Unknown)
    } else
    if s == "invalid_input"@ {
        Some(ApiErrorKind::InvalidInput)
    } else
    if s == "deadline_exceeded"@ {
        Some(ApiErrorKind::DeadlineExceeded)
    } else
    if s == "not_found"@ {
        Some(ApiErrorKind::NotFound)
    } else
    if s == "already_exists"@ {
        Some(ApiErrorKind::AlreadyExists)
    } else
    if s == "out_of_range"@ {
        Some(ApiErrorKind::OutOfRange)
    } else
    if s == "unimplemented"@ {
        Some(ApiErrorKind::Unimplemented)
    } else
    if s == "unauthenticated"@ {
        Some(ApiErrorKind::Unauthenticated)
    } else
    if s == "internal"@ {
        Some(ApiErrorKind::Internal)
    } else {
        None
    }
}

/// Reading a kind's name gives the kind back.
pub proof fn lemma_api_error_kind_name_round_trip(kind: ApiErrorKind)
    ensures
        api_error_kind_of_name(api_error_kind_name(kind)) == Some(kind),
{
        reveal_strlit("unknown");
        reveal_strlit("invalid_input");
        reveal_strlit("deadline_exceeded");
        reveal_strlit("not_found");
        reveal_strlit("already_exists");
        reveal_strlit("out_of_range");
        reveal_strlit("unimplemented");
        reveal_strlit("unauthenticated");
        reveal_strlit("internal");
    let n = api_error_kind_name(kind);
    assert(n.len() > 0);
    assert("unknown"@[0] == 'u' && "invalid_input"@[0] == 'i' && "deadline_exceeded"@[0] == 'd' && "not_found"@[0] == 'n'
        && "already_exists"@[0] == 'a' && "out_of_range"@[0] == 'o' && "unimplemented"@[0] == 'u' && "unauthenticated"@[0] == 'u'
        && "internal"@[0] == 'i');
    assert("unknown"@[2] == 'k' && "unimplemented"@[2] == 'i' && "unauthenticated"@[2] == 'a');
    assert("invalid_input"@[2] == 'v' && "internal"@[2] == 't');
}

impl ApiErrorKind {
    /// The name under which this kind is written.
    pub fn as_str(&self) -> (r: &'static str)
        ensures
            r@ == api_error_kind_name(*self),
    {
        match self {
            ApiErrorKind::Unknown => "unknown",
            ApiErrorKind::InvalidInput => "invalid_input",
            ApiErrorKind::DeadlineExceeded => "deadline_exceeded",
            ApiErrorKind::NotFound => "not_found",
            ApiErrorKind::AlreadyExists => "already_exists",
            ApiErrorKind::OutOfRange => "out_of_range",
            ApiErrorKind::Unimplemented => "unimplemented",
            ApiErrorKind::Unauthenticated => "unauthenticated",
            ApiErrorKind::Internal => "internal",
        }
    }

    /// The kind of the given name; names of no kind give `None`.
    pub fn from_name(s: &str) -> (r: Option<ApiErrorKind>)
        ensures
            r == api_error_kind_of_name(s@),
    {
        let s = s.to_owned();
        if s == str_string("unknown") {
        Some(ApiErrorKind::Unknown)
    } else
    if s == str_string("invalid_input") {
        Some(ApiErrorKind::InvalidInput)
    } else
    if s == str_string("deadline_exceeded") {
        Some(ApiErrorKind::DeadlineExceeded)
    } else
    if s == str_string("not_found") {
        Some(ApiErrorKind::NotFound)
    } else
    if s == str_string("already_exists") {
        Some(ApiErrorKind::AlreadyExists)
    } else
    if s == str_string("out_of_range") {
        Some(ApiErrorKind::OutOfRange)
    } else
    if s == str_string("unimplemented") {
        Some(ApiErrorKind::Unimplemented)
    } else
    if s == str_string("unauthenticated") {
        Some(ApiErrorKind::Unauthenticated)
    } else
    if s == str_string("internal") {
        Some(ApiErrorKind::Internal)
    } else {
            None
        }
    }
}

fn str_string(s: &str) -> (r: String)
    ensures
        r@ == s@,
{
    s.to_owned()
}

impl Default for ApiErrorKind {
    fn default() -> (r: ApiErrorKind)
        ensures
            r == ApiErrorKind::Unknown,
    {
        ApiErrorKind::Unknown
    }
}

} // verus!
