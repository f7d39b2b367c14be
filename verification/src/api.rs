use vstd::prelude::*;

use crate::api_error_kind::{api_error_kind_name, api_error_kind_of_name, lemma_api_error_kind_name_round_trip, ApiErrorKind};
use crate::codec::{
    copy_opt_str, field, field_number, fold_fields, lemma_fold_all, lemma_fold_one, lemma_fold_step, lemma_fold_two,
    map_entries, opt_str, str_of, DecodeError, FieldReader, PackEntry, PackValue, RocketPackStruct,
};
use std::marker::PhantomData;

verus! {

/// An error that the API returns to a client: its kind and an optional message.
#[derive(Debug)]
pub struct ApiError {
    pub kind: ApiErrorKind,
    pub message: Option<String>,
}

impl View for ApiError {
    type V = (ApiErrorKind, Option<Seq<char>>);

    open spec fn view(&self) -> (ApiErrorKind, Option<Seq<char>>) {
        (self.kind, opt_str(self.message))
    }
}

impl ApiError {
    /// An error of the given kind without a message.
    pub fn new(kind: ApiErrorKind) -> (r: Self)
        ensures
            r.kind == kind,
            r.message is None,
    {
        ApiError { kind, message: None }
    }

    /// The same error with its message replaced by `message`.
    pub fn with_message(self, message: String) -> (r: Self)
        ensures
            r.kind == self.kind,
            r.message == Some(message),
    {
        ApiError { kind: self.kind, message: Some(message) }
    }
}

impl FieldReader for ApiError {
    type State = (Option<ApiErrorKind>, Option<Seq<char>>);

    /// Field 0 is the kind's name, field 1 the message; other fields are skipped.
    open spec fn read_field(s: Self::State, e: PackEntry) -> Result<Self::State, DecodeError> {
        match field_number(e) {
            None => Err(DecodeError::UnexpectedType),
            Some(k) => if k == 0 {
                match str_of(e.value) {
                    None => Err(DecodeError::UnexpectedType),
                    Some(n) => match api_error_kind_of_name(n) {
                        Some(kind) => Ok((Some(kind), s.1)),
                        None => Err(DecodeError::InvalidValue(0)),
                    },
                }
            } else if k == 1 {
                match str_of(e.value) {
                    None => Err(DecodeError::UnexpectedType),
                    Some(m) => Ok((s.0, Some(m))),
                }
            } else {
                Ok(s)
            },
        }
    }
}

impl RocketPackStruct for ApiError {
    open spec fn spec_unpack(v: PackValue) -> Result<(ApiErrorKind, Option<Seq<char>>), DecodeError> {
        match map_entries(v) {
            None => Err(DecodeError::UnexpectedType),
            Some(es) => match fold_fields::<ApiError>(es, (None, None)) {
                Err(e) => Err(e),
                Ok(st) => match st.0 {
                    None => Err(DecodeError::MissingField(0)),
                    Some(kind) => Ok((kind, st.1)),
                },
            },
        }
    }

    /// Writes the kind's name as field 0 and, when there is a message, the
    /// message as field 1; the map has one entry per field written.
    fn pack(&self) -> (r: PackValue)
        ensures
            r matches PackValue::Entries(es) && es@.len() == (if self.message is Some { 2int } else { 1int })
                && es@[0].key == PackValue::U64(0) && str_of(es@[0].value) == Some(api_error_kind_name(self.kind))
                && (self.message matches Some(m) ==> es@[1].key == PackValue::U64(1) && str_of(es@[1].value)
                == Some(m@)),
    {
        let mut es: Vec<PackEntry> = Vec::new();
        es.push(field(0, PackValue::Str(self.kind.as_str().to_owned())));
        match &self.message {
            Some(m) => {
                es.push(field(1, PackValue::Str(m.clone())));
            },
            None => {},
        }
        proof {
            lemma_api_error_kind_name_round_trip(self.kind);
            if self.message is Some {
                assert(es@ =~= seq![es@[0], es@[1]]);
                lemma_fold_two::<ApiError>(es@[0], es@[1], (None, None));
            } else {
                assert(es@ =~= seq![es@[0]]);
                lemma_fold_one::<ApiError>(es@[0], (None, None));
            }
        }
        PackValue::Entries(es)
    }

    fn unpack(v: &PackValue) -> (r: Result<Self, DecodeError>) {
        let es = match v {
            PackValue::Entries(es) => es,
            _ => return Err(DecodeError::UnexpectedType),
        };
        let mut kind: Option<ApiErrorKind> = None;
        let mut message: Option<String> = None;
        let mut i: usize = 0;
        while i < es.len()
            invariant
                i <= es@.len(),
                map_entries(*v) == Some(es@),
                fold_fields::<ApiError>(es@.take(i as int), (None, None)) == Ok::<_, DecodeError>(
                    (kind, opt_str(message)),
                ),
            decreases es@.len() - i,
        {
            proof {
                lemma_fold_step::<ApiError>(es@, i as int, (None, None));
            }
            read_api_error_field(&mut kind, &mut message, &es[i])?;
            i = i + 1;
        }
        proof {
            lemma_fold_all::<ApiError>(es@, (None, None));
        }
        match kind {
            Some(kind) => Ok(ApiError { kind, message }),
            None => Err(DecodeError::MissingField(0)),
        }
    }
}

fn read_api_error_field(kind: &mut Option<ApiErrorKind>, message: &mut Option<String>, e: &PackEntry) -> (r: Result<
    (),
    DecodeError,
>)
    ensures
        match <ApiError as FieldReader>::read_field((*old(kind), opt_str(*old(message))), *e) {
            Ok(s) => r is Ok && s == (*final(kind), opt_str(*final(message))),
            Err(x) => r == Err::<(), DecodeError>(x),
        },
{
    match &e.key {
        PackValue::U64(k) => {
            if *k == 0 {
                match &e.value {
                    PackValue::Str(n) => match ApiErrorKind::from_name(n.as_str()) {
                        Some(x) => {
                            *kind = Some(x);
                            Ok(())
                        },
                        None => Err(DecodeError::InvalidValue(0)),
                    },
                    _ => Err(DecodeError::UnexpectedType),
                }
            } else if *k == 1 {
                match &e.value {
                    PackValue::Str(m) => {
                        *message = Some(m.clone());
                        Ok(())
                    },
                    _ => Err(DecodeError::UnexpectedType),
                }
            } else {
                Ok(())
            }
        },
        _ => Err(DecodeError::UnexpectedType),
    }
}


/// The header of an API request: an optional request ID.
#[derive(Debug)]
pub struct ApiRequestHeader {
    request_id: Option<String>,
}

impl View for ApiRequestHeader {
    type V = Option<Seq<char>>;

    closed spec fn view(&self) -> Option<Seq<char>> {
        opt_str(self.request_id)
    }
}

impl Default for ApiRequestHeader {
    /// A header without a request ID.
    fn default() -> (r: ApiRequestHeader)
        ensures
            r@ is None,
    {
        ApiRequestHeader { request_id: None }
    }
}

impl FieldReader for ApiRequestHeader {
    type State = Option<Seq<char>>;

    /// Field 0 is the request ID; other fields are skipped.
    open spec fn read_field(s: Self::State, e: PackEntry) -> Result<Self::State, DecodeError> {
        match field_number(e) {
            None => Err(DecodeError::UnexpectedType),
            Some(k) => if k == 0 {
                match str_of(e.value) {
                    None => Err(DecodeError::UnexpectedType),
                    Some(x) => Ok(Some(x)),
                }
            } else {
                Ok(s)
            },
        }
    }
}

impl RocketPackStruct for ApiRequestHeader {
    open spec fn spec_unpack(v: PackValue) -> Result<Option<Seq<char>>, DecodeError> {
        match map_entries(v) {
            None => Err(DecodeError::UnexpectedType),
            Some(es) => fold_fields::<ApiRequestHeader>(es, None),
        }
    }

    /// Writes the request ID as field 0 when there is one; otherwise an empty map.
    fn pack(&self) -> (r: PackValue)
        ensures
            r matches PackValue::Entries(es) && es@.len() == (if self@ is Some { 1int } else { 0int }) && (
            self@ matches Some(id) ==> es@[0].key == PackValue::U64(0) && str_of(es@[0].value) == Some(id)),
    {
        let mut es: Vec<PackEntry> = Vec::new();
        match &self.request_id {
            Some(id) => {
                es.push(field(0, PackValue::Str(id.clone())));
                proof {
                    assert(es@ =~= seq![es@[0]]);
                    lemma_fold_one::<ApiRequestHeader>(es@[0], None);
                }
            },
            None => {
                assert(es@ =~= Seq::<PackEntry>::empty());
            },
        }
        PackValue::Entries(es)
    }

    fn unpack(v: &PackValue) -> (r: Result<Self, DecodeError>) {
        let es = match v {
            PackValue::Entries(es) => es,
            _ => return Err(DecodeError::UnexpectedType),
        };
        let mut request_id: Option<String> = None;
        let mut i: usize = 0;
        while i < es.len()
            invariant
                i <= es@.len(),
                map_entries(*v) == Some(es@),
                fold_fields::<ApiRequestHeader>(es@.take(i as int), None) == Ok::<_, DecodeError>(opt_str(request_id)),
            decreases es@.len() - i,
        {
            proof {
                lemma_fold_step::<ApiRequestHeader>(es@, i as int, None);
            }
            match &es[i].key {
                PackValue::U64(k) => {
                    if *k == 0 {
                        match &es[i].value {
                            PackValue::Str(x) => request_id = Some(x.clone()),
                            _ => return Err(DecodeError::UnexpectedType),
                        }
                    }
                },
                _ => return Err(DecodeError::UnexpectedType),
            }
            i = i + 1;
        }
        proof {
            lemma_fold_all::<ApiRequestHeader>(es@, None);
        }
        Ok(ApiRequestHeader { request_id })
    }
}

/// The answer to a health request: the version tag of the running build.
#[derive(Debug)]
pub struct HealthResult {
    pub git_tag: String,
}

impl View for HealthResult {
    type V = Seq<char>;

    open spec fn view(&self) -> Seq<char> {
        self.git_tag@
    }
}

impl FieldReader for HealthResult {
    type State = Option<Seq<char>>;

    /// Field 0 is the version tag; other fields are skipped.
    open spec fn read_field(s: Self::State, e: PackEntry) -> Result<Self::State, DecodeError> {
        match field_number(e) {
            None => Err(DecodeError::UnexpectedType),
            Some(k) => if k == 0 {
                match str_of(e.value) {
                    None => Err(DecodeError::UnexpectedType),
                    Some(x) => Ok(Some(x)),
                }
            } else {
                Ok(s)
            },
        }
    }
}

impl RocketPackStruct for HealthResult {
    open spec fn spec_unpack(v: PackValue) -> Result<Seq<char>, DecodeError> {
        match map_entries(v) {
            None => Err(DecodeError::UnexpectedType),
            Some(es) => match fold_fields::<HealthResult>(es, None) {
                Err(e) => Err(e),
                Ok(st) => match st {
                    None => Err(DecodeError::MissingField(0)),
                    Some(x) => Ok(x),
                },
            },
        }
    }

    /// Writes a map with the single field 0.
    fn pack(&self) -> (r: PackValue)
        ensures
            r matches PackValue::Entries(es) && es@.len() == 1 && es@[0].key == PackValue::U64(0) && str_of(
                es@[0].value,
            ) == Some(self@),
    {
        let mut es: Vec<PackEntry> = Vec::new();
        es.push(field(0, PackValue::Str(self.git_tag.clone())));
        proof {
            assert(es@ =~= seq![es@[0]]);
            lemma_fold_one::<HealthResult>(es@[0], None);
        }
        PackValue::Entries(es)
    }

    fn unpack(v: &PackValue) -> (r: Result<Self, DecodeError>) {
        let es = match v {
            PackValue::Entries(es) => es,
            _ => return Err(DecodeError::UnexpectedType),
        };
        let mut git_tag: Option<String> = None;
        let mut i: usize = 0;
        while i < es.len()
            invariant
                i <= es@.len(),
                map_entries(*v) == Some(es@),
                fold_fields::<HealthResult>(es@.take(i as int), None) == Ok::<_, DecodeError>(opt_str(git_tag)),
            decreases es@.len() - i,
        {
            proof {
                lemma_fold_step::<HealthResult>(es@, i as int, None);
            }
            match &es[i].key {
                PackValue::U64(k) => {
                    if *k == 0 {
                        match &es[i].value {
                            PackValue::Str(x) => git_tag = Some(x.clone()),
                            _ => return Err(DecodeError::UnexpectedType),
                        }
                    }
                },
                _ => return Err(DecodeError::UnexpectedType),
            }
            i = i + 1;
        }
        proof {
            lemma_fold_all::<HealthResult>(es@, None);
        }
        match git_tag {
            Some(git_tag) => Ok(HealthResult { git_tag }),
            None => Err(DecodeError::MissingField(0)),
        }
    }
}

/// The answer to a health request in the message format that numbers fields
/// from 1 and ends a message with field 0.
#[derive(Debug)]
pub struct HealthOutput {
    pub git_tag: String,
}

impl HealthOutput {
    /// The longest version tag that a reader of this message accepts.
    pub const MAX_GIH_TAG_LENGTH: usize = 256;
}

/// A request to the API: its header and its body.
#[derive(Debug)]
pub struct ApiRequest<T: RocketPackStruct> {
    pub header: ApiRequestHeader,
    pub body: T,
}

impl<T: RocketPackStruct> View for ApiRequest<T> {
    type V = (Option<Seq<char>>, T::V);

    open spec fn view(&self) -> (Option<Seq<char>>, T::V) {
        (self.header@, self.body@)
    }
}

impl<T: RocketPackStruct> FieldReader for ApiRequest<T> {
    type State = (Option<Option<Seq<char>>>, Option<T::V>);

    /// Field 0 is the header, field 1 the body; other fields are skipped.
    open spec fn read_field(s: Self::State, e: PackEntry) -> Result<Self::State, DecodeError> {
        match field_number(e) {
            None => Err(DecodeError::UnexpectedType),
            Some(k) => if k == 0 {
                match ApiRequestHeader::spec_unpack(e.value) {
                    Err(x) => Err(x),
                    Ok(h) => Ok((Some(h), s.1)),
                }
            } else if k == 1 {
                match T::spec_unpack(e.value) {
                    Err(x) => Err(x),
                    Ok(b) => Ok((s.0, Some(b))),
                }
            } else {
                Ok(s)
            },
        }
    }
}

impl<T: RocketPackStruct> RocketPackStruct for ApiRequest<T> {
    open spec fn spec_unpack(v: PackValue) -> Result<(Option<Seq<char>>, T::V), DecodeError> {
        match map_entries(v) {
            None => Err(DecodeError::UnexpectedType),
            Some(es) => match fold_fields::<ApiRequest<T>>(es, (None, None)) {
                Err(e) => Err(e),
                Ok(st) => match st.0 {
                    None => Err(DecodeError::MissingField(0)),
                    Some(h) => match st.1 {
                        None => Err(DecodeError::MissingField(1)),
                        Some(b) => Ok((h, b)),
                    },
                },
            },
        }
    }

    /// Writes the header as field 0 and the body as field 1.
    fn pack(&self) -> (r: PackValue) {
        let mut es: Vec<PackEntry> = Vec::new();
        es.push(field(0, self.header.pack()));
        es.push(field(1, self.body.pack()));
        proof {
            assert(es@ =~= seq![es@[0], es@[1]]);
            lemma_fold_two::<ApiRequest<T>>(es@[0], es@[1], (None, None));
        }
        PackValue::Entries(es)
    }

    fn unpack(v: &PackValue) -> (r: Result<Self, DecodeError>) {
        let es = match v {
            PackValue::Entries(es) => es,
            _ => return Err(DecodeError::UnexpectedType),
        };
        let mut header: Option<ApiRequestHeader> = None;
        let mut body: Option<T> = None;
        let mut i: usize = 0;
        while i < es.len()
            invariant
                i <= es@.len(),
                map_entries(*v) == Some(es@),
                fold_fields::<ApiRequest<T>>(es@.take(i as int), (None, None)) == Ok::<_, DecodeError>(
                    (
                        match header {
                            Some(h) => Some(h@),
                            None => None,
                        },
                        match body {
                            Some(b) => Some(b@),
                            None => None,
                        },
                    ),
                ),
            decreases es@.len() - i,
        {
            proof {
                lemma_fold_step::<ApiRequest<T>>(es@, i as int, (None, None));
            }
            match &es[i].key {
                PackValue::U64(k) => {
                    if *k == 0 {
                        header = Some(ApiRequestHeader::unpack(&es[i].value)?);
                    } else if *k == 1 {
                        body = Some(T::unpack(&es[i].value)?);
                    }
                },
                _ => return Err(DecodeError::UnexpectedType),
            }
            i = i + 1;
        }
        proof {
            lemma_fold_all::<ApiRequest<T>>(es@, (None, None));
        }
        match header {
            None => Err(DecodeError::MissingField(0)),
            Some(header) => match body {
                None => Err(DecodeError::MissingField(1)),
                Some(body) => Ok(ApiRequest { header, body }),
            },
        }
    }
}

/// The answer of the API to a request: a result or an error.
#[derive(Debug)]
pub enum ApiResult<T: RocketPackStruct> {
    Success(T),
    Failure(ApiError),
}

impl<T: RocketPackStruct> View for ApiResult<T> {
    type V = Result<T::V, (ApiErrorKind, Option<Seq<char>>)>;

    open spec fn view(&self) -> Result<T::V, (ApiErrorKind, Option<Seq<char>>)> {
        match self {
            ApiResult::Success(v) => Ok(v@),
            ApiResult::Failure(e) => Err(e@),
        }
    }
}

/// Reads the inner map of the success case: field 0 is the result.
pub struct ApiResultOkReader<T> {
    marker: PhantomData<T>,
}

/// Reads the inner map of the failure case: field 0 is the error.
pub struct ApiResultErrReader {
    marker: PhantomData<u8>,
}

impl<T: RocketPackStruct> FieldReader for ApiResultOkReader<T> {
    type State = Result<T::V, (ApiErrorKind, Option<Seq<char>>)>;

    open spec fn read_field(s: Self::State, e: PackEntry) -> Result<Self::State, DecodeError> {
        match field_number(e) {
            None => Err(DecodeError::UnexpectedType),
            Some(k) => if k == 0 {
                match T::spec_unpack(e.value) {
                    Err(x) => Err(x),
                    Ok(b) => Ok(Ok(b)),
                }
            } else {
                Ok(s)
            },
        }
    }
}

impl FieldReader for ApiResultErrReader {
    type State = Result<(), (ApiErrorKind, Option<Seq<char>>)>;

    open spec fn read_field(s: Self::State, e: PackEntry) -> Result<Self::State, DecodeError> {
        match field_number(e) {
            None => Err(DecodeError::UnexpectedType),
            Some(k) => if k == 0 {
                match ApiError::spec_unpack(e.value) {
                    Err(x) => Err(x),
                    Ok(b) => Ok(Err(b)),
                }
            } else {
                Ok(s)
            },
        }
    }
}

/// The state after reading the inner map of the failure case from state `s`:
/// the last error read there, or `s` when the map holds none.
pub open spec fn read_err_case<V>(s: Result<V, (ApiErrorKind, Option<Seq<char>>)>, es: Seq<PackEntry>) -> Result<
    Result<V, (ApiErrorKind, Option<Seq<char>>)>,
    DecodeError,
> {
    match fold_fields::<ApiResultErrReader>(es, Ok(())) {
        Err(x) => Err(x),
        Ok(r) => match r {
            Ok(_) => Ok(s),
            Err(e) => Ok(Err(e)),
        },
    }
}

impl<T: RocketPackStruct> FieldReader for ApiResult<T> {
    type State = Result<T::V, (ApiErrorKind, Option<Seq<char>>)>;

    /// Field 0 holds a map whose field 0 is the result; field 1 holds a map
    /// whose field 0 is the error; other fields are skipped.
    open spec fn read_field(s: Self::State, e: PackEntry) -> Result<Self::State, DecodeError> {
        match field_number(e) {
            None => Err(DecodeError::UnexpectedType),
            Some(k) => if k == 0 {
                match map_entries(e.value) {
                    None => Err(DecodeError::UnexpectedType),
                    Some(inner) => fold_fields::<ApiResultOkReader<T>>(inner, s),
                }
            } else if k == 1 {
                match map_entries(e.value) {
                    None => Err(DecodeError::UnexpectedType),
                    Some(inner) => read_err_case(s, inner),
                }
            } else {
                Ok(s)
            },
        }
    }
}

impl<T: RocketPackStruct> RocketPackStruct for ApiResult<T> {
    /// Reading starts from an error of kind `Unknown`, which stands when the
    /// map holds neither case.
    open spec fn spec_unpack(v: PackValue) -> Result<Result<T::V, (ApiErrorKind, Option<Seq<char>>)>, DecodeError> {
        match map_entries(v) {
            None => Err(DecodeError::UnexpectedType),
            Some(es) => fold_fields::<ApiResult<T>>(es, Err((ApiErrorKind::Unknown, None))),
        }
    }

    /// Writes one field: 0 with a map holding the result as its field 0, or 1
    /// with a map holding the error as its field 0.
    fn pack(&self) -> (r: PackValue)
        ensures
            ({
                &&& r matches PackValue::Entries(es)
                &&& es@.len() == 1
                &&& es@[0].key == PackValue::U64(if self is Success { 0u64 } else { 1u64 })
                &&& es@[0].value matches PackValue::Entries(inner)
                &&& inner@.len() == 1
                &&& inner@[0].key == PackValue::U64(0)
                &&& match self {
                    ApiResult::Success(x) => T::spec_unpack(inner@[0].value) == Ok::<T::V, DecodeError>(x@),
                    ApiResult::Failure(e) => ApiError::spec_unpack(inner@[0].value) == Ok::<
                        (ApiErrorKind, Option<Seq<char>>),
                        DecodeError,
                    >(e@),
                }
            }),
    {
        let mut inner: Vec<PackEntry> = Vec::new();
        let k: u64 = match self {
            ApiResult::Success(x) => {
                inner.push(field(0, x.pack()));
                0
            },
            ApiResult::Failure(x) => {
                inner.push(field(0, x.pack()));
                1
            },
        };
        let ghost inner_view = inner@;
        let mut es: Vec<PackEntry> = Vec::new();
        es.push(field(k, PackValue::Entries(inner)));
        proof {
            let init: Result<T::V, (ApiErrorKind, Option<Seq<char>>)> = Err((ApiErrorKind::Unknown, None));
            assert(es@ =~= seq![es@[0]]);
            lemma_fold_one::<ApiResult<T>>(es@[0], init);
            assert(inner_view =~= seq![inner_view[0]]);
            lemma_fold_one::<ApiResultOkReader<T>>(inner_view[0], init);
            lemma_fold_one::<ApiResultErrReader>(inner_view[0], Ok(()));
        }
        PackValue::Entries(es)
    }

    fn unpack(v: &PackValue) -> (r: Result<Self, DecodeError>) {
        let es = match v {
            PackValue::Entries(es) => es,
            _ => return Err(DecodeError::UnexpectedType),
        };
        let ghost init: Result<T::V, (ApiErrorKind, Option<Seq<char>>)> = Err((ApiErrorKind::Unknown, None));
        let mut result: ApiResult<T> = ApiResult::Failure(ApiError::new(ApiErrorKind::Unknown));
        let mut i: usize = 0;
        while i < es.len()
            invariant
                i <= es@.len(),
                map_entries(*v) == Some(es@),
                init == Err::<T::V, (ApiErrorKind, Option<Seq<char>>)>((ApiErrorKind::Unknown, None)),
                fold_fields::<ApiResult<T>>(es@.take(i as int), init) == Ok::<_, DecodeError>(result@),
            decreases es@.len() - i,
        {
            proof {
                lemma_fold_step::<ApiResult<T>>(es@, i as int, init);
            }
            match &es[i].key {
                PackValue::U64(k) => {
                    if *k == 0 {
                        match &es[i].value {
                            PackValue::Entries(inner) => read_ok_case(inner, &mut result)?,
                            _ => return Err(DecodeError::UnexpectedType),
                        }
                    } else if *k == 1 {
                        match &es[i].value {
                            PackValue::Entries(inner) => read_err_case_exec(inner, &mut result)?,
                            _ => return Err(DecodeError::UnexpectedType),
                        }
                    }
                },
                _ => return Err(DecodeError::UnexpectedType),
            }
            i = i + 1;
        }
        proof {
            lemma_fold_all::<ApiResult<T>>(es@, init);
        }
        Ok(result)
    }
}

/// How a client reads an answer: a map whose one field is 0, holding a map
/// whose field 0 is a result, is that result; a map whose one field is 1,
/// holding a map whose field 0 is an error, is that error; an empty map is an
/// error of kind `Unknown` without a message.
pub proof fn lemma_api_result_cases<T: RocketPackStruct>(v: PackValue, k: u64, x: PackValue)
    requires
        map_entries(v) matches Some(es) && es.len() == 1 && es[0].key == PackValue::U64(k) && (
        map_entries(es[0].value) matches Some(inner) && inner.len() == 1 && inner[0].key == PackValue::U64(0)
            && inner[0].value == x),
    ensures
        k == 0 && T::spec_unpack(x) is Ok ==> ApiResult::<T>::spec_unpack(v) == Ok::<_, DecodeError>(
            Ok::<T::V, (ApiErrorKind, Option<Seq<char>>)>(T::spec_unpack(x)->Ok_0),
        ),
        k == 1 && ApiError::spec_unpack(x) is Ok ==> ApiResult::<T>::spec_unpack(v) == Ok::<_, DecodeError>(
            Err::<T::V, (ApiErrorKind, Option<Seq<char>>)>(ApiError::spec_unpack(x)->Ok_0),
        ),
{
    let es = map_entries(v)->Some_0;
    let inner = map_entries(es[0].value)->Some_0;
    let init: Result<T::V, (ApiErrorKind, Option<Seq<char>>)> = Err((ApiErrorKind::Unknown, None));
    assert(es =~= seq![es[0]]);
    assert(inner =~= seq![inner[0]]);
    lemma_fold_one::<ApiResult<T>>(es[0], init);
    lemma_fold_one::<ApiResultOkReader<T>>(inner[0], init);
    lemma_fold_one::<ApiResultErrReader>(inner[0], Ok(()));
}

/// An answer that holds neither case reads as an error of kind `Unknown`
/// without a message.
pub proof fn lemma_api_result_empty<T: RocketPackStruct>(v: PackValue)
    requires
        map_entries(v) matches Some(es) && es.len() == 0,
    ensures
        ApiResult::<T>::spec_unpack(v) == Ok::<_, DecodeError>(
            Err::<T::V, (ApiErrorKind, Option<Seq<char>>)>((ApiErrorKind::Unknown, None)),
        ),
{
}

fn read_ok_case<T: RocketPackStruct>(inner: &Vec<PackEntry>, result: &mut ApiResult<T>) -> (r: Result<(), DecodeError>)
    ensures
        match fold_fields::<ApiResultOkReader<T>>(inner@, old(result)@) {
            Ok(s) => r is Ok && final(result)@ == s,
            Err(x) => r == Err::<(), DecodeError>(x),
        },
{
    let mut i: usize = 0;
    let ghost start = result@;
    while i < inner.len()
        invariant
            i <= inner@.len(),
            start == old(result)@,
            fold_fields::<ApiResultOkReader<T>>(inner@.take(i as int), start) == Ok::<_, DecodeError>(result@),
        decreases inner@.len() - i,
    {
        proof {
            lemma_fold_step::<ApiResultOkReader<T>>(inner@, i as int, start);
        }
        match &inner[i].key {
            PackValue::U64(k) => {
                if *k == 0 {
                    *result = ApiResult::Success(T::unpack(&inner[i].value)?);
                }
            },
            _ => return Err(DecodeError::UnexpectedType),
        }
        i = i + 1;
    }
    proof {
        lemma_fold_all::<ApiResultOkReader<T>>(inner@, start);
    }
    Ok(())
}

fn read_err_case_exec<T: RocketPackStruct>(inner: &Vec<PackEntry>, result: &mut ApiResult<T>) -> (r: Result<
    (),
    DecodeError,
>)
    ensures
        match read_err_case(old(result)@, inner@) {
            Ok(s) => r is Ok && final(result)@ == s,
            Err(x) => r == Err::<(), DecodeError>(x),
        },
{
    let mut i: usize = 0;
    let mut read: Option<ApiError> = None;
    while i < inner.len()
        invariant
            i <= inner@.len(),
            fold_fields::<ApiResultErrReader>(inner@.take(i as int), Ok(())) == Ok::<_, DecodeError>(
                match read {
                    Some(e) => Err(e@),
                    None => Ok(()),
                },
            ),
        decreases inner@.len() - i,
    {
        proof {
            lemma_fold_step::<ApiResultErrReader>(inner@, i as int, Ok(()));
        }
        match &inner[i].key {
            PackValue::U64(k) => {
                if *k == 0 {
                    read = Some(ApiError::unpack(&inner[i].value)?);
                }
            },
            _ => return Err(DecodeError::UnexpectedType),
        }
        i = i + 1;
    }
    proof {
        lemma_fold_all::<ApiResultErrReader>(inner@, Ok(()));
    }
    match read {
        Some(e) => *result = ApiResult::Failure(e),
        None => {},
    }
    Ok(())
}

} // verus!
