use vstd::prelude::*;

use crate::codec::{
    field, field_number, fold_fields, lemma_fold_all, lemma_fold_one, lemma_fold_step, map_entries, u32_of, bytes_of,
    DecodeError, FieldReader, PackEntry, PackValue, RocketPackStruct,
};

verus! {

/// A version of the session protocol.
#[derive(Debug, Clone, Copy, PartialEq, Eq, Structural)]
pub enum SessionVersion {
    V1,
}

/// The number under which a session version is written.
pub open spec fn session_version_repr(v: SessionVersion) -> u32 {
    match v {
        SessionVersion::V1 => 1,
    }
}

/// The session version written as `n`, if any.
pub open spec fn session_version_of_repr(n: u32) -> Option<SessionVersion> {
    if n == 1 {
        Some(SessionVersion::V1)
    } else {
        None
    }
}

impl SessionVersion {
    /// The number under which this version is written.
    pub fn to_repr(&self) -> (r: u32)
        ensures
            r == session_version_repr(*self),
    {
        match self {
            SessionVersion::V1 => 1,
        }
    }

    /// The version written as `n`, if any.
    pub fn from_repr(n: u32) -> (r: Option<SessionVersion>)
        ensures
            r == session_version_of_repr(n),
    {
        if n == 1 {
            Some(SessionVersion::V1)
        } else {
            None
        }
    }
}

/// What a new session is asked for.
#[derive(Debug, Clone, Copy, PartialEq, Eq, Structural)]
pub enum V1RequestType {
    Unknown,
    NodeFinder,
    FileExchanger,
}

/// The number under which a request type is written.
pub open spec fn request_type_repr(t: V1RequestType) -> u32 {
    match t {
        V1RequestType::Unknown => 0,
        V1RequestType::NodeFinder => 1,
        V1RequestType::FileExchanger => 2,
    }
}

/// The request type written as `n`, if any.
pub open spec fn request_type_of_repr(n: u32) -> Option<V1RequestType> {
    if n == 0 {
        Some(V1RequestType::Unknown)
    } else if n == 1 {
        Some(V1RequestType::NodeFinder)
    } else if n == 2 {
        Some(V1RequestType::FileExchanger)
    } else {
        None
    }
}

impl V1RequestType {
    /// The number under which this type is written.
    pub fn to_repr(&self) -> (r: u32)
        ensures
            r == request_type_repr(*self),
    {
        match self {
            V1RequestType::Unknown => 0,
            V1RequestType::NodeFinder => 1,
            V1RequestType::FileExchanger => 2,
        }
    }

    /// The type written as `n`, if any.
    pub fn from_repr(n: u32) -> (r: Option<V1RequestType>)
        ensures
            r == request_type_of_repr(n),
    {
        if n == 0 {
            Some(V1RequestType::Unknown)
        } else if n == 1 {
            Some(V1RequestType::NodeFinder)
        } else if n == 2 {
            Some(V1RequestType::FileExchanger)
        } else {
            None
        }
    }
}

/// The answer to a session request.
#[derive(Debug, Clone, Copy, PartialEq, Eq, Structural)]
pub enum V1ResultType {
    Unknown,
    Accept,
    Reject,
}

/// The number under which a result type is written.
pub open spec fn result_type_repr(t: V1ResultType) -> u32 {
    match t {
        V1ResultType::Unknown => 0,
        V1ResultType::Accept => 1,
        V1ResultType::Reject => 2,
    }
}

/// The result type written as `n`, if any.
pub open spec fn result_type_of_repr(n: u32) -> Option<V1ResultType> {
    if n == 0 {
        Some(V1ResultType::Unknown)
    } else if n == 1 {
        Some(V1ResultType::Accept)
    } else if n == 2 {
        Some(V1ResultType::Reject)
    } else {
        None
    }
}

impl V1ResultType {
    /// The number under which this type is written.
    pub fn to_repr(&self) -> (r: u32)
        ensures
            r == result_type_repr(*self),
    {
        match self {
            V1ResultType::Unknown => 0,
            V1ResultType::Accept => 1,
            V1ResultType::Reject => 2,
        }
    }

    /// The type written as `n`, if any.
    pub fn from_repr(n: u32) -> (r: Option<V1ResultType>)
        ensures
            r == result_type_of_repr(n),
    {
        if n == 0 {
            Some(V1ResultType::Unknown)
        } else if n == 1 {
            Some(V1ResultType::Accept)
        } else if n == 2 {
            Some(V1ResultType::Reject)
        } else {
            None
        }
    }
}

/// Each repr names its value back.
pub proof fn lemma_reprs_round_trip(v: SessionVersion, q: V1RequestType, t: V1ResultType)
    ensures
        session_version_of_repr(session_version_repr(v)) == Some(v),
        request_type_of_repr(request_type_repr(q)) == Some(q),
        result_type_of_repr(result_type_repr(t)) == Some(t),
{
}

/// The numbers under which the session's types go on the wire: version 1 is
/// the bit 1; a request type and a result type are numbered by their place in
/// their declaration from 0 (`Unknown`, `NodeFinder`, `FileExchanger` and
/// `Unknown`, `Accept`, `Reject`). Reading a number gives the type it
/// numbers, and a number outside these gives none.
pub proof fn lemma_wire_numbers()
    ensures
        session_version_repr(SessionVersion::V1) == 1,
        request_type_repr(V1RequestType::Unknown) == 0,
        request_type_repr(V1RequestType::NodeFinder) == 1,
        request_type_repr(V1RequestType::FileExchanger) == 2,
        result_type_repr(V1ResultType::Unknown) == 0,
        result_type_repr(V1ResultType::Accept) == 1,
        result_type_repr(V1ResultType::Reject) == 2,
        forall|n: u32| #[trigger] session_version_of_repr(n) is Some <==> n == 1,
        forall|n: u32| #[trigger] request_type_of_repr(n) is Some <==> n <= 2,
        forall|n: u32| #[trigger] result_type_of_repr(n) is Some <==> n <= 2,
        forall|n: u32|
            #[trigger] session_version_of_repr(n) matches Some(v) ==> session_version_repr(v) == n,
        forall|n: u32| #[trigger] request_type_of_repr(n) matches Some(t) ==> request_type_repr(t) == n,
        forall|n: u32| #[trigger] result_type_of_repr(n) matches Some(t) ==> result_type_repr(t) == n,
{
}

/// The first message of a session: the version of the protocol to speak.
#[derive(Debug)]
pub struct HelloMessage {
    pub version: SessionVersion,
}

impl View for HelloMessage {
    type V = SessionVersion;

    open spec fn view(&self) -> SessionVersion {
        self.version
    }
}

impl FieldReader for HelloMessage {
    type State = Option<SessionVersion>;

    /// Field 0 is the version's number; other fields are skipped.
    open spec fn read_field(s: Self::State, e: PackEntry) -> Result<Self::State, DecodeError> {
        match field_number(e) {
            None => Err(DecodeError::UnexpectedType),
            Some(k) => if k == 0 {
                match u32_of(e.value) {
                    None => Err(DecodeError::UnexpectedType),
                    Some(x) => match session_version_of_repr(x) {
                    Some(y) => Ok(Some(y)),
                    None => Err(DecodeError::InvalidValue(0)),
                },
                }
            } else {
                Ok(s)
            },
        }
    }
}

impl RocketPackStruct for HelloMessage {
    open spec fn spec_unpack(v: PackValue) -> Result<SessionVersion, DecodeError> {
        match map_entries(v) {
            None => Err(DecodeError::UnexpectedType),
            Some(es) => match fold_fields::<HelloMessage>(es, None) {
                Err(e) => Err(e),
                Ok(st) => match st {
                    None => Err(DecodeError::MissingField(0)),
                    Some(x) => Ok(x),
                },
            },
        }
    }

    /// Writes a map with the single field 0.
    fn pack(&self) -> (r: PackValue)
        ensures
            r matches PackValue::Entries(es) && es@.len() == 1 && es@[0].key == PackValue::U64(0) && u32_of(es@[0].value) == Some(session_version_repr(self.version)),
    {
        let mut es: Vec<PackEntry> = Vec::new();
        es.push(field(0, PackValue::U32(self.version.to_repr())));
        proof {
            assert(es@ =~= seq![es@[0]]);
            lemma_fold_one::<HelloMessage>(es@[0], None);
        }
        PackValue::Entries(es)
    }

    fn unpack(v: &PackValue) -> (r: Result<Self, DecodeError>) {
        let es = match v {
            PackValue::Entries(es) => es,
            _ => return Err(DecodeError::UnexpectedType),
        };
        let mut value: Option<HelloMessage> = None;
        let mut i: usize = 0;
        while i < es.len()
            invariant
                i <= es@.len(),
                map_entries(*v) == Some(es@),
                fold_fields::<HelloMessage>(es@.take(i as int), None) == Ok::<_, DecodeError>(
                    match value { Some(m) => Some(m@), None => None },
                ),
            decreases es@.len() - i,
        {
            proof {
                lemma_fold_step::<HelloMessage>(es@, i as int, None);
            }
            match &es[i].key {
                PackValue::U64(k) => {
                    if *k == 0 {
                        value = Some(read_hello(&es[i].value)?);
                    }
                },
                _ => return Err(DecodeError::UnexpectedType),
            }
            i = i + 1;
        }
        proof {
            lemma_fold_all::<HelloMessage>(es@, None);
        }
        match value {
            Some(m) => Ok(m),
            None => Err(DecodeError::MissingField(0)),
        }
    }
}

fn read_hello(v: &PackValue) -> (r: Result<HelloMessage, DecodeError>)
    ensures
        match u32_of(*v) {
            None => r == Err::<HelloMessage, DecodeError>(DecodeError::UnexpectedType),
            Some(x) => match session_version_of_repr(x) {
                Some(y) => r matches Ok(m) && m@ == y,
                None => r == Err::<HelloMessage, DecodeError>(DecodeError::InvalidValue(0)),
            },
        },
{
    match v {
        PackValue::U32(n) => match SessionVersion::from_repr(*n) {
            Some(version) => Ok(HelloMessage { version }),
            None => Err(DecodeError::InvalidValue(0)),
        },
        _ => Err(DecodeError::UnexpectedType),
    }
}

/// The nonce of a challenge as 32 bytes, when it has that length.
pub open spec fn nonce_of(b: Seq<u8>) -> Option<Seq<u8>> {
    if b.len() == 32 {
        Some(b)
    } else {
        None
    }
}

/// The challenge of a session: a nonce that the other side signs.
#[derive(Debug)]
pub struct V1ChallengeMessage {
    pub nonce: [u8; 32],
}

impl View for V1ChallengeMessage {
    type V = Seq<u8>;

    open spec fn view(&self) -> Seq<u8> {
        self.nonce@
    }
}

impl FieldReader for V1ChallengeMessage {
    type State = Option<Seq<u8>>;

    /// Field 0 is the nonce, which must be 32 bytes long; other fields are skipped.
    open spec fn read_field(s: Self::State, e: PackEntry) -> Result<Self::State, DecodeError> {
        match field_number(e) {
            None => Err(DecodeError::UnexpectedType),
            Some(k) => if k == 0 {
                match bytes_of(e.value) {
                    None => Err(DecodeError::UnexpectedType),
                    Some(x) => match nonce_of(x) {
                    Some(y) => Ok(Some(y)),
                    None => Err(DecodeError::InvalidValue(0)),
                },
                }
            } else {
                Ok(s)
            },
        }
    }
}

impl RocketPackStruct for V1ChallengeMessage {
    open spec fn spec_unpack(v: PackValue) -> Result<Seq<u8>, DecodeError> {
        match map_entries(v) {
            None => Err(DecodeError::UnexpectedType),
            Some(es) => match fold_fields::<V1ChallengeMessage>(es, None) {
                Err(e) => Err(e),
                Ok(st) => match st {
                    None => Err(DecodeError::MissingField(0)),
                    Some(x) => Ok(x),
                },
            },
        }
    }

    /// Writes a map with the single field 0.
    fn pack(&self) -> (r: PackValue)
        ensures
            r matches PackValue::Entries(es) && es@.len() == 1 && es@[0].key == PackValue::U64(0) && bytes_of(es@[0].value) == Some(self.nonce@),
    {
        let mut es: Vec<PackEntry> = Vec::new();
        es.push(field(0, PackValue::Bytes(nonce_bytes(&self.nonce))));
        proof {
            assert(es@ =~= seq![es@[0]]);
            lemma_fold_one::<V1ChallengeMessage>(es@[0], None);
        }
        PackValue::Entries(es)
    }

    fn unpack(v: &PackValue) -> (r: Result<Self, DecodeError>) {
        let es = match v {
            PackValue::Entries(es) => es,
            _ => return Err(DecodeError::UnexpectedType),
        };
        let mut value: Option<V1ChallengeMessage> = None;
        let mut i: usize = 0;
        while i < es.len()
            invariant
                i <= es@.len(),
                map_entries(*v) == Some(es@),
                fold_fields::<V1ChallengeMessage>(es@.take(i as int), None) == Ok::<_, DecodeError>(
                    match value { Some(m) => Some(m@), None => None },
                ),
            decreases es@.len() - i,
        {
            proof {
                lemma_fold_step::<V1ChallengeMessage>(es@, i as int, None);
            }
            match &es[i].key {
                PackValue::U64(k) => {
                    if *k == 0 {
                        value = Some(read_challenge(&es[i].value)?);
                    }
                },
                _ => return Err(DecodeError::UnexpectedType),
            }
            i = i + 1;
        }
        proof {
            lemma_fold_all::<V1ChallengeMessage>(es@, None);
        }
        match value {
            Some(m) => Ok(m),
            None => Err(DecodeError::MissingField(0)),
        }
    }
}

fn read_challenge(v: &PackValue) -> (r: Result<V1ChallengeMessage, DecodeError>)
    ensures
        match bytes_of(*v) {
            None => r == Err::<V1ChallengeMessage, DecodeError>(DecodeError::UnexpectedType),
            Some(x) => match nonce_of(x) {
                Some(y) => r matches Ok(m) && m@ == y,
                None => r == Err::<V1ChallengeMessage, DecodeError>(DecodeError::InvalidValue(0)),
            },
        },
{
    match v {
        PackValue::Bytes(b) => {
            if b.len() == 32 {
                let mut nonce = [0u8; 32];
                let mut i: usize = 0;
                while i < 32
                    invariant
                        i <= 32,
                        b@.len() == 32,
                        forall|j: int| 0 <= j < i ==> nonce@[j] == b@[j],
                    decreases 32 - i,
                {
                    nonce[i] = b[i];
                    i = i + 1;
                }
                assert(nonce@ =~= b@);
                Ok(V1ChallengeMessage { nonce })
            } else {
                Err(DecodeError::InvalidValue(0))
            }
        },
        _ => Err(DecodeError::UnexpectedType),
    }
}

fn nonce_bytes(nonce: &[u8; 32]) -> (r: Vec<u8>)
    ensures
        r@ == nonce@,
{
    let mut r: Vec<u8> = Vec::new();
    let mut i: usize = 0;
    while i < 32
        invariant
            i <= 32,
            r@ == nonce@.take(i as int),
        decreases 32 - i,
    {
        r.push(nonce[i]);
        i = i + 1;
        assert(r@ =~= nonce@.take(i as int));
    }
    assert(nonce@.take(32) =~= nonce@);
    r
}

/// What a node asks a new session for.
#[derive(Debug)]
pub struct V1RequestMessage {
    pub request_type: V1RequestType,
}

impl View for V1RequestMessage {
    type V = V1RequestType;

    open spec fn view(&self) -> V1RequestType {
        self.request_type
    }
}

impl FieldReader for V1RequestMessage {
    type State = Option<V1RequestType>;

    /// Field 0 is the request type's number; other fields are skipped.
    open spec fn read_field(s: Self::State, e: PackEntry) -> Result<Self::State, DecodeError> {
        match field_number(e) {
            None => Err(DecodeError::UnexpectedType),
            Some(k) => if k == 0 {
                match u32_of(e.value) {
                    None => Err(DecodeError::UnexpectedType),
                    Some(x) => match request_type_of_repr(x) {
                    Some(y) => Ok(Some(y)),
                    None => Err(DecodeError::InvalidValue(0)),
                },
                }
            } else {
                Ok(s)
            },
        }
    }
}

impl RocketPackStruct for V1RequestMessage {
    open spec fn spec_unpack(v: PackValue) -> Result<V1RequestType, DecodeError> {
        match map_entries(v) {
            None => Err(DecodeError::UnexpectedType),
            Some(es) => match fold_fields::<V1RequestMessage>(es, None) {
                Err(e) => Err(e),
                Ok(st) => match st {
                    None => Err(DecodeError::MissingField(0)),
                    Some(x) => Ok(x),
                },
            },
        }
    }

    /// Writes a map with the single field 0.
    fn pack(&self) -> (r: PackValue)
        ensures
            r matches PackValue::Entries(es) && es@.len() == 1 && es@[0].key == PackValue::U64(0) && u32_of(es@[0].value) == Some(request_type_repr(self.request_type)),
    {
        let mut es: Vec<PackEntry> = Vec::new();
        es.push(field(0, PackValue::U32(self.request_type.to_repr())));
        proof {
            assert(es@ =~= seq![es@[0]]);
            lemma_fold_one::<V1RequestMessage>(es@[0], None);
        }
        PackValue::Entries(es)
    }

    fn unpack(v: &PackValue) -> (r: Result<Self, DecodeError>) {
        let es = match v {
            PackValue::Entries(es) => es,
            _ => return Err(DecodeError::UnexpectedType),
        };
        let mut value: Option<V1RequestMessage> = None;
        let mut i: usize = 0;
        while i < es.len()
            invariant
                i <= es@.len(),
                map_entries(*v) == Some(es@),
                fold_fields::<V1RequestMessage>(es@.take(i as int), None) == Ok::<_, DecodeError>(
                    match value { Some(m) => Some(m@), None => None },
                ),
            decreases es@.len() - i,
        {
            proof {
                lemma_fold_step::<V1RequestMessage>(es@, i as int, None);
            }
            match &es[i].key {
                PackValue::U64(k) => {
                    if *k == 0 {
                        value = Some(read_request(&es[i].value)?);
                    }
                },
                _ => return Err(DecodeError::UnexpectedType),
            }
            i = i + 1;
        }
        proof {
            lemma_fold_all::<V1RequestMessage>(es@, None);
        }
        match value {
            Some(m) => Ok(m),
            None => Err(DecodeError::MissingField(0)),
        }
    }
}

fn read_request(v: &PackValue) -> (r: Result<V1RequestMessage, DecodeError>)
    ensures
        match u32_of(*v) {
            None => r == Err::<V1RequestMessage, DecodeError>(DecodeError::UnexpectedType),
            Some(x) => match request_type_of_repr(x) {
                Some(y) => r matches Ok(m) && m@ == y,
                None => r == Err::<V1RequestMessage, DecodeError>(DecodeError::InvalidValue(0)),
            },
        },
{
    match v {
        PackValue::U32(n) => match V1RequestType::from_repr(*n) {
            Some(request_type) => Ok(V1RequestMessage { request_type }),
            None => Err(DecodeError::InvalidValue(0)),
        },
        _ => Err(DecodeError::UnexpectedType),
    }
}

/// The answer to a session request.
#[derive(Debug)]
pub struct V1ResultMessage {
    pub result_type: V1ResultType,
}

impl View for V1ResultMessage {
    type V = V1ResultType;

    open spec fn view(&self) -> V1ResultType {
        self.result_type
    }
}

impl FieldReader for V1ResultMessage {
    type State = Option<V1ResultType>;

    /// Field 0 is the result type's number; other fields are skipped.
    open spec fn read_field(s: Self::State, e: PackEntry) -> Result<Self::State, DecodeError> {
        match field_number(e) {
            None => Err(DecodeError::UnexpectedType),
            Some(k) => if k == 0 {
                match u32_of(e.value) {
                    None => Err(DecodeError::UnexpectedType),
                    Some(x) => match result_type_of_repr(x) {
                    Some(y) => Ok(Some(y)),
                    None => Err(DecodeError::InvalidValue(0)),
                },
                }
            } else {
                Ok(s)
            },
        }
    }
}

impl RocketPackStruct for V1ResultMessage {
    open spec fn spec_unpack(v: PackValue) -> Result<V1ResultType, DecodeError> {
        match map_entries(v) {
            None => Err(DecodeError::UnexpectedType),
            Some(es) => match fold_fields::<V1ResultMessage>(es, None) {
                Err(e) => Err(e),
                Ok(st) => match st {
                    None => Err(DecodeError::MissingField(0)),
                    Some(x) => Ok(x),
                },
            },
        }
    }

    /// Writes a map with the single field 0.
    fn pack(&self) -> (r: PackValue)
        ensures
            r matches PackValue::Entries(es) && es@.len() == 1 && es@[0].key == PackValue::U64(0) && u32_of(es@[0].value) == Some(result_type_repr(self.result_type)),
    {
        let mut es: Vec<PackEntry> = Vec::new();
        es.push(field(0, PackValue::U32(self.result_type.to_repr())));
        proof {
            assert(es@ =~= seq![es@[0]]);
            lemma_fold_one::<V1ResultMessage>(es@[0], None);
        }
        PackValue::Entries(es)
    }

    fn unpack(v: &PackValue) -> (r: Result<Self, DecodeError>) {
        let es = match v {
            PackValue::Entries(es) => es,
            _ => return Err(DecodeError::UnexpectedType),
        };
        let mut value: Option<V1ResultMessage> = None;
        let mut i: usize = 0;
        while i < es.len()
            invariant
                i <= es@.len(),
                map_entries(*v) == Some(es@),
                fold_fields::<V1ResultMessage>(es@.take(i as int), None) == Ok::<_, DecodeError>(
                    match value { Some(m) => Some(m@), None => None },
                ),
            decreases es@.len() - i,
        {
            proof {
                lemma_fold_step::<V1ResultMessage>(es@, i as int, None);
            }
            match &es[i].key {
                PackValue::U64(k) => {
                    if *k == 0 {
                        value = Some(read_result(&es[i].value)?);
                    }
                },
                _ => return Err(DecodeError::UnexpectedType),
            }
            i = i + 1;
        }
        proof {
            lemma_fold_all::<V1ResultMessage>(es@, None);
        }
        match value {
            Some(m) => Ok(m),
            None => Err(DecodeError::MissingField(0)),
        }
    }
}

fn read_result(v: &PackValue) -> (r: Result<V1ResultMessage, DecodeError>)
    ensures
        match u32_of(*v) {
            None => r == Err::<V1ResultMessage, DecodeError>(DecodeError::UnexpectedType),
            Some(x) => match result_type_of_repr(x) {
                Some(y) => r matches Ok(m) && m@ == y,
                None => r == Err::<V1ResultMessage, DecodeError>(DecodeError::InvalidValue(0)),
            },
        },
{
    match v {
        PackValue::U32(n) => match V1ResultType::from_repr(*n) {
            Some(result_type) => Ok(V1ResultMessage { result_type }),
            None => Err(DecodeError::InvalidValue(0)),
        },
        _ => Err(DecodeError::UnexpectedType),
    }
}

} // verus!
