use vstd::prelude::*;

use crate::byte_order::copy_bytes;
use crate::codec::{
    bytes_of, field, field_number, fold_fields, lemma_fold_all, lemma_fold_one, lemma_fold_step, lemma_fold_two,
    map_entries, str_of, u32_of, DecodeError, FieldReader, PackEntry, PackValue, RocketPackStruct,
};
use crate::model::{string_views, NodeProfile};
use crate::node_finder::known_versions;

verus! {

/// The first message of the node finder's handshake: the set of protocol versions, as bits, that a node speaks.
#[derive(Debug)]
pub struct HelloMessage {
    version: u32,
}

impl HelloMessage {
    #[verifier::type_invariant]
    spec fn only_known_versions(&self) -> bool {
        known_versions(self.version) == self.version
    }

    /// A hello message offering the versions among `bits` that this
    /// implementation knows; the others are dropped.
    pub fn new(bits: u32) -> (r: Self)
        ensures
            r@ == known_versions(bits),
    {
        proof {
            assert((bits & 1u32) & 1u32 == bits & 1u32) by (bit_vector);
        }
        HelloMessage { version: bits & 1 }
    }

    /// The set of versions offered, as bits.
    pub fn version(&self) -> (r: u32)
        ensures
            r == self@,
    {
        self.version
    }
}

impl View for HelloMessage {
    type V = u32;

    closed spec fn view(&self) -> u32 {
        self.version
    }
}

impl FieldReader for HelloMessage {
    type State = Option<u32>;

    /// Field 0 is the set of versions; bits of unknown versions are dropped; other fields are skipped.
    open spec fn read_field(s: Self::State, e: PackEntry) -> Result<Self::State, DecodeError> {
        match field_number(e) {
            None => Err(DecodeError::UnexpectedType),
            Some(k) => if k == 0 {
                match u32_of(e.value) {
                    None => Err(DecodeError::UnexpectedType),
                    Some(x) => Ok(Some(known_versions(x))),
                }
            } else {
                Ok(s)
            },
        }
    }
}

impl RocketPackStruct for HelloMessage {
    open spec fn spec_unpack(v: PackValue) -> Result<u32, DecodeError> {
        match map_entries(v) {
            None => Err(DecodeError::UnexpectedType),
            Some(es) => match fold_fields::<HelloMessage>(es, None) {
                Err(e) => Err(e),
                Ok(st) => match st {
                    None => Err(DecodeError::MissingField(0)),
                    Some(x) => Ok(x),
                },
            },
        }
    }

    /// Writes a map with the single field 0.
    fn pack(&self) -> (r: PackValue)
        ensures
            r matches PackValue::Entries(es) && es@.len() == 1 && es@[0].key == PackValue::U64(0) && u32_of(es@[0].value) == Some(self@),
    {
        proof {
            use_type_invariant(self);
        }
        let mut es: Vec<PackEntry> = Vec::new();
        es.push(field(0, PackValue::U32(self.version)));
        proof {
            assert(es@ =~= seq![es@[0]]);
            lemma_fold_one::<HelloMessage>(es@[0], None);
        }
        PackValue::Entries(es)
    }

    fn unpack(v: &PackValue) -> (r: Result<Self, DecodeError>) {
        let es = match v {
            PackValue::Entries(es) => es,
            _ => return Err(DecodeError::UnexpectedType),
        };
        let mut value: Option<HelloMessage> = None;
        let mut i: usize = 0;
        while i < es.len()
            invariant
                i <= es@.len(),
                map_entries(*v) == Some(es@),
                fold_fields::<HelloMessage>(es@.take(i as int), None) == Ok::<_, DecodeError>(
                    match value { Some(m) => Some(m@), None => None },
                ),
            decreases es@.len() - i,
        {
            proof {
                lemma_fold_step::<HelloMessage>(es@, i as int, None);
            }
            match &es[i].key {
                PackValue::U64(k) => {
                    if *k == 0 {
                        value = Some(read_hello(&es[i].value)?);
                    }
                },
                _ => return Err(DecodeError::UnexpectedType),
            }
            i = i + 1;
        }
        proof {
            lemma_fold_all::<HelloMessage>(es@, None);
        }
        match value {
            Some(m) => Ok(m),
            None => Err(DecodeError::MissingField(0)),
        }
    }
}

fn read_hello(v: &PackValue) -> (r: Result<HelloMessage, DecodeError>)
    ensures
        match u32_of(*v) {
            None => r == Err::<HelloMessage, DecodeError>(DecodeError::UnexpectedType),
            Some(x) => r matches Ok(m) && m@ == known_versions(x),
        },
{
    match v {
        PackValue::U32(n) => Ok(HelloMessage::new(*n)),
        _ => Err(DecodeError::UnexpectedType),
    }
}

/// The strings of an array of strings, or `None` when the value is not one.
pub open spec fn strs_of(v: PackValue) -> Option<Seq<Seq<char>>> {
    match v {
        PackValue::Array(a) => if forall|i: int| 0 <= i < a@.len() ==> #[trigger] a@[i] is Str {
            Some(Seq::new(a@.len(), |i: int| str_of(a@[i]).unwrap()))
        } else {
            None
        },
        _ => None,
    }
}

impl FieldReader for NodeProfile {
    type State = (Option<Seq<u8>>, Option<Seq<Seq<char>>>);

    /// Field 0 is the public key, field 1 the array of addresses; other fields
    /// are skipped.
    open spec fn read_field(s: Self::State, e: PackEntry) -> Result<Self::State, DecodeError> {
        match field_number(e) {
            None => Err(DecodeError::UnexpectedType),
            Some(k) => if k == 0 {
                match bytes_of(e.value) {
                    None => Err(DecodeError::UnexpectedType),
                    Some(b) => Ok((Some(b), s.1)),
                }
            } else if k == 1 {
                match strs_of(e.value) {
                    None => Err(DecodeError::UnexpectedType),
                    Some(a) => Ok((s.0, Some(a))),
                }
            } else {
                Ok(s)
            },
        }
    }
}

fn read_addrs(v: &PackValue) -> (r: Result<Vec<String>, DecodeError>)
    ensures
        match strs_of(*v) {
            None => r == Err::<Vec<String>, DecodeError>(DecodeError::UnexpectedType),
            Some(a) => r matches Ok(x) && string_views(x@) == a,
        },
{
    match v {
        PackValue::Array(a) => {
            let mut r: Vec<String> = Vec::new();
            let mut i: usize = 0;
            while i < a.len()
                invariant
                    i <= a@.len(),
                    *v == PackValue::Array(*a),
                    r@.len() == i,
                    forall|j: int| 0 <= j < i ==> #[trigger] a@[j] is Str && str_of(a@[j]) == Some(r@[j]@),
                decreases a@.len() - i,
            {
                match &a[i] {
                    PackValue::Str(s) => r.push(s.clone()),
                    _ => {
                        assert(!(a@[i as int] is Str));
                        return Err(DecodeError::UnexpectedType);
                    },
                }
                i = i + 1;
            }
            assert(string_views(r@) =~= Seq::new(a@.len(), |i: int| str_of(a@[i]).unwrap()));
            Ok(r)
        },
        _ => Err(DecodeError::UnexpectedType),
    }
}

fn write_addrs(addrs: &Vec<String>) -> (r: PackValue)
    ensures
        strs_of(r) == Some(string_views(addrs@)),
{
    let mut a: Vec<PackValue> = Vec::new();
    let mut i: usize = 0;
    while i < addrs.len()
        invariant
            i <= addrs@.len(),
            a@.len() == i,
            forall|j: int| 0 <= j < i ==> #[trigger] a@[j] is Str && str_of(a@[j]) == Some(addrs@[j]@),
        decreases addrs@.len() - i,
    {
        a.push(PackValue::Str(addrs[i].clone()));
        i = i + 1;
    }
    let r = PackValue::Array(a);
    assert(Seq::new(a@.len(), |i: int| str_of(a@[i]).unwrap()) =~= string_views(addrs@));
    r
}

impl RocketPackStruct for NodeProfile {
    open spec fn spec_unpack(v: PackValue) -> Result<(Seq<u8>, Seq<Seq<char>>), DecodeError> {
        match map_entries(v) {
            None => Err(DecodeError::UnexpectedType),
            Some(es) => match fold_fields::<NodeProfile>(es, (None, None)) {
                Err(e) => Err(e),
                Ok(st) => match st.0 {
                    None => Err(DecodeError::MissingField(0)),
                    Some(pk) => match st.1 {
                        None => Err(DecodeError::MissingField(1)),
                        Some(addrs) => Ok((pk, addrs)),
                    },
                },
            },
        }
    }

    /// Writes the public key as field 0 and the addresses, as an array of
    /// strings, as field 1.
    fn pack(&self) -> (r: PackValue)
        ensures
            r matches PackValue::Entries(es) && es@.len() == 2 && es@[0].key == PackValue::U64(0) && bytes_of(
                es@[0].value,
            ) == Some(self.public_key@) && es@[1].key == PackValue::U64(1) && strs_of(es@[1].value) == Some(
                string_views(self.addrs@),
            ),
    {
        let mut es: Vec<PackEntry> = Vec::new();
        es.push(field(0, PackValue::Bytes(copy_bytes(self.public_key.as_slice()))));
        es.push(field(1, write_addrs(&self.addrs)));
        proof {
            assert(es@ =~= seq![es@[0], es@[1]]);
            lemma_fold_two::<NodeProfile>(es@[0], es@[1], (None, None));
        }
        PackValue::Entries(es)
    }

    fn unpack(v: &PackValue) -> (r: Result<Self, DecodeError>) {
        let es = match v {
            PackValue::Entries(es) => es,
            _ => return Err(DecodeError::UnexpectedType),
        };
        let mut public_key: Option<Vec<u8>> = None;
        let mut addrs: Option<Vec<String>> = None;
        let mut i: usize = 0;
        while i < es.len()
            invariant
                i <= es@.len(),
                map_entries(*v) == Some(es@),
                fold_fields::<NodeProfile>(es@.take(i as int), (None, None)) == Ok::<_, DecodeError>(
                    (
                        match public_key {
                            Some(b) => Some(b@),
                            None => None,
                        },
                        match addrs {
                            Some(a) => Some(string_views(a@)),
                            None => None,
                        },
                    ),
                ),
            decreases es@.len() - i,
        {
            proof {
                lemma_fold_step::<NodeProfile>(es@, i as int, (None, None));
            }
            match &es[i].key {
                PackValue::U64(k) => {
                    if *k == 0 {
                        match &es[i].value {
                            PackValue::Bytes(b) => public_key = Some(copy_bytes(b.as_slice())),
                            _ => return Err(DecodeError::UnexpectedType),
                        }
                    } else if *k == 1 {
                        addrs = Some(read_addrs(&es[i].value)?);
                    }
                },
                _ => return Err(DecodeError::UnexpectedType),
            }
            i = i + 1;
        }
        proof {
            lemma_fold_all::<NodeProfile>(es@, (None, None));
        }
        match public_key {
            None => Err(DecodeError::MissingField(0)),
            Some(public_key) => match addrs {
                None => Err(DecodeError::MissingField(1)),
                Some(addrs) => Ok(NodeProfile { public_key, addrs }),
            },
        }
    }
}

/// The second message of the node finder's handshake: the profile of the node that sends it.
#[derive(Debug)]
pub struct ProfileMessage {
    pub node_profile: NodeProfile,
}

impl View for ProfileMessage {
    type V = (Seq<u8>, Seq<Seq<char>>);

    open spec fn view(&self) -> (Seq<u8>, Seq<Seq<char>>) {
        self.node_profile@
    }
}

impl FieldReader for ProfileMessage {
    type State = Option<(Seq<u8>, Seq<Seq<char>>)>;

    /// Field 0 is the profile; other fields are skipped.
    open spec fn read_field(s: Self::State, e: PackEntry) -> Result<Self::State, DecodeError> {
        match field_number(e) {
            None => Err(DecodeError::UnexpectedType),
            Some(k) => if k == 0 {
                match <NodeProfile as RocketPackStruct>::spec_unpack(e.value) {
                    Err(x) => Err(x),
                    Ok(x) => Ok(Some(x)),
                }
            } else {
                Ok(s)
            },
        }
    }
}

impl RocketPackStruct for ProfileMessage {
    open spec fn spec_unpack(v: PackValue) -> Result<(Seq<u8>, Seq<Seq<char>>), DecodeError> {
        match map_entries(v) {
            None => Err(DecodeError::UnexpectedType),
            Some(es) => match fold_fields::<ProfileMessage>(es, None) {
                Err(e) => Err(e),
                Ok(st) => match st {
                    None => Err(DecodeError::MissingField(0)),
                    Some(x) => Ok(x),
                },
            },
        }
    }

    /// Writes a map with the single field 0.
    fn pack(&self) -> (r: PackValue)
        ensures
            r matches PackValue::Entries(es) && es@.len() == 1 && es@[0].key == PackValue::U64(0) && NodeProfile::spec_unpack(es@[0].value) == Ok::<(Seq<u8>, Seq<Seq<char>>), DecodeError>(self.node_profile@),
    {
        let mut es: Vec<PackEntry> = Vec::new();
        es.push(field(0, self.node_profile.pack()));
        proof {
            assert(es@ =~= seq![es@[0]]);
            lemma_fold_one::<ProfileMessage>(es@[0], None);
        }
        PackValue::Entries(es)
    }

    fn unpack(v: &PackValue) -> (r: Result<Self, DecodeError>) {
        let es = match v {
            PackValue::Entries(es) => es,
            _ => return Err(DecodeError::UnexpectedType),
        };
        let mut value: Option<ProfileMessage> = None;
        let mut i: usize = 0;
        while i < es.len()
            invariant
                i <= es@.len(),
                map_entries(*v) == Some(es@),
                fold_fields::<ProfileMessage>(es@.take(i as int), None) == Ok::<_, DecodeError>(
                    match value { Some(m) => Some(m@), None => None },
                ),
            decreases es@.len() - i,
        {
            proof {
                lemma_fold_step::<ProfileMessage>(es@, i as int, None);
            }
            match &es[i].key {
                PackValue::U64(k) => {
                    if *k == 0 {
                        value = Some(read_profile(&es[i].value)?);
                    }
                },
                _ => return Err(DecodeError::UnexpectedType),
            }
            i = i + 1;
        }
        proof {
            lemma_fold_all::<ProfileMessage>(es@, None);
        }
        match value {
            Some(m) => Ok(m),
            None => Err(DecodeError::MissingField(0)),
        }
    }
}

fn read_profile(v: &PackValue) -> (r: Result<ProfileMessage, DecodeError>)
    ensures
        match <NodeProfile as RocketPackStruct>::spec_unpack(*v) {
            Err(e) => r == Err::<ProfileMessage, DecodeError>(e),
            Ok(x) => r matches Ok(m) && m@ == x,
        },
{
    let node_profile = NodeProfile::unpack(v)?;
    Ok(ProfileMessage { node_profile })
}

} // verus!
