use vstd::prelude::*;

use crate::byte_order::copy_bytes;
use crate::codec::{
    bytes_of, field, field_number, fold_fields, items_of, lemma_fold_all, lemma_fold_step, lemma_fold_two,
    map_entries, read_items, str_of, u32_of, views_of_items, write_items, DecodeError, FieldReader, PackEntry,
    PackValue, RocketPackStruct,
};
use crate::file_publish::{hash_views, MerkleLayer};
use crate::hash_model::{OmniHash, OmniHashAlgorithmType};
use crate::model::{AssetKey, FileRef};

verus! {

/// The number under which a hash algorithm is written.
pub open spec fn algorithm_repr(t: OmniHashAlgorithmType) -> u32 {
    match t {
        OmniHashAlgorithmType::Sha3_256 => 1,
    }
}

/// The hash algorithm written as `n`, if any.
pub open spec fn algorithm_of_repr(n: u32) -> Option<OmniHashAlgorithmType> {
    if n == 1 {
        Some(OmniHashAlgorithmType::Sha3_256)
    } else {
        None
    }
}

impl FieldReader for OmniHash {
    type State = (Option<OmniHashAlgorithmType>, Option<Seq<u8>>);

    /// Field 0 is the algorithm's number, field 1 the digest; other fields are skipped.
    open spec fn read_field(s: Self::State, e: PackEntry) -> Result<Self::State, DecodeError> {
        match field_number(e) {
            None => Err(DecodeError::UnexpectedType),
            Some(k) => if k == 0 {
                match u32_of(e.value) {
                    None => Err(DecodeError::UnexpectedType),
                    Some(n) => match algorithm_of_repr(n) {
                        None => Err(DecodeError::InvalidValue(0)),
                        Some(t) => Ok((Some(t), s.1)),
                    },
                }
            } else if k == 1 {
                match bytes_of(e.value) {
                    None => Err(DecodeError::UnexpectedType),
                    Some(b) => Ok((s.0, Some(b))),
                }
            } else {
                Ok(s)
            },
        }
    }
}

impl RocketPackStruct for OmniHash {
    open spec fn spec_unpack(v: PackValue) -> Result<(OmniHashAlgorithmType, Seq<u8>), DecodeError> {
        match map_entries(v) {
            None => Err(DecodeError::UnexpectedType),
            Some(es) => match fold_fields::<OmniHash>(es, (None, None)) {
                Err(e) => Err(e),
                Ok(st) => match st.0 {
                    None => Err(DecodeError::MissingField(0)),
                    Some(t) => match st.1 {
                        None => Err(DecodeError::MissingField(1)),
                        Some(b) => Ok((t, b)),
                    },
                },
            },
        }
    }

    /// Writes the algorithm's number as field 0 and the digest as field 1.
    fn pack(&self) -> (r: PackValue)
        ensures
            r matches PackValue::Entries(es) && es@.len() == 2 && es@[0].key == PackValue::U64(0) && u32_of(
                es@[0].value,
            ) == Some(algorithm_repr(self.typ)) && es@[1].key == PackValue::U64(1) && bytes_of(es@[1].value) == Some(
                self.value@,
            ),
    {
        let n: u32 = match self.typ {
            OmniHashAlgorithmType::Sha3_256 => 1,
        };
        let mut es: Vec<PackEntry> = Vec::new();
        es.push(field(0, PackValue::U32(n)));
        es.push(field(1, PackValue::Bytes(copy_bytes(self.value.as_slice()))));
        proof {
            assert(es@ =~= seq![es@[0], es@[1]]);
            lemma_fold_two::<OmniHash>(es@[0], es@[1], (None, None));
        }
        PackValue::Entries(es)
    }

    fn unpack(v: &PackValue) -> (r: Result<Self, DecodeError>) {
        let es = match v {
            PackValue::Entries(es) => es,
            _ => return Err(DecodeError::UnexpectedType),
        };
        let mut typ: Option<OmniHashAlgorithmType> = None;
        let mut value: Option<Vec<u8>> = None;
        let mut i: usize = 0;
        while i < es.len()
            invariant
                i <= es@.len(),
                map_entries(*v) == Some(es@),
                fold_fields::<OmniHash>(es@.take(i as int), (None, None)) == Ok::<_, DecodeError>(
                    (
                        typ,
                        match value {
                            Some(b) => Some(b@),
                            None => None,
                        },
                    ),
                ),
            decreases es@.len() - i,
        {
            proof {
                lemma_fold_step::<OmniHash>(es@, i as int, (None, None));
            }
            match &es[i].key {
                PackValue::U64(k) => {
                    if *k == 0 {
                        match &es[i].value {
                            PackValue::U32(n) => {
                                if *n == 1 {
                                    typ = Some(OmniHashAlgorithmType::Sha3_256);
                                } else {
                                    return Err(DecodeError::InvalidValue(0));
                                }
                            },
                            _ => return Err(DecodeError::UnexpectedType),
                        }
                    } else if *k == 1 {
                        match &es[i].value {
                            PackValue::Bytes(b) => value = Some(copy_bytes(b.as_slice())),
                            _ => return Err(DecodeError::UnexpectedType),
                        }
                    }
                },
                _ => return Err(DecodeError::UnexpectedType),
            }
            i = i + 1;
        }
        proof {
            lemma_fold_all::<OmniHash>(es@, (None, None));
        }
        match typ {
            None => Err(DecodeError::MissingField(0)),
            Some(typ) => match value {
                None => Err(DecodeError::MissingField(1)),
                Some(value) => Ok(OmniHash { typ, value }),
            },
        }
    }
}

impl FieldReader for AssetKey {
    type State = (Option<Seq<char>>, Option<(OmniHashAlgorithmType, Seq<u8>)>);

    /// Field 0 is the key's type, field 1 its hash; other fields are skipped.
    open spec fn read_field(s: Self::State, e: PackEntry) -> Result<Self::State, DecodeError> {
        match field_number(e) {
            None => Err(DecodeError::UnexpectedType),
            Some(k) => if k == 0 {
                match str_of(e.value) {
                    None => Err(DecodeError::UnexpectedType),
                    Some(t) => Ok((Some(t), s.1)),
                }
            } else if k == 1 {
                match OmniHash::spec_unpack(e.value) {
                    Err(x) => Err(x),
                    Ok(h) => Ok((s.0, Some(h))),
                }
            } else {
                Ok(s)
            },
        }
    }
}

impl RocketPackStruct for AssetKey {
    open spec fn spec_unpack(v: PackValue) -> Result<(Seq<char>, (OmniHashAlgorithmType, Seq<u8>)), DecodeError> {
        match map_entries(v) {
            None => Err(DecodeError::UnexpectedType),
            Some(es) => match fold_fields::<AssetKey>(es, (None, None)) {
                Err(e) => Err(e),
                Ok(st) => match st.0 {
                    None => Err(DecodeError::MissingField(0)),
                    Some(t) => match st.1 {
                        None => Err(DecodeError::MissingField(1)),
                        Some(h) => Ok((t, h)),
                    },
                },
            },
        }
    }

    /// Writes the type as field 0 and the hash as field 1.
    fn pack(&self) -> (r: PackValue)
        ensures
            r matches PackValue::Entries(es) && es@.len() == 2 && es@[0].key == PackValue::U64(0) && str_of(
                es@[0].value,
            ) == Some(self.typ@) && es@[1].key == PackValue::U64(1) && OmniHash::spec_unpack(es@[1].value) == Ok::<
                _,
                DecodeError,
            >(self.hash@),
    {
        let mut es: Vec<PackEntry> = Vec::new();
        es.push(field(0, PackValue::Str(self.typ.clone())));
        es.push(field(1, self.hash.pack()));
        proof {
            assert(es@ =~= seq![es@[0], es@[1]]);
            lemma_fold_two::<AssetKey>(es@[0], es@[1], (None, None));
        }
        PackValue::Entries(es)
    }

    fn unpack(v: &PackValue) -> (r: Result<Self, DecodeError>) {
        let es = match v {
            PackValue::Entries(es) => es,
            _ => return Err(DecodeError::UnexpectedType),
        };
        let mut typ: Option<String> = None;
        let mut hash: Option<OmniHash> = None;
        let mut i: usize = 0;
        while i < es.len()
            invariant
                i <= es@.len(),
                map_entries(*v) == Some(es@),
                fold_fields::<AssetKey>(es@.take(i as int), (None, None)) == Ok::<_, DecodeError>(
                    (
                        match typ {
                            Some(t) => Some(t@),
                            None => None,
                        },
                        match hash {
                            Some(h) => Some(h@),
                            None => None,
                        },
                    ),
                ),
            decreases es@.len() - i,
        {
            proof {
                lemma_fold_step::<AssetKey>(es@, i as int, (None, None));
            }
            match &es[i].key {
                PackValue::U64(k) => {
                    if *k == 0 {
                        match &es[i].value {
                            PackValue::Str(t) => typ = Some(t.clone()),
                            _ => return Err(DecodeError::UnexpectedType),
                        }
                    } else if *k == 1 {
                        hash = Some(OmniHash::unpack(&es[i].value)?);
                    }
                },
                _ => return Err(DecodeError::UnexpectedType),
            }
            i = i + 1;
        }
        proof {
            lemma_fold_all::<AssetKey>(es@, (None, None));
        }
        match typ {
            None => Err(DecodeError::MissingField(0)),
            Some(typ) => match hash {
                None => Err(DecodeError::MissingField(1)),
                Some(hash) => Ok(AssetKey { typ, hash }),
            },
        }
    }
}

impl View for FileRef {
    type V = (Seq<char>, (OmniHashAlgorithmType, Seq<u8>));

    open spec fn view(&self) -> (Seq<char>, (OmniHashAlgorithmType, Seq<u8>)) {
        (self.name@, self.hash@)
    }
}

impl FieldReader for FileRef {
    type State = (Option<Seq<char>>, Option<(OmniHashAlgorithmType, Seq<u8>)>);

    /// Field 0 is the file's name, field 1 its root hash; other fields are skipped.
    open spec fn read_field(s: Self::State, e: PackEntry) -> Result<Self::State, DecodeError> {
        match field_number(e) {
            None => Err(DecodeError::UnexpectedType),
            Some(k) => if k == 0 {
                match str_of(e.value) {
                    None => Err(DecodeError::UnexpectedType),
                    Some(t) => Ok((Some(t), s.1)),
                }
            } else if k == 1 {
                match OmniHash::spec_unpack(e.value) {
                    Err(x) => Err(x),
                    Ok(h) => Ok((s.0, Some(h))),
                }
            } else {
                Ok(s)
            },
        }
    }
}

impl RocketPackStruct for FileRef {
    open spec fn spec_unpack(v: PackValue) -> Result<(Seq<char>, (OmniHashAlgorithmType, Seq<u8>)), DecodeError> {
        match map_entries(v) {
            None => Err(DecodeError::UnexpectedType),
            Some(es) => match fold_fields::<FileRef>(es, (None, None)) {
                Err(e) => Err(e),
                Ok(st) => match st.0 {
                    None => Err(DecodeError::MissingField(0)),
                    Some(t) => match st.1 {
                        None => Err(DecodeError::MissingField(1)),
                        Some(h) => Ok((t, h)),
                    },
                },
            },
        }
    }

    /// Writes the name as field 0 and the root hash as field 1.
    fn pack(&self) -> (r: PackValue)
        ensures
            r matches PackValue::Entries(es) && es@.len() == 2 && es@[0].key == PackValue::U64(0) && str_of(
                es@[0].value,
            ) == Some(self.name@) && es@[1].key == PackValue::U64(1) && OmniHash::spec_unpack(es@[1].value) == Ok::<
                _,
                DecodeError,
            >(self.hash@),
    {
        let mut es: Vec<PackEntry> = Vec::new();
        es.push(field(0, PackValue::Str(self.name.clone())));
        es.push(field(1, self.hash.pack()));
        proof {
            assert(es@ =~= seq![es@[0], es@[1]]);
            lemma_fold_two::<FileRef>(es@[0], es@[1], (None, None));
        }
        PackValue::Entries(es)
    }

    fn unpack(v: &PackValue) -> (r: Result<Self, DecodeError>) {
        let es = match v {
            PackValue::Entries(es) => es,
            _ => return Err(DecodeError::UnexpectedType),
        };
        let mut name: Option<String> = None;
        let mut hash: Option<OmniHash> = None;
        let mut i: usize = 0;
        while i < es.len()
            invariant
                i <= es@.len(),
                map_entries(*v) == Some(es@),
                fold_fields::<FileRef>(es@.take(i as int), (None, None)) == Ok::<_, DecodeError>(
                    (
                        match name {
                            Some(t) => Some(t@),
                            None => None,
                        },
                        match hash {
                            Some(h) => Some(h@),
                            None => None,
                        },
                    ),
                ),
            decreases es@.len() - i,
        {
            proof {
                lemma_fold_step::<FileRef>(es@, i as int, (None, None));
            }
            match &es[i].key {
                PackValue::U64(k) => {
                    if *k == 0 {
                        match &es[i].value {
                            PackValue::Str(t) => name = Some(t.clone()),
                            _ => return Err(DecodeError::UnexpectedType),
                        }
                    } else if *k == 1 {
                        hash = Some(OmniHash::unpack(&es[i].value)?);
                    }
                },
                _ => return Err(DecodeError::UnexpectedType),
            }
            i = i + 1;
        }
        proof {
            lemma_fold_all::<FileRef>(es@, (None, None));
        }
        match name {
            None => Err(DecodeError::MissingField(0)),
            Some(name) => match hash {
                None => Err(DecodeError::MissingField(1)),
                Some(hash) => Ok(FileRef { name, hash }),
            },
        }
    }
}

impl View for MerkleLayer {
    type V = (u32, Seq<(OmniHashAlgorithmType, Seq<u8>)>);

    open spec fn view(&self) -> (u32, Seq<(OmniHashAlgorithmType, Seq<u8>)>) {
        (self.rank, hash_views(self.hashes@))
    }
}

impl FieldReader for MerkleLayer {
    type State = (Option<u32>, Option<Seq<(OmniHashAlgorithmType, Seq<u8>)>>);

    /// Field 0 is the rank, field 1 the array of hashes; other fields are skipped.
    open spec fn read_field(s: Self::State, e: PackEntry) -> Result<Self::State, DecodeError> {
        match field_number(e) {
            None => Err(DecodeError::UnexpectedType),
            Some(k) => if k == 0 {
                match u32_of(e.value) {
                    None => Err(DecodeError::UnexpectedType),
                    Some(n) => Ok((Some(n), s.1)),
                }
            } else if k == 1 {
                match e.value {
                    PackValue::Array(a) => match items_of::<OmniHash>(a@) {
                        Err(x) => Err(x),
                        Ok(hs) => Ok((s.0, Some(hs))),
                    },
                    _ => Err(DecodeError::UnexpectedType),
                }
            } else {
                Ok(s)
            },
        }
    }
}

impl RocketPackStruct for MerkleLayer {
    open spec fn spec_unpack(v: PackValue) -> Result<(u32, Seq<(OmniHashAlgorithmType, Seq<u8>)>), DecodeError> {
        match map_entries(v) {
            None => Err(DecodeError::UnexpectedType),
            Some(es) => match fold_fields::<MerkleLayer>(es, (None, None)) {
                Err(e) => Err(e),
                Ok(st) => match st.0 {
                    None => Err(DecodeError::MissingField(0)),
                    Some(n) => match st.1 {
                        None => Err(DecodeError::MissingField(1)),
                        Some(hs) => Ok((n, hs)),
                    },
                },
            },
        }
    }

    /// Writes the rank as field 0 and the hashes, as an array, as field 1.
    fn pack(&self) -> (r: PackValue)
        ensures
            ({
                &&& r matches PackValue::Entries(es)
                &&& es@.len() == 2
                &&& es@[0].key == PackValue::U64(0)
                &&& u32_of(es@[0].value) == Some(self.rank)
                &&& es@[1].key == PackValue::U64(1)
                &&& es@[1].value matches PackValue::Array(a)
                &&& items_of::<OmniHash>(a@) == Ok::<_, DecodeError>(hash_views(self.hashes@))
            }),
    {
        let items = write_items(&self.hashes);
        proof {
            assert(views_of_items(self.hashes@) =~= hash_views(self.hashes@));
        }
        let mut es: Vec<PackEntry> = Vec::new();
        es.push(field(0, PackValue::U32(self.rank)));
        es.push(field(1, PackValue::Array(items)));
        proof {
            assert(es@ =~= seq![es@[0], es@[1]]);
            lemma_fold_two::<MerkleLayer>(es@[0], es@[1], (None, None));
        }
        PackValue::Entries(es)
    }

    fn unpack(v: &PackValue) -> (r: Result<Self, DecodeError>) {
        let es = match v {
            PackValue::Entries(es) => es,
            _ => return Err(DecodeError::UnexpectedType),
        };
        let mut rank: Option<u32> = None;
        let mut hashes: Option<Vec<OmniHash>> = None;
        let mut i: usize = 0;
        while i < es.len()
            invariant
                i <= es@.len(),
                map_entries(*v) == Some(es@),
                fold_fields::<MerkleLayer>(es@.take(i as int), (None, None)) == Ok::<_, DecodeError>(
                    (
                        rank,
                        match hashes {
                            Some(h) => Some(hash_views(h@)),
                            None => None,
                        },
                    ),
                ),
            decreases es@.len() - i,
        {
            proof {
                lemma_fold_step::<MerkleLayer>(es@, i as int, (None, None));
            }
            match &es[i].key {
                PackValue::U64(k) => {
                    if *k == 0 {
                        match &es[i].value {
                            PackValue::U32(n) => rank = Some(*n),
                            _ => return Err(DecodeError::UnexpectedType),
                        }
                    } else if *k == 1 {
                        match &es[i].value {
                            PackValue::Array(a) => {
                                let hs = read_items::<OmniHash>(a)?;
                                assert(views_of_items(hs@) =~= hash_views(hs@));
                                hashes = Some(hs);
                            },
                            _ => return Err(DecodeError::UnexpectedType),
                        }
                    }
                },
                _ => return Err(DecodeError::UnexpectedType),
            }
            i = i + 1;
        }
        proof {
            lemma_fold_all::<MerkleLayer>(es@, (None, None));
        }
        match rank {
            None => Err(DecodeError::MissingField(0)),
            Some(rank) => match hashes {
                None => Err(DecodeError::MissingField(1)),
                Some(hashes) => Ok(MerkleLayer { rank, hashes }),
            },
        }
    }
}

} // verus!
