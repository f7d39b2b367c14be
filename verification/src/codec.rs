use vstd::prelude::*;

verus! {

/// A value as the RocketPack encoder is handed it: integers, byte strings,
/// strings, arrays and maps. A struct is a map from field numbers (`U64`) to
/// field values; the byte encoding of such a value is the encoder's business.
#[derive(Debug)]
pub enum PackValue {
    U32(u32),
    U64(u64),
    Bytes(Vec<u8>),
    Str(String),
    Array(Vec<PackValue>),
    Entries(Vec<PackEntry>),
}

/// One entry of a map: a key and its value.
#[derive(Debug)]
pub struct PackEntry {
    pub key: PackValue,
    pub value: PackValue,
}

/// Why a value could not be read as a struct.
#[derive(Debug, Clone, Copy, PartialEq, Eq, Structural)]
pub enum DecodeError {
    /// A value is not of the type that its place calls for (a struct that is not
    /// a map, a field number that is not a `U64`, a field of the wrong type).
    UnexpectedType,
    /// A required field is absent.
    MissingField(u64),
    /// A field holds a value that its type does not allow.
    InvalidValue(u64),
}

/// The entries of a value read as a map, or `None` when it is no map.
pub open spec fn map_entries(v: PackValue) -> Option<Seq<PackEntry>> {
    match v {
        PackValue::Entries(es) => Some(es@),
        _ => None,
    }
}

/// How the fields of a struct are read, one after the other, into a state.
pub trait FieldReader {
    type State;

    /// Reads one field into the state, or fails.
    spec fn read_field(s: Self::State, e: PackEntry) -> Result<Self::State, DecodeError>;
}

/// Reading a struct: the fields in order, each read into the state by
/// [`FieldReader::read_field`]; the first failing field ends the reading with
/// its error. A field that appears twice is read twice, so the later value stands.
pub open spec fn fold_fields<R: FieldReader>(es: Seq<PackEntry>, init: R::State) -> Result<R::State, DecodeError>
    decreases es.len(),
{
    if es.len() == 0 {
        Ok(init)
    } else {
        match fold_fields::<R>(es.drop_last(), init) {
            Ok(s) => R::read_field(s, es.last()),
            Err(e) => Err(e),
        }
    }
}

/// Reading one more field.
pub proof fn lemma_fold_step<R: FieldReader>(es: Seq<PackEntry>, i: int, init: R::State)
    requires
        0 <= i < es.len(),
    ensures
        fold_fields::<R>(es.take(i + 1), init) == match fold_fields::<R>(es.take(i), init) {
            Ok(s) => R::read_field(s, es[i]),
            Err(e) => Err(e),
        },
        (match fold_fields::<R>(es.take(i), init) {
            Ok(s) => R::read_field(s, es[i]),
            Err(e) => Err(e),
        }) is Err ==> fold_fields::<R>(es, init) == fold_fields::<R>(es.take(i + 1), init),
{
    assert(es.take(i + 1).drop_last() =~= es.take(i));
    lemma_fold_err_prefix::<R>(es, i + 1, init);
}

/// Once the reading of a prefix fails, the reading of the whole fails the same way.
pub proof fn lemma_fold_err_prefix<R: FieldReader>(es: Seq<PackEntry>, j: int, init: R::State)
    requires
        0 <= j <= es.len(),
    ensures
        fold_fields::<R>(es.take(j), init) is Err ==> fold_fields::<R>(es, init) == fold_fields::<R>(es.take(j), init),
    decreases es.len() - j,
{
    if j < es.len() {
        assert(es.take(j + 1).drop_last() =~= es.take(j));
        lemma_fold_err_prefix::<R>(es, j + 1, init);
    } else {
        assert(es.take(j) =~= es);
    }
}

/// Reading all fields, from the reading of all fields but none.
pub proof fn lemma_fold_all<R: FieldReader>(es: Seq<PackEntry>, init: R::State)
    ensures
        fold_fields::<R>(es.take(es.len() as int), init) == fold_fields::<R>(es, init),
{
    assert(es.take(es.len() as int) =~= es);
}

/// Reading a single field.
pub proof fn lemma_fold_one<R: FieldReader>(e0: PackEntry, init: R::State)
    ensures
        fold_fields::<R>(seq![e0], init) == R::read_field(init, e0),
{
    assert(seq![e0].drop_last() =~= Seq::<PackEntry>::empty());
    assert(fold_fields::<R>(Seq::<PackEntry>::empty(), init) == Ok::<R::State, DecodeError>(init));
    assert(seq![e0].last() == e0);
}

/// Reading two fields.
pub proof fn lemma_fold_two<R: FieldReader>(e0: PackEntry, e1: PackEntry, init: R::State)
    ensures
        fold_fields::<R>(seq![e0, e1], init) == match R::read_field(init, e0) {
            Ok(s) => R::read_field(s, e1),
            Err(e) => Err(e),
        },
{
    assert(seq![e0, e1].drop_last() =~= seq![e0]);
    lemma_fold_one::<R>(e0, init);
}

/// A field that the reader skips, whatever the state, changes nothing: a
/// reader that meets a field it does not know reads the rest as if the field
/// were absent.
pub proof fn lemma_skipped_field_changes_nothing<R: FieldReader>(es: Seq<PackEntry>, e: PackEntry, init: R::State)
    requires
        forall|s: R::State| #[trigger] R::read_field(s, e) == Ok::<R::State, DecodeError>(s),
    ensures
        fold_fields::<R>(es.push(e), init) == fold_fields::<R>(es, init),
{
    assert(es.push(e).drop_last() =~= es);
    assert(es.push(e).last() == e);
}

/// The field number of an entry, when its key is one.
pub open spec fn field_number(e: PackEntry) -> Option<u64> {
    match e.key {
        PackValue::U64(k) => Some(k),
        _ => None,
    }
}

/// The value of a `Str` as a string, or `None`.
pub open spec fn str_of(v: PackValue) -> Option<Seq<char>> {
    match v {
        PackValue::Str(s) => Some(s@),
        _ => None,
    }
}

/// The value of a `Bytes` as bytes, or `None`.
pub open spec fn bytes_of(v: PackValue) -> Option<Seq<u8>> {
    match v {
        PackValue::Bytes(b) => Some(b@),
        _ => None,
    }
}

/// The value of a `U32`, or `None`.
pub open spec fn u32_of(v: PackValue) -> Option<u32> {
    match v {
        PackValue::U32(x) => Some(x),
        _ => None,
    }
}

/// Whether an entry's key is the field number `k`.
pub open spec fn is_field(e: PackEntry, k: u64) -> bool {
    e.key matches PackValue::U64(n) && n == k
}

/// A struct that is written as a map of numbered fields.
pub trait RocketPackStruct: Sized + View {
    /// What reading a value gives: the struct's view, or why it fails.
    spec fn spec_unpack(v: PackValue) -> Result<Self::V, DecodeError>;

    /// Writes this struct; reading the result gives this struct back.
    fn pack(&self) -> (r: PackValue)
        ensures
            Self::spec_unpack(r) == Ok::<Self::V, DecodeError>(self@),
    ;

    /// Reads a struct from a value.
    fn unpack(v: &PackValue) -> (r: Result<Self, DecodeError>)
        ensures
            match r {
                Ok(m) => Self::spec_unpack(*v) == Ok::<Self::V, DecodeError>(m@),
                Err(e) => Self::spec_unpack(*v) == Err::<Self::V, DecodeError>(e),
            },
    ;
}

/// The view of an optional string.
pub open spec fn opt_str(o: Option<String>) -> Option<Seq<char>> {
    match o {
        Some(s) => Some(s@),
        None => None,
    }
}

/// A copy of an optional string.
pub fn copy_opt_str(o: &Option<String>) -> (r: Option<String>)
    ensures
        opt_str(r) == opt_str(*o),
{
    match o {
        Some(s) => Some(s.clone()),
        None => None,
    }
}

/// A field entry: the field number and its value.
pub fn field(k: u64, value: PackValue) -> (r: PackEntry)
    ensures
        r.key == PackValue::U64(k),
        r.value == value,
{
    PackEntry { key: PackValue::U64(k), value }
}

/// The views of a list of values.
pub open spec fn views_of_items<T: View>(v: Seq<T>) -> Seq<T::V> {
    v.map_values(|t: T| t@)
}

/// The structs read from the items of an array, in order; the first item that
/// cannot be read ends the reading with its error.
pub open spec fn items_of<T: RocketPackStruct>(items: Seq<PackValue>) -> Result<Seq<T::V>, DecodeError>
    decreases items.len(),
{
    if items.len() == 0 {
        Ok(seq![])
    } else {
        match items_of::<T>(items.drop_last()) {
            Err(x) => Err(x),
            Ok(vs) => match T::spec_unpack(items.last()) {
                Err(x) => Err(x),
                Ok(v) => Ok(vs.push(v)),
            },
        }
    }
}

/// Reading an array reads each item in its place: it succeeds exactly when
/// every item reads, and then the i-th struct read is the i-th item read; when
/// it fails, it fails with the error of the first item that does not read.
pub proof fn lemma_items_of_reads_each_item<T: RocketPackStruct>(items: Seq<PackValue>)
    ensures
        items_of::<T>(items) is Ok <==> forall|i: int| 0 <= i < items.len() ==> (#[trigger] T::spec_unpack(items[i])) is Ok,
        items_of::<T>(items) matches Ok(vs) ==> vs.len() == items.len() && forall|i: int|
            0 <= i < items.len() ==> T::spec_unpack(items[i]) == Ok::<T::V, DecodeError>(#[trigger] vs[i]),
        items_of::<T>(items) matches Err(e) ==> exists|i: int|
            0 <= i < items.len() && (#[trigger] T::spec_unpack(items[i])) == Err::<T::V, DecodeError>(e) && forall|j: int|
                0 <= j < i ==> (#[trigger] T::spec_unpack(items[j])) is Ok,
    decreases items.len(),
{
    if items.len() > 0 {
        let init = items.drop_last();
        lemma_items_of_reads_each_item::<T>(init);
        let n = items.len() - 1;
        assert forall|i: int| 0 <= i < n implies items[i] == init[i] by {}
        match items_of::<T>(init) {
            Err(e) => {
                let i = choose|i: int|
                    0 <= i < init.len() && (#[trigger] T::spec_unpack(init[i])) == Err::<T::V, DecodeError>(e) && forall|j: int|
                        0 <= j < i ==> (#[trigger] T::spec_unpack(init[j])) is Ok;
                assert(items[i] == init[i]);
                assert forall|j: int| 0 <= j < i implies (#[trigger] T::spec_unpack(items[j])) is Ok by {
                    assert(items[j] == init[j]);
                }
            },
            Ok(vs) => {
                assert(items.last() == items[n]);
                match T::spec_unpack(items[n]) {
                    Err(e) => {
                        assert forall|j: int| 0 <= j < n implies (#[trigger] T::spec_unpack(items[j])) is Ok by {
                            assert(items[j] == init[j]);
                        }
                    },
                    Ok(v) => {
                        let ws = vs.push(v);
                        assert forall|i: int| 0 <= i < items.len() implies T::spec_unpack(items[i]) == Ok::<
                            T::V,
                            DecodeError,
                        >(#[trigger] ws[i]) by {
                            if i < n {
                                assert(items[i] == init[i]);
                            }
                        }
                        assert forall|i: int| 0 <= i < items.len() implies (#[trigger] T::spec_unpack(items[i])) is Ok by {
                            if i < n {
                                assert(items[i] == init[i]);
                            }
                        }
                    },
                }
            },
        }
    }
}

/// Once the reading of some first items fails, the reading of all fails the same way.
proof fn lemma_items_err_prefix<T: RocketPackStruct>(items: Seq<PackValue>, j: int)
    requires
        0 <= j <= items.len(),
        items_of::<T>(items.take(j)) is Err,
    ensures
        items_of::<T>(items) == items_of::<T>(items.take(j)),
    decreases items.len() - j,
{
    if j < items.len() {
        assert(items.take(j + 1).drop_last() =~= items.take(j));
        lemma_items_err_prefix::<T>(items, j + 1);
    } else {
        assert(items.take(j) =~= items);
    }
}

/// Reads the structs of an array.
pub fn read_items<T: RocketPackStruct>(a: &Vec<PackValue>) -> (r: Result<Vec<T>, DecodeError>)
    ensures
        match items_of::<T>(a@) {
            Ok(vs) => r matches Ok(x) && views_of_items(x@) == vs,
            Err(e) => r == Err::<Vec<T>, DecodeError>(e),
        },
{
    let mut out: Vec<T> = Vec::new();
    let mut i: usize = 0;
    assert(a@.take(0) =~= Seq::<PackValue>::empty());
    assert(views_of_items(out@) =~= seq![]);
    while i < a.len()
        invariant
            i <= a@.len(),
            out@.len() == i,
            items_of::<T>(a@.take(i as int)) == Ok::<_, DecodeError>(views_of_items(out@)),
        decreases a@.len() - i,
    {
        assert(a@.take(i + 1).drop_last() =~= a@.take(i as int));
        assert(a@.take(i + 1).last() == a@[i as int]);
        match T::unpack(&a[i]) {
            Ok(v) => {
                let ghost before = out@;
                out.push(v);
                assert(views_of_items(out@) =~= views_of_items(before).push(out@[i as int]@));
            },
            Err(e) => {
                proof {
                    lemma_items_err_prefix::<T>(a@, i + 1);
                }
                return Err(e);
            },
        }
        i = i + 1;
    }
    assert(a@.take(i as int) =~= a@);
    Ok(out)
}

/// Writes structs as the items of an array; reading them gives them back.
pub fn write_items<T: RocketPackStruct>(v: &Vec<T>) -> (r: Vec<PackValue>)
    ensures
        r@.len() == v@.len(),
        forall|i: int| 0 <= i < r@.len() ==> T::spec_unpack(#[trigger] r@[i]) == Ok::<T::V, DecodeError>(v@[i]@),
        items_of::<T>(r@) == Ok::<_, DecodeError>(views_of_items(v@)),
{
    let mut items: Vec<PackValue> = Vec::new();
    let mut i: usize = 0;
    assert(views_of_items(v@.take(0)) =~= seq![]);
    while i < v.len()
        invariant
            i <= v@.len(),
            items@.len() == i,
            items_of::<T>(items@) == Ok::<_, DecodeError>(views_of_items(v@.take(i as int))),
        decreases v@.len() - i,
    {
        let ghost before = items@;
        items.push(v[i].pack());
        proof {
            assert(items@.drop_last() =~= before);
            assert(views_of_items(v@.take(i + 1)) =~= views_of_items(v@.take(i as int)).push(v@[i as int]@));
        }
        i = i + 1;
    }
    assert(v@.take(i as int) =~= v@);
    proof {
        lemma_items_of_reads_each_item::<T>(items@);
        let vs = views_of_items(v@);
        assert forall|i: int| 0 <= i < items@.len() implies T::spec_unpack(#[trigger] items@[i]) == Ok::<
            T::V,
            DecodeError,
        >(v@[i]@) by {
            assert(vs[i] == v@[i]@);
        }
    }
    items
}

} // verus!
