use vstd::prelude::*;

use crate::codec::{
    field, field_number, fold_fields, items_of, lemma_fold_all, lemma_fold_step, lemma_fold_two, map_entries,
    read_items, views_of_items, write_items, DecodeError, FieldReader, PackEntry, PackValue, RocketPackStruct,
};
use crate::hash_model::OmniHashAlgorithmType;
use crate::model::{AssetKey, NodeProfile};
use crate::node_finder::{profile_views, AssetKeyLocation};

verus! {

/// The view of an asset key: its type and its hash.
pub type KeyView = (Seq<char>, (OmniHashAlgorithmType, Seq<u8>));

/// The view of a node profile: its public key and its addresses.
pub type ProfileView = (Seq<u8>, Seq<Seq<char>>);

/// The view of one asset key location: the key and the profiles.
pub type LocationView = (KeyView, Seq<ProfileView>);

/// The view of one asset key location.
pub open spec fn location_view(l: AssetKeyLocation) -> LocationView {
    (l.asset_key@, profile_views(l.node_profiles@))
}

/// The views of a list of asset key locations.
pub open spec fn location_views(v: Seq<AssetKeyLocation>) -> Seq<LocationView> {
    v.map_values(|l: AssetKeyLocation| location_view(l))
}

/// Whether no asset key has two locations in the list.
pub open spec fn distinct_keys(v: Seq<AssetKeyLocation>) -> bool {
    forall|i: int, j: int| 0 <= i < j < v.len() ==> v[i].asset_key@ != v[j].asset_key@
}

/// Whether the list of location views has an entry for the key `k`.
pub open spec fn has_key(s: Seq<LocationView>, k: KeyView) -> bool {
    exists|i: int| 0 <= i < s.len() && (#[trigger] s[i]).0 == k
}

/// The position of the entry for the key `k`, when there is one.
pub open spec fn key_position(s: Seq<LocationView>, k: KeyView) -> int {
    choose|i: int| 0 <= i < s.len() && (#[trigger] s[i]).0 == k
}

/// The list after setting the profiles of the key of `e`: the entry of that
/// key takes the new profiles in its place, or a new entry comes last.
pub open spec fn upsert(s: Seq<LocationView>, e: LocationView) -> Seq<LocationView> {
    if has_key(s, e.0) {
        s.update(key_position(s, e.0), e)
    } else {
        s.push(e)
    }
}

/// Whether no key has two entries in a list of location views.
pub open spec fn distinct_view_keys(s: Seq<LocationView>) -> bool {
    forall|i: int, j: int| 0 <= i < j < s.len() ==> s[i].0 != s[j].0
}

/// Setting the profiles of a key in a list with each key at most once keeps
/// each key at most once; the key then has exactly the new profiles; every
/// entry of another key stays, in its place; and the list grows by one entry
/// exactly when the key was new, which then comes last.
pub proof fn lemma_upsert_sets_one_key(s: Seq<LocationView>, e: LocationView)
    requires
        distinct_view_keys(s),
    ensures
        distinct_view_keys(upsert(s, e)),
        upsert(s, e).len() == if has_key(s, e.0) { s.len() } else { s.len() + 1 },
        exists|i: int| 0 <= i < upsert(s, e).len() && #[trigger] upsert(s, e)[i] == e,
        forall|i: int| 0 <= i < upsert(s, e).len() && (#[trigger] upsert(s, e)[i]).0 == e.0 ==> upsert(s, e)[i] == e,
        forall|i: int| 0 <= i < s.len() && (#[trigger] s[i]).0 != e.0 ==> upsert(s, e)[i] == s[i],
        !has_key(s, e.0) ==> upsert(s, e).last() == e,
{
    let r = upsert(s, e);
    if has_key(s, e.0) {
        let p = key_position(s, e.0);
        assert(r[p] == e);
        assert forall|i: int| 0 <= i < r.len() && (#[trigger] r[i]).0 == e.0 implies r[i] == e by {
            if i != p {
                assert(s[i].0 == e.0);
                if i < p {
                    assert(s[i].0 != s[p].0);
                } else {
                    assert(s[p].0 != s[i].0);
                }
            }
        }
        assert forall|i: int, j: int| 0 <= i < j < r.len() implies r[i].0 != r[j].0 by {
            if i == p {
                assert(s[j].0 != s[p].0);
            } else if j == p {
                assert(s[i].0 != s[p].0);
            } else {
                assert(s[i].0 != s[j].0);
            }
        }
    } else {
        assert(r[s.len() as int] == e);
        assert forall|i: int| 0 <= i < r.len() && (#[trigger] r[i]).0 == e.0 implies r[i] == e by {
            if i < s.len() {
                assert(r[i] == s[i]);
                assert(has_key(s, e.0));
            }
        }
        assert forall|i: int, j: int| 0 <= i < j < r.len() implies r[i].0 != r[j].0 by {
            if j < s.len() {
                assert(s[i].0 != s[j].0);
            } else {
                assert(r[i] == s[i]);
                if s[i].0 == e.0 {
                    assert(has_key(s, e.0));
                }
            }
        }
    }
}

/// Where assets are, by asset key: each key at most once, in the order the
/// keys came.
#[derive(Debug)]
pub struct AssetKeyLocations {
    entries: Vec<AssetKeyLocation>,
}

impl View for AssetKeyLocations {
    type V = Seq<LocationView>;

    closed spec fn view(&self) -> Seq<LocationView> {
        location_views(self.entries@)
    }
}

fn position_of(entries: &Vec<AssetKeyLocation>, key: &AssetKey) -> (r: Option<usize>)
    ensures
        match r {
            Some(i) => i < entries@.len() && entries@[i as int].asset_key@ == key@,
            None => forall|j: int| 0 <= j < entries@.len() ==> (#[trigger] entries@[j]).asset_key@ != key@,
        },
{
    let mut i: usize = 0;
    while i < entries.len()
        invariant
            i <= entries@.len(),
            forall|j: int| 0 <= j < i ==> (#[trigger] entries@[j]).asset_key@ != key@,
        decreases entries@.len() - i,
    {
        if entries[i].asset_key.equals(key) {
            return Some(i);
        }
        i = i + 1;
    }
    None
}

impl AssetKeyLocations {
    #[verifier::type_invariant]
    spec fn wf(&self) -> bool {
        distinct_keys(self.entries@)
    }

    /// No location.
    pub fn new() -> (r: Self)
        ensures
            r@ == Seq::<LocationView>::empty(),
    {
        let r = AssetKeyLocations { entries: Vec::new() };
        assert(location_views(r.entries@) =~= seq![]);
        r
    }

    /// The locations, one per key, in order.
    pub fn entries(&self) -> (r: &Vec<AssetKeyLocation>)
        ensures
            location_views(r@) == self@,
            distinct_keys(r@),
    {
        proof {
            use_type_invariant(self);
        }
        &self.entries
    }

    /// Sets the profiles that hold the asset `key`: an existing entry of that
    /// key keeps its place and takes the new profiles, else a new entry comes last.
    pub fn insert(&mut self, key: AssetKey, node_profiles: Vec<NodeProfile>)
        ensures
            final(self)@ == upsert(old(self)@, (key@, profile_views(node_profiles@))),
    {
        proof {
            use_type_invariant(&*self);
        }
        let ghost e: LocationView = (key@, profile_views(node_profiles@));
        let mut entries: Vec<AssetKeyLocation> = Vec::new();
        std::mem::swap(&mut entries, &mut self.entries);
        let ghost before = entries@;
        let ghost vb = location_views(before);
        match position_of(&entries, &key) {
            Some(i) => {
                entries.set(i, AssetKeyLocation { asset_key: key, node_profiles });
                proof {
                    assert(vb[i as int].0 == e.0);
                    assert(has_key(vb, e.0));
                    let p = key_position(vb, e.0);
                    if p != i as int {
                        if p < i {
                            assert(before[p].asset_key@ != before[i as int].asset_key@);
                        } else {
                            assert(before[i as int].asset_key@ != before[p].asset_key@);
                        }
                    }
                    assert(location_views(entries@) =~= vb.update(i as int, e));
                    assert forall|a: int, b: int| 0 <= a < b < entries@.len() implies entries@[a].asset_key@
                        != entries@[b].asset_key@ by {
                        assert(before[a].asset_key@ != before[b].asset_key@);
                    }
                }
            },
            None => {
                entries.push(AssetKeyLocation { asset_key: key, node_profiles });
                proof {
                    assert(!has_key(vb, e.0)) by {
                        if has_key(vb, e.0) {
                            let j = choose|j: int| 0 <= j < vb.len() && (#[trigger] vb[j]).0 == e.0;
                            assert(before[j].asset_key@ != e.0);
                        }
                    }
                    assert(location_views(entries@) =~= vb.push(e));
                    assert forall|a: int, b: int| 0 <= a < b < entries@.len() implies entries@[a].asset_key@
                        != entries@[b].asset_key@ by {
                        if b < before.len() {
                            assert(before[a].asset_key@ != before[b].asset_key@);
                        } else {
                            assert(before[a].asset_key@ != e.0);
                        }
                    }
                }
            },
        }
        self.entries = entries;
    }
}

/// What two nodes of the node finder exchange while a session lasts: node
/// profiles to learn, the asset keys the sender wants, and where assets are,
/// by asset key.
#[derive(Debug)]
pub struct DataMessage {
    pub push_node_profiles: Vec<NodeProfile>,
    pub want_asset_keys: Vec<AssetKey>,
    pub give_asset_key_locations: AssetKeyLocations,
    pub push_asset_key_locations: AssetKeyLocations,
}

impl View for DataMessage {
    type V = (Seq<ProfileView>, Seq<KeyView>, Seq<LocationView>, Seq<LocationView>);

    open spec fn view(&self) -> Self::V {
        (
            views_of_items(self.push_node_profiles@),
            views_of_items(self.want_asset_keys@),
            self.give_asset_key_locations@,
            self.push_asset_key_locations@,
        )
    }
}

impl DataMessage {
    /// An empty message.
    pub fn new() -> (r: Self)
        ensures
            r@ == (
                Seq::<ProfileView>::empty(),
                Seq::<KeyView>::empty(),
                Seq::<LocationView>::empty(),
                Seq::<LocationView>::empty(),
            ),
    {
        let r = DataMessage {
            push_node_profiles: Vec::new(),
            want_asset_keys: Vec::new(),
            give_asset_key_locations: AssetKeyLocations::new(),
            push_asset_key_locations: AssetKeyLocations::new(),
        };
        assert(views_of_items(r.push_node_profiles@) =~= seq![]);
        assert(views_of_items(r.want_asset_keys@) =~= seq![]);
        r
    }
}

impl Default for DataMessage {
    /// An empty message.
    fn default() -> (r: Self)
        ensures
            r@ == (
                Seq::<ProfileView>::empty(),
                Seq::<KeyView>::empty(),
                Seq::<LocationView>::empty(),
                Seq::<LocationView>::empty(),
            ),
    {
        DataMessage::new()
    }
}

/// The locations read from the entries of a map, entry after entry: each
/// entry's key is an asset key and its value an array of profiles; a key met
/// again takes the later profiles in its first place. The first entry that
/// cannot be read ends the reading with its error.
pub open spec fn locations_of(m: Seq<PackEntry>) -> Result<Seq<LocationView>, DecodeError>
    decreases m.len(),
{
    if m.len() == 0 {
        Ok(seq![])
    } else {
        match locations_of(m.drop_last()) {
            Err(x) => Err(x),
            Ok(s) => match AssetKey::spec_unpack(m.last().key) {
                Err(x) => Err(x),
                Ok(k) => match m.last().value {
                    PackValue::Array(a) => match items_of::<NodeProfile>(a@) {
                        Err(x) => Err(x),
                        Ok(ps) => Ok(upsert(s, (k, ps))),
                    },
                    _ => Err(DecodeError::UnexpectedType),
                },
            },
        }
    }
}

/// Once the reading of some first entries fails, the reading of all fails the same way.
proof fn lemma_locations_err_prefix(m: Seq<PackEntry>, j: int)
    requires
        0 <= j <= m.len(),
        locations_of(m.take(j)) is Err,
    ensures
        locations_of(m) == locations_of(m.take(j)),
    decreases m.len() - j,
{
    if j < m.len() {
        assert(m.take(j + 1).drop_last() =~= m.take(j));
        lemma_locations_err_prefix(m, j + 1);
    } else {
        assert(m.take(j) =~= m);
    }
}

/// Reads the locations of a map.
fn read_locations(m: &Vec<PackEntry>) -> (r: Result<AssetKeyLocations, DecodeError>)
    ensures
        match locations_of(m@) {
            Ok(s) => r matches Ok(x) && x@ == s,
            Err(e) => r == Err::<AssetKeyLocations, DecodeError>(e),
        },
{
    let mut locs = AssetKeyLocations::new();
    let mut i: usize = 0;
    assert(m@.take(0) =~= Seq::<PackEntry>::empty());
    while i < m.len()
        invariant
            i <= m@.len(),
            locations_of(m@.take(i as int)) == Ok::<_, DecodeError>(locs@),
        decreases m@.len() - i,
    {
        assert(m@.take(i + 1).drop_last() =~= m@.take(i as int));
        assert(m@.take(i + 1).last() == m@[i as int]);
        let key = match AssetKey::unpack(&m[i].key) {
            Ok(k) => k,
            Err(e) => {
                proof {
                    lemma_locations_err_prefix(m@, i + 1);
                }
                return Err(e);
            },
        };
        let profiles = match &m[i].value {
            PackValue::Array(a) => match read_items::<NodeProfile>(a) {
                Ok(ps) => ps,
                Err(e) => {
                    proof {
                        lemma_locations_err_prefix(m@, i + 1);
                    }
                    return Err(e);
                },
            },
            _ => {
                proof {
                    lemma_locations_err_prefix(m@, i + 1);
                }
                return Err(DecodeError::UnexpectedType);
            },
        };
        assert(views_of_items(profiles@) =~= profile_views(profiles@));
        locs.insert(key, profiles);
        i = i + 1;
    }
    assert(m@.take(i as int) =~= m@);
    Ok(locs)
}

/// Writes the locations as the entries of a map; reading them gives them back.
fn write_locations(l: &AssetKeyLocations) -> (r: Vec<PackEntry>)
    ensures
        locations_of(r@) == Ok::<_, DecodeError>(l@),
{
    let es = l.entries();
    let mut r: Vec<PackEntry> = Vec::new();
    let mut i: usize = 0;
    assert(location_views(es@.take(0)) =~= seq![]);
    while i < es.len()
        invariant
            i <= es@.len(),
            r@.len() == i,
            distinct_keys(es@),
            locations_of(r@) == Ok::<_, DecodeError>(location_views(es@.take(i as int))),
        decreases es@.len() - i,
    {
        let ghost before = r@;
        let ghost prev = location_views(es@.take(i as int));
        let ghost e = location_view(es@[i as int]);
        let items = write_items(&es[i].node_profiles);
        r.push(PackEntry { key: es[i].asset_key.pack(), value: PackValue::Array(items) });
        proof {
            assert(r@.drop_last() =~= before);
            assert(views_of_items(es@[i as int].node_profiles@) =~= profile_views(es@[i as int].node_profiles@));
            assert(!has_key(prev, e.0)) by {
                if has_key(prev, e.0) {
                    let j = choose|j: int| 0 <= j < prev.len() && (#[trigger] prev[j]).0 == e.0;
                    assert(es@[j].asset_key@ != es@[i as int].asset_key@);
                }
            }
            assert(location_views(es@.take(i + 1)) =~= prev.push(e));
        }
        i = i + 1;
    }
    assert(es@.take(i as int) =~= es@);
    r
}

impl FieldReader for DataMessage {
    type State = (Option<Seq<ProfileView>>, Option<Seq<KeyView>>, Option<Seq<LocationView>>, Option<Seq<LocationView>>);

    /// Field 0 is the array of pushed profiles; field 1 the array of wanted
    /// keys; fields 2 and 3 the maps from asset keys to the profiles that hold
    /// them; other fields are skipped.
    open spec fn read_field(s: Self::State, e: PackEntry) -> Result<Self::State, DecodeError> {
        match field_number(e) {
            None => Err(DecodeError::UnexpectedType),
            Some(k) => if k == 0 {
                match e.value {
                    PackValue::Array(a) => match items_of::<NodeProfile>(a@) {
                        Err(x) => Err(x),
                        Ok(ps) => Ok((Some(ps), s.1, s.2, s.3)),
                    },
                    _ => Err(DecodeError::UnexpectedType),
                }
            } else if k == 1 {
                match e.value {
                    PackValue::Array(a) => match items_of::<AssetKey>(a@) {
                        Err(x) => Err(x),
                        Ok(ks) => Ok((s.0, Some(ks), s.2, s.3)),
                    },
                    _ => Err(DecodeError::UnexpectedType),
                }
            } else if k == 2 {
                match e.value {
                    PackValue::Entries(m) => match locations_of(m@) {
                        Err(x) => Err(x),
                        Ok(ls) => Ok((s.0, s.1, Some(ls), s.3)),
                    },
                    _ => Err(DecodeError::UnexpectedType),
                }
            } else if k == 3 {
                match e.value {
                    PackValue::Entries(m) => match locations_of(m@) {
                        Err(x) => Err(x),
                        Ok(ls) => Ok((s.0, s.1, s.2, Some(ls))),
                    },
                    _ => Err(DecodeError::UnexpectedType),
                }
            } else {
                Ok(s)
            },
        }
    }
}

/// What reading a value as a message gives: the four fields, each required, in
/// the order 0 to 3.
pub open spec fn data_message_of(v: PackValue) -> Result<
    (Seq<ProfileView>, Seq<KeyView>, Seq<LocationView>, Seq<LocationView>),
    DecodeError,
> {
    match map_entries(v) {
        None => Err(DecodeError::UnexpectedType),
        Some(es) => match fold_fields::<DataMessage>(es, (None, None, None, None)) {
            Err(e) => Err(e),
            Ok(st) => match st.0 {
                None => Err(DecodeError::MissingField(0)),
                Some(ps) => match st.1 {
                    None => Err(DecodeError::MissingField(1)),
                    Some(ks) => match st.2 {
                        None => Err(DecodeError::MissingField(2)),
                        Some(g) => match st.3 {
                            None => Err(DecodeError::MissingField(3)),
                            Some(p) => Ok((ps, ks, g, p)),
                        },
                    },
                },
            },
        },
    }
}

impl DataMessage {
    /// Writes the message as four fields in order: 0 the array of pushed
    /// profiles, 1 the array of wanted keys, 2 and 3 the maps of locations.
    /// Reading the result gives the message back.
    pub fn pack(&self) -> (r: PackValue)
        ensures
            ({
                &&& r matches PackValue::Entries(es)
                &&& es@.len() == 4
                &&& es@[0].key == PackValue::U64(0)
                &&& es@[0].value matches PackValue::Array(a0)
                &&& items_of::<NodeProfile>(a0@) == Ok::<_, DecodeError>(self@.0)
                &&& es@[1].key == PackValue::U64(1)
                &&& es@[1].value matches PackValue::Array(a1)
                &&& items_of::<AssetKey>(a1@) == Ok::<_, DecodeError>(self@.1)
                &&& es@[2].key == PackValue::U64(2)
                &&& es@[2].value matches PackValue::Entries(m2)
                &&& locations_of(m2@) == Ok::<_, DecodeError>(self@.2)
                &&& es@[3].key == PackValue::U64(3)
                &&& es@[3].value matches PackValue::Entries(m3)
                &&& locations_of(m3@) == Ok::<_, DecodeError>(self@.3)
            }),
            data_message_of(r) == Ok::<_, DecodeError>(self@),
    {
        let mut es: Vec<PackEntry> = Vec::new();
        es.push(field(0, PackValue::Array(write_items(&self.push_node_profiles))));
        es.push(field(1, PackValue::Array(write_items(&self.want_asset_keys))));
        es.push(field(2, PackValue::Entries(write_locations(&self.give_asset_key_locations))));
        es.push(field(3, PackValue::Entries(write_locations(&self.push_asset_key_locations))));
        proof {
            let init = (None, None, None, None);
            lemma_fold_two::<DataMessage>(es@[0], es@[1], init);
            assert(es@.take(2) =~= seq![es@[0], es@[1]]);
            lemma_fold_step::<DataMessage>(es@, 2, init);
            lemma_fold_step::<DataMessage>(es@, 3, init);
            lemma_fold_all::<DataMessage>(es@, init);
        }
        PackValue::Entries(es)
    }

    /// Reads a message.
    pub fn unpack(v: &PackValue) -> (r: Result<Self, DecodeError>)
        ensures
            match r {
                Ok(m) => data_message_of(*v) == Ok::<_, DecodeError>(m@),
                Err(e) => data_message_of(*v) == Err::<<DataMessage as View>::V, DecodeError>(e),
            },
    {
        let es = match v {
            PackValue::Entries(es) => es,
            _ => return Err(DecodeError::UnexpectedType),
        };
        let mut push_node_profiles: Option<Vec<NodeProfile>> = None;
        let mut want_asset_keys: Option<Vec<AssetKey>> = None;
        let mut give_asset_key_locations: Option<AssetKeyLocations> = None;
        let mut push_asset_key_locations: Option<AssetKeyLocations> = None;
        let ghost init = (None, None, None, None);
        let mut i: usize = 0;
        while i < es.len()
            invariant
                i <= es@.len(),
                map_entries(*v) == Some(es@),
                init == (
                    None::<Seq<ProfileView>>,
                    None::<Seq<KeyView>>,
                    None::<Seq<LocationView>>,
                    None::<Seq<LocationView>>,
                ),
                fold_fields::<DataMessage>(es@.take(i as int), init) == Ok::<_, DecodeError>(
                    (
                        match push_node_profiles {
                            Some(x) => Some(views_of_items(x@)),
                            None => None,
                        },
                        match want_asset_keys {
                            Some(x) => Some(views_of_items(x@)),
                            None => None,
                        },
                        match give_asset_key_locations {
                            Some(x) => Some(x@),
                            None => None,
                        },
                        match push_asset_key_locations {
                            Some(x) => Some(x@),
                            None => None,
                        },
                    ),
                ),
            decreases es@.len() - i,
        {
            proof {
                lemma_fold_step::<DataMessage>(es@, i as int, init);
            }
            match &es[i].key {
                PackValue::U64(k) => {
                    if *k == 0 {
                        match &es[i].value {
                            PackValue::Array(a) => {
                                push_node_profiles = Some(read_items::<NodeProfile>(a)?);
                            },
                            _ => return Err(DecodeError::UnexpectedType),
                        }
                    } else if *k == 1 {
                        match &es[i].value {
                            PackValue::Array(a) => {
                                want_asset_keys = Some(read_items::<AssetKey>(a)?);
                            },
                            _ => return Err(DecodeError::UnexpectedType),
                        }
                    } else if *k == 2 {
                        match &es[i].value {
                            PackValue::Entries(m) => {
                                give_asset_key_locations = Some(read_locations(m)?);
                            },
                            _ => return Err(DecodeError::UnexpectedType),
                        }
                    } else if *k == 3 {
                        match &es[i].value {
                            PackValue::Entries(m) => {
                                push_asset_key_locations = Some(read_locations(m)?);
                            },
                            _ => return Err(DecodeError::UnexpectedType),
                        }
                    }
                },
                _ => return Err(DecodeError::UnexpectedType),
            }
            i = i + 1;
        }
        proof {
            lemma_fold_all::<DataMessage>(es@, init);
        }
        match push_node_profiles {
            None => Err(DecodeError::MissingField(0)),
            Some(push_node_profiles) => match want_asset_keys {
                None => Err(DecodeError::MissingField(1)),
                Some(want_asset_keys) => match give_asset_key_locations {
                    None => Err(DecodeError::MissingField(2)),
                    Some(give_asset_key_locations) => match push_asset_key_locations {
                        None => Err(DecodeError::MissingField(3)),
                        Some(push_asset_key_locations) => Ok(
                            DataMessage {
                                push_node_profiles,
                                want_asset_keys,
                                give_asset_key_locations,
                                push_asset_key_locations,
                            },
                        ),
                    },
                },
            },
        }
    }
}

} // verus!
