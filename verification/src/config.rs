//! The configuration that the daemon owns: the table of alarms, the table of
//! sounds, and the values they are made of.

use crate::time::ClockTime;
use std::collections::HashMap;
use vstd::prelude::*;
use vstd::string::{StrSliceExecFns, StringExecFns};

verus! {

/// A playback volume in percent, never above 100.
#[derive(Debug, Clone, Copy, PartialEq, Eq, Structural)]
pub struct Volume {
    percent: u8,
}

impl Volume {
    #[verifier::type_invariant]
    pub closed spec fn wf(self) -> bool {
        self.percent <= 100
    }

    pub closed spec fn spec_percent(self) -> int {
        self.percent as int
    }

    /// The volume of `percent` percent.
    pub closed spec fn of(percent: u8) -> Volume {
        Volume { percent }
    }

    /// A volume is its percentage.
    pub proof fn lemma_of(percent: u8)
        ensures
            Volume::of(percent).spec_percent() == percent,
            Volume::of(percent).wf() <==> percent <= 100,
    {
    }

    /// The volume `percent`, or `None` above 100.
    pub fn new(percent: u8) -> (r: Option<Volume>)
        ensures
            r == (if percent <= 100 {
                Some(Volume::of(percent))
            } else {
                None
            }),
            r matches Some(v) ==> v.wf() && v.spec_percent() == percent,
    {
        if percent <= 100 {
            Some(Volume { percent })
        } else {
            None
        }
    }

    /// Full volume.
    pub fn full() -> (v: Volume)
        ensures
            v.wf(),
            v.spec_percent() == 100,
            v == Volume::of(100),
    {
        Volume { percent: 100 }
    }

    pub fn percent(&self) -> (p: u8)
        ensures
            p == self.spec_percent(),
            p <= 100,
    {
        proof {
            use_type_invariant(self);
        }
        self.percent
    }
}

/// A named audio file. Sounds are referred to by name. The path of a built-in
/// sound is its file name inside the application's sounds directory; any other
/// path is taken as it stands.
#[derive(Debug, PartialEq, Eq)]
pub struct Sound {
    pub name: String,
    pub path: String,
}

impl Clone for Sound {
    fn clone(&self) -> (r: Self)
        ensures
            r == *self,
    {
        Sound { name: self.name.clone(), path: self.path.clone() }
    }
}

/// An alarm as the daemon keeps it.
#[derive(Debug, PartialEq, Eq)]
pub struct Alarm {
    pub name: Option<String>,
    pub time: ClockTime,
    pub volume: Volume,
    /// Name of the sound to play.
    pub sound: String,
    pub enabled: bool,
    /// Set while the alarm is sounding: from the moment it fires until it is
    /// stopped, disabled or removed. Never persisted.
    pub rang_today: bool,
    pub id: u64,
}

/// Copies an optional string.
pub fn clone_name(name: &Option<String>) -> (r: Option<String>)
    ensures
        r == *name,
{
    match name {
        Some(s) => Some(s.clone()),
        None => None,
    }
}

impl Clone for Alarm {
    fn clone(&self) -> (r: Self)
        ensures
            r == *self,
    {
        Alarm {
            name: clone_name(&self.name),
            time: self.time,
            volume: self.volume,
            sound: self.sound.clone(),
            enabled: self.enabled,
            rang_today: self.rang_today,
            id: self.id,
        }
    }
}

/// Something that carries its own identifier.
pub trait GetId<T> {
    /// The identifier, as contracts see it.
    spec fn spec_id(&self) -> T;

    fn get_id(&self) -> (id: &T)
        ensures
            *id == self.spec_id(),
    ;
}

impl GetId<u64> for Alarm {
    open spec fn spec_id(&self) -> u64 {
        self.id
    }

    fn get_id(&self) -> (id: &u64) {
        &self.id
    }
}

/// Items filed under their own identifiers.
pub struct Collection<V: GetId<u64>> {
    pub data: HashMap<u64, V>,
}

impl<V: GetId<u64>> Collection<V> {
    /// Every item is filed under the identifier it carries.
    pub open spec fn wf(self) -> bool {
        forall|k: u64| #[trigger]
            self.data@.contains_key(k) ==> self.data@[k].spec_id() == k
    }

    /// The empty collection.
    pub fn new() -> (c: Self)
        ensures
            c.data@ == Map::<u64, V>::empty(),
            c.wf(),
    {
        Collection { data: HashMap::new() }
    }

    /// Files `item` under its identifier and hands back the item that was
    /// filed there before, if there was one.
    pub fn insert(&mut self, item: V) -> (previous: Option<V>)
        ensures
            final(self).data@ == old(self).data@.insert(item.spec_id(), item),
            previous == (if old(self).data@.contains_key(item.spec_id()) {
                Some(old(self).data@[item.spec_id()])
            } else {
                None
            }),
            old(self).wf() ==> final(self).wf(),
    {
        broadcast use vstd::std_specs::hash::group_hash_axioms;

        let id: u64 = *item.get_id();
        self.data.insert(id, item)
    }
}

/// Whether entry `i` of `sounds` exists and bears `name`.
pub open spec fn named_at(sounds: Seq<Sound>, i: int, name: Seq<char>) -> bool {
    0 <= i < sounds.len() && sounds[i].name@ == name
}

/// No two entries bear the same name.
pub open spec fn names_distinct(sounds: Seq<Sound>) -> bool {
    forall|i: int, j: int|
        #![trigger sounds[i], sounds[j]]
        0 <= i < j < sounds.len() ==> sounds[i].name@ != sounds[j].name@
}

/// Whether some entry bears `name`.
pub open spec fn has_name(sounds: Seq<Sound>, name: Seq<char>) -> bool {
    exists|i: int| named_at(sounds, i, name)
}

/// The position of an entry that bears `name`.
pub open spec fn index_of(sounds: Seq<Sound>, name: Seq<char>) -> int {
    choose|i: int| named_at(sounds, i, name)
}

/// The entries as a map from name to sound.
pub open spec fn table_of(sounds: Seq<Sound>) -> Map<Seq<char>, Sound> {
    Map::new(|name: Seq<char>| has_name(sounds, name), |name: Seq<char>| sounds[index_of(sounds, name)])
}

/// The list after `sound` is put under its name: in the place of the entry
/// that bore the name, or at the end when the name is new.
pub open spec fn with_sound(sounds: Seq<Sound>, sound: Sound) -> Seq<Sound> {
    if has_name(sounds, sound.name@) {
        sounds.update(index_of(sounds, sound.name@), sound)
    } else {
        sounds.push(sound)
    }
}

/// The list after the entry that bears `name` is taken out; the list itself
/// when no entry bears it.
pub open spec fn without_sound(sounds: Seq<Sound>, name: Seq<char>) -> Seq<Sound> {
    if has_name(sounds, name) {
        sounds.remove(index_of(sounds, name))
    } else {
        sounds
    }
}

/// In a list without repeated names, each entry is what the table holds under
/// its name.
pub proof fn lemma_table_entry(sounds: Seq<Sound>, i: int)
    requires
        names_distinct(sounds),
        0 <= i < sounds.len(),
    ensures
        table_of(sounds).contains_key(sounds[i].name@),
        table_of(sounds)[sounds[i].name@] == sounds[i],
        index_of(sounds, sounds[i].name@) == i,
{
    let name = sounds[i].name@;
    assert(named_at(sounds, i, name));
    let j = index_of(sounds, name);
    assert(named_at(sounds, j, name));
    if j < i {
        assert(sounds[j].name@ != sounds[i].name@);
    } else if i < j {
        assert(sounds[i].name@ != sounds[j].name@);
    }
}

/// The table of sounds, each under its own name, and the name of the sound
/// that new alarms get.
#[derive(Debug, PartialEq, Eq)]
pub struct Sounds {
    pub sounds: Vec<Sound>,
    pub default_sound: String,
}

impl View for Sounds {
    type V = Map<Seq<char>, Sound>;

    open spec fn view(&self) -> Map<Seq<char>, Sound> {
        table_of(self.sounds@)
    }
}

/// Copies a list of sounds.
pub fn clone_sounds(list: &Vec<Sound>) -> (r: Vec<Sound>)
    ensures
        r@ == list@,
{
    let mut sounds: Vec<Sound> = Vec::new();
    let mut i: usize = 0;
    while i < list.len()
        invariant
            i <= list.len(),
            sounds@ == list@.take(i as int),
        decreases list.len() - i,
    {
        sounds.push(list[i].clone());
        assert(list@.take(i + 1) == list@.take(i as int).push(list@[i as int]));
        i += 1;
    }
    assert(list@.take(list@.len() as int) == list@);
    sounds
}

impl Clone for Sounds {
    fn clone(&self) -> (r: Self)
        ensures
            r.sounds@ == self.sounds@,
            r.default_sound == self.default_sound,
    {
        Sounds { sounds: clone_sounds(&self.sounds), default_sound: self.default_sound.clone() }
    }
}

impl Sounds {
    /// No name occurs twice.
    pub open spec fn wf(self) -> bool {
        names_distinct(self.sounds@)
    }

    /// An empty table whose default is `default_sound`.
    pub fn new(default_sound: String) -> (s: Sounds)
        ensures
            s@ == Map::<Seq<char>, Sound>::empty(),
            s.sounds@.len() == 0,
            s.default_sound == default_sound,
            s.wf(),
    {
        let s = Sounds { sounds: Vec::new(), default_sound };
        assert(s@ =~= Map::<Seq<char>, Sound>::empty());
        s
    }

    /// Where the sound called `name` stands in the list.
    pub fn position(&self, name: &String) -> (r: Option<usize>)
        ensures
            r matches Some(i) ==> named_at(self.sounds@, i as int, name@),
            r is None ==> !has_name(self.sounds@, name@),
            r.is_some() == self@.contains_key(name@),
            self.wf() && r.is_some() ==> r->0 == index_of(self.sounds@, name@),
    {
        let mut i: usize = 0;
        while i < self.sounds.len()
            invariant
                i <= self.sounds.len(),
                forall|j: int| 0 <= j < i ==> !named_at(self.sounds@, j, name@),
            decreases self.sounds.len() - i,
        {
            if self.sounds[i].name == *name {
                assert(named_at(self.sounds@, i as int, name@));
                proof {
                    if self.wf() {
                        lemma_table_entry(self.sounds@, i as int);
                    }
                }
                return Some(i);
            }
            i += 1;
        }
        None
    }

    /// Whether a sound called `name` is in the table.
    pub fn contains(&self, name: &String) -> (b: bool)
        ensures
            b == self@.contains_key(name@),
    {
        self.position(name).is_some()
    }

    /// The sound called `name`.
    pub fn get(&self, name: &String) -> (r: Option<&Sound>)
        requires
            self.wf(),
        ensures
            r == (if self@.contains_key(name@) {
                Some(&self@[name@])
            } else {
                None
            }),
    {
        match self.position(name) {
            Some(i) => Some(&self.sounds[i]),
            None => None,
        }
    }

    /// Puts `sound` under its name, replacing and handing back the sound that
    /// had that name before, if there was one.
    pub fn insert(&mut self, sound: Sound) -> (previous: Option<Sound>)
        requires
            old(self).wf(),
        ensures
            final(self).wf(),
            final(self).sounds@ == with_sound(old(self).sounds@, sound),
            final(self)@ == old(self)@.insert(sound.name@, sound),
            previous == (if old(self)@.contains_key(sound.name@) {
                Some(old(self)@[sound.name@])
            } else {
                None
            }),
            final(self).default_sound == old(self).default_sound,
    {
        let ghost before = self.sounds@;
        let ghost name = sound.name@;
        let found = self.position(&sound.name);
        self.sounds.push(sound);
        let previous = match found {
            Some(i) => {
                let taken = self.sounds.swap_remove(i);
                assert(self.sounds@ == before.update(i as int, sound));
                proof {
                    lemma_table_entry(before, i as int);
                    lemma_update_keeps_distinct(before, i as int, sound);
                    lemma_table_update(before, i as int, sound);
                }
                Some(taken)
            },
            None => {
                proof {
                    lemma_push_keeps_distinct(before, sound);
                    lemma_table_push(before, sound);
                }
                None
            },
        };
        previous
    }

    /// Takes the sound called `name` out of the table and hands it back.
    pub fn remove(&mut self, name: &String) -> (removed: Option<Sound>)
        requires
            old(self).wf(),
        ensures
            final(self).wf(),
            final(self).sounds@ == without_sound(old(self).sounds@, name@),
            final(self)@ == old(self)@.remove(name@),
            removed == (if old(self)@.contains_key(name@) {
                Some(old(self)@[name@])
            } else {
                None
            }),
            final(self).default_sound == old(self).default_sound,
    {
        let ghost before = self.sounds@;
        match self.position(name) {
            Some(i) => {
                let taken = self.sounds.remove(i);
                proof {
                    lemma_table_entry(before, i as int);
                    lemma_table_remove(before, i as int);
                }
                Some(taken)
            },
            None => {
                assert(self@ =~= old(self)@.remove(name@));
                None
            },
        }
    }
}

/// Replacing an entry by one of the same name keeps the names distinct.
pub proof fn lemma_update_keeps_distinct(sounds: Seq<Sound>, i: int, sound: Sound)
    requires
        names_distinct(sounds),
        0 <= i < sounds.len(),
        sounds[i].name@ == sound.name@,
    ensures
        names_distinct(sounds.update(i, sound)),
{
    let after = sounds.update(i, sound);
    assert forall|a: int, b: int| 0 <= a < b < after.len() implies after[a].name@
        != after[b].name@ by {
        assert(sounds[a].name@ != sounds[b].name@);
    }
}

/// Appending an entry whose name is new keeps the names distinct.
pub proof fn lemma_push_keeps_distinct(sounds: Seq<Sound>, sound: Sound)
    requires
        names_distinct(sounds),
        !has_name(sounds, sound.name@),
    ensures
        names_distinct(sounds.push(sound)),
{
    let after = sounds.push(sound);
    assert forall|a: int, b: int| 0 <= a < b < after.len() implies after[a].name@
        != after[b].name@ by {
        if b < sounds.len() {
            assert(sounds[a].name@ != sounds[b].name@);
        } else {
            assert(!named_at(sounds, a, sound.name@));
        }
    }
}

/// Replacing an entry by one of the same name is an insertion into the table.
pub proof fn lemma_table_update(sounds: Seq<Sound>, i: int, sound: Sound)
    requires
        names_distinct(sounds),
        0 <= i < sounds.len(),
        sounds[i].name@ == sound.name@,
    ensures
        table_of(sounds.update(i, sound)) == table_of(sounds).insert(sound.name@, sound),
{
    let after = sounds.update(i, sound);
    lemma_update_keeps_distinct(sounds, i, sound);
    let lhs = table_of(after);
    let rhs = table_of(sounds).insert(sound.name@, sound);
    assert forall|name: Seq<char>| lhs.contains_key(name) <==> rhs.contains_key(name) by {
        if has_name(after, name) {
            let j = index_of(after, name);
            assert(named_at(after, j, name));
            if j != i {
                assert(named_at(sounds, j, name));
            }
        }
        if has_name(sounds, name) {
            let j = index_of(sounds, name);
            assert(named_at(sounds, j, name));
            assert(named_at(after, j, name));
        }
        if name == sound.name@ {
            assert(named_at(after, i, name));
        }
    }
    assert forall|name: Seq<char>| lhs.contains_key(name) implies lhs[name] == rhs[name] by {
        let j = index_of(after, name);
        assert(named_at(after, j, name));
        lemma_table_entry(after, j);
        if j != i {
            assert(named_at(sounds, j, name));
            lemma_table_entry(sounds, j);
        }
    }
    assert(lhs =~= rhs);
}

/// Appending an entry whose name is new is an insertion into the table.
pub proof fn lemma_table_push(sounds: Seq<Sound>, sound: Sound)
    requires
        names_distinct(sounds),
        !has_name(sounds, sound.name@),
    ensures
        table_of(sounds.push(sound)) == table_of(sounds).insert(sound.name@, sound),
{
    let after = sounds.push(sound);
    lemma_push_keeps_distinct(sounds, sound);
    let lhs = table_of(after);
    let rhs = table_of(sounds).insert(sound.name@, sound);
    assert forall|name: Seq<char>| lhs.contains_key(name) <==> rhs.contains_key(name) by {
        if has_name(after, name) {
            let j = index_of(after, name);
            assert(named_at(after, j, name));
            if j < sounds.len() {
                assert(named_at(sounds, j, name));
            }
        }
        if has_name(sounds, name) {
            let j = index_of(sounds, name);
            assert(named_at(sounds, j, name));
            assert(named_at(after, j, name));
        }
        if name == sound.name@ {
            assert(named_at(after, sounds.len() as int, name));
        }
    }
    assert forall|name: Seq<char>| lhs.contains_key(name) implies lhs[name] == rhs[name] by {
        let j = index_of(after, name);
        assert(named_at(after, j, name));
        lemma_table_entry(after, j);
        if j < sounds.len() {
            assert(named_at(sounds, j, name));
            lemma_table_entry(sounds, j);
        }
    }
    assert(lhs =~= rhs);
}

/// Deleting an entry deletes its name from the table and keeps the names
/// distinct.
pub proof fn lemma_table_remove(sounds: Seq<Sound>, i: int)
    requires
        names_distinct(sounds),
        0 <= i < sounds.len(),
    ensures
        names_distinct(sounds.remove(i)),
        table_of(sounds.remove(i)) == table_of(sounds).remove(sounds[i].name@),
{
    let after = sounds.remove(i);
    let gone = sounds[i].name@;
    assert forall|a: int, b: int| 0 <= a < b < after.len() implies after[a].name@
        != after[b].name@ by {
        let a0 = if a < i { a } else { a + 1 };
        let b0 = if b < i { b } else { b + 1 };
        assert(sounds[a0].name@ != sounds[b0].name@);
    }
    let lhs = table_of(after);
    let rhs = table_of(sounds).remove(gone);
    assert forall|name: Seq<char>| lhs.contains_key(name) <==> rhs.contains_key(name) by {
        if has_name(after, name) {
            let j = index_of(after, name);
            assert(named_at(after, j, name));
            let j0 = if j < i { j } else { j + 1 };
            assert(named_at(sounds, j0, name));
            if j0 < i {
                assert(sounds[j0].name@ != sounds[i].name@);
            } else {
                assert(sounds[i].name@ != sounds[j0].name@);
            }
        }
        if has_name(sounds, name) && name != gone {
            let j = index_of(sounds, name);
            assert(named_at(sounds, j, name));
            let j1 = if j < i { j } else { j - 1 };
            assert(named_at(after, j1, name));
        }
    }
    assert forall|name: Seq<char>| lhs.contains_key(name) implies lhs[name] == rhs[name] by {
        let j = index_of(after, name);
        assert(named_at(after, j, name));
        lemma_table_entry(after, j);
        let j0 = if j < i { j } else { j + 1 };
        assert(named_at(sounds, j0, name));
        lemma_table_entry(sounds, j0);
    }
    assert(lhs =~= rhs);
}


/// Whether `sound` has this name and this path.
pub open spec fn depicts(sound: Sound, name: Seq<char>, path: Seq<char>) -> bool {
    sound.name@ == name && sound.path@ == path
}

impl Sound {
    /// The name of the sound that alarms get when none is chosen.
    pub fn get_default_name() -> (name: String)
        ensures
            name@ == "beep beep"@,
    {
        "beep beep".to_owned()
    }

    pub fn new(name: String, path: String) -> (s: Sound)
        ensures
            s.name == name,
            s.path == path,
    {
        Sound { name, path }
    }

    /// The built-in sound "ring".
    pub fn ring() -> (s: Sound)
        ensures
            depicts(s, "ring"@, "ring.mp3"@),
    {
        Sound { name: "ring".to_owned(), path: "ring.mp3".to_owned() }
    }

    /// The built-in sound "bing bong".
    pub fn bing_bong() -> (s: Sound)
        ensures
            depicts(s, "bing bong"@, "bing_bong.mp3"@),
    {
        Sound { name: "bing bong".to_owned(), path: "bing_bong.mp3".to_owned() }
    }

    /// The built-in sound "tick tock".
    pub fn tick_tock() -> (s: Sound)
        ensures
            depicts(s, "tick tock"@, "tick_tock.mp3"@),
    {
        Sound { name: "tick tock".to_owned(), path: "tick_tock.mp3".to_owned() }
    }

    /// The built-in sound "beep beep", the default.
    pub fn beep_beep() -> (s: Sound)
        ensures
            depicts(s, "beep beep"@, "beep_beep.mp3"@),
    {
        Sound { name: "beep beep".to_owned(), path: "beep_beep.mp3".to_owned() }
    }

    /// The built-in sound "rain".
    pub fn rain() -> (s: Sound)
        ensures
            depicts(s, "rain"@, "rain.mp3"@),
    {
        Sound { name: "rain".to_owned(), path: "rain.mp3".to_owned() }
    }

    pub fn name(&self) -> (name: &str)
        ensures
            name@ == self.name@,
    {
        self.name.as_str()
    }
}

impl Default for Sound {
    fn default() -> (s: Self)
        ensures
            depicts(s, "beep beep"@, "beep_beep.mp3"@),
    {
        Sound::beep_beep()
    }
}

/// Always `true`: the value of a flag that was left out.
pub fn always_true() -> (b: bool)
    ensures
        b,
{
    true
}

/// The alarms and the sounds: what is written to durable storage as one unit.
pub struct Config {
    pub alarms: Collection<Alarm>,
    pub sounds: Sounds,
}

/// Whether `sounds` is the list of the five built-in sounds.
pub open spec fn is_builtin_list(sounds: Seq<Sound>) -> bool {
    &&& sounds.len() == 5
    &&& depicts(sounds[0], "ring"@, "ring.mp3"@)
    &&& depicts(sounds[1], "bing bong"@, "bing_bong.mp3"@)
    &&& depicts(sounds[2], "tick tock"@, "tick_tock.mp3"@)
    &&& depicts(sounds[3], "beep beep"@, "beep_beep.mp3"@)
    &&& depicts(sounds[4], "rain"@, "rain.mp3"@)
}

/// The five built-in sounds have five different names.
pub proof fn lemma_builtin_names_distinct(sounds: Seq<Sound>)
    requires
        is_builtin_list(sounds),
    ensures
        names_distinct(sounds),
        has_name(sounds, "beep beep"@),
{
    reveal_strlit("ring");
    reveal_strlit("bing bong");
    reveal_strlit("tick tock");
    reveal_strlit("beep beep");
    reveal_strlit("rain");
    assert("ring"@[1] == 'i');
    assert("rain"@[1] == 'a');
    assert("bing bong"@[0] == 'b' && "bing bong"@[1] == 'i');
    assert("tick tock"@[0] == 't');
    assert("beep beep"@[0] == 'b' && "beep beep"@[1] == 'e');
    assert(named_at(sounds, 3, "beep beep"@));
}

impl Default for Config {
    /// No alarms, the five built-in sounds, and "beep beep" as the default.
    fn default() -> (c: Self)
        ensures
            c.alarms.data@ == Map::<u64, Alarm>::empty(),
            is_builtin_list(c.sounds.sounds@),
            c.sounds.default_sound@ == "beep beep"@,
            c.sounds.wf(),
    {
        let mut sounds: Vec<Sound> = Vec::new();
        sounds.push(Sound::ring());
        sounds.push(Sound::bing_bong());
        sounds.push(Sound::tick_tock());
        sounds.push(Sound::beep_beep());
        sounds.push(Sound::rain());
        proof {
            lemma_builtin_names_distinct(sounds@);
        }
        Config {
            alarms: Collection::new(),
            sounds: Sounds { sounds, default_sound: Sound::get_default_name() },
        }
    }
}

impl Config {
    /// The same as [`Config::default`].
    pub fn new() -> (c: Self)
        ensures
            c.alarms.data@ == Map::<u64, Alarm>::empty(),
            is_builtin_list(c.sounds.sounds@),
            c.sounds.default_sound@ == "beep beep"@,
            c.sounds.wf(),
    {
        Config::default()
    }
}


/// The map that results from filing `items` in order, each under its own
/// identifier; of two items with one identifier the later stays.
pub open spec fn filed<V: GetId<u64>>(items: Seq<V>) -> Map<u64, V>
    decreases items.len(),
{
    if items.len() == 0 {
        Map::empty()
    } else {
        filed(items.drop_last()).insert(items.last().spec_id(), items.last())
    }
}

impl<V: GetId<u64>> Collection<V> {
    /// Files the items of `value` in order.
    pub fn from_vec(value: Vec<V>) -> (c: Self)
        ensures
            c.data@ == filed(value@),
            c.wf(),
    {
        broadcast use vstd::std_specs::hash::group_hash_axioms;

        let ghost all = value@;
        let mut rest = value;
        let mut data: HashMap<u64, V> = HashMap::new();
        while rest.len() > 0
            invariant
                forall|k: u64|
                    filed(all).contains_key(k) <==> #[trigger] data@.contains_key(k) || filed(
                        rest@,
                    ).contains_key(k),
                forall|k: u64| #[trigger]
                    data@.contains_key(k) ==> filed(all)[k] == data@[k] && data@[k].spec_id() == k,
                forall|k: u64|
                    !(#[trigger] data@.contains_key(k)) && filed(rest@).contains_key(k) ==> filed(
                        all,
                    )[k] == filed(rest@)[k],
            decreases rest.len(),
        {
            let ghost before = rest@;
            let item = rest.pop().unwrap();
            assert(rest@ =~= before.drop_last());
            let id: u64 = *item.get_id();
            if !data.contains_key(&id) {
                data.insert(id, item);
            }
        }
        assert(data@ =~= filed(all));
        Collection { data }
    }
}

/// Where the file name starts in a path: behind its last `/`, or at the
/// beginning when it has none.
pub open spec fn file_name_start(path: Seq<char>) -> int
    decreases path.len(),
{
    if path.len() == 0 {
        0
    } else if path.last() == '/' {
        path.len() as int
    } else {
        file_name_start(path.drop_last())
    }
}

/// The file name of a path: what stands behind its last `/`.
pub open spec fn file_name_of(path: Seq<char>) -> Seq<char> {
    path.subrange(file_name_start(path), path.len() as int)
}

impl Sound {
    /// How the sound is shown in a list: its name, a colon, and the file name
    /// of its path.
    pub fn label(&self) -> (text: String)
        ensures
            text@ == self.name@ + seq![':'] + file_name_of(self.path@),
    {
        let path = self.path.as_str();
        let len: usize = path.unicode_len();
        let mut start: usize = 0;
        let mut i: usize = 0;
        assert(path@.take(0) =~= Seq::<char>::empty());
        while i < len
            invariant
                i <= len,
                len == path@.len(),
                start <= i,
                start == file_name_start(path@.take(i as int)),
            decreases len - i,
        {
            let c = path.get_char(i);
            assert(path@.take(i + 1).drop_last() =~= path@.take(i as int));
            assert(path@.take(i + 1).last() == path@[i as int]);
            if c == '/' {
                start = i + 1;
            }
            i += 1;
        }
        assert(path@.take(len as int) =~= path@);
        let file = path.substring_char(start, len);
        let mut text = self.name.clone();
        proof {
            reveal_strlit(":");
            assert(":"@ =~= seq![':']);
        }
        text.append(":");
        text.append(file);
        text
    }
}

} // verus!
