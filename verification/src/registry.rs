//! The registry of tracked devices: one record per device tag, kept in the
//! order of the tags, and changed by the actions that descriptors carry.

use vstd::prelude::*;
use vstd::string::*;
use crate::digest::{digest_of, records_digest, records_view};
use crate::device::{
    classify, determine_device_type, is_retainable, known_description, record_valid,
    ConnectedDevice, DeviceType, DeviceView, MAX_HISTORY,
};
use crate::entry::{action_of, Action, EntryView, TyCmdListEntry};
use crate::order::{
    lemma_text_lt_asymmetric, lemma_text_lt_irreflexive, lemma_text_lt_total,
    lemma_text_lt_transitive, precedes, text_lt,
};
use crate::text::same_text;

verus! {

/// The tag that a record is kept under.
pub open spec fn tag_of(record: DeviceView) -> Seq<char> {
    record.ty_cmd_info.tag
}

/// Whether the records stand in the strict order of their tags.
pub open spec fn ordered(records: Seq<DeviceView>) -> bool {
    forall|i: int, j: int|
        0 <= i < j < records.len() ==> text_lt(
            #[trigger] tag_of(records[i]),
            #[trigger] tag_of(records[j]),
        )
}

/// Whether some record is kept under `tag`.
pub open spec fn holds(records: Seq<DeviceView>, tag: Seq<char>) -> bool {
    exists|i: int| 0 <= i < records.len() && #[trigger] tag_of(records[i]) == tag
}

/// The records as a mapping from tag to record.
pub open spec fn content(records: Seq<DeviceView>) -> Map<Seq<char>, DeviceView> {
    Map::new(
        |tag: Seq<char>| holds(records, tag),
        |tag: Seq<char>|
            records[choose|i: int| 0 <= i < records.len() && #[trigger] tag_of(records[i]) == tag],
    )
}

/// What holds of the records of a registry: they stand in the strict order
/// of their tags, so no tag occurs twice, and each is a valid record.
pub open spec fn registry_valid(records: Seq<DeviceView>) -> bool {
    &&& ordered(records)
    &&& forall|i: int| 0 <= i < records.len() ==> record_valid(#[trigger] records[i])
}

/// In ordered records, the record kept under the tag of the record at `at`
/// is that record.
pub proof fn lemma_content_at(records: Seq<DeviceView>, at: int)
    requires
        ordered(records),
        0 <= at < records.len(),
    ensures
        content(records).dom().contains(tag_of(records[at])),
        content(records)[tag_of(records[at])] == records[at],
{
    let tag = tag_of(records[at]);
    assert(holds(records, tag));
    let i = choose|i: int| 0 <= i < records.len() && #[trigger] tag_of(records[i]) == tag;
    lemma_text_lt_irreflexive(tag);
    if i < at {
        assert(text_lt(tag_of(records[i]), tag_of(records[at])));
    } else if at < i {
        assert(text_lt(tag_of(records[at]), tag_of(records[i])));
    }
}

/// A tag that falls between two neighbours of ordered records, or before
/// the first or after the last, is not in them.
pub proof fn lemma_absent(records: Seq<DeviceView>, at: int, tag: Seq<char>)
    requires
        ordered(records),
        0 <= at <= records.len(),
        forall|i: int| 0 <= i < at ==> text_lt(#[trigger] tag_of(records[i]), tag),
        at < records.len() ==> text_lt(tag, tag_of(records[at])),
    ensures
        !holds(records, tag),
{
    lemma_text_lt_irreflexive(tag);
    assert forall|i: int| 0 <= i < records.len() implies #[trigger] tag_of(records[i]) != tag by {
        if i > at {
            assert(text_lt(tag_of(records[at]), tag_of(records[i])));
            lemma_text_lt_transitive(tag, tag_of(records[at]), tag_of(records[i]));
        } else if i < at {
            assert(text_lt(tag_of(records[i]), tag));
        }
    }
}

/// Putting a record in at its place keeps the order and adds it to the
/// content.
pub proof fn lemma_insert(records: Seq<DeviceView>, at: int, record: DeviceView)
    requires
        ordered(records),
        0 <= at <= records.len(),
        forall|i: int| 0 <= i < at ==> text_lt(#[trigger] tag_of(records[i]), tag_of(record)),
        at < records.len() ==> text_lt(tag_of(record), tag_of(records[at])),
    ensures
        ordered(records.insert(at, record)),
        content(records.insert(at, record)) == content(records).insert(tag_of(record), record),
{
    let tag = tag_of(record);
    let after = records.insert(at, record);
    assert forall|i: int, j: int| 0 <= i < j < after.len() implies text_lt(
        #[trigger] tag_of(after[i]),
        #[trigger] tag_of(after[j]),
    ) by {
        if j < at {
            assert(text_lt(tag_of(records[i]), tag_of(records[j])));
        } else if j == at {
            assert(text_lt(tag_of(records[i]), tag));
        } else if i == at {
            if j - 1 > at {
                assert(text_lt(tag_of(records[at]), tag_of(records[j - 1])));
                lemma_text_lt_transitive(tag, tag_of(records[at]), tag_of(records[j - 1]));
            }
        } else if i < at {
            assert(text_lt(tag_of(records[i]), tag_of(records[j - 1])));
        } else {
            assert(text_lt(tag_of(records[i - 1]), tag_of(records[j - 1])));
        }
    }
    let wanted = content(records).insert(tag, record);
    assert forall|key: Seq<char>| content(after).dom().contains(key) == wanted.dom().contains(
        key,
    ) by {
        if holds(after, key) {
            let i = choose|i: int| 0 <= i < after.len() && #[trigger] tag_of(after[i]) == key;
            if i < at {
                assert(tag_of(records[i]) == key);
            } else if i > at {
                assert(tag_of(records[i - 1]) == key);
            }
        }
        if holds(records, key) {
            let i = choose|i: int| 0 <= i < records.len() && #[trigger] tag_of(records[i]) == key;
            if i < at {
                assert(tag_of(after[i]) == key);
            } else {
                assert(tag_of(after[i + 1]) == key);
            }
        }
        if key == tag {
            assert(tag_of(after[at]) == key);
        }
    }
    assert forall|key: Seq<char>| content(after).dom().contains(key) implies content(after)[key]
        == wanted[key] by {
        let i = choose|i: int| 0 <= i < after.len() && #[trigger] tag_of(after[i]) == key;
        lemma_content_at(after, i);
        if i < at {
            lemma_content_at(records, i);
            lemma_absent(records, at, tag);
        } else if i > at {
            lemma_content_at(records, i - 1);
            lemma_absent(records, at, tag);
        }
    }
    assert(content(after) =~= wanted);
}

/// Replacing a record by one of the same tag keeps the order and replaces it
/// in the content.
pub proof fn lemma_replace(records: Seq<DeviceView>, at: int, record: DeviceView)
    requires
        ordered(records),
        0 <= at < records.len(),
        tag_of(records[at]) == tag_of(record),
    ensures
        ordered(records.update(at, record)),
        content(records.update(at, record)) == content(records).insert(tag_of(record), record),
{
    let tag = tag_of(record);
    let after = records.update(at, record);
    assert forall|i: int, j: int| 0 <= i < j < after.len() implies text_lt(
        #[trigger] tag_of(after[i]),
        #[trigger] tag_of(after[j]),
    ) by {
        assert(text_lt(tag_of(records[i]), tag_of(records[j])));
    }
    let wanted = content(records).insert(tag, record);
    assert forall|key: Seq<char>| content(after).dom().contains(key) == wanted.dom().contains(
        key,
    ) by {
        if holds(after, key) {
            let i = choose|i: int| 0 <= i < after.len() && #[trigger] tag_of(after[i]) == key;
            assert(tag_of(records[i]) == key);
        }
        if holds(records, key) {
            let i = choose|i: int| 0 <= i < records.len() && #[trigger] tag_of(records[i]) == key;
            assert(tag_of(after[i]) == key);
        }
        if key == tag {
            assert(tag_of(after[at]) == key);
        }
    }
    assert forall|key: Seq<char>| content(after).dom().contains(key) implies content(after)[key]
        == wanted[key] by {
        let i = choose|i: int| 0 <= i < after.len() && #[trigger] tag_of(after[i]) == key;
        lemma_content_at(after, i);
        lemma_content_at(records, i);
        lemma_text_lt_irreflexive(tag);
        if i < at {
            assert(text_lt(tag_of(records[i]), tag_of(records[at])));
        } else if at < i {
            assert(text_lt(tag_of(records[at]), tag_of(records[i])));
        }
    }
    assert(content(after) =~= wanted);
}

/// Taking a record out keeps the order and takes its tag out of the content.
pub proof fn lemma_remove(records: Seq<DeviceView>, at: int)
    requires
        ordered(records),
        0 <= at < records.len(),
    ensures
        ordered(records.remove(at)),
        content(records.remove(at)) == content(records).remove(tag_of(records[at])),
{
    let tag = tag_of(records[at]);
    let after = records.remove(at);
    assert forall|i: int, j: int| 0 <= i < j < after.len() implies text_lt(
        #[trigger] tag_of(after[i]),
        #[trigger] tag_of(after[j]),
    ) by {
        let a = if i < at {
            i
        } else {
            i + 1
        };
        let b = if j < at {
            j
        } else {
            j + 1
        };
        assert(text_lt(tag_of(records[a]), tag_of(records[b])));
    }
    let wanted = content(records).remove(tag);
    lemma_text_lt_irreflexive(tag);
    assert forall|key: Seq<char>| content(after).dom().contains(key) == wanted.dom().contains(
        key,
    ) by {
        if holds(after, key) {
            let i = choose|i: int| 0 <= i < after.len() && #[trigger] tag_of(after[i]) == key;
            let a = if i < at {
                i
            } else {
                i + 1
            };
            assert(tag_of(records[a]) == key);
            if a < at {
                assert(text_lt(tag_of(records[a]), tag_of(records[at])));
            } else {
                assert(text_lt(tag_of(records[at]), tag_of(records[a])));
            }
        }
        if holds(records, key) && key != tag {
            let i = choose|i: int| 0 <= i < records.len() && #[trigger] tag_of(records[i]) == key;
            if i < at {
                assert(tag_of(after[i]) == key);
            } else {
                assert(tag_of(after[i - 1]) == key);
            }
        }
    }
    assert forall|key: Seq<char>| content(after).dom().contains(key) implies content(after)[key]
        == wanted[key] by {
        let i = choose|i: int| 0 <= i < after.len() && #[trigger] tag_of(after[i]) == key;
        lemma_content_at(after, i);
        let a = if i < at {
            i
        } else {
            i + 1
        };
        assert(after[i] == records[a]);
        lemma_content_at(records, a);
        assert(wanted.dom().contains(key));
    }
    assert(content(after) =~= wanted);
}

/// Ordered records are determined by their content: two ordered sequences
/// of records with the same content are the same sequence.
pub proof fn lemma_content_determines_records(a: Seq<DeviceView>, b: Seq<DeviceView>)
    requires
        ordered(a),
        ordered(b),
        content(a) == content(b),
    ensures
        a == b,
    decreases a.len(),
{
    if a.len() == 0 {
        if b.len() > 0 {
            lemma_content_at(b, 0);
            assert(holds(a, tag_of(b[0])));
        }
        assert(a =~= b);
    } else {
        lemma_content_at(a, 0);
        let first = tag_of(a[0]);
        assert(holds(b, first));
        let j = choose|j: int| 0 <= j < b.len() && #[trigger] tag_of(b[j]) == first;
        lemma_content_at(b, 0);
        assert(holds(a, tag_of(b[0])));
        let i = choose|i: int| 0 <= i < a.len() && #[trigger] tag_of(a[i]) == tag_of(b[0]);
        if j > 0 {
            assert(text_lt(tag_of(b[0]), tag_of(b[j])));
            if i > 0 {
                assert(text_lt(tag_of(a[0]), tag_of(a[i])));
                lemma_text_lt_asymmetric(tag_of(b[0]), first);
            } else {
                lemma_text_lt_irreflexive(first);
            }
        }
        assert(j == 0);
        lemma_content_at(b, 0);
        assert(a[0] == b[0]);
        lemma_remove(a, 0);
        lemma_remove(b, 0);
        lemma_content_determines_records(a.remove(0), b.remove(0));
        assert(a =~= seq![a[0]] + a.remove(0));
        assert(b =~= seq![b[0]] + b.remove(0));
    }
}

/// The records of a content: the ordered sequence of records that has this
/// content.
pub open spec fn records_of(devices: Map<Seq<char>, DeviceView>) -> Seq<DeviceView> {
    choose|records: Seq<DeviceView>| ordered(records) && content(records) == devices
}

/// Ordered records are the records of their content.
pub proof fn lemma_records_of(records: Seq<DeviceView>)
    requires
        ordered(records),
    ensures
        records_of(content(records)) == records,
{
    lemma_content_determines_records(records_of(content(records)), records);
}

/// What holds of the content of a registry: it is the content of ordered
/// records, each of them valid.
pub open spec fn content_valid(devices: Map<Seq<char>, DeviceView>) -> bool {
    &&& registry_valid(records_of(devices))
    &&& content(records_of(devices)) == devices
}

/// The content digest of a device collection: that of its records in the
/// order of their tags.
pub open spec fn content_digest(devices: Map<Seq<char>, DeviceView>) -> u64 {
    digest_of(records_of(devices))
}

/// A history with its oldest actions dropped so that it is within the cap.
pub open spec fn capped(history: Seq<Seq<char>>) -> Seq<Seq<char>> {
    if history.len() > MAX_HISTORY {
        history.skip(history.len() - MAX_HISTORY)
    } else {
        history
    }
}

/// What becomes of the record under a descriptor's tag when the descriptor
/// arrives at time `now`, given the record that was there.
///
/// A descriptor whose family is not kept leaves no record. Otherwise `add`
/// leaves a fresh record; `change` and `miss` update the record that is
/// there, adding the action to its capped history, and do nothing where
/// none is; `remove` leaves no record; any other action changes nothing.
pub open spec fn next_record(existing: Option<DeviceView>, entry: EntryView, now: int) -> Option<
    DeviceView,
> {
    let family = classify(entry.description, entry.model);
    if !is_retainable(family) {
        None
    } else {
        match action_of(entry.action) {
            Some(Action::Add) => Some(
                DeviceView {
                    action_history: seq![entry.action],
                    device_type: family,
                    ty_cmd_info: entry,
                    updated_at: now,
                },
            ),
            Some(Action::Change) | Some(Action::Miss) => match existing {
                Some(record) => Some(
                    DeviceView {
                        action_history: capped(record.action_history.push(entry.action)),
                        device_type: family,
                        ty_cmd_info: entry,
                        updated_at: now,
                    },
                ),
                None => None,
            },
            Some(Action::Remove) => None,
            None => existing,
        }
    }
}

/// The record kept under `tag`, if there is one.
pub open spec fn lookup(devices: Map<Seq<char>, DeviceView>, tag: Seq<char>) -> Option<DeviceView> {
    if devices.dom().contains(tag) {
        Some(devices[tag])
    } else {
        None
    }
}

/// The content of the registry after a descriptor has arrived at time `now`.
pub open spec fn transition(
    devices: Map<Seq<char>, DeviceView>,
    entry: EntryView,
    now: int,
) -> Map<Seq<char>, DeviceView> {
    match next_record(lookup(devices, entry.tag), entry, now) {
        Some(record) => devices.insert(entry.tag, record),
        None => devices.remove(entry.tag),
    }
}

/// The collection of tracked devices.
#[derive(Debug)]
pub struct DeviceRegistry {
    records: Vec<ConnectedDevice>,
    last_digest: Option<u64>,
}

impl View for DeviceRegistry {
    type V = Map<Seq<char>, DeviceView>;

    closed spec fn view(&self) -> Map<Seq<char>, DeviceView> {
        content(records_view(self.records@))
    }
}

impl DeviceRegistry {
    #[verifier::type_invariant]
    spec fn well_formed(&self) -> bool {
        registry_valid(self.list())
    }

    /// The records, in the order of their tags.
    pub closed spec fn list(&self) -> Seq<DeviceView> {
        records_view(self.records@)
    }

    /// Whether the registry is well formed. Every registry is.
    pub open spec fn wf(&self) -> bool {
        content_valid(self@)
    }

    /// A registry whose records are valid is well formed, and its records
    /// are those of its content.
    proof fn lemma_list(&self)
        requires
            registry_valid(self.list()),
        ensures
            self.wf(),
            records_of(self@) == self.list(),
    {
        lemma_records_of(self.list());
    }

    /// The digest that was last noted, if any was.
    pub closed spec fn remembered(&self) -> Option<u64> {
        self.last_digest
    }

    /// An empty registry.
    pub fn new() -> (registry: Self)
        ensures
            registry.wf(),
            registry@ == Map::<Seq<char>, DeviceView>::empty(),
            registry.remembered() is None,
    {
        let registry = DeviceRegistry { records: Vec::new(), last_digest: None };
        proof {
            assert(registry.list() =~= Seq::<DeviceView>::empty());
            registry.lemma_list();
            assert(registry@ =~= Map::<Seq<char>, DeviceView>::empty());
        }
        registry
    }

    /// The number of records.
    pub fn len(&self) -> (n: usize)
        ensures
            self.wf(),
            n == records_of(self@).len(),
    {
        proof {
            use_type_invariant(&*self);
            self.lemma_list();
        }
        self.records.len()
    }

    /// The records, in the order of their tags.
    pub fn records(&self) -> (records: &Vec<ConnectedDevice>)
        ensures
            self.wf(),
            records_view(records@) == records_of(self@),
    {
        proof {
            use_type_invariant(&*self);
            self.lemma_list();
        }
        &self.records
    }

    /// Finds the place of `tag`: the index of the first record whose tag
    /// does not come before it, and whether that record has this tag.
    fn locate(&self, tag: &str) -> (place: (usize, bool))
        ensures
            place.0 <= self.list().len(),
            forall|i: int| 0 <= i < place.0 ==> text_lt(#[trigger] tag_of(self.list()[i]), tag@),
            place.1 ==> place.0 < self.list().len() && tag_of(self.list()[place.0 as int])
                == tag@,
            !place.1 ==> (place.0 < self.list().len() ==> text_lt(
                tag@,
                tag_of(self.list()[place.0 as int]),
            )),
            place.1 == holds(self.list(), tag@),
    {
        proof {
            use_type_invariant(&*self);
        }
        let mut at: usize = 0;
        while at < self.records.len() && precedes(self.records[at].ty_cmd_info.tag.as_str(), tag)
            invariant
                at <= self.records.len(),
                self.list().len() == self.records.len(),
                self.list() == records_view(self.records@),
                forall|i: int| 0 <= i < at ==> text_lt(#[trigger] tag_of(self.list()[i]), tag@),
            decreases self.records.len() - at,
        {
            at = at + 1;
        }
        let found = at < self.records.len() && same_text(
            self.records[at].ty_cmd_info.tag.as_str(),
            tag,
        );
        proof {
            if found {
                assert(tag_of(self.list()[at as int]) == tag@);
            } else {
                if at < self.records.len() {
                    lemma_text_lt_total(tag@, tag_of(self.list()[at as int]));
                }
                lemma_absent(self.list(), at as int, tag@);
            }
        }
        (at, found)
    }

    /// The record kept under `tag`, if there is one.
    pub fn get(&self, tag: &str) -> (record: Option<&ConnectedDevice>)
        ensures
            self.wf(),
            match record {
                Some(r) => lookup(self@, tag@) == Some(r@),
                None => lookup(self@, tag@) is None,
            },
    {
        proof {
            use_type_invariant(&*self);
            self.lemma_list();
        }
        let (at, found) = self.locate(tag);
        if found {
            proof {
                lemma_content_at(self.list(), at as int);
            }
            Some(&self.records[at])
        } else {
            None
        }
    }

    /// Whether a record is kept under `tag`.
    pub fn contains(&self, tag: &str) -> (r: bool)
        ensures
            self.wf(),
            r == self@.dom().contains(tag@),
    {
        proof {
            use_type_invariant(&*self);
            self.lemma_list();
        }
        let (at, found) = self.locate(tag);
        found
    }

    /// Puts `record` under its tag, in place of the record that was there if
    /// there was one.
    fn put(&mut self, record: ConnectedDevice)
        requires
            record_valid(record@),
        ensures
            final(self).wf(),
            final(self)@ == old(self)@.insert(tag_of(record@), record@),
            final(self).remembered() == old(self).remembered(),
    {
        proof {
            use_type_invariant(&*self);
        }
        let (at, found) = self.locate(record.ty_cmd_info.tag.as_str());
        let ghost before = self.list();
        let mut records: Vec<ConnectedDevice> = Vec::new();
        std::mem::swap(&mut records, &mut self.records);
        if found {
            proof {
                lemma_replace(before, at as int, record@);
            }
            records.set(at, record);
            assert(records_view(records@) =~= before.update(at as int, record@));
        } else {
            proof {
                lemma_insert(before, at as int, record@);
            }
            records.insert(at, record);
            assert(records_view(records@) =~= before.insert(at as int, record@));
        }
        assert(registry_valid(records_view(records@)));
        self.records = records;
        proof {
            self.lemma_list();
        }
    }

    /// Takes out the record kept under `tag`, if there is one.
    pub fn remove(&mut self, tag: &str) -> (removed: bool)
        ensures
            final(self).wf(),
            final(self)@ == old(self)@.remove(tag@),
            final(self).remembered() == old(self).remembered(),
            removed == old(self)@.dom().contains(tag@),
    {
        proof {
            use_type_invariant(&*self);
            self.lemma_list();
        }
        let (at, found) = self.locate(tag);
        let ghost before = self.list();
        if found {
            proof {
                lemma_remove(before, at as int);
            }
            let mut records: Vec<ConnectedDevice> = Vec::new();
            std::mem::swap(&mut records, &mut self.records);
            records.remove(at);
            assert(records_view(records@) =~= before.remove(at as int));
            assert(registry_valid(records_view(records@)));
            self.records = records;
            proof {
                self.lemma_list();
            }
        } else {
            assert(self@.remove(tag@) =~= self@);
        }
        found
    }

    /// Puts a record under its tag if it is valid, in place of the record
    /// that was there if there was one. An invalid record is refused and the
    /// registry stays as it is.
    pub fn insert(&mut self, record: ConnectedDevice) -> (accepted: bool)
        ensures
            final(self).wf(),
            accepted == record_valid(record@),
            final(self)@ == if accepted {
                old(self)@.insert(tag_of(record@), record@)
            } else {
                old(self)@
            },
            final(self).remembered() == old(self).remembered(),
    {
        proof {
            use_type_invariant(&*self);
            self.lemma_list();
        }
        if record.is_valid() {
            self.put(record);
            true
        } else {
            false
        }
    }

    /// Changes the collection as the arriving descriptor asks, as
    /// `transition` defines.
    pub fn transit(&mut self, entry: TyCmdListEntry, now: i64)
        ensures
            final(self).wf(),
            final(self)@ == transition(old(self)@, entry@, now as int),
            final(self).remembered() == old(self).remembered(),
    {
        proof {
            use_type_invariant(&*self);
            self.lemma_list();
        }
        let family = determine_device_type(&entry);
        if !family.is_retained() {
            self.remove(entry.tag.as_str());
            return ;
        }
        match entry.transition() {
            Some(Action::Add) => {
                let mut history: Vec<String> = Vec::new();
                history.push(entry.action.clone());
                assert(history.deep_view() =~= seq![entry@.action]);
                self.put(
                    ConnectedDevice {
                        action_history: history,
                        device_type: family,
                        ty_cmd_info: entry,
                        updated_at: now,
                    },
                );
            },
            Some(Action::Change) | Some(Action::Miss) => {
                let history = match self.get(entry.tag.as_str()) {
                    Some(existing) => Some(extended_history(existing, entry.action.as_str())),
                    None => None,
                };
                match history {
                    Some(history) => {
                        self.put(
                            ConnectedDevice {
                                action_history: history,
                                device_type: family,
                                ty_cmd_info: entry,
                                updated_at: now,
                            },
                        );
                    },
                    None => {
                        assert(self@.remove(entry@.tag) =~= self@);
                    },
                }
            },
            Some(Action::Remove) => {
                self.remove(entry.tag.as_str());
            },
            None => {
                proof {
                    let existing = lookup(self@, entry@.tag);
                    if existing is Some {
                        assert(self@.insert(entry@.tag, existing->0) =~= self@);
                    } else {
                        assert(self@.remove(entry@.tag) =~= self@);
                    }
                }
            },
        }
    }

    /// The content digest of the collection.
    pub fn digest(&self) -> (digest: u64)
        ensures
            digest == content_digest(self@),
    {
        proof {
            use_type_invariant(&*self);
            self.lemma_list();
        }
        records_digest(&self.records)
    }

    /// Compares the digest of the collection with the one that was last
    /// noted, and notes the new one. Returns whether they differ, or none
    /// had been noted: whether the collection is to be announced.
    pub fn note_digest(&mut self) -> (changed: bool)
        ensures
            final(self).wf(),
            final(self)@ == old(self)@,
            final(self).remembered() == Some(content_digest(old(self)@)),
            changed == (old(self).remembered() != Some(content_digest(old(self)@))),
    {
        proof {
            use_type_invariant(&*self);
            self.lemma_list();
        }
        let digest = self.digest();
        let changed = match self.last_digest {
            Some(previous) => previous != digest,
            None => true,
        };
        self.last_digest = Some(digest);
        changed
    }

    /// Takes a descriptor that arrived at time `now`: changes the collection
    /// as `transition` defines, then notes the digest of the collection.
    /// Returns whether the collection is to be announced.
    pub fn apply(&mut self, entry: TyCmdListEntry, now: i64) -> (changed: bool)
        ensures
            final(self).wf(),
            final(self)@ == transition(old(self)@, entry@, now as int),
            final(self).remembered() == Some(content_digest(final(self)@)),
            changed == (old(self).remembered() != Some(content_digest(final(self)@))),
    {
        self.transit(entry, now);
        self.note_digest()
    }

    /// Takes a descriptor that arrives now, by the system clock: `apply` at
    /// the current time.
    pub fn apply_now(&mut self, entry: TyCmdListEntry) -> (changed: bool)
        ensures
            final(self).wf(),
            exists|now: i64|
                final(self)@ == #[trigger] transition(old(self)@, entry@, now as int),
            final(self).remembered() == Some(content_digest(final(self)@)),
            changed == (old(self).remembered() != Some(content_digest(final(self)@))),
    {
        let now = timestamp_now();
        self.apply(entry, now)
    }
}

/// `chrono::Utc::now` followed by `DateTime::timestamp_millis`: the time of
/// the system clock in milliseconds since the Unix epoch. Nothing is
/// promised of the value. The clock must not stand before the epoch.
#[verifier::external_body]
pub(crate) fn timestamp_now() -> i64 {
    chrono::Utc::now().timestamp_millis()
}

/// The content digest of a device collection.
pub fn devices_digest(devices: &DeviceRegistry) -> (digest: u64)
    ensures
        digest == content_digest(devices@),
{
    devices.digest()
}

/// The history of `record` with `action` added, newest last, and the oldest
/// actions dropped so that it is within the cap.
fn extended_history(record: &ConnectedDevice, action: &str) -> (history: Vec<String>)
    ensures
        history.deep_view() == capped(record@.action_history.push(action@)),
{
    let old_len: usize = record.action_history.len();
    let skip: usize = if old_len >= MAX_HISTORY {
        old_len - MAX_HISTORY + 1
    } else {
        0
    };
    let ghost full = record@.action_history.push(action@);
    let mut history: Vec<String> = Vec::new();
    let mut i: usize = skip;
    while i < old_len
        invariant
            skip <= i <= old_len,
            old_len == record.action_history.len(),
            history.len() == i - skip,
            forall|j: int| 0 <= j < history.len() ==> history@[j]@ == record.action_history@[skip + j]@,
        decreases old_len - i,
    {
        history.push(record.action_history[i].clone());
        i = i + 1;
    }
    history.push(String::from_str(action));
    assert(history.deep_view() =~= capped(full));
    history
}

/// Every record of a registry stands under its own tag, is valid, and is of
/// a family that is kept: no record of a headless or unknown device is ever
/// retained.
pub proof fn lemma_registry_holds_only_valid_records(
    devices: Map<Seq<char>, DeviceView>,
    tag: Seq<char>,
)
    requires
        content_valid(devices),
        devices.dom().contains(tag),
    ensures
        tag_of(devices[tag]) == tag,
        record_valid(devices[tag]),
        devices[tag].device_type == DeviceType::MODEL01 || devices[tag].device_type
            == DeviceType::MODEL02,
{
    let records = records_of(devices);
    assert(holds(records, tag));
    let i = choose|i: int| 0 <= i < records.len() && #[trigger] tag_of(records[i]) == tag;
    lemma_content_at(records, i);
}

/// The transition keeps a registry well formed.
pub proof fn lemma_transition_keeps_validity(
    devices: Map<Seq<char>, DeviceView>,
    entry: EntryView,
    now: int,
)
    requires
        content_valid(devices),
    ensures
        content_valid(transition(devices, entry, now)),
{
    let records = records_of(devices);
    let tag = entry.tag;
    let after = transition(devices, entry, now);
    let at = place_of(records, tag);
    lemma_place_of(records, tag);
    match next_record(lookup(devices, tag), entry, now) {
        Some(record) => {
            if lookup(devices, tag) is Some {
                lemma_registry_holds_only_valid_records(devices, tag);
            }
            if holds(records, tag) {
                lemma_replace(records, at, record);
                lemma_records_of(records.update(at, record));
                assert forall|i: int| 0 <= i < records.len() implies record_valid(
                    #[trigger] records.update(at, record)[i],
                ) by {
                    assert(record_valid(records[i]));
                }
            } else {
                lemma_insert(records, at, record);
                lemma_records_of(records.insert(at, record));
                assert forall|i: int| 0 <= i < records.len() + 1 implies record_valid(
                    #[trigger] records.insert(at, record)[i],
                ) by {
                    if i < at {
                        assert(record_valid(records[i]));
                    } else if i > at {
                        assert(record_valid(records[i - 1]));
                    }
                }
            }
        },
        None => {
            if holds(records, tag) {
                lemma_remove(records, at);
                lemma_records_of(records.remove(at));
                assert forall|i: int| 0 <= i < records.len() - 1 implies record_valid(
                    #[trigger] records.remove(at)[i],
                ) by {
                    if i < at {
                        assert(record_valid(records[i]));
                    } else {
                        assert(record_valid(records[i + 1]));
                    }
                }
            } else {
                assert(devices.remove(tag) =~= devices);
            }
        },
    }
}

/// The place of `tag` in ordered records: the number of records whose tag
/// comes before it.
pub open spec fn place_of(records: Seq<DeviceView>, tag: Seq<char>) -> int
    decreases records.len(),
{
    if records.len() > 0 && text_lt(tag_of(records[0]), tag) {
        1 + place_of(records.drop_first(), tag)
    } else {
        0
    }
}

/// The place of a tag in ordered records is where the tag stands, or where
/// it would have to be put.
pub proof fn lemma_place_of(records: Seq<DeviceView>, tag: Seq<char>)
    requires
        ordered(records),
    ensures
        0 <= place_of(records, tag) <= records.len(),
        forall|i: int|
            0 <= i < place_of(records, tag) ==> text_lt(#[trigger] tag_of(records[i]), tag),
        holds(records, tag) ==> place_of(records, tag) < records.len() && tag_of(
            records[place_of(records, tag)],
        ) == tag,
        !holds(records, tag) && place_of(records, tag) < records.len() ==> text_lt(
            tag,
            tag_of(records[place_of(records, tag)]),
        ),
    decreases records.len(),
{
    if records.len() > 0 && text_lt(tag_of(records[0]), tag) {
        let rest = records.drop_first();
        assert forall|i: int, j: int| 0 <= i < j < rest.len() implies text_lt(
            #[trigger] tag_of(rest[i]),
            #[trigger] tag_of(rest[j]),
        ) by {
            assert(text_lt(tag_of(records[i + 1]), tag_of(records[j + 1])));
        }
        lemma_place_of(rest, tag);
        let at = place_of(records, tag);
        assert forall|i: int| 0 <= i < at implies text_lt(#[trigger] tag_of(records[i]), tag) by {
            if i > 0 {
                assert(tag_of(records[i]) == tag_of(rest[i - 1]));
            }
        }
        if holds(records, tag) {
            let i = choose|i: int| 0 <= i < records.len() && #[trigger] tag_of(records[i]) == tag;
            lemma_text_lt_irreflexive(tag);
            assert(i > 0);
            assert(tag_of(rest[i - 1]) == tag);
            assert(holds(rest, tag));
        } else {
            if holds(rest, tag) {
                let i = choose|i: int| 0 <= i < rest.len() && #[trigger] tag_of(rest[i]) == tag;
                assert(tag_of(records[i + 1]) == tag);
            }
        }
    } else if records.len() > 0 {
        if holds(records, tag) {
            let i = choose|i: int| 0 <= i < records.len() && #[trigger] tag_of(records[i]) == tag;
            if i > 0 {
                assert(text_lt(tag_of(records[0]), tag_of(records[i])));
            }
        } else {
            lemma_text_lt_total(tag, tag_of(records[0]));
            assert(tag_of(records[0]) != tag);
        }
    }
}

/// A `remove` leaves the registry without the tag, whatever was there, and
/// touches no other record.
pub proof fn lemma_remove_clears_tag(
    devices: Map<Seq<char>, DeviceView>,
    entry: EntryView,
    now: int,
)
    requires
        action_of(entry.action) == Some(Action::Remove),
    ensures
        transition(devices, entry, now) == devices.remove(entry.tag),
        !transition(devices, entry, now).dom().contains(entry.tag),
{
}

/// An `add` and then a `remove` for the same tag leave the registry without
/// that tag.
pub proof fn lemma_add_then_remove(
    devices: Map<Seq<char>, DeviceView>,
    added: EntryView,
    removed: EntryView,
    first: int,
    second: int,
)
    requires
        action_of(added.action) == Some(Action::Add),
        action_of(removed.action) == Some(Action::Remove),
        added.tag == removed.tag,
    ensures
        !transition(transition(devices, added, first), removed, second).dom().contains(added.tag),
        transition(transition(devices, added, first), removed, second) == devices.remove(
            added.tag,
        ),
{
    let middle = transition(devices, added, first);
    lemma_remove_clears_tag(middle, removed, second);
    assert(middle.remove(added.tag) =~= devices.remove(added.tag));
}

/// A descriptor whose description is not a known identifier classifies as
/// unknown, and after it has been taken no record stands under its tag,
/// whatever its action and its model.
pub proof fn lemma_unknown_description_is_excluded(
    devices: Map<Seq<char>, DeviceView>,
    entry: EntryView,
    now: int,
)
    requires
        !known_description(entry.description),
    ensures
        classify(entry.description, entry.model) == DeviceType::UNKNOWN,
        transition(devices, entry, now) == devices.remove(entry.tag),
        !transition(devices, entry, now).dom().contains(entry.tag),
{
}

/// A descriptor of a family that is not kept leaves no record under its
/// tag, whatever its action.
pub proof fn lemma_untracked_family_is_excluded(
    devices: Map<Seq<char>, DeviceView>,
    entry: EntryView,
    now: int,
)
    requires
        !is_retainable(classify(entry.description, entry.model)),
    ensures
        transition(devices, entry, now) == devices.remove(entry.tag),
        !transition(devices, entry, now).dom().contains(entry.tag),
{
}

/// The content after a descriptor has been taken `count` times in a row.
pub open spec fn repeated(
    devices: Map<Seq<char>, DeviceView>,
    entry: EntryView,
    count: nat,
    now: int,
) -> Map<Seq<char>, DeviceView>
    decreases count,
{
    if count == 0 {
        devices
    } else {
        transition(repeated(devices, entry, (count - 1) as nat, now), entry, now)
    }
}

/// The history that holds `first` once and then `later` `count` times.
pub open spec fn run_of(first: Seq<char>, later: Seq<char>, count: nat) -> Seq<Seq<char>> {
    Seq::new(
        count + 1,
        |i: int|
            if i == 0 {
                first
            } else {
                later
            },
    )
}

/// After an `add` and then any number of `change` or `miss` descriptors for
/// the same tag, all of a family that is kept, the record under the tag
/// holds the descriptor that came last, and its history is the newest
/// `MAX_HISTORY` of all the actions taken: the oldest are dropped first.
pub proof fn lemma_history_keeps_newest(
    devices: Map<Seq<char>, DeviceView>,
    added: EntryView,
    changed: EntryView,
    count: nat,
    first: int,
    later: int,
)
    requires
        action_of(added.action) == Some(Action::Add),
        action_of(changed.action) == Some(Action::Change) || action_of(changed.action) == Some(
            Action::Miss,
        ),
        added.tag == changed.tag,
        is_retainable(classify(added.description, added.model)),
        is_retainable(classify(changed.description, changed.model)),
    ensures
        repeated(transition(devices, added, first), changed, count, later).dom().contains(
            added.tag,
        ),
        repeated(transition(devices, added, first), changed, count, later)[added.tag].action_history
            == capped(run_of(added.action, changed.action, count)),
        repeated(
            transition(devices, added, first),
            changed,
            count,
            later,
        )[added.tag].action_history.len() == if count + 1 <= MAX_HISTORY {
            count + 1
        } else {
            MAX_HISTORY as nat
        },
        count > 0 ==> repeated(
            transition(devices, added, first),
            changed,
            count,
            later,
        )[added.tag].ty_cmd_info == changed,
    decreases count,
{
    let start = transition(devices, added, first);
    if count == 0 {
        assert(run_of(added.action, changed.action, 0) =~= seq![added.action]);
    } else {
        let before = (count - 1) as nat;
        lemma_history_keeps_newest(devices, added, changed, before, first, later);
        let older = run_of(added.action, changed.action, before);
        let full = run_of(added.action, changed.action, count);
        assert(full =~= older.push(changed.action));
        assert(capped(capped(older).push(changed.action)) =~= capped(full));
    }
}

/// The digest of a collection does not depend on the order in which its
/// records were put in: two records of different tags, put in either order,
/// give the same digest.
pub proof fn lemma_insertion_order_is_immaterial(
    devices: Map<Seq<char>, DeviceView>,
    one: DeviceView,
    other: DeviceView,
)
    requires
        tag_of(one) != tag_of(other),
    ensures
        devices.insert(tag_of(one), one).insert(tag_of(other), other) == devices.insert(
            tag_of(other),
            other,
        ).insert(tag_of(one), one),
        content_digest(devices.insert(tag_of(one), one).insert(tag_of(other), other))
            == content_digest(devices.insert(tag_of(other), other).insert(tag_of(one), one)),
{
    assert(devices.insert(tag_of(one), one).insert(tag_of(other), other) =~= devices.insert(
        tag_of(other),
        other,
    ).insert(tag_of(one), one));
}

/// Two registries with the same content have the same digest, however each
/// was built.
pub proof fn lemma_same_content_same_digest(a: DeviceRegistry, b: DeviceRegistry)
    requires
        a@ == b@,
    ensures
        content_digest(a@) == content_digest(b@),
{
}

} // verus!
