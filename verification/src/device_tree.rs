//! The device tree: entries with parent and child links and named
//! properties, found by identifier, and the two requests by which a user
//! process reads and extends it.

use crate::dt::Dictionary;
use crate::dt::OSDTEntryReqType;
use crate::dt::OSValue;
use crate::incremental_num::IncrementalNumGenerator;
use crate::incremental_num::NumGenState;
use crate::scheduler::tracks;
use crate::scheduler::Scheduler;
use crate::syscall::RegisterState;
use crate::syscall::TerminationReason;
use crate::tables::EntryTable;
use crate::wire::ids_to_bytes;
use crate::wire::option_to_bytes;
use crate::wire::postcard_ids_bytes;
use crate::wire::postcard_option_bytes;
use crate::wire::text_from_utf8;
use core::ops::ControlFlow;
use vstd::prelude::*;
use vstd::utf8::decode_utf8;
use vstd::utf8::valid_utf8;

verus! {

/// Identifier of the root entry.
pub const ROOT_ID: u64 = 0;

/// An entry of the device tree.
pub struct DeviceTreeEntry {
    /// Identifier under which the entry is found.
    pub id: u64,
    /// The entry above, absent for the root.
    pub parent: Option<u64>,
    /// The entries below, in the order in which they were created.
    pub children: Vec<u64>,
    /// The named properties.
    pub properties: Dictionary,
}

/// Mathematical value of an entry.
pub struct EntryView {
    pub id: u64,
    pub parent: Option<u64>,
    pub children: Seq<u64>,
    pub properties: Map<Seq<char>, OSValue>,
}

impl View for DeviceTreeEntry {
    type V = EntryView;

    open spec fn view(&self) -> EntryView {
        EntryView {
            id: self.id,
            parent: self.parent,
            children: self.children@,
            properties: self.properties@,
        }
    }
}

/// The answer to a query, borrowed from the tree.
pub enum EntryInfo<'a> {
    Parent(Option<u64>),
    Children(&'a Vec<u64>),
    Properties(&'a Dictionary),
    Property(Option<&'a OSValue>),
}

/// Mathematical value of an answer to a query.
pub enum InfoView {
    Parent(Option<u64>),
    Children(Seq<u64>),
    Properties(Map<Seq<char>, OSValue>),
    Property(Option<OSValue>),
}

impl<'a> View for EntryInfo<'a> {
    type V = InfoView;

    open spec fn view(&self) -> InfoView {
        match self {
            EntryInfo::Parent(parent) => InfoView::Parent(*parent),
            EntryInfo::Children(children) => InfoView::Children(children@),
            EntryInfo::Properties(properties) => InfoView::Properties(properties@),
            EntryInfo::Property(value) => InfoView::Property(
                match value {
                    Some(v) => Some(**v),
                    None => None,
                },
            ),
        }
    }
}

impl InfoView {
    /// The bytes in which an answer crosses the boundary, for the answers
    /// that hold no property value: links, and the absence of a property,
    /// which is encoded as every absent optional value is. Answers that hold
    /// property values are encoded with those, outside this crate.
    pub open spec fn plain_bytes(self) -> Option<Seq<u8>> {
        match self {
            InfoView::Parent(parent) => Some(postcard_option_bytes(parent)),
            InfoView::Children(children) => Some(postcard_ids_bytes(children)),
            InfoView::Properties(_) => None,
            InfoView::Property(Some(_)) => None,
            InfoView::Property(None) => Some(postcard_option_bytes(None)),
        }
    }
}

impl<'a> EntryInfo<'a> {
    /// Encodes an answer that holds no property value for the requesting
    /// process; returns `None` for an answer that holds one.
    pub fn encode(&self) -> (bytes: Option<Vec<u8>>)
        ensures
            bytes is Some <==> self@.plain_bytes() is Some,
            bytes matches Some(b) ==> Some(b@) == self@.plain_bytes(),
            self@ == InfoView::Property(None) ==> (bytes matches Some(b) && b@ == seq![0u8]),
    {
        match self {
            EntryInfo::Parent(parent) => match option_to_bytes(parent) {
                Ok(bytes) => Some(bytes),
                Err(_) => None,
            },
            EntryInfo::Children(children) => match ids_to_bytes(children) {
                Ok(bytes) => Some(bytes),
                Err(_) => None,
            },
            EntryInfo::Properties(_) => None,
            EntryInfo::Property(Some(_)) => None,
            EntryInfo::Property(None) => match option_to_bytes(&None) {
                Ok(bytes) => Some(bytes),
                Err(_) => None,
            },
        }
    }
}

/// Mathematical state of the device tree.
pub struct TreeState {
    /// The entries by identifier.
    pub entries: Map<u64, EntryView>,
    /// The generator of entry identifiers.
    pub ids: NumGenState,
}

impl TreeState {
    /// A tree that holds only the root.
    pub open spec fn initial() -> TreeState {
        TreeState {
            entries: Map::empty().insert(
                ROOT_ID,
                EntryView {
                    id: ROOT_ID,
                    parent: None,
                    children: Seq::empty(),
                    properties: Map::empty(),
                },
            ),
            ids: NumGenState::initial(),
        }
    }

    /// The entries are exactly those with identifiers up to the last one
    /// issued, each is stored under its own identifier, the root has no
    /// parent, every other entry has a parent created before it that lists
    /// it as a child, and every child listed names its parent.
    pub open spec fn wf(self) -> bool {
        &&& self.ids.wf()
        &&& self.ids.freed.len() == 0
        &&& forall|k: u64| #[trigger] self.entries.contains_key(k) <==> k <= self.ids.last_used
        &&& forall|k: u64| #[trigger] self.entries.contains_key(k) ==> self.entry_wf(k)
    }

    /// The links of entry `k` agree with those of its neighbours.
    pub open spec fn entry_wf(self, k: u64) -> bool {
        let e = self.entries[k];
        &&& e.id == k
        &&& k == ROOT_ID ==> e.parent is None
        &&& k != ROOT_ID ==> e.parent is Some && e.parent.unwrap() < k && self.entries[e.parent.unwrap()].children.contains(
            k,
        )
        &&& e.children.no_duplicates()
        &&& forall|i: int|
            0 <= i < e.children.len() ==> self.entries.contains_key(#[trigger] e.children[i])
                && self.entries[e.children[i]].parent == Some(k)
    }

    /// Whether a further entry can be created.
    pub open spec fn can_grow(self) -> bool {
        self.ids.can_issue()
    }

    /// The answer to the query for `kind` about entry `id`, where `key` holds
    /// the bytes that name a property.
    pub open spec fn info(self, id: u64, kind: u64, key: Seq<u8>) -> Result<
        InfoView,
        TerminationReason,
    > {
        match OSDTEntryReqType::of_number(kind) {
            Err(_) => Err(TerminationReason::MalformedArgument),
            Ok(kind) => if !self.entries.contains_key(id) {
                Err(TerminationReason::NotFound)
            } else {
                let entry = self.entries[id];
                match kind {
                    OSDTEntryReqType::Parent => Ok(InfoView::Parent(entry.parent)),
                    OSDTEntryReqType::Children => Ok(InfoView::Children(entry.children)),
                    OSDTEntryReqType::Properties => Ok(InfoView::Properties(entry.properties)),
                    OSDTEntryReqType::Property => if !valid_utf8(key) {
                        Err(TerminationReason::MalformedAddress)
                    } else if entry.properties.contains_key(decode_utf8(key)) {
                        Ok(InfoView::Property(Some(entry.properties[decode_utf8(key)])))
                    } else {
                        Ok(InfoView::Property(None))
                    },
                }
            },
        }
    }

    /// The state after a request for a new entry below `parent`.
    pub open spec fn after_new_entry(self, parent: u64) -> TreeState {
        if self.entries.contains_key(parent) {
            let id = self.ids.next_id();
            let above = self.entries[parent];
            TreeState {
                entries: self.entries.insert(
                    parent,
                    EntryView { children: above.children.push(id), ..above },
                ).insert(
                    id,
                    EntryView {
                        id: id,
                        parent: Some(parent),
                        children: Seq::empty(),
                        properties: Map::empty(),
                    },
                ),
                ids: self.ids.after_next(),
            }
        } else {
            self
        }
    }

    /// The state after `value` is stored as property `name` of entry `id`.
    pub open spec fn after_set_property(self, id: u64, name: Seq<char>, value: OSValue) -> TreeState {
        if self.entries.contains_key(id) {
            let entry = self.entries[id];
            TreeState {
                entries: self.entries.insert(
                    id,
                    EntryView { properties: entry.properties.insert(name, value), ..entry },
                ),
                ..self
            }
        } else {
            self
        }
    }
}

/// The device tree.
pub struct DeviceTree {
    index: EntryTable,
    id_gen: IncrementalNumGenerator,
}

impl View for DeviceTree {
    type V = TreeState;

    closed spec fn view(&self) -> TreeState {
        TreeState {
            entries: Map::new(
                |id: u64| self.index@.contains_key(id),
                |id: u64| self.index@[id]@,
            ),
            ids: self.id_gen@,
        }
    }
}

impl DeviceTree {
    /// A tree that holds only the root, which has no properties.
    pub fn new() -> (tree: DeviceTree)
        ensures
            tree@ == TreeState::initial(),
            tree@.wf(),
    {
        let mut index = EntryTable::new();
        index.insert(
            ROOT_ID,
            DeviceTreeEntry {
                id: ROOT_ID,
                parent: None,
                children: Vec::new(),
                properties: Dictionary::new(),
            },
        );
        let tree = DeviceTree { index, id_gen: IncrementalNumGenerator::new() };
        assert(tree@.entries =~= TreeState::initial().entries);
        tree
    }

    /// Whether a further entry can be created.
    pub fn can_grow(&self) -> (r: bool)
        ensures
            r == self@.can_grow(),
    {
        self.id_gen.can_issue()
    }

    /// The entry with identifier `id`.
    pub fn entry(&self, id: u64) -> (entry: Option<&DeviceTreeEntry>)
        ensures
            entry is Some <==> self@.entries.contains_key(id),
            entry matches Some(e) ==> e@ == self@.entries[id],
    {
        self.index.get(id)
    }

    /// Stores `value` as property `key` of entry `id` and returns the value
    /// that it replaces, if any. Fails with `NotFound`, changing nothing, if
    /// there is no such entry.
    pub fn set_property(&mut self, id: u64, key: String, value: OSValue) -> (r: Result<
        Option<OSValue>,
        TerminationReason,
    >)
        ensures
            final(self)@ == old(self)@.after_set_property(id, key@, value),
            old(self)@.wf() ==> final(self)@.wf(),
            r == if !old(self)@.entries.contains_key(id) {
                Err::<Option<OSValue>, TerminationReason>(TerminationReason::NotFound)
            } else if old(self)@.entries[id].properties.contains_key(key@) {
                Ok(Some(old(self)@.entries[id].properties[key@]))
            } else {
                Ok(None)
            },
    {
        let ghost name = key@;
        match self.index.remove(id) {
            None => {
                assert(self@.entries =~= old(self)@.entries);
                Err(TerminationReason::NotFound)
            },
            Some(entry) => {
                let mut entry = entry;
                let replaced = entry.properties.insert(key, value);
                self.index.insert(id, entry);
                proof {
                    let before = old(self)@;
                    let after = before.after_set_property(id, name, value);
                    assert(self@.entries =~= after.entries);
                    if before.wf() {
                        assert forall|k: u64| #[trigger] after.entries.contains_key(k) implies after.entry_wf(
                            k,
                        ) by {
                            assert(before.entries.contains_key(k));
                            assert(before.entry_wf(k));
                        }
                    }
                }
                Ok(replaced)
            },
        }
    }
}

/// Answers the query in `state` about the entry `state.rsi`: `state.rdx`
/// selects what is asked for, and `key` holds the bytes that name the
/// property where one property is asked for.
///
/// An unknown selector fails with `MalformedArgument`, an unknown entry with
/// `NotFound`, and a property name that is not UTF-8 with `MalformedAddress`,
/// in this order. A property that the entry does not have is answered with
/// `None`.
pub fn get_info<'a>(tree: &'a DeviceTree, state: &RegisterState, key: &[u8]) -> (r: ControlFlow<
    Option<TerminationReason>,
    EntryInfo<'a>,
>)
    ensures
        r matches ControlFlow::Continue(info) ==> tree@.info(state.rsi, state.rdx, key@) == Ok::<
            InfoView,
            TerminationReason,
        >(info@),
        r matches ControlFlow::Break(reason) ==> reason is Some && tree@.info(
            state.rsi,
            state.rdx,
            key@,
        ) == Err::<InfoView, TerminationReason>(reason.unwrap()),
{
    let info_type = match OSDTEntryReqType::try_from(state.rdx) {
        Ok(info_type) => info_type,
        Err(_) => {
            return ControlFlow::Break(Some(TerminationReason::MalformedArgument));
        },
    };
    let ent = match tree.index.get(state.rsi) {
        Some(ent) => ent,
        None => {
            return ControlFlow::Break(Some(TerminationReason::NotFound));
        },
    };
    match info_type {
        OSDTEntryReqType::Parent => ControlFlow::Continue(EntryInfo::Parent(ent.parent)),
        OSDTEntryReqType::Children => ControlFlow::Continue(EntryInfo::Children(&ent.children)),
        OSDTEntryReqType::Properties => ControlFlow::Continue(EntryInfo::Properties(&ent.properties)),
        OSDTEntryReqType::Property => {
            let k = match text_from_utf8(key) {
                Some(k) => k,
                None => {
                    return ControlFlow::Break(Some(TerminationReason::MalformedAddress));
                },
            };
            ControlFlow::Continue(EntryInfo::Property(ent.properties.get(k)))
        },
    }
}

/// Completes a query once its answer lies in a buffer of `len` bytes at
/// `ptr`: the buffer is tracked for the executing process, `rax` receives the
/// token and `rdi` the length.
pub fn deliver_info(scheduler: &mut Scheduler, state: &mut RegisterState, ptr: u64, len: u64) -> (r:
    ControlFlow<Option<TerminationReason>>)
    requires
        old(scheduler)@.wf(),
        old(scheduler)@.current_pid is Some,
        !tracks(old(scheduler)@.processes[old(scheduler)@.current_pid.unwrap()], ptr),
    ensures
        r == ControlFlow::<Option<TerminationReason>, ()>::Continue(()),
        final(scheduler)@ == old(scheduler)@.after_track(ptr, len),
        final(scheduler)@.wf(),
        *final(state) == (RegisterState { rax: ptr, rdi: len, ..*old(state) }),
{
    state.rax = scheduler.track_kernelside_alloc(ptr, len);
    state.rdi = len;
    ControlFlow::Continue(())
}

/// Creates an entry below the entry `state.rsi` and returns its identifier in
/// `rax`. Fails with `NotFound`, changing nothing, if there is no such entry.
pub fn new_entry(tree: &mut DeviceTree, state: &mut RegisterState) -> (r: ControlFlow<
    Option<TerminationReason>,
>)
    requires
        old(tree)@.wf(),
        old(tree)@.can_grow(),
    ensures
        r == if old(tree)@.entries.contains_key(old(state).rsi) {
            ControlFlow::<Option<TerminationReason>, ()>::Continue(())
        } else {
            ControlFlow::<Option<TerminationReason>, ()>::Break(Some(TerminationReason::NotFound))
        },
        final(tree)@ == old(tree)@.after_new_entry(old(state).rsi),
        final(tree)@.wf(),
        *final(state) == if old(tree)@.entries.contains_key(old(state).rsi) {
            RegisterState { rax: old(tree)@.ids.next_id(), ..*old(state) }
        } else {
            *old(state)
        },
        old(tree)@.entries.contains_key(old(state).rsi) ==> !old(tree)@.entries.contains_key(
            final(state).rax,
        ),
{
    let parent_id = state.rsi;
    let mut parent = match tree.index.remove(parent_id) {
        Some(parent) => parent,
        None => {
            assert(tree@.entries =~= old(tree)@.entries);
            return ControlFlow::Break(Some(TerminationReason::NotFound));
        },
    };
    let new = DeviceTreeEntry {
        id: tree.id_gen.next(),
        parent: Some(parent_id),
        children: Vec::new(),
        properties: Dictionary::new(),
    };
    parent.children.push(new.id);
    tree.index.insert(parent_id, parent);
    state.rax = new.id;
    tree.index.insert(new.id, new);
    proof {
        let before = old(tree)@;
        assert(tree@.entries =~= before.after_new_entry(parent_id).entries);
        lemma_new_entry_keeps_wf(before, parent_id);
    }
    ControlFlow::Continue(())
}

/// Creating an entry keeps the tree consistent, and the identifier of the new
/// entry names no entry of the tree before.
pub proof fn lemma_new_entry_keeps_wf(s: TreeState, parent: u64)
    requires
        s.wf(),
        s.can_grow(),
    ensures
        s.after_new_entry(parent).wf(),
        !s.entries.contains_key(s.ids.next_id()),
{
    crate::incremental_num::lemma_next_is_fresh(s.ids);
    let id = s.ids.next_id();
    assert(id == s.ids.last_used + 1);
    if s.entries.contains_key(parent) {
        let t = s.after_new_entry(parent);
        assert(s.entry_wf(parent));
        let above = s.entries[parent];
        if above.children.contains(id) {
            let i = choose|i: int| 0 <= i < above.children.len() && above.children[i] == id;
            assert(s.entries.contains_key(above.children[i]));
        }
        assert forall|k: u64| #[trigger] t.entries.contains_key(k) implies t.entry_wf(k) by {
            let e = t.entries[k];
            if k == id {
                assert(t.entries[parent].children[above.children.len() as int] == id);
            } else {
                assert(s.entries.contains_key(k));
                assert(s.entry_wf(k));
                let e0 = s.entries[k];
                if k != ROOT_ID {
                    let q = e0.parent.unwrap();
                    let i = choose|i: int|
                        0 <= i < s.entries[q].children.len() && s.entries[q].children[i] == k;
                    assert(t.entries[q].children[i] == k);
                }
                assert forall|i: int| 0 <= i < e.children.len() implies t.entries.contains_key(
                    #[trigger] e.children[i],
                ) && t.entries[e.children[i]].parent == Some(k) by {
                    if k == parent && i == above.children.len() {
                    } else {
                        let c = e0.children[i];
                        assert(e.children[i] == c);
                        assert(s.entries.contains_key(c));
                        assert(s.entries[c].parent == Some(k));
                    }
                }
                if k == parent {
                    assert forall|a: int, b: int|
                        0 <= a < e.children.len() && 0 <= b < e.children.len() && a
                            != b implies e.children[a] != e.children[b] by {
                        if a < above.children.len() {
                            assert(s.entries.contains_key(above.children[a]));
                        }
                        if b < above.children.len() {
                            assert(s.entries.contains_key(above.children[b]));
                        }
                    }
                }
            }
        }
    }
}

/// Right after an entry is created below `parent`, the query for its parent
/// answers `parent`, the query for the children of `parent` lists it, and it
/// has no properties yet.
pub proof fn law_new_entry_is_linked(s: TreeState, parent: u64, key: Seq<u8>)
    requires
        s.wf(),
        s.can_grow(),
        s.entries.contains_key(parent),
    ensures
        ({
            let id = s.ids.next_id();
            let t = s.after_new_entry(parent);
            &&& !s.entries.contains_key(id)
            &&& t.info(id, OSDTEntryReqType::Parent.number(), key) == Ok::<
                InfoView,
                TerminationReason,
            >(InfoView::Parent(Some(parent)))
            &&& t.info(parent, OSDTEntryReqType::Children.number(), key) == Ok::<
                InfoView,
                TerminationReason,
            >(InfoView::Children(s.entries[parent].children.push(id)))
            &&& s.entries[parent].children.push(id).contains(id)
            &&& t.info(id, OSDTEntryReqType::Properties.number(), key) == Ok::<
                InfoView,
                TerminationReason,
            >(InfoView::Properties(Map::empty()))
        }),
{
    lemma_new_entry_keeps_wf(s, parent);
    let id = s.ids.next_id();
    let pushed = s.entries[parent].children.push(id);
    assert(pushed[pushed.len() - 1] == id);
}

/// The identifiers that requests for new entries below `parents`, made one
/// after the other from state `s`, return. A request below an entry that does
/// not exist returns none.
pub open spec fn created_ids(s: TreeState, parents: Seq<u64>) -> Seq<u64>
    decreases parents.len(),
{
    if parents.len() == 0 {
        Seq::empty()
    } else if s.entries.contains_key(parents[0]) {
        seq![s.ids.next_id()] + created_ids(s.after_new_entry(parents[0]), parents.drop_first())
    } else {
        created_ids(s, parents.drop_first())
    }
}

/// However many entries are requested, no identifier is returned twice, and
/// none that is returned names an entry that the tree held before: each is
/// larger than every identifier in the tree and than every one returned
/// before it.
pub proof fn law_entry_ids_never_repeat(s: TreeState, parents: Seq<u64>)
    requires
        s.wf(),
        s.ids.last_used + parents.len() <= u64::MAX,
    ensures
        created_ids(s, parents).no_duplicates(),
        forall|i: int|
            0 <= i < created_ids(s, parents).len() ==> !s.entries.contains_key(
                #[trigger] created_ids(s, parents)[i],
            ),
        forall|i: int, j: int|
            0 <= i < j < created_ids(s, parents).len() ==> created_ids(s, parents)[i]
                < created_ids(s, parents)[j],
        forall|i: int|
            0 <= i < created_ids(s, parents).len() ==> s.ids.last_used < #[trigger] created_ids(
                s,
                parents,
            )[i] <= s.ids.last_used + parents.len(),
    decreases parents.len(),
{
    let ids = created_ids(s, parents);
    if parents.len() > 0 {
        let rest = parents.drop_first();
        if s.entries.contains_key(parents[0]) {
            let t = s.after_new_entry(parents[0]);
            lemma_new_entry_keeps_wf(s, parents[0]);
            law_entry_ids_never_repeat(t, rest);
            let tail = created_ids(t, rest);
            assert(ids =~= seq![s.ids.next_id()] + tail);
            assert forall|i: int| 0 <= i < ids.len() implies s.ids.last_used < #[trigger] ids[i]
                <= s.ids.last_used + parents.len() by {
                if i > 0 {
                    assert(ids[i] == tail[i - 1]);
                }
            }
            assert forall|i: int, j: int| 0 <= i < j < ids.len() implies ids[i] < ids[j] by {
                assert(ids[j] == tail[j - 1]);
                if i > 0 {
                    assert(ids[i] == tail[i - 1]);
                }
            }
        } else {
            law_entry_ids_never_repeat(s, rest);
            assert(ids =~= created_ids(s, rest));
        }
    }
    assert forall|i: int, j: int| 0 <= i < ids.len() && 0 <= j < ids.len() && i != j implies ids[i]
        != ids[j] by {
        if i < j {
            assert(ids[i] < ids[j]);
        } else {
            assert(ids[j] < ids[i]);
        }
    }
}

/// A query about an entry that does not exist fails with `NotFound`, whatever
/// it asks for.
pub proof fn law_missing_entry_not_found(s: TreeState, id: u64, kind: OSDTEntryReqType, key: Seq<u8>)
    requires
        !s.entries.contains_key(id),
    ensures
        s.info(id, kind.number(), key) == Err::<InfoView, TerminationReason>(
            TerminationReason::NotFound,
        ),
{
}

/// A query for one property of an existing entry answers `None` if the entry
/// has no property of that name, an answer that is encoded as an absent
/// value, and fails with `MalformedAddress` if the name is not UTF-8.
pub proof fn law_property_query(s: TreeState, id: u64, key: Seq<u8>)
    requires
        s.entries.contains_key(id),
    ensures
        valid_utf8(key) && !s.entries[id].properties.contains_key(decode_utf8(key)) ==> s.info(
            id,
            OSDTEntryReqType::Property.number(),
            key,
        ) == Ok::<InfoView, TerminationReason>(InfoView::Property(None))
            && InfoView::Property(None).plain_bytes() == Some(postcard_option_bytes(None)),
        !valid_utf8(key) ==> s.info(id, OSDTEntryReqType::Property.number(), key) == Err::<
            InfoView,
            TerminationReason,
        >(TerminationReason::MalformedAddress),
{
}

} // verus!
