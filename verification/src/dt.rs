//! Values that describe devices: the tagged property value, the dictionary
//! of named values, and the handle by which a user process names an entry of
//! the device tree.

use crate::tables::counts_contents;
use crate::tables::lists_contents;
use crate::tables::PropertyTable;
use crate::wire::ids_from_bytes;
use crate::wire::option_from_bytes;
use crate::wire::postcard_parsed_ids;
use crate::wire::postcard_parsed_option;
use vstd::prelude::*;
use vstd::std_specs::convert::FromSpecImpl;
use vstd::std_specs::convert::TryFromSpecImpl;

verus! {

/// A property value. Two values are equal when they are of the same kind and
/// hold the same content; for dictionaries the order of the pairs does not
/// count.
#[derive(Debug, PartialEq, Eq)]
pub enum OSValue {
    Boolean(bool),
    String(String),
    USize(usize),
    U64(u64),
    U32(u32),
    U16(u16),
    U8(u8),
    Vec(Vec<OSValue>),
    Dictionary(Dictionary),
}

/// Named values, one for each name.
#[derive(Debug, PartialEq, Eq)]
pub struct Dictionary {
    table: PropertyTable,
}

impl View for Dictionary {
    type V = Map<Seq<char>, OSValue>;

    closed spec fn view(&self) -> Map<Seq<char>, OSValue> {
        self.table@
    }
}

impl Dictionary {
    /// A dictionary without pairs.
    pub fn new() -> (dictionary: Dictionary)
        ensures
            dictionary@ == Map::<Seq<char>, OSValue>::empty(),
    {
        Dictionary { table: PropertyTable::new() }
    }

    /// Number of pairs.
    pub fn len(&self) -> (n: usize)
        ensures
            counts_contents(n, self@),
    {
        self.table.len()
    }

    /// The value stored under `key`, if any.
    pub fn get(&self, key: &str) -> (value: Option<&OSValue>)
        ensures
            value is Some <==> self@.contains_key(key@),
            value matches Some(v) ==> *v == self@[key@],
    {
        self.table.get(key)
    }

    /// Stores `value` under `key` and returns the value that it replaces, if
    /// any.
    pub fn insert(&mut self, key: String, value: OSValue) -> (replaced: Option<OSValue>)
        ensures
            final(self)@ == old(self)@.insert(key@, value),
            replaced == if old(self)@.contains_key(key@) {
                Some(old(self)@[key@])
            } else {
                None
            },
    {
        self.table.insert(key, value)
    }

    /// Every pair once, in no particular order.
    pub fn pairs(&self) -> (pairs: Vec<(&String, &OSValue)>)
        ensures
            lists_contents(pairs@, self@),
    {
        self.table.pairs()
    }
}

/// `a` and `b` are of the same kind and hold the same content down to
/// `depth` levels of nested sequences and dictionaries.
pub open spec fn same_to_depth(a: OSValue, b: OSValue, depth: nat) -> bool
    decreases depth,
{
    match (a, b) {
        (OSValue::Boolean(x), OSValue::Boolean(y)) => x == y,
        (OSValue::String(x), OSValue::String(y)) => x@ == y@,
        (OSValue::USize(x), OSValue::USize(y)) => x == y,
        (OSValue::U64(x), OSValue::U64(y)) => x == y,
        (OSValue::U32(x), OSValue::U32(y)) => x == y,
        (OSValue::U16(x), OSValue::U16(y)) => x == y,
        (OSValue::U8(x), OSValue::U8(y)) => x == y,
        (OSValue::Vec(x), OSValue::Vec(y)) => x@.len() == y@.len() && (depth > 0 ==> forall|
            i: int,
        |
            0 <= i < x@.len() ==> same_to_depth(#[trigger] x@[i], y@[i], (depth - 1) as nat)),
        (OSValue::Dictionary(x), OSValue::Dictionary(y)) => x@.dom() == y@.dom() && (depth > 0
            ==> forall|name: Seq<char>| #[trigger]
            x@.contains_key(name) ==> same_to_depth(x@[name], y@[name], (depth - 1) as nat)),
        _ => false,
    }
}

/// `a` and `b` are of the same kind and hold the same content, however deep
/// sequences and dictionaries are nested in them.
pub open spec fn same_value(a: OSValue, b: OSValue) -> bool {
    forall|depth: nat| same_to_depth(a, b, depth)
}

/// `a` and `b` hold values of the same content under the same names.
pub open spec fn same_named_values(a: Map<Seq<char>, OSValue>, b: Map<Seq<char>, OSValue>) -> bool {
    a.dom() == b.dom() && forall|name: Seq<char>| #[trigger]
        a.contains_key(name) ==> same_value(a[name], b[name])
}

impl Dictionary {
    /// The table that holds the pairs.
    pub closed spec fn table(self) -> PropertyTable {
        self.table
    }

    /// A dictionary with a copy of every value under the same name. `owner`
    /// is the value that holds this dictionary; the copying of nested values
    /// ends because each lies inside it.
    #[verifier::loop_isolation(false)]
    fn duplicate(&self, Ghost(owner): Ghost<OSValue>) -> (copy: Dictionary)
        requires
            owner == OSValue::Dictionary(*self),
        ensures
            same_named_values(self@, copy@),
        decreases owner, 1nat,
    {
        let pairs = self.table.pairs();
        assert(self.table() == self.table);
        let mut table = PropertyTable::new();
        let mut i: usize = 0;
        while i < pairs.len()
            invariant
                i <= pairs.len(),
                forall|name: Seq<char>|
                    table@.contains_key(name) <==> exists|j: int|
                        0 <= j < i && (#[trigger] pairs@[j]).0@ == name,
                forall|j: int|
                    0 <= j < i ==> same_value(*(#[trigger] pairs@[j]).1, table@[pairs@[j].0@]),
            decreases pairs.len() - i,
        {
            let ghost before = table@;
            let name = pairs[i].0.clone();
            let value = pairs[i].1.duplicate();
            table.insert(name, value);
            proof {
                let key = pairs@[i as int].0@;
                assert forall|n: Seq<char>| table@.contains_key(n) <==> exists|j: int|
                    0 <= j < i + 1 && (#[trigger] pairs@[j]).0@ == n by {
                    if before.contains_key(n) {
                        let j = choose|j: int| 0 <= j < i && (#[trigger] pairs@[j]).0@ == n;
                        assert(pairs@[j].0@ == n);
                    }
                    if n == key {
                        assert(pairs@[i as int].0@ == n);
                    }
                    if exists|j: int| 0 <= j < i + 1 && (#[trigger] pairs@[j]).0@ == n {
                        let j = choose|j: int| 0 <= j < i + 1 && (#[trigger] pairs@[j]).0@ == n;
                        if j < i {
                            assert(pairs@[j].0@ == n);
                        }
                    }
                }
                assert forall|j: int| 0 <= j < i + 1 implies same_value(
                    *(#[trigger] pairs@[j]).1,
                    table@[pairs@[j].0@],
                ) by {
                    if j < i {
                        assert(pairs@[j].0@ != pairs@[i as int].0@);
                    }
                }
            }
            i += 1;
        }
        let copy = Dictionary { table };
        proof {
            assert forall|n: Seq<char>| self@.contains_key(n) <==> copy@.contains_key(n) by {
                if self@.contains_key(n) {
                    let j = choose|j: int| 0 <= j < pairs@.len() && (#[trigger] pairs@[j]).0@ == n;
                    assert(pairs@[j].0@ == n);
                }
                if copy@.contains_key(n) {
                    let j = choose|j: int| 0 <= j < i && (#[trigger] pairs@[j]).0@ == n;
                    assert(self@.contains_key(pairs@[j].0@));
                }
            }
            assert(self@.dom() =~= copy@.dom());
            assert forall|n: Seq<char>| #[trigger] self@.contains_key(n) implies same_value(
                self@[n],
                copy@[n],
            ) by {
                let j = choose|j: int| 0 <= j < pairs@.len() && (#[trigger] pairs@[j]).0@ == n;
                assert(self@[pairs@[j].0@] == *pairs@[j].1);
                assert(same_value(*pairs@[j].1, copy@[pairs@[j].0@]));
            }
        }
        copy
    }
}

impl Clone for Dictionary {
    fn clone(&self) -> (copy: Dictionary)
        ensures
            same_named_values(self@, copy@),
    {
        self.duplicate(Ghost(OSValue::Dictionary(*self)))
    }
}

impl OSValue {
    /// A value of the same kind and content, with copies of all that is
    /// nested in it.
    #[verifier::loop_isolation(false)]
    fn duplicate(&self) -> (copy: OSValue)
        ensures
            same_value(*self, copy),
        decreases self, 2nat,
    {
        match self {
            OSValue::Boolean(b) => OSValue::Boolean(*b),
            OSValue::String(s) => OSValue::String(s.clone()),
            OSValue::USize(u) => OSValue::USize(*u),
            OSValue::U64(u) => OSValue::U64(*u),
            OSValue::U32(u) => OSValue::U32(*u),
            OSValue::U16(u) => OSValue::U16(*u),
            OSValue::U8(u) => OSValue::U8(*u),
            OSValue::Vec(items) => {
                let mut copies: Vec<OSValue> = Vec::new();
                let mut i: usize = 0;
                while i < items.len()
                    invariant
                        i <= items.len(),
                        copies@.len() == i,
                        forall|j: int| 0 <= j < i ==> same_value(#[trigger] items@[j], copies@[j]),
                    decreases items.len() - i,
                {
                    copies.push(items[i].duplicate());
                    i += 1;
                }
                let copy = OSValue::Vec(copies);
                assert forall|depth: nat| same_to_depth(*self, copy, depth) by {
                    if depth > 0 {
                        assert forall|j: int| 0 <= j < items@.len() implies same_to_depth(
                            #[trigger] items@[j],
                            copies@[j],
                            (depth - 1) as nat,
                        ) by {
                            assert(same_value(items@[j], copies@[j]));
                        }
                    }
                }
                copy
            },
            OSValue::Dictionary(d) => {
                let copied = d.duplicate(Ghost(*self));
                let copy = OSValue::Dictionary(copied);
                assert forall|depth: nat| same_to_depth(*self, copy, depth) by {
                    if depth > 0 {
                        assert forall|name: Seq<char>| #[trigger] d@.contains_key(name) implies same_to_depth(
                            d@[name],
                            copied@[name],
                            (depth - 1) as nat,
                        ) by {
                            assert(same_value(d@[name], copied@[name]));
                        }
                    }
                }
                copy
            },
        }
    }
}

impl Clone for OSValue {
    fn clone(&self) -> (copy: OSValue)
        ensures
            same_value(*self, copy),
    {
        self.duplicate()
    }
}

impl From<bool> for OSValue {
    fn from(val: bool) -> (value: OSValue) {
        OSValue::Boolean(val)
    }
}

impl FromSpecImpl<bool> for OSValue {
    open spec fn obeys_from_spec() -> bool {
        true
    }

    open spec fn from_spec(val: bool) -> OSValue {
        OSValue::Boolean(val)
    }
}

impl From<&str> for OSValue {
    fn from(val: &str) -> (value: OSValue)
        ensures
            value matches OSValue::String(s) && s@ == val@,
    {
        OSValue::String(val.to_owned())
    }
}

impl FromSpecImpl<&str> for OSValue {
    open spec fn obeys_from_spec() -> bool {
        false
    }

    open spec fn from_spec(val: &str) -> OSValue {
        arbitrary()
    }
}

impl From<String> for OSValue {
    fn from(val: String) -> (value: OSValue) {
        OSValue::String(val)
    }
}

impl FromSpecImpl<String> for OSValue {
    open spec fn obeys_from_spec() -> bool {
        true
    }

    open spec fn from_spec(val: String) -> OSValue {
        OSValue::String(val)
    }
}

impl From<usize> for OSValue {
    fn from(val: usize) -> (value: OSValue) {
        OSValue::USize(val)
    }
}

impl FromSpecImpl<usize> for OSValue {
    open spec fn obeys_from_spec() -> bool {
        true
    }

    open spec fn from_spec(val: usize) -> OSValue {
        OSValue::USize(val)
    }
}

impl From<u64> for OSValue {
    fn from(val: u64) -> (value: OSValue) {
        OSValue::U64(val)
    }
}

impl FromSpecImpl<u64> for OSValue {
    open spec fn obeys_from_spec() -> bool {
        true
    }

    open spec fn from_spec(val: u64) -> OSValue {
        OSValue::U64(val)
    }
}

impl From<u32> for OSValue {
    fn from(val: u32) -> (value: OSValue) {
        OSValue::U32(val)
    }
}

impl FromSpecImpl<u32> for OSValue {
    open spec fn obeys_from_spec() -> bool {
        true
    }

    open spec fn from_spec(val: u32) -> OSValue {
        OSValue::U32(val)
    }
}

impl From<u16> for OSValue {
    fn from(val: u16) -> (value: OSValue) {
        OSValue::U16(val)
    }
}

impl FromSpecImpl<u16> for OSValue {
    open spec fn obeys_from_spec() -> bool {
        true
    }

    open spec fn from_spec(val: u16) -> OSValue {
        OSValue::U16(val)
    }
}

impl From<u8> for OSValue {
    fn from(val: u8) -> (value: OSValue) {
        OSValue::U8(val)
    }
}

impl FromSpecImpl<u8> for OSValue {
    open spec fn obeys_from_spec() -> bool {
        true
    }

    open spec fn from_spec(val: u8) -> OSValue {
        OSValue::U8(val)
    }
}

impl From<Vec<OSValue>> for OSValue {
    fn from(val: Vec<OSValue>) -> (value: OSValue) {
        OSValue::Vec(val)
    }
}

impl FromSpecImpl<Vec<OSValue>> for OSValue {
    open spec fn obeys_from_spec() -> bool {
        true
    }

    open spec fn from_spec(val: Vec<OSValue>) -> OSValue {
        OSValue::Vec(val)
    }
}

impl From<Dictionary> for OSValue {
    fn from(val: Dictionary) -> (value: OSValue) {
        OSValue::Dictionary(val)
    }
}

impl FromSpecImpl<Dictionary> for OSValue {
    open spec fn obeys_from_spec() -> bool {
        true
    }

    open spec fn from_spec(val: Dictionary) -> OSValue {
        OSValue::Dictionary(val)
    }
}

impl TryFrom<OSValue> for bool {
    type Error = ();

    fn try_from(val: OSValue) -> (inner: Result<bool, ()>) {
        match val {
            OSValue::Boolean(v) => Ok(v),
            _ => Err(()),
        }
    }
}

impl TryFromSpecImpl<OSValue> for bool {
    open spec fn obeys_try_from_spec() -> bool {
        true
    }

    open spec fn try_from_spec(val: OSValue) -> Result<bool, ()> {
        match val {
            OSValue::Boolean(v) => Ok(v),
            _ => Err(()),
        }
    }
}

impl TryFrom<OSValue> for String {
    type Error = ();

    fn try_from(val: OSValue) -> (inner: Result<String, ()>) {
        match val {
            OSValue::String(v) => Ok(v),
            _ => Err(()),
        }
    }
}

impl TryFromSpecImpl<OSValue> for String {
    open spec fn obeys_try_from_spec() -> bool {
        true
    }

    open spec fn try_from_spec(val: OSValue) -> Result<String, ()> {
        match val {
            OSValue::String(v) => Ok(v),
            _ => Err(()),
        }
    }
}

impl TryFrom<OSValue> for usize {
    type Error = ();

    fn try_from(val: OSValue) -> (inner: Result<usize, ()>) {
        match val {
            OSValue::USize(v) => Ok(v),
            _ => Err(()),
        }
    }
}

impl TryFromSpecImpl<OSValue> for usize {
    open spec fn obeys_try_from_spec() -> bool {
        true
    }

    open spec fn try_from_spec(val: OSValue) -> Result<usize, ()> {
        match val {
            OSValue::USize(v) => Ok(v),
            _ => Err(()),
        }
    }
}

impl TryFrom<OSValue> for u64 {
    type Error = ();

    fn try_from(val: OSValue) -> (inner: Result<u64, ()>) {
        match val {
            OSValue::U64(v) => Ok(v),
            _ => Err(()),
        }
    }
}

impl TryFromSpecImpl<OSValue> for u64 {
    open spec fn obeys_try_from_spec() -> bool {
        true
    }

    open spec fn try_from_spec(val: OSValue) -> Result<u64, ()> {
        match val {
            OSValue::U64(v) => Ok(v),
            _ => Err(()),
        }
    }
}

impl TryFrom<OSValue> for u32 {
    type Error = ();

    fn try_from(val: OSValue) -> (inner: Result<u32, ()>) {
        match val {
            OSValue::U32(v) => Ok(v),
            _ => Err(()),
        }
    }
}

impl TryFromSpecImpl<OSValue> for u32 {
    open spec fn obeys_try_from_spec() -> bool {
        true
    }

    open spec fn try_from_spec(val: OSValue) -> Result<u32, ()> {
        match val {
            OSValue::U32(v) => Ok(v),
            _ => Err(()),
        }
    }
}

impl TryFrom<OSValue> for u16 {
    type Error = ();

    fn try_from(val: OSValue) -> (inner: Result<u16, ()>) {
        match val {
            OSValue::U16(v) => Ok(v),
            _ => Err(()),
        }
    }
}

impl TryFromSpecImpl<OSValue> for u16 {
    open spec fn obeys_try_from_spec() -> bool {
        true
    }

    open spec fn try_from_spec(val: OSValue) -> Result<u16, ()> {
        match val {
            OSValue::U16(v) => Ok(v),
            _ => Err(()),
        }
    }
}

impl TryFrom<OSValue> for u8 {
    type Error = ();

    fn try_from(val: OSValue) -> (inner: Result<u8, ()>) {
        match val {
            OSValue::U8(v) => Ok(v),
            _ => Err(()),
        }
    }
}

impl TryFromSpecImpl<OSValue> for u8 {
    open spec fn obeys_try_from_spec() -> bool {
        true
    }

    open spec fn try_from_spec(val: OSValue) -> Result<u8, ()> {
        match val {
            OSValue::U8(v) => Ok(v),
            _ => Err(()),
        }
    }
}

impl TryFrom<OSValue> for Vec<OSValue> {
    type Error = ();

    fn try_from(val: OSValue) -> (inner: Result<Vec<OSValue>, ()>) {
        match val {
            OSValue::Vec(v) => Ok(v),
            _ => Err(()),
        }
    }
}

impl TryFromSpecImpl<OSValue> for Vec<OSValue> {
    open spec fn obeys_try_from_spec() -> bool {
        true
    }

    open spec fn try_from_spec(val: OSValue) -> Result<Vec<OSValue>, ()> {
        match val {
            OSValue::Vec(v) => Ok(v),
            _ => Err(()),
        }
    }
}

impl TryFrom<OSValue> for Dictionary {
    type Error = ();

    fn try_from(val: OSValue) -> (inner: Result<Dictionary, ()>) {
        match val {
            OSValue::Dictionary(v) => Ok(v),
            _ => Err(()),
        }
    }
}

impl TryFromSpecImpl<OSValue> for Dictionary {
    open spec fn obeys_try_from_spec() -> bool {
        true
    }

    open spec fn try_from_spec(val: OSValue) -> Result<Dictionary, ()> {
        match val {
            OSValue::Dictionary(v) => Ok(v),
            _ => Err(()),
        }
    }
}

/// What a query about a device-tree entry asks for.
#[derive(Clone, Copy, Debug, PartialEq, Eq, Structural)]
pub enum OSDTEntryReqType {
    Parent,
    Children,
    Properties,
    Property,
}

impl OSDTEntryReqType {
    /// The number that selects this kind of query.
    pub open spec fn number(self) -> u64 {
        match self {
            OSDTEntryReqType::Parent => 0,
            OSDTEntryReqType::Children => 1,
            OSDTEntryReqType::Properties => 2,
            OSDTEntryReqType::Property => 3,
        }
    }

    /// The kind of query that `raw` selects, if any.
    pub open spec fn of_number(raw: u64) -> Result<OSDTEntryReqType, u64> {
        if raw == 0 {
            Ok(OSDTEntryReqType::Parent)
        } else if raw == 1 {
            Ok(OSDTEntryReqType::Children)
        } else if raw == 2 {
            Ok(OSDTEntryReqType::Properties)
        } else if raw == 3 {
            Ok(OSDTEntryReqType::Property)
        } else {
            Err(raw)
        }
    }
}

impl From<OSDTEntryReqType> for u64 {
    fn from(kind: OSDTEntryReqType) -> (raw: u64) {
        match kind {
            OSDTEntryReqType::Parent => 0,
            OSDTEntryReqType::Children => 1,
            OSDTEntryReqType::Properties => 2,
            OSDTEntryReqType::Property => 3,
        }
    }
}

impl FromSpecImpl<OSDTEntryReqType> for u64 {
    open spec fn obeys_from_spec() -> bool {
        true
    }

    open spec fn from_spec(kind: OSDTEntryReqType) -> u64 {
        kind.number()
    }
}

impl TryFrom<u64> for OSDTEntryReqType {
    type Error = u64;

    fn try_from(raw: u64) -> (kind: Result<OSDTEntryReqType, u64>) {
        if raw == 0 {
            Ok(OSDTEntryReqType::Parent)
        } else if raw == 1 {
            Ok(OSDTEntryReqType::Children)
        } else if raw == 2 {
            Ok(OSDTEntryReqType::Properties)
        } else if raw == 3 {
            Ok(OSDTEntryReqType::Property)
        } else {
            Err(raw)
        }
    }
}

impl TryFromSpecImpl<u64> for OSDTEntryReqType {
    open spec fn obeys_try_from_spec() -> bool {
        true
    }

    open spec fn try_from_spec(raw: u64) -> Result<OSDTEntryReqType, u64> {
        OSDTEntryReqType::of_number(raw)
    }
}

/// The reply to a query could not be read.
#[derive(Clone, Copy, Debug, PartialEq, Eq, Structural)]
pub struct MalformedReply;

/// The handle by which a user process names an entry of the device tree.
#[derive(Clone, Copy, Debug, PartialEq, Eq, Structural)]
pub struct OSDTEntry(u64);

impl View for OSDTEntry {
    type V = u64;

    closed spec fn view(&self) -> u64 {
        self.0
    }
}

impl Default for OSDTEntry {
    /// The handle of the root.
    fn default() -> (entry: OSDTEntry)
        ensures
            entry@ == 0,
    {
        OSDTEntry(0)
    }
}

/// The handles that `ids` name, in the same order.
pub open spec fn handles_of(handles: Seq<OSDTEntry>, ids: Seq<u64>) -> bool {
    handles.len() == ids.len() && forall|i: int|
        0 <= i < ids.len() ==> (#[trigger] handles[i])@ == ids[i]
}

impl OSDTEntry {
    /// The handle of the entry with identifier `id`.
    #[inline]
    #[must_use]
    pub fn from_id(id: u64) -> (entry: OSDTEntry)
        ensures
            entry@ == id,
    {
        Self(id)
    }

    /// The identifier of the entry.
    #[must_use]
    pub fn id(&self) -> (id: u64)
        ensures
            id == self@,
    {
        self.0
    }

    /// Reads the reply to a query for the parent of an entry: the handle of
    /// the parent, `None` for an entry without one, or an error where the
    /// bytes are not the encoding of an optional identifier.
    pub fn parent(reply: &[u8]) -> (r: Result<Option<OSDTEntry>, MalformedReply>)
        ensures
            r is Ok <==> postcard_parsed_option(reply@) is Some,
            r matches Ok(Some(entry)) ==> postcard_parsed_option(reply@) == Some(Some(entry@)),
            r matches Ok(None) ==> postcard_parsed_option(reply@) == Some(None::<u64>),
    {
        match option_from_bytes(reply) {
            Ok(Some(id)) => Ok(Some(Self::from_id(id))),
            Ok(None) => Ok(None),
            Err(_) => Err(MalformedReply),
        }
    }

    /// Reads the reply to a query for the children of an entry: their
    /// handles in order, or an error where the bytes are not the encoding of
    /// a sequence of identifiers.
    pub fn children(reply: &[u8]) -> (r: Result<Vec<OSDTEntry>, MalformedReply>)
        ensures
            r is Ok <==> postcard_parsed_ids(reply@) is Some,
            r matches Ok(entries) ==> handles_of(
                entries@,
                postcard_parsed_ids(reply@).unwrap(),
            ),
    {
        match ids_from_bytes(reply) {
            Ok(ids) => {
                let mut entries: Vec<OSDTEntry> = Vec::new();
                let mut i: usize = 0;
                while i < ids.len()
                    invariant
                        i <= ids.len(),
                        entries@.len() == i,
                        forall|j: int| 0 <= j < i ==> (#[trigger] entries@[j])@ == ids@[j],
                    decreases ids.len() - i,
                {
                    entries.push(Self::from_id(ids[i]));
                    i += 1;
                }
                Ok(entries)
            },
            Err(_) => Err(MalformedReply),
        }
    }
}

} // verus!
