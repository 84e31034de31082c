//! Capability table: object type + rights + generation, never a raw PID.
use vstd::prelude::*;
use crate::config::MAX_CAPS;

verus! {

pub type CapIndex = usize;

pub const RIGHT_SEND: u32 = 1;

pub const RIGHT_RECV: u32 = 2;

pub const RIGHT_GRANT: u32 = 4;

pub const RIGHT_MAP: u32 = 8;

pub const RIGHT_DELETE: u32 = 16;

pub const RIGHT_IPC: u32 = RIGHT_SEND | RIGHT_RECV;

pub const RIGHT_ALL: u32 = RIGHT_SEND | RIGHT_RECV | RIGHT_GRANT | RIGHT_MAP | RIGHT_DELETE;

#[derive(Clone, Copy, Debug, PartialEq, Eq, Structural)]
pub enum ObjectType {
    Empty,
    Endpoint,
    Process,
    Thread,
}

impl ObjectType {
    pub open spec fn code(self) -> u8 {
        match self {
            ObjectType::Empty => 0,
            ObjectType::Endpoint => 1,
            ObjectType::Process => 2,
            ObjectType::Thread => 3,
        }
    }

    pub fn as_u8(self) -> (r: u8)
        ensures
            r == self.code(),
    {
        match self {
            ObjectType::Empty => 0,
            ObjectType::Endpoint => 1,
            ObjectType::Process => 2,
            ObjectType::Thread => 3,
        }
    }
}

#[derive(Clone, Copy, Debug, PartialEq, Eq, Structural)]
pub struct Capability {
    pub object_type: ObjectType,
    pub object_id: u16,
    pub generation: u32,
    pub rights: u32,
    pub owner: u16,
    pub flags: u32,
    pub expiry_ticks: Option<u64>,
}

/// The capability of an empty slot.
pub open spec fn empty_cap() -> Capability {
    Capability {
        object_type: ObjectType::Empty,
        object_id: 0,
        generation: 0,
        rights: 0,
        owner: 0,
        flags: 0,
        expiry_ticks: None,
    }
}

/// Every bit of `right` is among `rights`.
pub open spec fn rights_include(rights: u32, right: u32) -> bool {
    rights & right == right
}

impl Capability {
    pub open spec fn is_empty_spec(self) -> bool {
        self.object_type == ObjectType::Empty
    }

    pub open spec fn is_expired_spec(self, now: u64) -> bool {
        match self.expiry_ticks {
            Some(exp) => now >= exp,
            None => false,
        }
    }

    pub open spec fn restricted_spec(self, rights: u32) -> Capability {
        Capability { rights: self.rights & rights, ..self }
    }

    pub fn empty() -> (r: Capability)
        ensures
            r == empty_cap(),
    {
        Capability {
            object_type: ObjectType::Empty,
            object_id: 0,
            generation: 0,
            rights: 0,
            owner: 0,
            flags: 0,
            expiry_ticks: None,
        }
    }

    /// An endpoint capability with no flags and no expiry.
    pub open spec fn endpoint_spec(object_id: u16, generation: u32, rights: u32, owner: u16) -> Capability {
        Capability {
            object_type: ObjectType::Endpoint,
            object_id,
            generation,
            rights,
            owner,
            flags: 0,
            expiry_ticks: None,
        }
    }

    pub fn endpoint(object_id: u16, generation: u32, rights: u32, owner: u16) -> (r: Capability)
        ensures
            r == Capability::endpoint_spec(object_id, generation, rights, owner),
    {
        Capability {
            object_type: ObjectType::Endpoint,
            object_id,
            generation,
            rights,
            owner,
            flags: 0,
            expiry_ticks: None,
        }
    }

    pub fn is_empty(&self) -> (r: bool)
        ensures
            r == self.is_empty_spec(),
    {
        self.object_type == ObjectType::Empty
    }

    pub fn has_right(&self, right: u32) -> (r: bool)
        ensures
            r == rights_include(self.rights, right),
    {
        self.rights & right == right
    }

    pub fn is_expired(&self, now: u64) -> (r: bool)
        ensures
            r == self.is_expired_spec(now),
    {
        match self.expiry_ticks {
            Some(exp) => now >= exp,
            None => false,
        }
    }

    pub fn with_expiry(self, ticks: u64) -> (r: Capability)
        ensures
            r == (Capability { expiry_ticks: Some(ticks), ..self }),
    {
        let mut c = self;
        c.expiry_ticks = Some(ticks);
        c
    }

    /// A copy whose rights are those of `self` that are also in `rights`.
    pub fn restricted(&self, rights: u32) -> (r: Capability)
        ensures
            r == self.restricted_spec(rights),
    {
        let mut copy = *self;
        copy.rights = copy.rights & rights;
        copy
    }
}

#[derive(Clone, Copy, Debug, PartialEq, Eq, Structural)]
pub enum CapError {
    EmptySlot,
    WrongType,
    Denied,
    StaleGeneration,
    Expired,
    TableFull,
    BadIndex,
}

/// What a lookup of slot `index` gives in a table whose slots are `s`.
pub open spec fn spec_get(s: Seq<Capability>, index: int) -> Result<Capability, CapError> {
    if index < 0 || index >= MAX_CAPS {
        Err(CapError::BadIndex)
    } else if s[index].is_empty_spec() {
        Err(CapError::EmptySlot)
    } else {
        Ok(s[index])
    }
}

/// What `lookup_endpoint` gives: the endpoint id, or the first check that fails.
pub open spec fn spec_lookup_endpoint(
    s: Seq<Capability>,
    index: int,
    need: u32,
    generation: u32,
    now: u64,
) -> Result<u16, CapError> {
    match spec_get(s, index) {
        Err(e) => Err(e),
        Ok(cap) => if cap.object_type != ObjectType::Endpoint {
            Err(CapError::WrongType)
        } else if !rights_include(cap.rights, need) {
            Err(CapError::Denied)
        } else if cap.generation != generation {
            Err(CapError::StaleGeneration)
        } else if cap.is_expired_spec(now) {
            Err(CapError::Expired)
        } else {
            Ok(cap.object_id)
        },
    }
}

/// The slot `insert` fills: the lowest empty slot from 1 on, if there is one.
pub open spec fn first_free_slot(s: Seq<Capability>) -> Option<int> {
    if exists|i: int| 1 <= i < MAX_CAPS && #[trigger] s[i].is_empty_spec() {
        let i = choose|i: int|
            1 <= i < MAX_CAPS && #[trigger] s[i].is_empty_spec() && forall|j: int|
                1 <= j < i ==> !(#[trigger] s[j].is_empty_spec());
        Some(i)
    } else {
        None
    }
}

/// The rights that a grant of `cap` restricted to `rights` carries.
pub open spec fn granted_rights(cap: Capability, rights: u32) -> u32 {
    cap.rights & (rights | (cap.rights & RIGHT_GRANT))
}

/// Restricting a capability never adds a right: every right of the copy is a
/// right of the source capability and one that was asked for.
pub proof fn law_restricted_never_amplifies(cap: Capability, rights: u32, right: u32)
    ensures
        rights_include(cap.restricted_spec(rights).rights, right) ==> rights_include(cap.rights, right)
            && rights_include(rights, right),
{
    let a = cap.rights;
    assert(((a & rights) & right) == right ==> (a & right) == right && (rights & right) == right)
        by (bit_vector);
}

/// A grant that succeeds names the same object as its source, keeps the grant
/// right, and carries no right that the source lacks.
pub proof fn law_grant_never_amplifies(s: Seq<Capability>, index: int, rights: u32, right: u32)
    requires
        spec_get(s, index) is Ok,
        rights_include(spec_get(s, index)->Ok_0.rights, RIGHT_GRANT),
    ensures
        ({
            let cap = spec_get(s, index)->Ok_0;
            let g = cap.restricted_spec(rights | (cap.rights & RIGHT_GRANT));
            &&& g.object_type == cap.object_type
            &&& g.object_id == cap.object_id
            &&& g.generation == cap.generation
            &&& rights_include(g.rights, RIGHT_GRANT)
            &&& (rights_include(g.rights, right) ==> rights_include(cap.rights, right))
        }),
{
    let cap = spec_get(s, index)->Ok_0;
    let a = cap.rights;
    law_restricted_never_amplifies(cap, rights | (a & RIGHT_GRANT), right);
    assert((a & 4u32) == 4u32 ==> ((a & (rights | (a & 4u32))) & 4u32) == 4u32) by (bit_vector);
}

/// A capability put in by `insert` is what a lookup of its slot gives back,
/// and every other slot reads as before.
pub proof fn law_insert_then_get(s: Seq<Capability>, cap: Capability, j: int)
    requires
        s.len() == MAX_CAPS,
        first_free_slot(s) is Some,
        !cap.is_empty_spec(),
    ensures
        ({
            let i = first_free_slot(s)->Some_0;
            &&& 1 <= i < MAX_CAPS
            &&& spec_get(s.update(i, cap), i) == Ok::<Capability, CapError>(cap)
            &&& (j != i ==> spec_get(s.update(i, cap), j) == spec_get(s, j))
        }),
{
}

/// After `remove`, the slot reads as empty.
pub proof fn law_remove_then_get(s: Seq<Capability>, index: int)
    requires
        s.len() == MAX_CAPS,
        spec_get(s, index) is Ok,
    ensures
        spec_get(s.update(index, empty_cap()), index) == Err::<Capability, CapError>(
            CapError::EmptySlot,
        ),
{
}

/// `lookup_endpoint` succeeds exactly when the slot holds an endpoint
/// capability with the needed rights, the current generation, not expired.
pub proof fn law_lookup_endpoint_ok(s: Seq<Capability>, index: int, need: u32, generation: u32, now: u64)
    ensures
        spec_lookup_endpoint(s, index, need, generation, now) is Ok <==> (0 <= index < MAX_CAPS
            && s[index].object_type == ObjectType::Endpoint && rights_include(s[index].rights, need)
            && s[index].generation == generation && !s[index].is_expired_spec(now)),
{
}

#[derive(Clone, Copy)]
pub struct CapabilityTable {
    slots: [Capability; MAX_CAPS],
}

impl View for CapabilityTable {
    type V = Seq<Capability>;

    closed spec fn view(&self) -> Seq<Capability> {
        self.slots@
    }
}

impl CapabilityTable {
    /// The table always has `MAX_CAPS` slots.
    pub broadcast proof fn lemma_len(t: &CapabilityTable)
        ensures
            #[trigger] t@.len() == MAX_CAPS,
    {
    }

    pub fn new() -> (t: CapabilityTable)
        ensures
            t@ == Seq::new(MAX_CAPS as nat, |i: int| empty_cap()),
    {
        let t = CapabilityTable { slots: [Capability::empty(); MAX_CAPS] };
        assert(t@ =~= Seq::new(MAX_CAPS as nat, |i: int| empty_cap()));
        t
    }

    pub fn get(&self, index: CapIndex) -> (r: Result<&Capability, CapError>)
        ensures
            match r {
                Ok(c) => spec_get(self@, index as int) == Ok::<Capability, CapError>(*c),
                Err(e) => spec_get(self@, index as int) == Err::<Capability, CapError>(e),
            },
    {
        if index >= MAX_CAPS {
            return Err(CapError::BadIndex);
        }
        let cap = &self.slots[index];
        if cap.is_empty() {
            Err(CapError::EmptySlot)
        } else {
            Ok(cap)
        }
    }

    pub fn get_mut(&mut self, index: CapIndex) -> (r: Result<&mut Capability, CapError>)
        ensures
            match r {
                Ok(c) => spec_get(old(self)@, index as int) == Ok::<Capability, CapError>(*c)
                    && final(self)@ == old(self)@.update(index as int, *final(c)),
                Err(e) => spec_get(old(self)@, index as int) == Err::<Capability, CapError>(e)
                    && final(self)@ == old(self)@,
            },
    {
        if index >= MAX_CAPS {
            return Err(CapError::BadIndex);
        }
        if self.slots[index].is_empty() {
            return Err(CapError::EmptySlot);
        }
        Ok(&mut self.slots[index])
    }

    pub fn lookup_endpoint(&self, index: CapIndex, need: u32, generation: u32, now: u64) -> (r:
        Result<u16, CapError>)
        ensures
            r == spec_lookup_endpoint(self@, index as int, need, generation, now),
    {
        let cap = self.get(index)?;
        if cap.object_type != ObjectType::Endpoint {
            return Err(CapError::WrongType);
        }
        if !cap.has_right(need) {
            return Err(CapError::Denied);
        }
        if cap.generation != generation {
            return Err(CapError::StaleGeneration);
        }
        if cap.is_expired(now) {
            return Err(CapError::Expired);
        }
        Ok(cap.object_id)
    }

    /// Puts `cap` into the lowest empty slot from 1 on (slot 0 stays reserved).
    pub fn insert(&mut self, cap: Capability) -> (r: Result<CapIndex, CapError>)
        ensures
            match first_free_slot(old(self)@) {
                Some(i) => r == Ok::<CapIndex, CapError>(i as usize) && final(self)@ == old(
                    self,
                )@.update(i, cap),
                None => r == Err::<CapIndex, CapError>(CapError::TableFull) && *final(self) == *old(
                    self,
                ),
            },
    {
        let mut i: usize = 1;
        while i < MAX_CAPS
            invariant
                1 <= i <= MAX_CAPS,
                self@ == old(self)@,
                forall|j: int| 1 <= j < i ==> !(#[trigger] self@[j].is_empty_spec()),
            decreases MAX_CAPS - i,
        {
            if self.slots[i].is_empty() {
                proof {
                    let k = i as int;
                    assert(1 <= k < MAX_CAPS && self@[k].is_empty_spec());
                    let c = choose|c: int|
                        1 <= c < MAX_CAPS && #[trigger] self@[c].is_empty_spec() && forall|j: int|
                            1 <= j < c ==> !(#[trigger] self@[j].is_empty_spec());
                    assert(c == k) by {
                        if c < k {
                        } else if c > k {
                            assert(!self@[k].is_empty_spec());
                        }
                    }
                }
                self.slots[i] = cap;
                return Ok(i);
            }
            i = i + 1;
        }
        assert(self.slots =~= old(self).slots);
        Err(CapError::TableFull)
    }

    /// Overwrites slot `index`; slot 0 and indices past the table are refused.
    pub fn insert_at(&mut self, index: CapIndex, cap: Capability) -> (r: Result<(), CapError>)
        ensures
            (index == 0 || index >= MAX_CAPS) ==> r == Err::<(), CapError>(CapError::BadIndex)
                && final(self)@ == old(self)@,
            (0 < index < MAX_CAPS) ==> r == Ok::<(), CapError>(()) && final(self)@ == old(
                self,
            )@.update(index as int, cap),
    {
        if index == 0 || index >= MAX_CAPS {
            return Err(CapError::BadIndex);
        }
        self.slots[index] = cap;
        Ok(())
    }

    /// Empties slot `index` and hands back what it held.
    pub fn remove(&mut self, index: CapIndex) -> (r: Result<Capability, CapError>)
        ensures
            r == spec_get(old(self)@, index as int),
            r is Ok ==> final(self)@ == old(self)@.update(index as int, empty_cap()),
            r is Err ==> final(self)@ == old(self)@,
    {
        let cap = *self.get(index)?;
        self.slots[index] = Capability::empty();
        Ok(cap)
    }

    /// A copy of slot `index` for another holder: its rights are restricted to
    /// `rights`, keeping the grant right where the source has it. Needs the
    /// grant right on the source.
    pub fn grant(&self, index: CapIndex, rights: u32) -> (r: Result<Capability, CapError>)
        ensures
            match spec_get(self@, index as int) {
                Err(e) => r == Err::<Capability, CapError>(e),
                Ok(cap) => if !rights_include(cap.rights, RIGHT_GRANT) {
                    r == Err::<Capability, CapError>(CapError::Denied)
                } else {
                    r == Ok::<Capability, CapError>(
                        cap.restricted_spec(rights | (cap.rights & RIGHT_GRANT)),
                    )
                },
            },
    {
        let cap = self.get(index)?;
        if !cap.has_right(RIGHT_GRANT) {
            return Err(CapError::Denied);
        }
        Ok(cap.restricted(rights | (cap.rights & RIGHT_GRANT)))
    }

    /// The capability in slot `index`, if the index is in the table and the slot holds one.
    pub fn slot(&self, index: CapIndex) -> (r: Option<&Capability>)
        ensures
            match spec_get(self@, index as int) {
                Ok(cap) => r == Some(&cap),
                Err(_) => r is None,
            },
    {
        match self.get(index) {
            Ok(c) => Some(c),
            Err(_) => None,
        }
    }
}

} // verus!
