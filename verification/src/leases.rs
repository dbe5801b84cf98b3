//! Receipts of device acquisitions.
//!
//! Receipts belong to one daemon lifetime. Unknown identities, receipts of
//! another daemon among them, never authorize numeric-device operations.
//! Terminal receipts are retained: absence cannot be used as proof of
//! completion.

use vstd::prelude::*;

use dashmap::mapref::entry::Entry;
use dashmap::DashMap;

use crate::ident;
use crate::ident::{fresh_uuid, uuid_to_string};

verus! {

/// How a device is given back.
#[derive(Debug, Clone, Copy, PartialEq, Eq, Structural)]
pub enum ReleaseKind {
    Raw,
    Pooled,
}

/// How far the release of an acquisition has come.
#[derive(Debug, Clone, Copy, PartialEq, Eq, Structural)]
pub enum Phase {
    Active,
    /// A release was started and has not been seen to succeed.
    Releasing,
    Released,
}

/// What is kept of an acquisition. It is busy while a use or a release of it is
/// being carried out.
#[derive(Debug, Clone, Copy, PartialEq, Eq, Structural)]
pub struct LeaseRecord {
    pub dev_id: u32,
    pub kind: ReleaseKind,
    pub phase: Phase,
    pub busy: bool,
}

/// The receipt of an acquisition.
#[derive(Debug)]
pub struct DeviceLease {
    pub dev_id: u32,
    pub lease_id: String,
}

impl Clone for DeviceLease {
    fn clone(&self) -> (copy: Self)
        ensures
            copy == *self,
    {
        DeviceLease { dev_id: self.dev_id, lease_id: self.lease_id.clone() }
    }
}

/// Why an operation on an acquisition is refused.
#[derive(Debug, Clone, Copy, PartialEq, Eq, Structural)]
pub enum LeaseError {
    Unknown,
    WrongDevice,
    NotActive,
    Unresolved,
}

impl LeaseError {
    /// The message of the error.
    pub open spec fn text(self) -> Seq<char> {
        match self {
            LeaseError::Unknown => "unknown device acquisition; reconciliation required"@,
            LeaseError::WrongDevice => "device acquisition ID does not match device number"@,
            LeaseError::NotActive => "device acquisition is releasing or released"@,
            LeaseError::Unresolved => "device release outcome is unresolved; reconciliation required"@,
        }
    }

    /// Renders the error.
    pub fn message(self) -> (text: String)
        ensures
            text@ == self.text(),
    {
        match self {
            LeaseError::Unknown => "unknown device acquisition; reconciliation required".to_owned(),
            LeaseError::WrongDevice => "device acquisition ID does not match device number".to_owned(),
            LeaseError::NotActive => "device acquisition is releasing or released".to_owned(),
            LeaseError::Unresolved => "device release outcome is unresolved; reconciliation required".to_owned(),
        }
    }
}

/// `dashmap::DashMap`, the table of the records.
#[verifier::external_type_specification]
#[verifier::external_body]
#[verifier::reject_recursive_types(K)]
#[verifier::reject_recursive_types(V)]
#[verifier::reject_recursive_types(S)]
pub struct ExDashMap<K, V, S>(dashmap::DashMap<K, V, S>);

/// The records that a table holds, by the text of their identity.
pub uninterp spec fn contents(table: DashMap<String, LeaseRecord>) -> Map<Seq<char>, LeaseRecord>;

/// `DashMap::new`: an empty table.
#[verifier::external_body]
fn table_new() -> (table: DashMap<String, LeaseRecord>)
    ensures
        contents(table).dom() == Set::<Seq<char>>::empty(),
{
    DashMap::new()
}

/// `DashMap::get`: the record of an identity, if there is one.
#[verifier::external_body]
fn table_get(table: &DashMap<String, LeaseRecord>, lease_id: &str) -> (record: Option<LeaseRecord>)
    ensures
        record == (if contents(*table).contains_key(lease_id@) {
            Some(contents(*table)[lease_id@])
        } else {
            None
        }),
{
    table.get(lease_id).map(|entry| *entry.value())
}

/// `DashMap::entry`, and `VacantEntry::insert` where the identity is free: an
/// occupied identity keeps its record.
#[verifier::external_body]
fn table_insert_vacant(
    table: &mut DashMap<String, LeaseRecord>,
    lease_id: String,
    record: LeaseRecord,
) -> (vacant: bool)
    ensures
        vacant == !contents(*old(table)).contains_key(lease_id@),
        contents(*final(table)) == (if vacant {
            contents(*old(table)).insert(lease_id@, record)
        } else {
            contents(*old(table))
        }),
{
    match table.entry(lease_id) {
        Entry::Occupied(_) => false,
        Entry::Vacant(entry) => {
            entry.insert(record);
            true
        },
    }
}

/// `DashMap::insert`: the identity has the new record.
#[verifier::external_body]
fn table_insert(table: &mut DashMap<String, LeaseRecord>, lease_id: &str, record: LeaseRecord)
    ensures
        contents(*final(table)) == contents(*old(table)).insert(lease_id@, record),
{
    table.insert(lease_id.to_owned(), record);
}

/// Whether there are so many records.
pub open spec fn has_records(records: Map<Seq<char>, LeaseRecord>, count: nat) -> bool {
    records.dom().finite() && records.dom().len() == count
}

/// `DashMap::len`: the number of records.
#[verifier::external_body]
fn table_len(table: &DashMap<String, LeaseRecord>) -> (len: usize)
    ensures
        has_records(contents(*table), len as nat),
{
    table.len()
}

/// The record that a lease gives access to: none while it is busy.
pub open spec fn locked(
    records: Map<Seq<char>, LeaseRecord>,
    dev_id: u32,
    lease_id: Seq<char>,
) -> Result<Option<LeaseRecord>, LeaseError> {
    if !records.contains_key(lease_id) {
        Err(LeaseError::Unknown)
    } else if records[lease_id].busy {
        Ok(None)
    } else if records[lease_id].dev_id != dev_id {
        Err(LeaseError::WrongDevice)
    } else {
        Ok(Some(records[lease_id]))
    }
}

/// What a request to use a device comes to.
#[derive(Debug)]
pub enum UseStep {
    /// The acquisition is busy. The request has to be made again when it is not.
    Wait,
    /// The operation may run. Its end has to be reported with the permit.
    Run(LeasePermit),
}

/// What a request to release a device comes to.
#[derive(Debug)]
pub enum ReleaseStep {
    /// The acquisition is busy. The request has to be made again when it is not.
    Wait,
    /// The device has been released before. Nothing is left to do.
    AlreadyReleased,
    /// The release may run. Its end has to be reported with the permit.
    Run(ReleaseKind, LeasePermit),
}

/// The right to carry out one operation on an acquisition.
#[derive(Debug)]
pub struct LeasePermit {
    lease_id: String,
}

impl LeasePermit {
    /// The identity of the acquisition.
    pub closed spec fn lease_id(self) -> Seq<char> {
        self.lease_id@
    }
}

/// What a request to use a device comes to, and the records that it leaves.
pub open spec fn use_begun(
    records: Map<Seq<char>, LeaseRecord>,
    dev_id: u32,
    lease_id: Seq<char>,
) -> Map<Seq<char>, LeaseRecord> {
    match locked(records, dev_id, lease_id) {
        Ok(Some(record)) => if record.phase == Phase::Active {
            records.insert(lease_id, LeaseRecord { busy: true, ..record })
        } else {
            records
        },
        _ => records,
    }
}

/// The records that the end of a use leaves.
pub open spec fn use_ended(records: Map<Seq<char>, LeaseRecord>, lease_id: Seq<char>) -> Map<
    Seq<char>,
    LeaseRecord,
> {
    if records.contains_key(lease_id) && records[lease_id].busy && records[lease_id].phase
        == Phase::Active {
        records.insert(lease_id, LeaseRecord { busy: false, ..records[lease_id] })
    } else {
        records
    }
}

/// Whether a request to release a device lets the release run.
pub open spec fn release_runs(
    records: Map<Seq<char>, LeaseRecord>,
    dev_id: u32,
    lease_id: Seq<char>,
) -> bool {
    locked(records, dev_id, lease_id) matches Ok(Some(record)) && record.phase == Phase::Active
}

/// The records that a request to release a device leaves.
pub open spec fn release_begun(
    records: Map<Seq<char>, LeaseRecord>,
    dev_id: u32,
    lease_id: Seq<char>,
) -> Map<Seq<char>, LeaseRecord> {
    if release_runs(records, dev_id, lease_id) {
        records.insert(
            lease_id,
            LeaseRecord { phase: Phase::Releasing, busy: true, ..records[lease_id] },
        )
    } else {
        records
    }
}

/// The records that the end of a release leaves. A release that failed or was
/// broken off stays unresolved.
pub open spec fn release_ended(
    records: Map<Seq<char>, LeaseRecord>,
    lease_id: Seq<char>,
    succeeded: bool,
) -> Map<Seq<char>, LeaseRecord> {
    if records.contains_key(lease_id) && records[lease_id].busy && records[lease_id].phase
        == Phase::Releasing {
        records.insert(
            lease_id,
            LeaseRecord {
                phase: if succeeded {
                    Phase::Released
                } else {
                    Phase::Releasing
                },
                busy: false,
                ..records[lease_id]
            },
        )
    } else {
        records
    }
}

/// A UUID of version 7 with the timestamp of a given one, by its place: the place
/// is written into the bits that a draw leaves to chance.
pub open spec fn follower(drawn: u128, place: u128) -> u128 {
    (drawn / 0x1_0000_0000_0000_0000_0000 * 0x1_0000_0000_0000_0000_0000
        + 0x7000_0000_0000_0000_0000 + place / 0x4000_0000_0000_0000 * 0x1_0000_0000_0000_0000
        + 0x8000_0000_0000_0000 + place % 0x4000_0000_0000_0000) as u128
}

/// The records with one more, of a new acquisition.
pub open spec fn registered(
    records: Map<Seq<char>, LeaseRecord>,
    lease_id: Seq<char>,
    dev_id: u32,
    kind: ReleaseKind,
) -> Map<Seq<char>, LeaseRecord> {
    records.insert(lease_id, LeaseRecord { dev_id, kind, phase: Phase::Active, busy: false })
}

/// Whether the identity at a place is free, and none at an earlier place is.
pub open spec fn is_first_free(
    records: Map<Seq<char>, LeaseRecord>,
    drawn: u128,
    place: u128,
) -> bool {
    &&& place <= usize::MAX
    &&& !records.contains_key(ident::uuid_text(follower(drawn, place)))
    &&& forall|i: u128|
        i < place ==> records.contains_key(ident::uuid_text(#[trigger] follower(drawn, i)))
}

proof fn lemma_follower(drawn: u128, place: u128)
    requires
        place <= usize::MAX,
    ensures
        ident::is_v7(follower(drawn, place)),
        follower(drawn, place) as int == drawn as int / 0x1_0000_0000_0000_0000_0000
            * 0x1_0000_0000_0000_0000_0000 + 0x7000_0000_0000_0000_0000 + place as int
            / 0x4000_0000_0000_0000 * 0x1_0000_0000_0000_0000 + 0x8000_0000_0000_0000 + place as int
            % 0x4000_0000_0000_0000,
{
    let t = drawn as int / 0x1_0000_0000_0000_0000_0000;
    let h = place as int / 0x4000_0000_0000_0000;
    let l = place as int % 0x4000_0000_0000_0000;
    assert(0 <= t < 0x1_0000_0000_0000 && 0 <= h < 4 && 0 <= l < 0x4000_0000_0000_0000);
    let value = t * 0x1_0000_0000_0000_0000_0000 + 0x7000_0000_0000_0000_0000 + h
        * 0x1_0000_0000_0000_0000 + 0x8000_0000_0000_0000 + l;
    lemma_follower_is_v7(t, h, l, value);
}

proof fn lemma_follower_is_v7(t: int, h: int, l: int, value: int)
    requires
        0 <= t < 0x1_0000_0000_0000,
        0 <= h < 4,
        0 <= l < 0x4000_0000_0000_0000,
        value == t * 0x1_0000_0000_0000_0000_0000 + 0x7000_0000_0000_0000_0000 + h
            * 0x1_0000_0000_0000_0000 + 0x8000_0000_0000_0000 + l,
    ensures
        0 <= value <= u128::MAX,
        (value / 0x1000_0000_0000_0000_0000) % 16 == 7,
        (value / 0x4000_0000_0000_0000) % 4 == 2,
{
    vstd::arithmetic::div_mod::lemma_fundamental_div_mod_converse(
        value,
        0x1000_0000_0000_0000_0000,
        16 * t + 7,
        h * 0x1_0000_0000_0000_0000 + 0x8000_0000_0000_0000 + l,
    );
    vstd::arithmetic::div_mod::lemma_fundamental_div_mod_converse(
        value,
        0x4000_0000_0000_0000,
        t * 0x4_0000 + 0x1_c000 + 4 * h + 2,
        l,
    );
}

proof fn lemma_follower_injective(drawn: u128, a: u128, b: u128)
    requires
        a <= usize::MAX,
        b <= usize::MAX,
        ident::uuid_text(follower(drawn, a)) == ident::uuid_text(follower(drawn, b)),
    ensures
        a == b,
{
    lemma_follower(drawn, a);
    lemma_follower(drawn, b);
    ident::law_text_identifies(
        ident::SandboxId { bits: follower(drawn, a) },
        ident::SandboxId { bits: follower(drawn, b) },
    );
}

/// A table is too small to hold one more identity than it has records.
proof fn lemma_followers_exceed(records: Map<Seq<char>, LeaseRecord>, drawn: u128, count: nat)
    requires
        records.dom().finite(),
        records.dom().len() == count,
        count <= usize::MAX,
    ensures
        exists|i: u128|
            i <= count && !records.contains_key(ident::uuid_text(#[trigger] follower(drawn, i))),
{
    if forall|i: u128|
        i <= count ==> records.contains_key(ident::uuid_text(#[trigger] follower(drawn, i))) {
        let taken = Seq::new(count + 1, |i: int| ident::uuid_text(follower(drawn, i as u128)));
        assert forall|i: int, j: int|
            0 <= i < taken.len() && 0 <= j < taken.len() && i != j implies taken[i] != taken[j] by {
            if taken[i] == taken[j] {
                lemma_follower_injective(drawn, i as u128, j as u128);
            }
        }
        taken.unique_seq_to_set();
        assert forall|text: Seq<char>| #[trigger] taken.to_set().contains(text) implies records.dom().contains(
            text,
        ) by {
            let i = choose|i: int| 0 <= i < taken.len() && taken[i] == text;
            assert(records.contains_key(ident::uuid_text(follower(drawn, i as u128))));
        }
        vstd::set_lib::lemma_len_subset(taken.to_set(), records.dom());
    }
}

fn follower_of(drawn: u128, place: u128) -> (id: u128)
    requires
        place <= usize::MAX,
    ensures
        id == follower(drawn, place),
        ident::is_v7(id),
{
    proof {
        lemma_follower(drawn, place);
    }
    let timestamp: u128 = drawn / 0x1_0000_0000_0000_0000_0000;
    let high: u128 = place / 0x4000_0000_0000_0000;
    let low: u128 = place % 0x4000_0000_0000_0000;
    timestamp * 0x1_0000_0000_0000_0000_0000 + 0x7000_0000_0000_0000_0000 + high
        * 0x1_0000_0000_0000_0000 + 0x8000_0000_0000_0000 + low
}

/// Whether a text is an identity that may be drawn: that of a UUID of version 7.
pub open spec fn is_identity(text: Seq<char>) -> bool {
    exists|id: u128| ident::is_v7(id) && #[trigger] ident::uuid_text(id) == text
}

/// The acquisitions of this daemon lifetime.
pub struct DeviceLeases {
    table: DashMap<String, LeaseRecord>,
}

impl View for DeviceLeases {
    type V = Map<Seq<char>, LeaseRecord>;

    closed spec fn view(&self) -> Map<Seq<char>, LeaseRecord> {
        contents(self.table)
    }
}

impl Default for DeviceLeases {
    fn default() -> (leases: Self)
        ensures
            leases@ == Map::<Seq<char>, LeaseRecord>::empty(),
    {
        DeviceLeases { table: table_new() }
    }
}

impl DeviceLeases {
    /// Issues the receipt of an acquisition under a new identity. Draws again
    /// while the identity drawn is taken. Where as many draws as a `u64` can count
    /// were all taken, the identities that follow the last draw are tried instead,
    /// of which one is free.
    pub fn register(&mut self, dev_id: u32, kind: ReleaseKind) -> (lease: DeviceLease)
        ensures
            lease.dev_id == dev_id,
            is_identity(lease.lease_id@),
            !old(self)@.contains_key(lease.lease_id@),
            final(self)@ == registered(old(self)@, lease.lease_id@, dev_id, kind),
    {
        let mut drawn = fresh_uuid();
        let mut draws: u64 = 1;
        while draws < u64::MAX
            invariant
                self@ == old(self)@,
                ident::is_v7(drawn),
            decreases u64::MAX - draws,
        {
            let lease = self.register_as(uuid_to_string(drawn), dev_id, kind);
            if let Some(lease) = lease {
                assert(ident::uuid_text(drawn) == lease.lease_id@);
                return lease;
            }
            drawn = fresh_uuid();
            draws = draws + 1;
        }
        self.register_after(drawn, dev_id, kind)
    }

    /// Issues the receipt of an acquisition under the first free one of the
    /// identities that share the timestamp of a given one.
    pub fn register_after(&mut self, drawn: u128, dev_id: u32, kind: ReleaseKind) -> (lease:
        DeviceLease)
        ensures
            lease.dev_id == dev_id,
            exists|place: u128| is_first_free(old(self)@, drawn, place) && lease.lease_id@
                == ident::uuid_text(#[trigger] follower(drawn, place)),
            is_identity(lease.lease_id@),
            !old(self)@.contains_key(lease.lease_id@),
            final(self)@ == registered(old(self)@, lease.lease_id@, dev_id, kind),
    {
        let count = table_len(&self.table);
        let mut place: u128 = 0;
        loop
            invariant
                self@ == old(self)@,
                self@.dom().finite(),
                self@.dom().len() == count,
                place <= count,
                forall|i: u128|
                    i < place ==> self@.contains_key(
                        ident::uuid_text(#[trigger] follower(drawn, i)),
                    ),
            decreases count - place,
        {
            let candidate = follower_of(drawn, place);
            let lease = self.register_as(uuid_to_string(candidate), dev_id, kind);
            if let Some(lease) = lease {
                proof {
                    assert(follower(drawn, place) == candidate);
                    assert(is_first_free(old(self)@, drawn, place));
                    assert(ident::uuid_text(candidate) == lease.lease_id@);
                }
                return lease;
            }
            proof {
                assert(follower(drawn, place) == candidate);
                if place == count {
                    lemma_followers_exceed(self@, drawn, count as nat);
                }
            }
            place = place + 1;
        }
    }

    /// Issues the receipt of an acquisition under a given identity, unless it is
    /// taken.
    pub fn register_as(&mut self, lease_id: String, dev_id: u32, kind: ReleaseKind) -> (lease: Option<
        DeviceLease,
    >)
        ensures
            if old(self)@.contains_key(lease_id@) {
                lease is None && final(self)@ == old(self)@
            } else {
                &&& lease == Some(DeviceLease { dev_id, lease_id })
                &&& final(self)@ == registered(old(self)@, lease_id@, dev_id, kind)
            },
    {
        let record = LeaseRecord { dev_id, kind, phase: Phase::Active, busy: false };
        if table_insert_vacant(&mut self.table, lease_id.clone(), record) {
            Some(DeviceLease { dev_id, lease_id })
        } else {
            None
        }
    }

    /// The record that a lease gives access to: none while it is busy.
    pub fn lock(&self, lease: &DeviceLease) -> (result: Result<Option<LeaseRecord>, LeaseError>)
        ensures
            result == locked(self@, lease.dev_id, lease.lease_id@),
    {
        match table_get(&self.table, lease.lease_id.as_str()) {
            None => Err(LeaseError::Unknown),
            Some(record) => {
                if record.busy {
                    Ok(None)
                } else if record.dev_id != lease.dev_id {
                    Err(LeaseError::WrongDevice)
                } else {
                    Ok(Some(record))
                }
            },
        }
    }

    /// Asks to use the device of an acquisition. Until the end of the use is
    /// reported, nothing else runs on the acquisition: release cannot invalidate
    /// the device while a resize or snapshot mutation is using it.
    pub fn use_active(&mut self, lease: &DeviceLease) -> (result: Result<UseStep, LeaseError>)
        ensures
            final(self)@ == use_begun(old(self)@, lease.dev_id, lease.lease_id@),
            match locked(old(self)@, lease.dev_id, lease.lease_id@) {
                Err(error) => result == Err::<UseStep, LeaseError>(error),
                Ok(None) => result == Ok::<UseStep, LeaseError>(UseStep::Wait),
                Ok(Some(record)) => if record.phase == Phase::Active {
                    result matches Ok(UseStep::Run(permit)) && permit.lease_id() == lease.lease_id@
                } else {
                    result == Err::<UseStep, LeaseError>(LeaseError::NotActive)
                },
            },
    {
        match self.lock(lease) {
            Err(error) => Err(error),
            Ok(None) => Ok(UseStep::Wait),
            Ok(Some(record)) => {
                if record.phase != Phase::Active {
                    return Err(LeaseError::NotActive);
                }
                let busy = LeaseRecord {
                    dev_id: record.dev_id,
                    kind: record.kind,
                    phase: record.phase,
                    busy: true,
                };
                table_insert(&mut self.table, lease.lease_id.as_str(), busy);
                Ok(UseStep::Run(LeasePermit { lease_id: lease.lease_id.clone() }))
            },
        }
    }

    /// Reports the end of a use.
    pub fn finish_use(&mut self, permit: LeasePermit)
        ensures
            final(self)@ == use_ended(old(self)@, permit.lease_id()),
    {
        if let Some(record) = table_get(&self.table, permit.lease_id.as_str()) {
            if record.busy && record.phase == Phase::Active {
                let idle = LeaseRecord {
                    dev_id: record.dev_id,
                    kind: record.kind,
                    phase: record.phase,
                    busy: false,
                };
                table_insert(&mut self.table, permit.lease_id.as_str(), idle);
            }
        }
    }

    /// Asks to release the device of an acquisition. A release that has started
    /// is never started again merely because its reply was lost: the device may
    /// already have returned to the pool.
    pub fn release(&mut self, lease: &DeviceLease) -> (result: Result<ReleaseStep, LeaseError>)
        ensures
            final(self)@ == release_begun(old(self)@, lease.dev_id, lease.lease_id@),
            match locked(old(self)@, lease.dev_id, lease.lease_id@) {
                Err(error) => result == Err::<ReleaseStep, LeaseError>(error),
                Ok(None) => result == Ok::<ReleaseStep, LeaseError>(ReleaseStep::Wait),
                Ok(Some(record)) => match record.phase {
                    Phase::Released => result == Ok::<ReleaseStep, LeaseError>(
                        ReleaseStep::AlreadyReleased,
                    ),
                    Phase::Releasing => result == Err::<ReleaseStep, LeaseError>(
                        LeaseError::Unresolved,
                    ),
                    Phase::Active => result matches Ok(ReleaseStep::Run(kind, permit)) && kind
                        == record.kind && permit.lease_id() == lease.lease_id@,
                },
            },
    {
        match self.lock(lease) {
            Err(error) => Err(error),
            Ok(None) => Ok(ReleaseStep::Wait),
            Ok(Some(record)) => match record.phase {
                Phase::Released => Ok(ReleaseStep::AlreadyReleased),
                Phase::Releasing => Err(LeaseError::Unresolved),
                Phase::Active => {
                    let releasing = LeaseRecord {
                        dev_id: record.dev_id,
                        kind: record.kind,
                        phase: Phase::Releasing,
                        busy: true,
                    };
                    table_insert(&mut self.table, lease.lease_id.as_str(), releasing);
                    Ok(ReleaseStep::Run(record.kind, LeasePermit { lease_id: lease.lease_id.clone() }))
                },
            },
        }
    }

    /// Reports the end of a release, or that it was broken off. Without success
    /// the outcome stays unresolved.
    pub fn finish_release(&mut self, permit: LeasePermit, succeeded: bool)
        ensures
            final(self)@ == release_ended(old(self)@, permit.lease_id(), succeeded),
    {
        if let Some(record) = table_get(&self.table, permit.lease_id.as_str()) {
            if record.busy && record.phase == Phase::Releasing {
                let ended = LeaseRecord {
                    dev_id: record.dev_id,
                    kind: record.kind,
                    phase: if succeeded {
                        Phase::Released
                    } else {
                        Phase::Releasing
                    },
                    busy: false,
                };
                table_insert(&mut self.table, permit.lease_id.as_str(), ended);
            }
        }
    }
}

/// One operation on the acquisitions.
pub enum LeaseStep {
    Register { lease_id: Seq<char>, dev_id: u32, kind: ReleaseKind },
    BeginUse { lease_id: Seq<char>, dev_id: u32 },
    EndUse { lease_id: Seq<char> },
    BeginRelease { lease_id: Seq<char>, dev_id: u32 },
    EndRelease { lease_id: Seq<char>, succeeded: bool },
}

impl LeaseStep {
    /// The identity that the step is about.
    pub open spec fn lease_id(self) -> Seq<char> {
        match self {
            LeaseStep::Register { lease_id, .. } => lease_id,
            LeaseStep::BeginUse { lease_id, .. } => lease_id,
            LeaseStep::EndUse { lease_id } => lease_id,
            LeaseStep::BeginRelease { lease_id, .. } => lease_id,
            LeaseStep::EndRelease { lease_id, .. } => lease_id,
        }
    }

    /// The records that the step leaves.
    pub open spec fn applied(self, records: Map<Seq<char>, LeaseRecord>) -> Map<
        Seq<char>,
        LeaseRecord,
    > {
        match self {
            LeaseStep::Register { lease_id, dev_id, kind } => if records.contains_key(lease_id) {
                records
            } else {
                records.insert(
                    lease_id,
                    LeaseRecord { dev_id, kind, phase: Phase::Active, busy: false },
                )
            },
            LeaseStep::BeginUse { lease_id, dev_id } => use_begun(records, dev_id, lease_id),
            LeaseStep::EndUse { lease_id } => use_ended(records, lease_id),
            LeaseStep::BeginRelease { lease_id, dev_id } => release_begun(
                records,
                dev_id,
                lease_id,
            ),
            LeaseStep::EndRelease { lease_id, succeeded } => release_ended(
                records,
                lease_id,
                succeeded,
            ),
        }
    }

    /// Whether the step lets a release run.
    pub open spec fn releases(self, records: Map<Seq<char>, LeaseRecord>) -> bool {
        self matches LeaseStep::BeginRelease { lease_id, dev_id } && release_runs(
            records,
            dev_id,
            lease_id,
        )
    }
}

/// The records that a history leaves.
pub open spec fn records_after(
    records: Map<Seq<char>, LeaseRecord>,
    steps: Seq<LeaseStep>,
) -> Map<Seq<char>, LeaseRecord>
    decreases steps.len(),
{
    if steps.len() == 0 {
        records
    } else {
        steps.last().applied(records_after(records, steps.drop_last()))
    }
}

/// How many releases of an identity a history lets run.
pub open spec fn releases_of(
    lease_id: Seq<char>,
    records: Map<Seq<char>, LeaseRecord>,
    steps: Seq<LeaseStep>,
) -> nat
    decreases steps.len(),
{
    if steps.len() == 0 {
        0
    } else {
        let last: nat = if steps.last().lease_id() == lease_id && steps.last().releases(
            records_after(records, steps.drop_last()),
        ) {
            1
        } else {
            0
        };
        releases_of(lease_id, records, steps.drop_last()) + last
    }
}

/// The order in which phases follow each other.
pub open spec fn phase_rank(phase: Phase) -> int {
    match phase {
        Phase::Active => 0,
        Phase::Releasing => 1,
        Phase::Released => 2,
    }
}

/// A receipt is never removed, its device and its way of release never change,
/// and its phase never goes back.
pub proof fn law_receipts_are_retained(
    records: Map<Seq<char>, LeaseRecord>,
    steps: Seq<LeaseStep>,
    lease_id: Seq<char>,
)
    requires
        records.contains_key(lease_id),
    ensures
        ({
            let later = records_after(records, steps);
            &&& later.contains_key(lease_id)
            &&& later[lease_id].dev_id == records[lease_id].dev_id
            &&& later[lease_id].kind == records[lease_id].kind
            &&& phase_rank(later[lease_id].phase) >= phase_rank(records[lease_id].phase)
        }),
    decreases steps.len(),
{
    if steps.len() > 0 {
        law_receipts_are_retained(records, steps.drop_last(), lease_id);
    }
}

/// Over every history the release of an acquisition runs at most once, whatever
/// came of it, and not at all once it has been started.
pub proof fn law_release_runs_at_most_once(
    records: Map<Seq<char>, LeaseRecord>,
    steps: Seq<LeaseStep>,
    lease_id: Seq<char>,
)
    ensures
        releases_of(lease_id, records, steps) <= 1,
        records.contains_key(lease_id) && records[lease_id].phase != Phase::Active ==> releases_of(
            lease_id,
            records,
            steps,
        ) == 0,
        releases_of(lease_id, records, steps) == 1 ==> records_after(records, steps).contains_key(
            lease_id,
        ) && records_after(records, steps)[lease_id].phase != Phase::Active,
    decreases steps.len(),
{
    if steps.len() > 0 {
        law_release_runs_at_most_once(records, steps.drop_last(), lease_id);
        if records.contains_key(lease_id) {
            law_receipts_are_retained(records, steps.drop_last(), lease_id);
        }
    }
}

/// While an acquisition is busy, neither a use nor a release of it is let run.
pub proof fn law_busy_excludes(
    records: Map<Seq<char>, LeaseRecord>,
    lease_id: Seq<char>,
    dev_id: u32,
)
    requires
        records.contains_key(lease_id),
        records[lease_id].busy,
    ensures
        !release_runs(records, dev_id, lease_id),
        release_begun(records, dev_id, lease_id) == records,
        use_begun(records, dev_id, lease_id) == records,
{
}

/// The replay of a completed release succeeds and touches nothing, even when the
/// device number has been acquired again.
pub proof fn law_completed_release_replays(
    records: Map<Seq<char>, LeaseRecord>,
    lease_id: Seq<char>,
    dev_id: u32,
)
    requires
        records.contains_key(lease_id),
        records[lease_id].dev_id == dev_id,
        records[lease_id].phase == Phase::Released,
        !records[lease_id].busy,
    ensures
        locked(records, dev_id, lease_id) == Ok::<Option<LeaseRecord>, LeaseError>(
            Some(records[lease_id]),
        ),
        !release_runs(records, dev_id, lease_id),
        release_begun(records, dev_id, lease_id) == records,
{
}

/// An identity that this daemon did not issue, or that belongs to another device
/// number, authorizes nothing.
pub proof fn law_foreign_receipts_authorize_nothing(
    records: Map<Seq<char>, LeaseRecord>,
    lease_id: Seq<char>,
    dev_id: u32,
)
    requires
        !records.contains_key(lease_id) || records[lease_id].dev_id != dev_id,
    ensures
        !release_runs(records, dev_id, lease_id),
        release_begun(records, dev_id, lease_id) == records,
        use_begun(records, dev_id, lease_id) == records,
{
}

/// A step on one acquisition leaves every other alone, those of the same device
/// number too.
pub proof fn law_acquisitions_are_independent(
    records: Map<Seq<char>, LeaseRecord>,
    step: LeaseStep,
    other: Seq<char>,
)
    requires
        step.lease_id() != other,
    ensures
        step.applied(records).contains_key(other) == records.contains_key(other),
        records.contains_key(other) ==> step.applied(records)[other] == records[other],
{
}

/// Two acquisitions of one device have different receipts, and the whole release
/// of the first, whatever comes of it, leaves the second active.
pub proof fn law_shared_acquisitions_release_apart(
    records: Map<Seq<char>, LeaseRecord>,
    first: Seq<char>,
    second: Seq<char>,
    dev_id: u32,
    kind: ReleaseKind,
    succeeded: bool,
)
    requires
        !records.contains_key(first),
        !registered(records, first, dev_id, kind).contains_key(second),
    ensures
        first != second,
        ({
            let both = registered(registered(records, first, dev_id, kind), second, dev_id, kind);
            let begun = release_begun(both, dev_id, first);
            let ended = release_ended(begun, first, succeeded);
            &&& release_runs(both, dev_id, first)
            &&& begun[second] == both[second]
            &&& ended[second] == both[second]
            &&& ended[second].phase == Phase::Active
            &&& release_runs(ended, dev_id, second)
        }),
{
}

} // verus!
