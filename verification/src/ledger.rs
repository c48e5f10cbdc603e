//! The installed-state ledger: for each target root, the preset that was
//! last installed there.

use vstd::prelude::*;
use crate::cache::{PackInfo, PackInfoView};
use crate::clock::{rfc3339_text, Instant};
use crate::keyed::TextMap;

verus! {

/// What was last installed into one target.
#[derive(Debug, PartialEq, Eq)]
pub struct InstalledPreset {
    pub uuid: String,
    pub name: String,
    pub installed_at: Instant,
    pub is_creator: Option<bool>,
}

/// What an [`InstalledPreset`] holds, as text and numbers.
pub struct InstalledPresetView {
    pub uuid: Seq<char>,
    pub name: Seq<char>,
    pub installed_at: Instant,
    pub is_creator: Option<bool>,
}

impl View for InstalledPreset {
    type V = InstalledPresetView;

    open spec fn view(&self) -> InstalledPresetView {
        InstalledPresetView {
            uuid: self.uuid@,
            name: self.name@,
            installed_at: self.installed_at,
            is_creator: self.is_creator,
        }
    }
}

impl Clone for InstalledPreset {
    fn clone(&self) -> (r: Self)
        ensures
            r@ == self@,
    {
        InstalledPreset {
            uuid: self.uuid.clone(),
            name: self.name.clone(),
            installed_at: self.installed_at,
            is_creator: self.is_creator,
        }
    }
}

/// The record of `pack` installed at `now`.
pub open spec fn record_of(pack: PackInfoView, now: Instant, is_creator: Option<bool>)
    -> InstalledPresetView {
    InstalledPresetView { uuid: pack.uuid, name: pack.name, installed_at: now, is_creator }
}

impl InstalledPreset {
    /// The record of `pack` installed at `now`.
    pub fn of_pack(pack: &PackInfo, now: Instant, is_creator: Option<bool>) -> (r: Self)
        ensures
            r@ == record_of(pack@, now, is_creator),
    {
        InstalledPreset {
            uuid: pack.uuid.clone(),
            name: pack.name.clone(),
            installed_at: now,
            is_creator,
        }
    }

    /// The time of installation as an RFC 3339 timestamp, the form in which
    /// the ledger document keeps it.
    pub fn installed_at_text(&self) -> (r: Option<String>)
        ensures
            match r {
                Some(s) => rfc3339_text(self.installed_at.secs, self.installed_at.nanos)
                    == Some(s@),
                None => rfc3339_text(self.installed_at.secs, self.installed_at.nanos) is None,
            },
    {
        self.installed_at.to_rfc3339()
    }
}

/// The ledger document as a mathematical value.
pub type LedgerView = Map<Seq<char>, InstalledPresetView>;

/// The ledger after `pack` was recorded as installed into `target` at
/// `now`: the entry of `target` is new, all others are as before.
pub open spec fn recorded(
    ledger: LedgerView,
    target: Seq<char>,
    pack: PackInfoView,
    now: Instant,
    is_creator: Option<bool>,
) -> LedgerView {
    ledger.insert(target, record_of(pack, now, is_creator))
}

/// The ledger document.
pub struct Ledger {
    entries: TextMap<InstalledPreset>,
}

impl View for Ledger {
    type V = LedgerView;

    closed spec fn view(&self) -> LedgerView {
        self.entries@.map_values(|r: InstalledPreset| r@)
    }
}

impl Ledger {
    /// The empty ledger: what a missing or unreadable document stands for.
    pub fn new() -> (l: Self)
        ensures
            l@ == Map::<Seq<char>, InstalledPresetView>::empty(),
    {
        let l = Ledger { entries: TextMap::new() };
        assert(l@ =~= Map::<Seq<char>, InstalledPresetView>::empty());
        l
    }

    /// The ledger that a load attempt stands for: the document that was
    /// read, or the empty ledger where none could be read.
    pub fn recovered(loaded: Option<Ledger>) -> (l: Self)
        ensures
            l@ == match loaded {
                Some(read) => read@,
                None => Map::<Seq<char>, InstalledPresetView>::empty(),
            },
    {
        match loaded {
            Some(read) => read,
            None => Ledger::new(),
        }
    }

    /// The record of `target_root`, if the ledger has one under exactly
    /// this path.
    pub fn get(&self, target_root: &str) -> (r: Option<InstalledPreset>)
        ensures
            match r {
                Some(record) => self@.contains_key(target_root@) && self@[target_root@]
                    == record@,
                None => !self@.contains_key(target_root@),
            },
    {
        match self.entries.get(target_root) {
            Some(record) => Some(record.clone()),
            None => None,
        }
    }

    /// Stores `record` under `target_root`, in place of any record there.
    /// The records of all other targets stay as they are.
    pub fn put(&mut self, target_root: &str, record: InstalledPreset)
        ensures
            final(self)@ == old(self)@.insert(target_root@, record@),
    {
        self.entries.insert(target_root.to_owned(), record);
        assert(self@ =~= old(self)@.insert(target_root@, record@));
    }

    /// Records `pack` as installed into `target_root` at `now`.
    pub fn record_installed(
        &mut self,
        target_root: &str,
        pack: &PackInfo,
        now: Instant,
        is_creator: Option<bool>,
    )
        ensures
            final(self)@ == recorded(old(self)@, target_root@, pack@, now, is_creator),
    {
        self.put(target_root, InstalledPreset::of_pack(pack, now, is_creator));
    }

    /// Takes the record of `target_root` out, and says whether there was
    /// one. The records of all other targets stay as they are.
    pub fn remove(&mut self, target_root: &str) -> (had: bool)
        ensures
            final(self)@ == old(self)@.remove(target_root@),
            had == old(self)@.contains_key(target_root@),
    {
        let taken = self.entries.remove(target_root);
        assert(self@ =~= old(self)@.remove(target_root@));
        taken.is_some()
    }

    /// Takes every record out.
    pub fn clear_all(&mut self)
        ensures
            final(self)@ == Map::<Seq<char>, InstalledPresetView>::empty(),
    {
        self.entries.clear();
        assert(self@ =~= Map::<Seq<char>, InstalledPresetView>::empty());
    }

    /// The target root of the record at position `i`.
    pub closed spec fn target_at(self, i: int) -> Seq<char> {
        self.entries.key_at(i)
    }

    /// The number of records. The positions below it hold the targets of
    /// the ledger, each target at exactly one position.
    pub fn len(&self) -> (n: usize)
        ensures
            self@.dom().finite(),
            n == self@.dom().len(),
            forall|i: int, j: int|
                0 <= i < n && 0 <= j < n && i != j ==> self.target_at(i) != self.target_at(j),
            forall|k: Seq<char>|
                self@.contains_key(k) ==> exists|i: int| 0 <= i < n && self.target_at(i) == k,
    {
        let n = self.entries.len();
        assert(self@.dom() =~= self.entries@.dom());
        assert forall|k: Seq<char>| self@.contains_key(k) implies exists|i: int|
            0 <= i < n && self.target_at(i) == k by {
            assert(self.entries@.contains_key(k));
            let i = choose|i: int| 0 <= i < n && self.entries.key_at(i) == k;
            assert(self.target_at(i) == k);
        }
        n
    }

    /// The record at position `i` of `len()`, with its target root.
    pub fn entry_at(&self, i: usize) -> (r: (&String, &InstalledPreset))
        requires
            self@.dom().finite(),
            i < self@.dom().len(),
        ensures
            r.0@ == self.target_at(i as int),
            self@.contains_key(r.0@),
            self@[r.0@] == r.1@,
    {
        let n = self.entries.len();
        assert(self@.dom() =~= self.entries@.dom());
        self.entries.entry_at(i)
    }
}

/// Right after a preset is recorded for a target, the ledger's record of
/// that target carries the preset's identity and name and the instant of
/// recording; so it is no earlier than any instant the recording was no
/// earlier than. No other target's record changes.
pub proof fn law_record_is_read_back(
    ledger: LedgerView,
    target: Seq<char>,
    other: Seq<char>,
    pack: PackInfoView,
    start: Instant,
    now: Instant,
    is_creator: Option<bool>,
)
    ensures
        recorded(ledger, target, pack, now, is_creator).contains_key(target),
        recorded(ledger, target, pack, now, is_creator)[target].uuid == pack.uuid,
        recorded(ledger, target, pack, now, is_creator)[target].name == pack.name,
        recorded(ledger, target, pack, now, is_creator)[target].installed_at == now,
        now.at_or_after(start) ==> recorded(
            ledger,
            target,
            pack,
            now,
            is_creator,
        )[target].installed_at.at_or_after(start),
        other != target ==> recorded(ledger, target, pack, now, is_creator).contains_key(other)
            == ledger.contains_key(other),
        other != target && ledger.contains_key(other) ==> recorded(
            ledger,
            target,
            pack,
            now,
            is_creator,
        )[other] == ledger[other],
{
}

/// A ledger that was cleared has no record for any target, and one from
/// which a target was removed has none for that target.
pub proof fn law_cleared_ledger_is_silent(ledger: LedgerView, target: Seq<char>)
    ensures
        !Map::<Seq<char>, InstalledPresetView>::empty().contains_key(target),
        !ledger.remove(target).contains_key(target),
{
}

} // verus!
