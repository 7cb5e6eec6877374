//! The record store for identity checks: one record per identifier, with
//! the hash of the checked data and the status of the check.

use vstd::prelude::*;
use vstd::string::*;

verus! {

/// The record of one identity check.
#[derive(Debug, PartialEq, Eq)]
pub struct KycRecord {
    /// The identifier of the record.
    pub kyc_id: String,
    /// The hash of the data that was checked.
    pub data_hash: String,
    /// The status of the check, such as `approved` or `rejected`.
    pub status: String,
}

/// The store of the records.
pub struct KycContract {
    /// The records, no two with the same identifier.
    pub records: Vec<KycRecord>,
}

impl KycContract {
    /// No two records have the same identifier.
    pub open spec fn wf(&self) -> bool {
        forall|i: int, j: int|
            0 <= i < j < self.records@.len() ==> self.records@[i].kyc_id@
                != self.records@[j].kyc_id@
    }

    /// Whether a record with the identifier `kyc_id` is stored.
    pub open spec fn has(&self, kyc_id: Seq<char>) -> bool {
        exists|i: int| 0 <= i < self.records@.len() && (#[trigger] self.records@[i]).kyc_id@ == kyc_id
    }

    /// The position of the record with the identifier `kyc_id`.
    pub open spec fn position(&self, kyc_id: Seq<char>) -> int {
        choose|i: int| 0 <= i < self.records@.len() && (#[trigger] self.records@[i]).kyc_id@ == kyc_id
    }

    /// The status stored for `kyc_id`, if a record is.
    pub open spec fn status_of(&self, kyc_id: Seq<char>) -> Option<Seq<char>> {
        if self.has(kyc_id) {
            Some(self.records@[self.position(kyc_id)].status@)
        } else {
            None
        }
    }

    /// The store without records.
    pub fn new() -> (contract: KycContract)
        ensures
            contract.wf(),
            contract.records@.len() == 0,
    {
        KycContract { records: Vec::new() }
    }

    /// Finds the record with the identifier `kyc_id`.
    fn find(&self, kyc_id: &str) -> (found: Option<usize>)
        requires
            self.wf(),
        ensures
            match found {
                Some(i) => self.has(kyc_id@) && i == self.position(kyc_id@) && i
                    < self.records@.len(),
                None => !self.has(kyc_id@),
            },
    {
        let wanted = String::from_str(kyc_id);
        let mut i: usize = 0;
        while i < self.records.len()
            invariant
                self.wf(),
                i <= self.records@.len(),
                wanted@ == kyc_id@,
                forall|j: int| 0 <= j < i ==> (#[trigger] self.records@[j]).kyc_id@ != kyc_id@,
            decreases self.records@.len() - i,
        {
            if self.records[i].kyc_id == wanted {
                return Some(i);
            }
            i += 1;
        }
        None
    }

    /// Stores the record of `kyc_id`, in place of an earlier one with that
    /// identifier where there is one. Storing the same record twice is
    /// storing it once.
    pub fn register_kyc(&mut self, kyc_id: &str, data_hash: &str, status: &str)
        requires
            old(self).wf(),
        ensures
            final(self).wf(),
            final(self).has(kyc_id@),
            final(self).status_of(kyc_id@) == Some(status@),
            final(self).records@[final(self).position(kyc_id@)].data_hash@ == data_hash@,
            forall|other: Seq<char>|
                other != kyc_id@ ==> final(self).has(other) == old(self).has(other) && final(
                    self).status_of(other) == old(self).status_of(other),
            final(self).records@.len() == old(self).records@.len() + (if old(self).has(kyc_id@) {
                0int
            } else {
                1int
            }),
    {
        let record = KycRecord {
            kyc_id: String::from_str(kyc_id),
            data_hash: String::from_str(data_hash),
            status: String::from_str(status),
        };
        let ghost before = *self;
        match self.find(kyc_id) {
            Some(i) => {
                self.records.set(i, record);
                proof {
                    assert(self.records@[i as int].kyc_id@ == kyc_id@);
                    assert forall|other: Seq<char>| other != kyc_id@ implies self.has(other)
                        == before.has(other) && self.status_of(other) == before.status_of(
                        other,
                    ) by {
                        if before.has(other) {
                            let p = before.position(other);
                            assert(self.records@[p].kyc_id@ == other);
                            assert(self.position(other) == p);
                        }
                        if self.has(other) {
                            let p = self.position(other);
                            assert(before.records@[p].kyc_id@ == other);
                        }
                    }
                }
            },
            None => {
                self.records.push(record);
                proof {
                    let last = before.records@.len() as int;
                    assert(self.records@[last].kyc_id@ == kyc_id@);
                    assert forall|other: Seq<char>| other != kyc_id@ implies self.has(other)
                        == before.has(other) && self.status_of(other) == before.status_of(
                        other,
                    ) by {
                        if before.has(other) {
                            let p = before.position(other);
                            assert(self.records@[p].kyc_id@ == other);
                            assert(self.position(other) == p);
                        }
                        if self.has(other) {
                            let p = self.position(other);
                            assert(before.records@[p].kyc_id@ == other);
                        }
                    }
                }
            },
        }
    }

    /// The status stored for `kyc_id`, if a record is.
    pub fn get_kyc_status(&self, kyc_id: &str) -> (status: Option<String>)
        requires
            self.wf(),
        ensures
            match status {
                Some(s) => self.status_of(kyc_id@) == Some(s@),
                None => self.status_of(kyc_id@) is None,
            },
    {
        match self.find(kyc_id) {
            Some(i) => Some(self.records[i].status.clone()),
            None => None,
        }
    }
}

/// The contract for identity checks; it keeps its records in a
/// [`KycContract`].
pub struct KycKybContract {
    pub store: KycContract,
}

impl KycKybContract {
    /// The contract without records.
    pub fn new() -> (contract: KycKybContract)
        ensures
            contract.store.wf(),
            contract.store.records@.len() == 0,
    {
        KycKybContract { store: KycContract::new() }
    }

    /// See [`KycContract::register_kyc`].
    pub fn register_kyc(&mut self, kyc_id: &str, data_hash: &str, status: &str)
        requires
            old(self).store.wf(),
        ensures
            final(self).store.wf(),
            final(self).store.has(kyc_id@),
            final(self).store.status_of(kyc_id@) == Some(status@),
            forall|other: Seq<char>|
                other != kyc_id@ ==> final(self).store.has(other) == old(self).store.has(other)
                    && final(self).store.status_of(other) == old(self).store.status_of(other),
    {
        self.store.register_kyc(kyc_id, data_hash, status)
    }

    /// See [`KycContract::get_kyc_status`].
    pub fn get_kyc_status(&self, kyc_id: &str) -> (status: Option<String>)
        requires
            self.store.wf(),
        ensures
            match status {
                Some(s) => self.store.status_of(kyc_id@) == Some(s@),
                None => self.store.status_of(kyc_id@) is None,
            },
    {
        self.store.get_kyc_status(kyc_id)
    }
}

} // verus!
