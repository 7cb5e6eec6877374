//! Account identifiers.
//!
//! Every engine of this crate speaks of members only through their
//! [`Address`]: an opaque key that can be compared and copied, and nothing else.

use vstd::prelude::*;

verus! {

/// The mathematical value of an [`Address`]: the characters of its key.
pub type Id = Seq<char>;

/// An opaque account identifier.
///
/// Two addresses denote the same account exactly when their keys consist of the
/// same characters.
#[derive(Debug, Eq, Hash)]
pub struct Address {
    key: String,
}

impl View for Address {
    type V = Id;

    closed spec fn view(&self) -> Id {
        self.key@
    }
}

impl Address {
    /// The address with the given key.
    pub fn new(key: &str) -> (a: Address)
        ensures
            a@ == key@,
    {
        Address { key: key.to_owned() }
    }

    /// The address with the given key, taking ownership of the text.
    pub fn from_string(key: String) -> (a: Address)
        ensures
            a@ == key@,
    {
        Address { key }
    }

    /// The key of this address.
    pub fn as_str(&self) -> (key: &str)
        ensures
            key@ == self@,
    {
        self.key.as_str()
    }
}

impl Clone for Address {
    fn clone(&self) -> (copy: Address)
        ensures
            copy == *self,
    {
        Address { key: self.key.clone() }
    }
}

impl PartialEq for Address {
    fn eq(&self, other: &Address) -> (same: bool) {
        self.key == other.key
    }
}

impl vstd::std_specs::cmp::PartialEqSpecImpl for Address {
    open spec fn obeys_eq_spec() -> bool {
        true
    }

    open spec fn eq_spec(&self, other: &Address) -> bool {
        self@ == other@
    }
}

/// The identifiers of a list of addresses, in order.
pub open spec fn ids_of(list: Seq<Address>) -> Seq<Id> {
    Seq::new(list.len(), |i: int| list[i]@)
}

/// Appending an address to a list appends its identifier to the list's
/// identifiers, which then hold what they held before and that identifier.
pub proof fn lemma_ids_of_push(list: Seq<Address>, last: Address)
    ensures
        ids_of(list.push(last)) == ids_of(list).push(last@),
        forall|x: Id| ids_of(list.push(last)).contains(x) <==> (x == last@ || ids_of(list).contains(x)),
        ids_of(list).no_duplicates() && !ids_of(list).contains(last@) ==> ids_of(
            list.push(last),
        ).no_duplicates(),
{
    let longer = ids_of(list.push(last));
    assert(longer =~= ids_of(list).push(last@));
    assert forall|x: Id| longer.contains(x) <==> (x == last@ || ids_of(list).contains(x)) by {
        if ids_of(list).contains(x) {
            let p = ids_of(list).index_of(x);
            assert(longer[p] == x);
        }
        if x == last@ {
            assert(longer[list.len() as int] == x);
        }
        if longer.contains(x) {
            let p = longer.index_of(x);
            if p < list.len() {
                assert(ids_of(list)[p] == x);
            }
        }
    }
}

} // verus!
