//! The domain registry: names, hierarchy, expiration and records.
//!
//! A domain name, once minted, is reserved forever and backed by one token.
//! A root domain owns its expiration; a child domain stores none and is
//! active exactly while its root ancestor is.  The parent of a child always
//! stands earlier in the backing vector than the child itself — a child can
//! only name a previously minted domain as parent — which makes the parent
//! chain structurally acyclic and bounds every walk.

use vstd::prelude::*;

use crate::assoc::{
    assoc_get, lemma_assoc_get_index, lemma_assoc_get_none_iff, lemma_assoc_get_push,
    lemma_assoc_get_remove, lemma_assoc_get_update, lemma_unique_push, lemma_unique_remove,
    lemma_unique_update, unique_keys,
};
use crate::errors::ContractError;
use crate::version::ContractVersionBase;

verus! {

/// Longest accepted domain name, in characters.
pub const MAX_DOMAIN_LEN: usize = 32;

/// The closed set of record classes a domain can carry, at most one record
/// each.  The custom slots are deliberately uninterpreted byte buckets.
#[derive(Clone, Copy, Debug, PartialEq, Eq, Structural)]
pub enum RecordClass {
    /// Free-form profile text.
    Bio,
    /// Discord handle.
    Discord,
    /// Twitter handle.
    Twitter,
    /// Web address.
    Uri,
    /// Wallet address.
    Wallet,
    /// Avatar reference.
    Avatar,
    /// First custom slot.
    Custom,
    /// Second custom slot.
    Custom2,
    /// Third custom slot.
    Custom3,
    /// Fourth custom slot.
    Custom4,
    /// Fifth custom slot.
    Custom5,
}

/// An opaque payload attached to a domain under one record class.
#[derive(Clone, Debug, PartialEq, Eq)]
pub struct Record {
    /// The payload bytes.
    pub data: Vec<u8>,
}

/// A minted domain.
#[derive(Clone, Debug, PartialEq, Eq)]
pub struct Domain {
    /// The backing token.
    pub token_id: u128,
    /// Name of the parent domain, if this is a child domain.
    pub parent_id: Option<String>,
    /// When the domain was minted, in milliseconds since the epoch.
    pub minted_at: i64,
    /// When the domain expires; `None` means it never expires.  Always
    /// `None` for a child domain: a child follows its root ancestor.
    pub expires_at: Option<i64>,
    /// The attached records, keyed by class.
    pub records: Vec<(RecordClass, Record)>,
}

/// Whether a root domain with this expiration field is active at `now`.
pub open spec fn spec_active_at(expires_at: Option<i64>, now: i64) -> bool {
    match expires_at {
        None => true,
        Some(e) => e > now,
    }
}

/// Index of the entry for the given class, if present.
fn find_record(v: &Vec<(RecordClass, Record)>, class: RecordClass) -> (r: Option<usize>)
    ensures
        match r {
            Some(i) => i < v@.len() && v@[i as int].0 == class && assoc_get(v@, class) == Some(
                v@[i as int].1,
            ),
            None => assoc_get(v@, class) is None,
        },
{
    let mut i: usize = 0;
    while i < v.len()
        invariant
            i <= v@.len(),
            forall|j: int| 0 <= j < i ==> (#[trigger] v@[j]).0 != class,
        decreases v@.len() - i,
    {
        if v[i].0 == class {
            proof {
                lemma_assoc_get_index(v@, class, i as int);
            }
            return Some(i);
        }
        i += 1;
    }
    proof {
        lemma_assoc_get_none_iff(v@, class);
    }
    None
}

impl Domain {
    /// The backing token of the domain.
    pub fn get_token_id(&self) -> (r: u128)
        ensures
            r == self.token_id,
    {
        self.token_id
    }

    /// When the domain was minted.
    pub fn get_minted_at(&self) -> (r: i64)
        ensures
            r == self.minted_at,
    {
        self.minted_at
    }

    /// The record stored under `class`, if any.
    pub fn get_record(&self, class: RecordClass) -> (r: Option<&Record>)
        ensures
            match r {
                Some(rec) => assoc_get(self.records@, class) == Some(*rec),
                None => assoc_get(self.records@, class) is None,
            },
    {
        match find_record(&self.records, class) {
            Some(i) => Some(&self.records[i].1),
            None => None,
        }
    }

    /// Whether a record of `class` is attached.
    pub fn is_record_minted(&self, class: RecordClass) -> (r: bool)
        ensures
            r == assoc_get(self.records@, class) is Some,
    {
        find_record(&self.records, class).is_some()
    }

    /// Whether the domain, taken on its own expiration field, is active at
    /// `now`.  A child domain stores no expiration and is always active
    /// here; its effective activity is the root ancestor's.
    pub fn is_active(&self, now: i64) -> (r: bool)
        ensures
            r == spec_active_at(self.expires_at, now),
    {
        match self.expires_at {
            None => true,
            Some(e) => e > now,
        }
    }

    /// Attaches a record under `class`.
    ///
    /// Fails with `RecordAlreadyMinted` exactly when the class is taken.
    pub fn mint_record(&mut self, class: RecordClass, data: &Vec<u8>) -> (r: Result<
        (),
        ContractError,
    >)
        requires
            unique_keys(old(self).records@),
        ensures
            unique_keys(final(self).records@),
            r is Err ==> *final(self) == *old(self) && r == Err::<(), ContractError>(
                ContractError::RecordAlreadyMinted,
            ),
            r is Err <==> assoc_get(old(self).records@, class) is Some,
            r is Ok ==> ({
                let g = assoc_get(final(self).records@, class);
                g is Some && g.unwrap().data@ == data@
            }),
            forall|c: RecordClass|
                c != class ==> #[trigger] assoc_get(final(self).records@, c) == assoc_get(
                    old(self).records@,
                    c,
                ),
            final(self).token_id == old(self).token_id,
            final(self).parent_id == old(self).parent_id,
            final(self).minted_at == old(self).minted_at,
            final(self).expires_at == old(self).expires_at,
    {
        let ghost s0 = self.records@;
        if find_record(&self.records, class).is_some() {
            return Err(ContractError::RecordAlreadyMinted);
        }
        let rec = Record { data: clone_bytes(data) };
        self.records.push((class, rec));
        proof {
            let e2 = self.records@.last();
            assert forall|c: RecordClass| true implies #[trigger] assoc_get(self.records@, c) == (
            if assoc_get(s0, c) is Some {
                assoc_get(s0, c)
            } else if c == class {
                Some(e2.1)
            } else {
                None::<Record>
            }) by {
                lemma_assoc_get_push(s0, c, class, e2.1);
                assert(s0.push((class, e2.1)) =~= self.records@);
            }
            lemma_unique_push(s0, class, e2.1);
            assert(s0.push((class, e2.1)) =~= self.records@);
        }
        Ok(())
    }

    /// Replaces the payload of the record under `class`.
    ///
    /// Fails with `RecordNotFound` exactly when no such record exists.
    pub fn update_record_data(&mut self, class: RecordClass, data: &Vec<u8>) -> (r: Result<
        (),
        ContractError,
    >)
        requires
            unique_keys(old(self).records@),
        ensures
            unique_keys(final(self).records@),
            r is Err ==> *final(self) == *old(self) && r == Err::<(), ContractError>(
                ContractError::RecordNotFound,
            ),
            r is Err <==> assoc_get(old(self).records@, class) is None,
            r is Ok ==> ({
                let g = assoc_get(final(self).records@, class);
                g is Some && g.unwrap().data@ == data@
            }),
            forall|c: RecordClass|
                c != class ==> #[trigger] assoc_get(final(self).records@, c) == assoc_get(
                    old(self).records@,
                    c,
                ),
            final(self).token_id == old(self).token_id,
            final(self).parent_id == old(self).parent_id,
            final(self).minted_at == old(self).minted_at,
            final(self).expires_at == old(self).expires_at,
    {
        let ghost s0 = self.records@;
        let i = match find_record(&self.records, class) {
            Some(i) => i,
            None => {
                return Err(ContractError::RecordNotFound);
            },
        };
        let entry = &mut self.records[i];
        entry.1 = Record { data: clone_bytes(data) };
        proof {
            let e2 = self.records@[i as int];
            assert(self.records@ =~= s0.update(i as int, e2));
            assert forall|c: RecordClass| true implies #[trigger] assoc_get(self.records@, c) == (
            if c == class {
                Some(e2.1)
            } else {
                assoc_get(s0, c)
            }) by {
                lemma_assoc_get_update(s0, i as int, e2, c);
            }
            lemma_unique_update(s0, i as int, e2);
        }
        Ok(())
    }

    /// Detaches the record under `class`.
    ///
    /// Fails with `RecordNotFound` exactly when no such record exists.
    pub fn delete_record(&mut self, class: RecordClass) -> (r: Result<(), ContractError>)
        requires
            unique_keys(old(self).records@),
        ensures
            unique_keys(final(self).records@),
            r is Err ==> *final(self) == *old(self) && r == Err::<(), ContractError>(
                ContractError::RecordNotFound,
            ),
            r is Err <==> assoc_get(old(self).records@, class) is None,
            r is Ok ==> assoc_get(final(self).records@, class) is None,
            forall|c: RecordClass|
                c != class ==> #[trigger] assoc_get(final(self).records@, c) == assoc_get(
                    old(self).records@,
                    c,
                ),
            final(self).token_id == old(self).token_id,
            final(self).parent_id == old(self).parent_id,
            final(self).minted_at == old(self).minted_at,
            final(self).expires_at == old(self).expires_at,
    {
        let ghost s0 = self.records@;
        let i = match find_record(&self.records, class) {
            Some(i) => i,
            None => {
                return Err(ContractError::RecordNotFound);
            },
        };
        self.records.remove(i);
        proof {
            assert forall|c: RecordClass| true implies #[trigger] assoc_get(self.records@, c) == (
            if c == class {
                None::<Record>
            } else {
                assoc_get(s0, c)
            }) by {
                lemma_assoc_get_remove(s0, i as int, c);
            }
            lemma_unique_remove(s0, i as int);
        }
        Ok(())
    }

    /// Detaches every record.  Never fails, also on a domain with none.
    pub fn delete_all_records(&mut self)
        ensures
            final(self).records@.len() == 0,
            forall|c: RecordClass| #[trigger] assoc_get(final(self).records@, c) is None,
            final(self).token_id == old(self).token_id,
            final(self).parent_id == old(self).parent_id,
            final(self).minted_at == old(self).minted_at,
            final(self).expires_at == old(self).expires_at,
    {
        self.records.clear();
    }
}

/// A valid domain-name character: a lowercase ASCII letter, a digit, or a
/// hyphen.
pub open spec fn spec_valid_char(c: char) -> bool {
    ('a' <= c && c <= 'z') || ('0' <= c && c <= '9') || c == '-'
}

/// A valid domain name: between one and [`MAX_DOMAIN_LEN`] characters, all
/// of them valid.
pub open spec fn spec_valid_name(v: Seq<char>) -> bool {
    &&& 1 <= v.len() <= MAX_DOMAIN_LEN
    &&& forall|i: int| 0 <= i < v.len() ==> spec_valid_char(#[trigger] v[i])
}

/// Checks the domain-name format.
pub fn validate_domain(name: &String) -> (r: bool)
    ensures
        r == spec_valid_name(name@),
{
    let s = name.as_str();
    let n = s.unicode_len();
    if n < 1 || n > MAX_DOMAIN_LEN {
        return false;
    }
    let mut i: usize = 0;
    while i < n
        invariant
            i <= n,
            n == s@.len(),
            s@ == name@,
            forall|j: int| 0 <= j < i ==> spec_valid_char(#[trigger] s@[j]),
        decreases n - i,
    {
        let c = s.get_char(i);
        if !(('a' <= c && c <= 'z') || ('0' <= c && c <= '9') || c == '-') {
            return false;
        }
        i += 1;
    }
    true
}

/// Parameters of a domain mint.
#[derive(Clone, Debug, PartialEq, Eq)]
pub struct PnsMintMsg {
    /// The name to mint.
    pub domain: String,
    /// The backing token.
    pub token_id: u128,
    /// Name of the parent domain, if a child domain is minted.
    pub parent_id: Option<String>,
    /// Expiration for a root domain; ignored for a child domain.
    pub expires_at: Option<i64>,
}

/// Parameters of a record mint.
#[derive(Clone, Debug, PartialEq, Eq)]
pub struct PnsRecordMintMsg {
    /// The domain carrying the record.
    pub domain: String,
    /// The record class.
    pub class: RecordClass,
    /// The payload.
    pub data: Vec<u8>,
}

/// Parameters of a record update.
#[derive(Clone, Debug, PartialEq, Eq)]
pub struct PnsRecordUpdateMsg {
    /// The domain carrying the record.
    pub domain: String,
    /// The record class.
    pub class: RecordClass,
    /// The new payload.
    pub data: Vec<u8>,
}

/// Parameters of a record deletion.
#[derive(Clone, Debug, PartialEq, Eq)]
pub struct PnsRecordDeleteMsg {
    /// The domain carrying the record.
    pub domain: String,
    /// The record class.
    pub class: RecordClass,
}

/// Parameters of a bulk record deletion.
#[derive(Clone, Debug, PartialEq, Eq)]
pub struct PnsRecordDeleteAllMsg {
    /// The domain whose records are cleared.
    pub domain: String,
}

/// Parameters of an expiration update.
#[derive(Clone, Debug, PartialEq, Eq)]
pub struct PnsDomainUpdateExpirationMsg {
    /// The domain whose expiration moves.
    pub domain: String,
    /// The new expiration; `None` for never.
    pub expires_at: Option<i64>,
}

/// The domain registry component.
#[derive(Clone, Debug, PartialEq, Eq)]
pub struct PartisiaNameSystemState {
    /// Version metadata.
    pub version: ContractVersionBase,
    /// Entries `(name, domain)` with pairwise-distinct names; a child's
    /// parent always stands at a smaller index.
    pub domains: Vec<(String, Domain)>,
}

impl PartisiaNameSystemState {
    /// The entries with names abstracted to character sequences.
    pub open spec fn spec_domains(self) -> Seq<(Seq<char>, Domain)> {
        self.domains@.map_values(|p: (String, Domain)| (p.0@, p.1))
    }

    /// The domain minted under `name`, if any.
    pub open spec fn spec_get_domain(self, name: Seq<char>) -> Option<Domain> {
        assoc_get(self.spec_domains(), name)
    }

    /// Whether `name` is minted.
    pub open spec fn spec_is_minted(self, name: Seq<char>) -> bool {
        self.spec_get_domain(name) is Some
    }

    /// Whether some minted domain is backed by `token_id`.
    pub open spec fn spec_token_used(self, token_id: u128) -> bool {
        exists|i: int|
            0 <= i < self.spec_domains().len() && (#[trigger] self.spec_domains()[i]).1.token_id
                == token_id
    }

    /// The index of the entry named `name`.
    pub open spec fn spec_key_index(self, name: Seq<char>) -> int {
        choose|j: int|
            0 <= j < self.spec_domains().len() && (#[trigger] self.spec_domains()[j]).0 == name
    }

    /// Well-formedness of the entry at index `i`: records keyed uniquely, a
    /// child's parent minted at a smaller index and no expiration of its
    /// own, and the backing token unused by every earlier entry.
    pub open spec fn entry_wf(self, i: int) -> bool {
        let d = self.spec_domains()[i].1;
        &&& unique_keys(d.records@)
        &&& match d.parent_id {
            Some(p) => (exists|j: int|
                0 <= j < i && (#[trigger] self.spec_domains()[j]).0 == p@) && d.expires_at is None,
            None => true,
        }
        &&& forall|j: int|
            0 <= j < i ==> (#[trigger] self.spec_domains()[j]).1.token_id != d.token_id
    }

    /// Well-formedness of the registry.
    pub open spec fn wf(self) -> bool {
        &&& unique_keys(self.spec_domains())
        &&& forall|i: int| 0 <= i < self.spec_domains().len() ==> #[trigger] self.entry_wf(i)
    }

    /// The root ancestor of `name` with its own name, found within `fuel`
    /// steps of the parent chain.
    pub open spec fn spec_root_of(self, name: Seq<char>, fuel: nat) -> Option<(Seq<char>, Domain)>
        decreases fuel,
    {
        if fuel == 0 {
            None
        } else {
            match assoc_get(self.spec_domains(), name) {
                None => None,
                Some(d) => match d.parent_id {
                    None => Some((name, d)),
                    Some(p) => self.spec_root_of(p@, (fuel - 1) as nat),
                },
            }
        }
    }

    /// The root ancestor of `name`: the domain itself when it has no
    /// parent.  In a well-formed registry this is defined for every minted
    /// name, because the chain descends through strictly smaller indices.
    pub open spec fn spec_root(self, name: Seq<char>) -> Option<(Seq<char>, Domain)> {
        self.spec_root_of(name, self.spec_domains().len() + 1)
    }

    /// Whether `name` is minted and its root ancestor is unexpired at
    /// `now`.
    pub open spec fn spec_is_active(self, name: Seq<char>, now: i64) -> bool {
        match self.spec_root(name) {
            Some(r) => spec_active_at(r.1.expires_at, now),
            None => false,
        }
    }

    /// The index of a minted name is the unique entry carrying it.
    pub proof fn lemma_key_index(self, name: Seq<char>)
        requires
            unique_keys(self.spec_domains()),
            self.spec_is_minted(name),
        ensures
            ({
                let i = self.spec_key_index(name);
                &&& 0 <= i < self.spec_domains().len()
                &&& self.spec_domains()[i].0 == name
                &&& self.spec_get_domain(name) == Some(self.spec_domains()[i].1)
                &&& forall|j: int|
                    0 <= j < self.spec_domains().len() && (#[trigger] self.spec_domains()[j]).0
                        == name ==> j == i
            }),
    {
        lemma_assoc_get_none_iff(self.spec_domains(), name);
        let i = self.spec_key_index(name);
        assert(0 <= i < self.spec_domains().len() && self.spec_domains()[i].0 == name);
        assert forall|j: int|
            0 <= j < self.spec_domains().len() && (#[trigger] self.spec_domains()[j]).0
                == name implies j == i by {}
        lemma_assoc_get_index(self.spec_domains(), name, i);
    }

    /// A child's parent is minted at a strictly smaller index.
    pub proof fn lemma_parent_index(self, i: int)
        requires
            self.wf(),
            0 <= i < self.spec_domains().len(),
            self.spec_domains()[i].1.parent_id is Some,
        ensures
            ({
                let p = self.spec_domains()[i].1.parent_id.unwrap()@;
                &&& self.spec_is_minted(p)
                &&& 0 <= self.spec_key_index(p) < i
            }),
    {
        assert(self.entry_wf(i));
        let p = self.spec_domains()[i].1.parent_id.unwrap()@;
        let j = choose|j: int|
            0 <= j < i && (#[trigger] self.spec_domains()[j]).0 == p;
        assert forall|j2: int| 0 <= j2 < j implies (#[trigger] self.spec_domains()[j2]).0 != p by {}
        lemma_assoc_get_index(self.spec_domains(), p, j);
        self.lemma_key_index(p);
    }

    /// In a well-formed registry, any fuel above the entry's index reaches
    /// the root: the result exists, is a minted parentless domain, and does
    /// not depend on the fuel.
    pub proof fn lemma_root_of(self, name: Seq<char>, fuel: nat)
        requires
            self.wf(),
            self.spec_is_minted(name),
            fuel > self.spec_key_index(name),
        ensures
            ({
                let r = self.spec_root_of(name, fuel);
                &&& r is Some
                &&& r == self.spec_root(name)
                &&& self.spec_get_domain(r.unwrap().0) == Some(r.unwrap().1)
                &&& r.unwrap().1.parent_id is None
                &&& self.spec_key_index(r.unwrap().0) <= self.spec_key_index(name)
            }),
        decreases self.spec_key_index(name),
    {
        self.lemma_key_index(name);
        let i = self.spec_key_index(name);
        let d = self.spec_domains()[i].1;
        match d.parent_id {
            None => {},
            Some(ps) => {
                let p = ps@;
                self.lemma_parent_index(i);
                let j = self.spec_key_index(p);
                self.lemma_root_of(p, (fuel - 1) as nat);
                self.lemma_root_of(p, self.spec_domains().len() as nat);
                assert(self.spec_root_of(name, fuel) == self.spec_root_of(p, (fuel - 1) as nat));
                assert(self.spec_root(name) == self.spec_root_of(
                    p,
                    self.spec_domains().len() as nat,
                ));
            },
        }
    }

    /// Replacing one entry's records or expiration — name, token and
    /// parent untouched, a child keeping no expiration — preserves
    /// well-formedness and moves only that name's lookup.
    proof fn lemma_wf_update_entry(self, s2: PartisiaNameSystemState, i: int)
        requires
            self.wf(),
            0 <= i < self.spec_domains().len(),
            s2.spec_domains().len() == self.spec_domains().len(),
            forall|k: int|
                0 <= k < self.spec_domains().len() && k != i ==> #[trigger] s2.spec_domains()[k]
                    == self.spec_domains()[k],
            s2.spec_domains()[i].0 == self.spec_domains()[i].0,
            s2.spec_domains()[i].1.token_id == self.spec_domains()[i].1.token_id,
            s2.spec_domains()[i].1.parent_id == self.spec_domains()[i].1.parent_id,
            unique_keys(s2.spec_domains()[i].1.records@),
            s2.spec_domains()[i].1.parent_id is Some ==> s2.spec_domains()[i].1.expires_at is None,
        ensures
            s2.wf(),
            assoc_get(s2.spec_domains(), self.spec_domains()[i].0) == Some(s2.spec_domains()[i].1),
            forall|n: Seq<char>|
                n != self.spec_domains()[i].0 ==> #[trigger] assoc_get(s2.spec_domains(), n)
                    == assoc_get(self.spec_domains(), n),
    {
        let sa = self.spec_domains();
        let sb = s2.spec_domains();
        assert(sb =~= sa.update(i, sb[i]));
        assert forall|n: Seq<char>| true implies #[trigger] assoc_get(sb, n) == (if n == sa[i].0 {
            Some(sb[i].1)
        } else {
            assoc_get(sa, n)
        }) by {
            lemma_assoc_get_update(sa, i, sb[i], n);
        }
        lemma_unique_update(sa, i, sb[i]);
        assert forall|j: int|
            0 <= j < sb.len() implies (#[trigger] sb[j]).0 == sa[j].0 && sb[j].1.token_id
            == sa[j].1.token_id && sb[j].1.parent_id == sa[j].1.parent_id by {}
        assert forall|k: int| 0 <= k < sb.len() implies #[trigger] s2.entry_wf(k) by {
            assert(self.entry_wf(k));
            if k != i {
                assert(sb[k].1 == sa[k].1);
            }
            match sb[k].1.parent_id {
                Some(p) => {
                    let j = choose|j: int| 0 <= j < k && (#[trigger] sa[j]).0 == p@;
                    assert(sb[j].0 == p@);
                },
                None => {},
            }
        }
    }

    /// Appending an entry with a fresh name, a fresh token, duplicate-free
    /// records and — when it is a child — a minted parent and no
    /// expiration, preserves well-formedness and adds only that name.
    proof fn lemma_wf_push_entry(self, s2: PartisiaNameSystemState)
        requires
            self.wf(),
            s2.spec_domains().len() == self.spec_domains().len() + 1,
            forall|k: int|
                0 <= k < self.spec_domains().len() ==> #[trigger] s2.spec_domains()[k]
                    == self.spec_domains()[k],
            !self.spec_is_minted(s2.spec_domains().last().0),
            !self.spec_token_used(s2.spec_domains().last().1.token_id),
            unique_keys(s2.spec_domains().last().1.records@),
            match s2.spec_domains().last().1.parent_id {
                Some(p) => self.spec_is_minted(p@) && s2.spec_domains().last().1.expires_at
                    is None,
                None => true,
            },
        ensures
            s2.wf(),
            assoc_get(s2.spec_domains(), s2.spec_domains().last().0) == Some(
                s2.spec_domains().last().1,
            ),
            forall|n: Seq<char>|
                n != s2.spec_domains().last().0 ==> #[trigger] assoc_get(s2.spec_domains(), n)
                    == assoc_get(self.spec_domains(), n),
    {
        let sa = self.spec_domains();
        let sb = s2.spec_domains();
        let e = sb.last();
        assert(sb =~= sa.push(e));
        assert forall|n: Seq<char>| true implies #[trigger] assoc_get(sb, n) == (
        if assoc_get(sa, n) is Some {
            assoc_get(sa, n)
        } else if n == e.0 {
            Some(e.1)
        } else {
            None::<Domain>
        }) by {
            lemma_assoc_get_push(sa, n, e.0, e.1);
            assert(sa.push((e.0, e.1)) =~= sb);
        }
        lemma_unique_push(sa, e.0, e.1);
        assert(sa.push((e.0, e.1)) =~= sb);
        assert forall|k: int| 0 <= k < sb.len() implies #[trigger] s2.entry_wf(k) by {
            if k < sa.len() {
                assert(self.entry_wf(k));
                assert(sb[k].1 == sa[k].1);
                match sb[k].1.parent_id {
                    Some(p) => {
                        let j = choose|j: int| 0 <= j < k && (#[trigger] sa[j]).0 == p@;
                        assert(sb[j].0 == p@);
                    },
                    None => {},
                }
            } else {
                match e.1.parent_id {
                    Some(p) => {
                        self.lemma_key_index(p@);
                        let j = self.spec_key_index(p@);
                        assert(sb[j].0 == p@);
                    },
                    None => {},
                }
                assert forall|j: int| 0 <= j < k implies (#[trigger] sb[j]).1.token_id
                    != e.1.token_id by {
                    if sa[j].1.token_id == e.1.token_id {
                        assert(self.spec_token_used(e.1.token_id));
                    }
                }
            }
        }
    }

    /// A minted domain's backing token counts as used.
    pub proof fn lemma_minted_token_used(self, name: Seq<char>)
        requires
            unique_keys(self.spec_domains()),
            self.spec_is_minted(name),
        ensures
            self.spec_token_used(self.spec_get_domain(name).unwrap().token_id),
    {
        self.lemma_key_index(name);
        let i = self.spec_key_index(name);
        assert(0 <= i < self.spec_domains().len() && (#[trigger] self.spec_domains()[i]).1.token_id
            == self.spec_get_domain(name).unwrap().token_id);
    }

    /// Two minted domains sharing a backing token are the same domain.
    pub proof fn lemma_token_unique(self, n1: Seq<char>, n2: Seq<char>)
        requires
            self.wf(),
            self.spec_is_minted(n1),
            self.spec_is_minted(n2),
            self.spec_get_domain(n1).unwrap().token_id == self.spec_get_domain(
                n2,
            ).unwrap().token_id,
        ensures
            n1 == n2,
    {
        self.lemma_key_index(n1);
        self.lemma_key_index(n2);
        let i1 = self.spec_key_index(n1);
        let i2 = self.spec_key_index(n2);
        if i1 < i2 {
            assert(self.entry_wf(i2));
        } else if i2 < i1 {
            assert(self.entry_wf(i1));
        }
    }

    /// A parentless minted domain is its own root.
    pub proof fn lemma_root_self(self, name: Seq<char>)
        requires
            self.wf(),
            self.spec_is_minted(name),
            self.spec_get_domain(name).unwrap().parent_id is None,
        ensures
            self.spec_root(name) == Some((name, self.spec_get_domain(name).unwrap())),
    {
        self.lemma_key_index(name);
    }

    /// A child shares its root with its parent, which stands at a strictly
    /// smaller index.
    pub proof fn lemma_root_step(self, name: Seq<char>)
        requires
            self.wf(),
            self.spec_is_minted(name),
            self.spec_get_domain(name).unwrap().parent_id is Some,
        ensures
            ({
                let p = self.spec_get_domain(name).unwrap().parent_id.unwrap()@;
                &&& self.spec_is_minted(p)
                &&& 0 <= self.spec_key_index(p) < self.spec_key_index(name)
                &&& self.spec_root(name) == self.spec_root(p)
            }),
    {
        self.lemma_key_index(name);
        let i = self.spec_key_index(name);
        self.lemma_parent_index(i);
        let p = self.spec_get_domain(name).unwrap().parent_id.unwrap()@;
        self.lemma_root_of(name, (self.spec_domains().len() + 1) as nat);
        self.lemma_root_of(p, self.spec_domains().len() as nat);
        self.lemma_root_of(p, (self.spec_domains().len() + 1) as nat);
        assert(self.spec_root(name) == self.spec_root_of(
            p,
            self.spec_domains().len() as nat,
        ));
    }

    /// A child domain is active exactly when its root ancestor is: the law
    /// of inherited activity.
    pub proof fn lemma_active_iff_root_active(self, name: Seq<char>, now: i64)
        requires
            self.wf(),
            self.spec_is_minted(name),
        ensures
            self.spec_root(name) is Some,
            self.spec_is_active(name, now) == self.spec_is_active(
                self.spec_root(name).unwrap().0,
                now,
            ),
    {
        self.lemma_key_index(name);
        self.lemma_root_of(name, (self.spec_domains().len() + 1) as nat);
        let r = self.spec_root(name).unwrap();
        self.lemma_key_index(r.0);
        assert(self.spec_root(r.0) == Some(r));
    }
    /// Index of the entry named `name`, if minted.
    fn find_domain(&self, name: &String) -> (r: Option<usize>)
        ensures
            match r {
                Some(i) => i < self.domains@.len() && self.spec_domains()[i as int].0 == name@
                    && self.spec_get_domain(name@) == Some(self.spec_domains()[i as int].1),
                None => self.spec_get_domain(name@) is None,
            },
    {
        let mut i: usize = 0;
        while i < self.domains.len()
            invariant
                i <= self.domains@.len(),
                forall|j: int| 0 <= j < i ==> (#[trigger] self.spec_domains()[j]).0 != name@,
            decreases self.domains@.len() - i,
        {
            if self.domains[i].0 == *name {
                proof {
                    lemma_assoc_get_index(self.spec_domains(), name@, i as int);
                }
                return Some(i);
            }
            i += 1;
        }
        proof {
            lemma_assoc_get_none_iff(self.spec_domains(), name@);
        }
        None
    }

    /// The domain minted under `name`, if any.
    pub fn get_domain(&self, name: &String) -> (r: Option<&Domain>)
        ensures
            match r {
                Some(d) => self.spec_get_domain(name@) == Some(*d),
                None => self.spec_get_domain(name@) is None,
            },
    {
        match self.find_domain(name) {
            Some(i) => Some(&self.domains[i].1),
            None => None,
        }
    }

    /// Whether `name` is minted.
    pub fn is_minted(&self, name: &String) -> (r: bool)
        ensures
            r == self.spec_is_minted(name@),
    {
        self.find_domain(name).is_some()
    }

    /// The backing token of `name`, if minted.
    pub fn get_token_id(&self, name: &String) -> (r: Option<u128>)
        ensures
            match r {
                Some(id) => self.spec_get_domain(name@) is Some && self.spec_get_domain(
                    name@,
                ).unwrap().token_id == id,
                None => self.spec_get_domain(name@) is None,
            },
    {
        match self.find_domain(name) {
            Some(i) => Some(self.domains[i].1.token_id),
            None => None,
        }
    }

    /// Whether some minted domain is backed by `token_id`.
    pub fn token_used(&self, token_id: u128) -> (r: bool)
        ensures
            r == self.spec_token_used(token_id),
    {
        let mut i: usize = 0;
        while i < self.domains.len()
            invariant
                i <= self.domains@.len(),
                forall|j: int|
                    0 <= j < i ==> (#[trigger] self.spec_domains()[j]).1.token_id != token_id,
            decreases self.domains@.len() - i,
        {
            if self.domains[i].1.token_id == token_id {
                proof {
                    let ii = i as int;
                    assert(0 <= ii < self.spec_domains().len() && (
                    #[trigger] self.spec_domains()[ii]).1.token_id == token_id);
                }
                return true;
            }
            i += 1;
        }
        false
    }

    /// The name and domain backed by `token_id`, if any.
    pub fn get_domain_by_token_id(&self, token_id: u128) -> (r: Option<(&String, &Domain)>)
        requires
            self.wf(),
        ensures
            match r {
                Some(p) => self.spec_get_domain(p.0@) == Some(*p.1) && p.1.token_id == token_id,
                None => !self.spec_token_used(token_id),
            },
    {
        let mut i: usize = 0;
        while i < self.domains.len()
            invariant
                self.wf(),
                i <= self.domains@.len(),
                forall|j: int|
                    0 <= j < i ==> (#[trigger] self.spec_domains()[j]).1.token_id != token_id,
            decreases self.domains@.len() - i,
        {
            if self.domains[i].1.token_id == token_id {
                proof {
                    assert forall|j: int| 0 <= j < i as int implies (
                    #[trigger] self.spec_domains()[j]).0 != self.spec_domains()[i as int].0 by {}
                    lemma_assoc_get_index(
                        self.spec_domains(),
                        self.spec_domains()[i as int].0,
                        i as int,
                    );
                }
                return Some((&self.domains[i].0, &self.domains[i].1));
            }
            i += 1;
        }
        None
    }

    /// Index of the root ancestor of the entry at `start`.
    fn root_index(&self, start: usize) -> (r: usize)
        requires
            self.wf(),
            start < self.domains@.len(),
            self.spec_key_index(self.spec_domains()[start as int].0) == start,
        ensures
            r < self.domains@.len(),
            self.spec_root(self.spec_domains()[start as int].0) == Some(
                (self.spec_domains()[r as int].0, self.spec_domains()[r as int].1),
            ),
            self.spec_domains()[r as int].1.parent_id is None,
    {
        let ghost start_key = self.spec_domains()[start as int].0;
        let mut idx = start;
        let ghost mut cur: Seq<char> = start_key;
        proof {
            lemma_assoc_get_index(self.spec_domains(), cur, idx as int);
            self.lemma_root_of(cur, (self.spec_domains().len() + 1) as nat);
        }
        loop
            invariant
                self.wf(),
                idx < self.domains@.len(),
                start < self.domains@.len(),
                self.spec_domains()[start as int].0 == start_key,
                self.spec_domains()[idx as int].0 == cur,
                self.spec_is_minted(cur),
                self.spec_key_index(cur) == idx,
                self.spec_root(start_key) == self.spec_root(cur),
                self.spec_root(cur) is Some,
            decreases idx,
        {
            match &self.domains[idx].1.parent_id {
                None => {
                    proof {
                        self.lemma_key_index(cur);
                        self.lemma_root_self(cur);
                    }
                    return idx;
                },
                Some(p) => {
                    proof {
                        self.lemma_key_index(cur);
                        self.lemma_root_step(cur);
                        self.lemma_key_index(p@);
                    }
                    let pidx = match self.find_domain(p) {
                        Some(j) => j,
                        None => {
                            proof {
                                assert(false);
                            }
                            0
                        },
                    };
                    proof {
                        self.lemma_key_index(p@);
                        cur = p@;
                    }
                    idx = pidx;
                },
            }
        }
    }

    /// Whether `name` is minted and unexpired at `now`, a child following
    /// its root ancestor.
    pub fn is_active(&self, name: &String, now: i64) -> (r: bool)
        requires
            self.wf(),
        ensures
            r == self.spec_is_active(name@, now),
    {
        let idx = match self.find_domain(name) {
            Some(i) => i,
            None => {
                return false;
            },
        };
        proof {
            self.lemma_key_index(name@);
        }
        let ridx = self.root_index(idx);
        let d = &self.domains[ridx].1;
        d.is_active(now)
    }

    /// The parent domain of `name`: present exactly when `name` is minted
    /// and is a child domain.
    pub fn get_parent(&self, name: &String) -> (r: Option<&Domain>)
        requires
            self.wf(),
        ensures
            match r {
                Some(d) => self.spec_is_minted(name@) && self.spec_get_domain(
                    name@,
                ).unwrap().parent_id is Some && self.spec_get_domain(
                    self.spec_get_domain(name@).unwrap().parent_id.unwrap()@,
                ) == Some(*d),
                None => !self.spec_is_minted(name@) || self.spec_get_domain(
                    name@,
                ).unwrap().parent_id is None,
            },
    {
        let idx = match self.find_domain(name) {
            Some(i) => i,
            None => {
                return None;
            },
        };
        match &self.domains[idx].1.parent_id {
            Some(p) => {
                proof {
                    self.lemma_key_index(name@);
                    self.lemma_parent_index(idx as int);
                }
                match self.find_domain(p) {
                    Some(j) => Some(&self.domains[j].1),
                    None => {
                        proof {
                            assert(false);
                        }
                        None
                    },
                }
            },
            None => None,
        }
    }

    /// The root ancestor of `name`: present exactly when `name` is minted
    /// and is a child domain, as the chain's last element.
    pub fn get_root_parent(&self, name: &String) -> (r: Option<&Domain>)
        requires
            self.wf(),
        ensures
            match r {
                Some(d) => self.spec_is_minted(name@) && self.spec_get_domain(
                    name@,
                ).unwrap().parent_id is Some && self.spec_root(name@) is Some && *d
                    == self.spec_root(name@).unwrap().1,
                None => !self.spec_is_minted(name@) || self.spec_get_domain(
                    name@,
                ).unwrap().parent_id is None,
            },
    {
        let idx = match self.find_domain(name) {
            Some(i) => i,
            None => {
                return None;
            },
        };
        if self.domains[idx].1.parent_id.is_none() {
            return None;
        }
        proof {
            self.lemma_key_index(name@);
        }
        let ridx = self.root_index(idx);
        Some(&self.domains[ridx].1)
    }

    /// The ancestors of `name`, nearest first: its parent, then the
    /// parent's parent, ending with the root.  Empty exactly when `name`
    /// is not minted or has no parent.
    pub fn get_parents(&self, name: &String) -> (r: Vec<&Domain>)
        requires
            self.wf(),
        ensures
            (r@.len() == 0) == (!self.spec_is_minted(name@) || self.spec_get_domain(
                name@,
            ).unwrap().parent_id is None),
            r@.len() > 0 ==> ({
                let d0 = self.spec_get_domain(name@).unwrap();
                &&& d0.parent_id is Some
                &&& self.spec_get_domain(d0.parent_id.unwrap()@) == Some(*r@[0])
                &&& *r@[r@.len() - 1] == self.spec_root(name@).unwrap().1
            }),
            forall|j: int|
                0 <= j < r@.len() - 1 ==> (#[trigger] r@[j]).parent_id is Some
                    && self.spec_get_domain(r@[j].parent_id.unwrap()@) == Some(*r@[j + 1]),
            r@.len() > 0 ==> r@[r@.len() - 1].parent_id is None,
    {
        let mut out: Vec<&Domain> = Vec::new();
        let mut idx = match self.find_domain(name) {
            Some(i) => i,
            None => {
                return out;
            },
        };
        proof {
            self.lemma_key_index(name@);
            self.lemma_root_of(name@, (self.spec_domains().len() + 1) as nat);
        }
        let ghost mut cur: Seq<char> = name@;
        loop
            invariant
                self.wf(),
                idx < self.domains@.len(),
                self.spec_domains()[idx as int].0 == cur,
                self.spec_is_minted(cur),
                self.spec_key_index(cur) == idx,
                self.spec_is_minted(name@),
                self.spec_root(name@) == self.spec_root(cur),
                self.spec_root(cur) is Some,
                (out@.len() == 0 && cur == name@) || (out@.len() > 0 && self.spec_get_domain(cur)
                    == Some(*out@.last())),
                out@.len() > 0 ==> self.spec_get_domain(name@).unwrap().parent_id is Some
                    && self.spec_get_domain(
                    self.spec_get_domain(name@).unwrap().parent_id.unwrap()@,
                ) == Some(*out@[0]),
                forall|j: int|
                    0 <= j < out@.len() - 1 ==> (#[trigger] out@[j]).parent_id is Some
                        && self.spec_get_domain(out@[j].parent_id.unwrap()@) == Some(*out@[j + 1]),
            decreases idx,
        {
            match &self.domains[idx].1.parent_id {
                None => {
                    proof {
                        self.lemma_key_index(cur);
                        self.lemma_root_self(cur);
                    }
                    return out;
                },
                Some(p) => {
                    proof {
                        self.lemma_key_index(cur);
                        self.lemma_root_step(cur);
                        self.lemma_key_index(p@);
                    }
                    let pidx = match self.find_domain(p) {
                        Some(j) => j,
                        None => {
                            proof {
                                assert(false);
                            }
                            0
                        },
                    };
                    let ghost out0 = out@;
                    out.push(&self.domains[pidx].1);
                    proof {
                        cur = p@;
                        assert(out@ == out0.push(&self.domains@[pidx as int].1));
                        assert forall|j: int|
                            0 <= j < out@.len() - 1 implies (#[trigger] out@[j]).parent_id
                            is Some && self.spec_get_domain(out@[j].parent_id.unwrap()@) == Some(
                            *out@[j + 1],
                        ) by {
                            if j < out0.len() - 1 {
                                assert(out@[j] == out0[j] && out@[j + 1] == out0[j + 1]);
                            } else {
                                assert(out@[j] == out0.last());
                            }
                        }
                    }
                    idx = pidx;
                },
            }
        }
    }

    /// Mints a domain.
    ///
    /// The errors, in the order they are checked: `AlreadyMinted` when the
    /// name is taken or — for a valid name — the backing token already
    /// backs a domain; `InvalidDomain` when the name fails the format
    /// check; `ParentNotFound` and `ParentNotActive` for a child whose
    /// declared parent is missing or expired at `now`.  A child domain is
    /// stored without an expiration of its own.
    pub fn execute_mint(&mut self, msg: &PnsMintMsg, now: i64) -> (r: Result<(), ContractError>)
        requires
            old(self).wf(),
        ensures
            final(self).wf(),
            r is Err ==> *final(self) == *old(self),
            ({
                let name_taken = old(self).spec_is_minted(msg.domain@);
                let valid = spec_valid_name(msg.domain@);
                let tok_used = old(self).spec_token_used(msg.token_id);
                let parent_ok = match msg.parent_id {
                    Some(p) => old(self).spec_is_minted(p@) && old(self).spec_is_active(p@, now),
                    None => true,
                };
                &&& (r == Err::<(), ContractError>(ContractError::AlreadyMinted) <==> (name_taken
                    || (!name_taken && valid && tok_used)))
                &&& (r == Err::<(), ContractError>(ContractError::InvalidDomain) <==> (!name_taken
                    && !valid))
                &&& (r == Err::<(), ContractError>(ContractError::ParentNotFound) <==> (
                !name_taken && valid && !tok_used && msg.parent_id is Some && !old(
                    self,
                ).spec_is_minted(msg.parent_id.unwrap()@)))
                &&& (r == Err::<(), ContractError>(ContractError::ParentNotActive) <==> (
                !name_taken && valid && !tok_used && msg.parent_id is Some && old(
                    self,
                ).spec_is_minted(msg.parent_id.unwrap()@) && !old(self).spec_is_active(
                    msg.parent_id.unwrap()@,
                    now,
                )))
                &&& (r is Ok <==> (!name_taken && valid && !tok_used && parent_ok))
            }),
            r is Ok ==> ({
                let g = final(self).spec_get_domain(msg.domain@);
                &&& g is Some
                &&& g.unwrap().token_id == msg.token_id
                &&& g.unwrap().parent_id == msg.parent_id
                &&& g.unwrap().minted_at == now
                &&& g.unwrap().expires_at == (if msg.parent_id is Some {
                    None::<i64>
                } else {
                    msg.expires_at
                })
                &&& g.unwrap().records@.len() == 0
            }),
            forall|n: Seq<char>|
                n != msg.domain@ ==> #[trigger] final(self).spec_get_domain(n) == old(
                    self,
                ).spec_get_domain(n),
            final(self).version == old(self).version,
    {
        if self.is_minted(&msg.domain) {
            return Err(ContractError::AlreadyMinted);
        }
        if !validate_domain(&msg.domain) {
            return Err(ContractError::InvalidDomain);
        }
        if self.token_used(msg.token_id) {
            return Err(ContractError::AlreadyMinted);
        }
        let expires = match &msg.parent_id {
            Some(p) => {
                if !self.is_minted(p) {
                    return Err(ContractError::ParentNotFound);
                }
                if !self.is_active(p, now) {
                    return Err(ContractError::ParentNotActive);
                }
                None
            },
            None => msg.expires_at,
        };
        let d = Domain {
            token_id: msg.token_id,
            parent_id: clone_opt_string(&msg.parent_id),
            minted_at: now,
            expires_at: expires,
            records: Vec::new(),
        };
        let ghost s_old = *self;
        self.domains.push((msg.domain.clone(), d));
        proof {
            assert(self.spec_domains().last().0 == msg.domain@);
            s_old.lemma_wf_push_entry(*self);
        }
        Ok(())
    }

    /// Attaches a record to a domain.
    ///
    /// Fails with `NotFound` exactly when the domain is not minted, and
    /// with `RecordAlreadyMinted` exactly when the class is taken.
    pub fn execute_record_mint(&mut self, msg: &PnsRecordMintMsg) -> (r: Result<(), ContractError>)
        requires
            old(self).wf(),
        ensures
            final(self).wf(),
            r is Err ==> *final(self) == *old(self),
            r == Err::<(), ContractError>(ContractError::NotFound) <==> !old(self).spec_is_minted(
                msg.domain@,
            ),
            r == Err::<(), ContractError>(ContractError::RecordAlreadyMinted) <==> (old(
                self,
            ).spec_is_minted(msg.domain@) && assoc_get(
                old(self).spec_get_domain(msg.domain@).unwrap().records@,
                msg.class,
            ) is Some),
            r is Ok <==> (old(self).spec_is_minted(msg.domain@) && assoc_get(
                old(self).spec_get_domain(msg.domain@).unwrap().records@,
                msg.class,
            ) is None),
            r is Ok ==> ({
                let d0 = old(self).spec_get_domain(msg.domain@).unwrap();
                let g = final(self).spec_get_domain(msg.domain@);
                &&& g is Some
                &&& ({
                    let rec = assoc_get(g.unwrap().records@, msg.class);
                    rec is Some && rec.unwrap().data@ == msg.data@
                })
                &&& forall|c: RecordClass|
                    c != msg.class ==> #[trigger] assoc_get(g.unwrap().records@, c) == assoc_get(
                        d0.records@,
                        c,
                    )
                &&& g.unwrap().token_id == d0.token_id
                &&& g.unwrap().parent_id == d0.parent_id
                &&& g.unwrap().minted_at == d0.minted_at
                &&& g.unwrap().expires_at == d0.expires_at
            }),
            forall|n: Seq<char>|
                n != msg.domain@ ==> #[trigger] final(self).spec_get_domain(n) == old(
                    self,
                ).spec_get_domain(n),
            final(self).version == old(self).version,
    {
        let i = match self.find_domain(&msg.domain) {
            Some(i) => i,
            None => {
                return Err(ContractError::NotFound);
            },
        };
        proof {
            assert(old(self).entry_wf(i as int));
        }
        if self.domains[i].1.is_record_minted(msg.class) {
            return Err(ContractError::RecordAlreadyMinted);
        }
        let ghost s_old = *self;
        let entry = &mut self.domains[i];
        let res = entry.1.mint_record(msg.class, &msg.data);
        proof {
            assert(res is Ok);
            s_old.lemma_wf_update_entry(*self, i as int);
        }
        match res {
            Ok(()) => Ok(()),
            Err(e) => Err(e),
        }
    }

    /// Replaces the payload of a record.
    ///
    /// Fails with `NotFound` exactly when the domain is not minted, and
    /// with `RecordNotFound` exactly when no record of the class exists.
    pub fn execute_record_update(&mut self, msg: &PnsRecordUpdateMsg) -> (r: Result<
        (),
        ContractError,
    >)
        requires
            old(self).wf(),
        ensures
            final(self).wf(),
            r is Err ==> *final(self) == *old(self),
            r == Err::<(), ContractError>(ContractError::NotFound) <==> !old(self).spec_is_minted(
                msg.domain@,
            ),
            r == Err::<(), ContractError>(ContractError::RecordNotFound) <==> (old(
                self,
            ).spec_is_minted(msg.domain@) && assoc_get(
                old(self).spec_get_domain(msg.domain@).unwrap().records@,
                msg.class,
            ) is None),
            r is Ok <==> (old(self).spec_is_minted(msg.domain@) && assoc_get(
                old(self).spec_get_domain(msg.domain@).unwrap().records@,
                msg.class,
            ) is Some),
            r is Ok ==> ({
                let d0 = old(self).spec_get_domain(msg.domain@).unwrap();
                let g = final(self).spec_get_domain(msg.domain@);
                &&& g is Some
                &&& ({
                    let rec = assoc_get(g.unwrap().records@, msg.class);
                    rec is Some && rec.unwrap().data@ == msg.data@
                })
                &&& forall|c: RecordClass|
                    c != msg.class ==> #[trigger] assoc_get(g.unwrap().records@, c) == assoc_get(
                        d0.records@,
                        c,
                    )
                &&& g.unwrap().token_id == d0.token_id
                &&& g.unwrap().parent_id == d0.parent_id
                &&& g.unwrap().minted_at == d0.minted_at
                &&& g.unwrap().expires_at == d0.expires_at
            }),
            forall|n: Seq<char>|
                n != msg.domain@ ==> #[trigger] final(self).spec_get_domain(n) == old(
                    self,
                ).spec_get_domain(n),
            final(self).version == old(self).version,
    {
        let i = match self.find_domain(&msg.domain) {
            Some(i) => i,
            None => {
                return Err(ContractError::NotFound);
            },
        };
        proof {
            assert(old(self).entry_wf(i as int));
        }
        if !self.domains[i].1.is_record_minted(msg.class) {
            return Err(ContractError::RecordNotFound);
        }
        let ghost s_old = *self;
        let entry = &mut self.domains[i];
        let res = entry.1.update_record_data(msg.class, &msg.data);
        proof {
            assert(res is Ok);
            s_old.lemma_wf_update_entry(*self, i as int);
        }
        match res {
            Ok(()) => Ok(()),
            Err(e) => Err(e),
        }
    }

    /// Detaches a record from a domain.
    ///
    /// Fails with `NotFound` exactly when the domain is not minted, and
    /// with `RecordNotFound` exactly when no record of the class exists.
    pub fn execute_record_delete(&mut self, msg: &PnsRecordDeleteMsg) -> (r: Result<
        (),
        ContractError,
    >)
        requires
            old(self).wf(),
        ensures
            final(self).wf(),
            r is Err ==> *final(self) == *old(self),
            r == Err::<(), ContractError>(ContractError::NotFound) <==> !old(self).spec_is_minted(
                msg.domain@,
            ),
            r == Err::<(), ContractError>(ContractError::RecordNotFound) <==> (old(
                self,
            ).spec_is_minted(msg.domain@) && assoc_get(
                old(self).spec_get_domain(msg.domain@).unwrap().records@,
                msg.class,
            ) is None),
            r is Ok <==> (old(self).spec_is_minted(msg.domain@) && assoc_get(
                old(self).spec_get_domain(msg.domain@).unwrap().records@,
                msg.class,
            ) is Some),
            r is Ok ==> ({
                let d0 = old(self).spec_get_domain(msg.domain@).unwrap();
                let g = final(self).spec_get_domain(msg.domain@);
                &&& g is Some
                &&& assoc_get(g.unwrap().records@, msg.class) is None
                &&& forall|c: RecordClass|
                    c != msg.class ==> #[trigger] assoc_get(g.unwrap().records@, c) == assoc_get(
                        d0.records@,
                        c,
                    )
                &&& g.unwrap().token_id == d0.token_id
                &&& g.unwrap().parent_id == d0.parent_id
                &&& g.unwrap().minted_at == d0.minted_at
                &&& g.unwrap().expires_at == d0.expires_at
            }),
            forall|n: Seq<char>|
                n != msg.domain@ ==> #[trigger] final(self).spec_get_domain(n) == old(
                    self,
                ).spec_get_domain(n),
            final(self).version == old(self).version,
    {
        let i = match self.find_domain(&msg.domain) {
            Some(i) => i,
            None => {
                return Err(ContractError::NotFound);
            },
        };
        proof {
            assert(old(self).entry_wf(i as int));
        }
        if !self.domains[i].1.is_record_minted(msg.class) {
            return Err(ContractError::RecordNotFound);
        }
        let ghost s_old = *self;
        let entry = &mut self.domains[i];
        let res = entry.1.delete_record(msg.class);
        proof {
            assert(res is Ok);
            s_old.lemma_wf_update_entry(*self, i as int);
        }
        match res {
            Ok(()) => Ok(()),
            Err(e) => Err(e),
        }
    }

    /// Detaches every record of a domain.  Used when the backing token
    /// changes hands; a domain without records is fine.
    ///
    /// Fails with `NotFound` exactly when the domain is not minted.
    pub fn execute_record_delete_all(&mut self, msg: &PnsRecordDeleteAllMsg) -> (r: Result<
        (),
        ContractError,
    >)
        requires
            old(self).wf(),
        ensures
            final(self).wf(),
            r is Err ==> *final(self) == *old(self) && r == Err::<(), ContractError>(
                ContractError::NotFound,
            ),
            r is Err <==> !old(self).spec_is_minted(msg.domain@),
            r is Ok ==> ({
                let d0 = old(self).spec_get_domain(msg.domain@).unwrap();
                let g = final(self).spec_get_domain(msg.domain@);
                &&& g is Some
                &&& g.unwrap().records@.len() == 0
                &&& forall|c: RecordClass| #[trigger] assoc_get(g.unwrap().records@, c) is None
                &&& g.unwrap().token_id == d0.token_id
                &&& g.unwrap().parent_id == d0.parent_id
                &&& g.unwrap().minted_at == d0.minted_at
                &&& g.unwrap().expires_at == d0.expires_at
            }),
            forall|n: Seq<char>|
                n != msg.domain@ ==> #[trigger] final(self).spec_get_domain(n) == old(
                    self,
                ).spec_get_domain(n),
            final(self).version == old(self).version,
    {
        let i = match self.find_domain(&msg.domain) {
            Some(i) => i,
            None => {
                return Err(ContractError::NotFound);
            },
        };
        proof {
            assert(old(self).entry_wf(i as int));
        }
        let ghost s_old = *self;
        let entry = &mut self.domains[i];
        entry.1.delete_all_records();
        proof {
            lemma_assoc_get_none_iff_all::<RecordClass, Record>(
                self.spec_domains()[i as int].1.records@,
            );
            s_old.lemma_wf_update_entry(*self, i as int);
        }
        Ok(())
    }

    /// Moves the expiration of a root domain.
    ///
    /// Fails with `NotFound` exactly when the domain is not minted, and
    /// with `NotRenewable` exactly when it is a child domain, which has no
    /// expiration of its own.
    pub fn execute_update_expiration(&mut self, msg: &PnsDomainUpdateExpirationMsg) -> (r: Result<
        (),
        ContractError,
    >)
        requires
            old(self).wf(),
        ensures
            final(self).wf(),
            r is Err ==> *final(self) == *old(self),
            r == Err::<(), ContractError>(ContractError::NotFound) <==> !old(self).spec_is_minted(
                msg.domain@,
            ),
            r == Err::<(), ContractError>(ContractError::NotRenewable) <==> (old(
                self,
            ).spec_is_minted(msg.domain@) && old(self).spec_get_domain(
                msg.domain@,
            ).unwrap().parent_id is Some),
            r is Ok <==> (old(self).spec_is_minted(msg.domain@) && old(self).spec_get_domain(
                msg.domain@,
            ).unwrap().parent_id is None),
            r is Ok ==> ({
                let d0 = old(self).spec_get_domain(msg.domain@).unwrap();
                let g = final(self).spec_get_domain(msg.domain@);
                &&& g is Some
                &&& g.unwrap().expires_at == msg.expires_at
                &&& g.unwrap().token_id == d0.token_id
                &&& g.unwrap().parent_id == d0.parent_id
                &&& g.unwrap().minted_at == d0.minted_at
                &&& g.unwrap().records@ == d0.records@
            }),
            forall|n: Seq<char>|
                n != msg.domain@ ==> #[trigger] final(self).spec_get_domain(n) == old(
                    self,
                ).spec_get_domain(n),
            final(self).version == old(self).version,
    {
        let i = match self.find_domain(&msg.domain) {
            Some(i) => i,
            None => {
                return Err(ContractError::NotFound);
            },
        };
        if self.domains[i].1.parent_id.is_some() {
            return Err(ContractError::NotRenewable);
        }
        proof {
            assert(old(self).entry_wf(i as int));
        }
        let ghost s_old = *self;
        let entry = &mut self.domains[i];
        entry.1.expires_at = msg.expires_at;
        proof {
            assert(self.spec_domains()[i as int].1.parent_id == s_old.spec_domains()[
                i as int].1.parent_id);
            s_old.lemma_wf_update_entry(*self, i as int);
        }
        Ok(())
    }
}

/// Initializes an empty registry.
pub fn execute_init(version: ContractVersionBase) -> (r: PartisiaNameSystemState)
    ensures
        r.wf(),
        forall|n: Seq<char>| #[trigger] r.spec_get_domain(n) is None,
        r.version == version,
{
    let state = PartisiaNameSystemState { version, domains: Vec::new() };
    proof {
        assert(state.spec_domains() =~= Seq::<(Seq<char>, Domain)>::empty());
    }
    state
}

/// The expiration a renewal produces: the added duration counts from the
/// current expiration when the domain is still alive, and from `now` when
/// it already expired or never had an expiration — an expired domain
/// restarts its clock, an active one extends it, and the total is never
/// shortened.
pub open spec fn spec_new_expiration(expires_at: Option<i64>, now: i64, add_ms: int) -> int {
    (match expires_at {
        Some(e) => if e >= now {
            e as int
        } else {
            now as int
        },
        None => now as int,
    }) + add_ms
}

/// Renewal is monotonic: renewing for `d1` and then for `d2` ends at
/// least `d2` past the first renewal's expiration, and exactly `d2` past
/// it when the first renewal had not expired by the second call.
pub proof fn lemma_renewal_monotonic(
    expires_at: Option<i64>,
    now1: i64,
    d1: int,
    now2: i64,
    d2: int,
)
    requires
        d1 > 0,
        d2 > 0,
        i64::MIN <= spec_new_expiration(expires_at, now1, d1) <= i64::MAX,
    ensures
        ({
            let e1 = spec_new_expiration(expires_at, now1, d1);
            &&& spec_new_expiration(Some(e1 as i64), now2, d2) >= e1 + d2
            &&& e1 >= now2 ==> spec_new_expiration(Some(e1 as i64), now2, d2) == e1 + d2
        }),
{
}

/// An empty association sequence answers no lookup.
proof fn lemma_assoc_get_none_iff_all<K, V>(s: Seq<(K, V)>)
    requires
        s.len() == 0,
    ensures
        forall|k: K| #[trigger] assoc_get(s, k) is None,
{
}

/// A copy of an optional string.
pub fn clone_opt_string(o: &Option<String>) -> (r: Option<String>)
    ensures
        r == *o,
{
    match o {
        Some(s) => Some(s.clone()),
        None => None,
    }
}

/// A copy of a byte vector.
fn clone_bytes(data: &Vec<u8>) -> (r: Vec<u8>)
    ensures
        r@ == data@,
{
    let mut out: Vec<u8> = Vec::new();
    let mut i: usize = 0;
    while i < data.len()
        invariant
            i <= data@.len(),
            out@ =~= data@.take(i as int),
        decreases data@.len() - i,
    {
        out.push(data[i]);
        proof {
            assert(out@ =~= data@.take(i as int + 1));
        }
        i += 1;
    }
    proof {
        assert(data@.take(data@.len() as int) =~= data@);
    }
    out
}

} // verus!
