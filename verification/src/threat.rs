//! Shared threat intelligence: known-bad addresses and hashes.

use vstd::prelude::*;

use crate::name_set::NameSet;

verus! {

broadcast use vstd::string::group_string_axioms;

/// A piece of threat intelligence shared between peers.
#[derive(Debug, Clone)]
pub enum ThreatMessage {
    NewBadIp { ip: String, reason: String },
    NewBadHash { hash: String, reason: String },
}

/// Known-bad IP addresses and file hashes.
pub struct ThreatDatabase {
    pub bad_ips: NameSet,
    pub bad_hashes: NameSet,
}

impl Default for ThreatDatabase {
    /// No known-bad address or hash.
    fn default() -> (r: Self)
        ensures
            r.bad_ips@ == Set::<Seq<char>>::empty(),
            r.bad_hashes@ == Set::<Seq<char>>::empty(),
    {
        ThreatDatabase { bad_ips: NameSet::new(), bad_hashes: NameSet::new() }
    }
}

/// The addresses every process starts out considering bad.
pub open spec fn seed_bad_ips() -> Set<Seq<char>> {
    set!["185.15.247.140"@, "93.184.216.34"@]
}

impl ThreatDatabase {
    /// The contents the process-wide database starts with: the seed list of
    /// bad addresses and no hashes. The process keeps one such database for
    /// its whole life.
    pub fn global() -> (r: Self)
        ensures
            r.bad_ips@ == seed_bad_ips(),
            r.bad_hashes@ == Set::<Seq<char>>::empty(),
    {
        let mut db = ThreatDatabase::default();
        db.add_ip("185.15.247.140".to_owned());
        db.add_ip("93.184.216.34".to_owned());
        assert(db.bad_ips@ =~= seed_bad_ips());
        db
    }

    /// Marks `ip` as bad.
    pub fn add_ip(&mut self, ip: String)
        ensures
            final(self).bad_ips@ == old(self).bad_ips@.insert(ip@),
            final(self).bad_hashes@ == old(self).bad_hashes@,
    {
        self.bad_ips.insert(ip.as_str());
    }

    /// Whether `ip` is known to be bad.
    pub fn is_bad_ip(&self, ip: &str) -> (r: bool)
        ensures
            r == self.bad_ips@.contains(ip@),
    {
        self.bad_ips.contains(ip)
    }
}

/// After an address is added it is reported bad, and the verdict on every
/// other address is unchanged.
pub proof fn law_added_ip_is_bad(before: Set<Seq<char>>, ip: Seq<char>, other: Seq<char>)
    ensures
        before.insert(ip).contains(ip),
        other != ip ==> before.insert(ip).contains(other) == before.contains(other),
{
}

} // verus!
