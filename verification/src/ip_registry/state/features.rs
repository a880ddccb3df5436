//! Per-IP features: licenses, suggested prices, co-owners, tiered access,
//! renewals and notary signatures.
use vstd::prelude::*;
use crate::common::{Addr, Bytes32, copy_vec, contains_addr, remove_first, remove_first_addr};
use crate::ip_registry::types::{ContractError, IpAccessGrant, IpRecordView, LicenseEntry};
use super::{IpEntryView, IpRegistry, RegistryState, entries_view};
use super::lifecycle::with_entry;

verus! {

/// Position of the first license of `licensee`.
pub open spec fn license_index(ls: Seq<LicenseEntry>, licensee: Addr) -> int {
    choose|i: int|
        0 <= i < ls.len() && ls[i].licensee == licensee && forall|j: int| 0 <= j < i ==> ls[j].licensee != licensee
}

pub open spec fn has_license(ls: Seq<LicenseEntry>, licensee: Addr) -> bool {
    exists|i: int| 0 <= i < ls.len() && ls[i].licensee == licensee
}

/// The licenses after granting `e`: replaces the licensee's first entry, or appends.
pub open spec fn upsert_license(ls: Seq<LicenseEntry>, e: LicenseEntry) -> Seq<LicenseEntry> {
    if has_license(ls, e.licensee) {
        ls.update(license_index(ls, e.licensee), e)
    } else {
        ls.push(e)
    }
}

/// Position of the first grant of `grantee`.
pub open spec fn grant_index(gs: Seq<IpAccessGrant>, grantee: Addr) -> int {
    choose|i: int|
        0 <= i < gs.len() && gs[i].grantee == grantee && forall|j: int| 0 <= j < i ==> gs[j].grantee != grantee
}

pub open spec fn has_grant(gs: Seq<IpAccessGrant>, grantee: Addr) -> bool {
    exists|i: int| 0 <= i < gs.len() && gs[i].grantee == grantee
}

/// The grants after granting `g`: replaces the grantee's first grant, or appends.
pub open spec fn upsert_grant(gs: Seq<IpAccessGrant>, g: IpAccessGrant) -> Seq<IpAccessGrant> {
    if has_grant(gs, g.grantee) {
        gs.update(grant_index(gs, g.grantee), g)
    } else {
        gs.push(g)
    }
}

/// Whether `grantee` has at least `level` access: the owner always has; an
/// other address has what its first grant gives.
pub open spec fn access_allowed(e: IpEntryView, grantee: Addr, level: u32) -> bool {
    if grantee == e.record.owner {
        true
    } else if has_grant(e.access_grants, grantee) {
        e.access_grants[grant_index(e.access_grants, grantee)].access_level >= level
    } else {
        false
    }
}

fn find_license(ls: &Vec<LicenseEntry>, licensee: Addr) -> (r: Option<usize>)
    ensures
        match r {
            Some(i) => has_license(ls@, licensee) && i == license_index(ls@, licensee) && i < ls@.len(),
            None => !has_license(ls@, licensee),
        },
{
    let mut i: usize = 0;
    while i < ls.len()
        invariant
            0 <= i <= ls@.len(),
            forall|j: int| 0 <= j < i ==> ls@[j].licensee != licensee,
        decreases ls@.len() - i,
    {
        if ls[i].licensee == licensee {
            proof {
                let c = license_index(ls@, licensee);
                assert(0 <= i < ls@.len() && ls@[i as int].licensee == licensee);
                assert(0 <= c < ls@.len() && ls@[c].licensee == licensee && forall|j: int| 0 <= j < c ==> ls@[j].licensee != licensee);
                if c > i {
                    assert(ls@[i as int].licensee != licensee);
                }
            }
            return Some(i);
        }
        i = i + 1;
    }
    None
}

fn find_grant(gs: &Vec<IpAccessGrant>, grantee: Addr) -> (r: Option<usize>)
    ensures
        match r {
            Some(i) => has_grant(gs@, grantee) && i == grant_index(gs@, grantee) && i < gs@.len(),
            None => !has_grant(gs@, grantee),
        },
{
    let mut i: usize = 0;
    while i < gs.len()
        invariant
            0 <= i <= gs@.len(),
            forall|j: int| 0 <= j < i ==> gs@[j].grantee != grantee,
        decreases gs@.len() - i,
    {
        if gs[i].grantee == grantee {
            proof {
                let c = grant_index(gs@, grantee);
                assert(0 <= i < gs@.len() && gs@[i as int].grantee == grantee);
                assert(0 <= c < gs@.len() && gs@[c].grantee == grantee && forall|j: int| 0 <= j < c ==> gs@[j].grantee != grantee);
                if c > i {
                    assert(gs@[i as int].grantee != grantee);
                }
            }
            return Some(i);
        }
        i = i + 1;
    }
    None
}

impl IpRegistry {
    /// Grants (or re-grants with new terms) a license on IP `ip_id`. The
    /// owner's authorization is checked by the host before this call.
    pub fn grant_license(&mut self, ip_id: u64, licensee: Addr, terms_hash: Bytes32) -> (r: Result<(), ContractError>)
        requires
            old(self).wf(),
        ensures
            final(self).wf(),
            !old(self)@.has_ip(ip_id) ==> r == Err::<(), ContractError>(ContractError::IpNotFound)
                && final(self)@ == old(self)@,
            old(self)@.has_ip(ip_id) ==> r is Ok && final(self)@ == with_entry(
                old(self)@,
                ip_id,
                IpEntryView {
                    licenses: upsert_license(
                        old(self)@.entry(ip_id).licenses,
                        LicenseEntry { licensee, terms_hash },
                    ),
                    ..old(self)@.entry(ip_id)
                },
            ),
    {
        if ip_id == 0 || ip_id > self.ips.len() as u64 {
            return Err(ContractError::IpNotFound);
        }
        let i = (ip_id - 1) as usize;
        let mut ls = copy_vec(&self.ips[i].licenses);
        match find_license(&ls, licensee) {
            Some(k) => {
                ls.set(k, LicenseEntry { licensee, terms_hash });
            },
            None => {
                ls.push(LicenseEntry { licensee, terms_hash });
            },
        }
        self.ips[i].licenses = ls;
        proof {
            let e = old(self)@.ips[i as int];
            assert(entries_view(self.ips@) =~= old(self)@.ips.update(
                i as int,
                IpEntryView { licenses: upsert_license(e.licenses, LicenseEntry { licensee, terms_hash }), ..e },
            ));
        }
        assert(self@ =~= with_entry(
            old(self)@,
            ip_id,
            IpEntryView {
                licenses: upsert_license(old(self)@.entry(ip_id).licenses, LicenseEntry { licensee, terms_hash }),
                ..old(self)@.entry(ip_id)
            },
        ));
        Ok(())
    }

    /// Revokes the license of `licensee` on IP `ip_id`; `LicenseeNotFound`
    /// if it has none. The owner's authorization is checked by the host.
    pub fn revoke_license(&mut self, ip_id: u64, licensee: Addr) -> (r: Result<(), ContractError>)
        requires
            old(self).wf(),
        ensures
            final(self).wf(),
            !old(self)@.has_ip(ip_id) ==> r == Err::<(), ContractError>(ContractError::IpNotFound)
                && final(self)@ == old(self)@,
            old(self)@.has_ip(ip_id) && !has_license(old(self)@.entry(ip_id).licenses, licensee) ==> r
                == Err::<(), ContractError>(ContractError::LicenseeNotFound) && final(self)@ == old(self)@,
            old(self)@.has_ip(ip_id) && has_license(old(self)@.entry(ip_id).licenses, licensee) ==> r is Ok
                && final(self)@ == with_entry(
                old(self)@,
                ip_id,
                IpEntryView {
                    licenses: old(self)@.entry(ip_id).licenses.remove(
                        license_index(old(self)@.entry(ip_id).licenses, licensee),
                    ),
                    ..old(self)@.entry(ip_id)
                },
            ),
    {
        if ip_id == 0 || ip_id > self.ips.len() as u64 {
            return Err(ContractError::IpNotFound);
        }
        let i = (ip_id - 1) as usize;
        let mut ls = copy_vec(&self.ips[i].licenses);
        match find_license(&ls, licensee) {
            Some(k) => {
                ls.remove(k);
            },
            None => {
                return Err(ContractError::LicenseeNotFound);
            },
        }
        self.ips[i].licenses = ls;
        proof {
            let e = old(self)@.ips[i as int];
            assert(entries_view(self.ips@) =~= old(self)@.ips.update(
                i as int,
                IpEntryView { licenses: e.licenses.remove(license_index(e.licenses, licensee)), ..e },
            ));
        }
        assert(self@ =~= with_entry(
            old(self)@,
            ip_id,
            IpEntryView {
                licenses: old(self)@.entry(ip_id).licenses.remove(
                    license_index(old(self)@.entry(ip_id).licenses, licensee),
                ),
                ..old(self)@.entry(ip_id)
            },
        ));
        Ok(())
    }

    /// The licenses of IP `ip_id`.
    pub fn get_licenses(&self, ip_id: u64) -> (r: Result<Vec<LicenseEntry>, ContractError>)
        requires
            self.wf(),
        ensures
            match r {
                Ok(v) => self@.has_ip(ip_id) && v@ == self@.entry(ip_id).licenses,
                Err(e) => !self@.has_ip(ip_id) && e == ContractError::IpNotFound,
            },
    {
        if ip_id == 0 || ip_id > self.ips.len() as u64 {
            return Err(ContractError::IpNotFound);
        }
        Ok(copy_vec(&self.ips[(ip_id - 1) as usize].licenses))
    }

    /// Sets the suggested price of IP `ip_id`; a price of 0 clears it. The
    /// owner's authorization is checked by the host.
    pub fn set_ip_suggested_price(&mut self, ip_id: u64, price: i128) -> (r: Result<(), ContractError>)
        requires
            old(self).wf(),
        ensures
            final(self).wf(),
            !old(self)@.has_ip(ip_id) ==> r == Err::<(), ContractError>(ContractError::IpNotFound)
                && final(self)@ == old(self)@,
            old(self)@.has_ip(ip_id) ==> r is Ok && final(self)@ == with_entry(
                old(self)@,
                ip_id,
                IpEntryView {
                    suggested_price: if price == 0 { None } else { Some(price) },
                    ..old(self)@.entry(ip_id)
                },
            ),
    {
        if ip_id == 0 || ip_id > self.ips.len() as u64 {
            return Err(ContractError::IpNotFound);
        }
        let i = (ip_id - 1) as usize;
        self.ips[i].suggested_price = if price == 0 { None } else { Some(price) };
        proof {
            let e = old(self)@.ips[i as int];
            assert(entries_view(self.ips@) =~= old(self)@.ips.update(
                i as int,
                IpEntryView { suggested_price: if price == 0 { None } else { Some(price) }, ..e },
            ));
        }
        assert(self@ =~= with_entry(
            old(self)@,
            ip_id,
            IpEntryView {
                suggested_price: if price == 0 { None } else { Some(price) },
                ..old(self)@.entry(ip_id)
            },
        ));
        Ok(())
    }

    /// The suggested price of IP `ip_id`, if set.
    pub fn get_ip_suggested_price(&self, ip_id: u64) -> (r: Result<Option<i128>, ContractError>)
        requires
            self.wf(),
        ensures
            match r {
                Ok(p) => self@.has_ip(ip_id) && p == self@.entry(ip_id).suggested_price,
                Err(e) => !self@.has_ip(ip_id) && e == ContractError::IpNotFound,
            },
    {
        if ip_id == 0 || ip_id > self.ips.len() as u64 {
            return Err(ContractError::IpNotFound);
        }
        Ok(self.ips[(ip_id - 1) as usize].suggested_price)
    }

    /// Adds a co-owner to IP `ip_id` (no change if already one). The
    /// owner's authorization is checked by the host.
    pub fn add_co_owner(&mut self, ip_id: u64, co_owner: Addr) -> (r: Result<(), ContractError>)
        requires
            old(self).wf(),
        ensures
            final(self).wf(),
            !old(self)@.has_ip(ip_id) ==> r == Err::<(), ContractError>(ContractError::IpNotFound)
                && final(self)@ == old(self)@,
            old(self)@.has_ip(ip_id) ==> r is Ok && final(self)@ == if old(self)@.record(
                ip_id,
            ).co_owners.contains(co_owner) {
                old(self)@
            } else {
                with_entry(
                    old(self)@,
                    ip_id,
                    IpEntryView {
                        record: IpRecordView {
                            co_owners: old(self)@.record(ip_id).co_owners.push(co_owner),
                            ..old(self)@.record(ip_id)
                        },
                        ..old(self)@.entry(ip_id)
                    },
                )
            },
    {
        if ip_id == 0 || ip_id > self.ips.len() as u64 {
            return Err(ContractError::IpNotFound);
        }
        let i = (ip_id - 1) as usize;
        if contains_addr(&self.ips[i].record.co_owners, co_owner) {
            return Ok(());
        }
        self.ips[i].record.co_owners.push(co_owner);
        proof {
            let e = old(self)@.ips[i as int];
            assert(entries_view(self.ips@) =~= old(self)@.ips.update(
                i as int,
                IpEntryView { record: IpRecordView { co_owners: e.record.co_owners.push(co_owner), ..e.record }, ..e },
            ));
        }
        Ok(())
    }

    /// Removes a co-owner from IP `ip_id` (no change if not one). The
    /// owner's authorization is checked by the host.
    pub fn remove_co_owner(&mut self, ip_id: u64, co_owner: Addr) -> (r: Result<(), ContractError>)
        requires
            old(self).wf(),
        ensures
            final(self).wf(),
            !old(self)@.has_ip(ip_id) ==> r == Err::<(), ContractError>(ContractError::IpNotFound)
                && final(self)@ == old(self)@,
            old(self)@.has_ip(ip_id) ==> r is Ok && final(self)@ == with_entry(
                old(self)@,
                ip_id,
                IpEntryView {
                    record: IpRecordView {
                        co_owners: remove_first(old(self)@.record(ip_id).co_owners, co_owner),
                        ..old(self)@.record(ip_id)
                    },
                    ..old(self)@.entry(ip_id)
                },
            ),
    {
        if ip_id == 0 || ip_id > self.ips.len() as u64 {
            return Err(ContractError::IpNotFound);
        }
        let i = (ip_id - 1) as usize;
        remove_first_addr(&mut self.ips[i].record.co_owners, co_owner);
        proof {
            let e = old(self)@.ips[i as int];
            assert(entries_view(self.ips@) =~= old(self)@.ips.update(
                i as int,
                IpEntryView {
                    record: IpRecordView { co_owners: remove_first(e.record.co_owners, co_owner), ..e.record },
                    ..e
                },
            ));
            assert(self@ =~= with_entry(
                old(self)@,
                ip_id,
                IpEntryView {
                    record: IpRecordView { co_owners: remove_first(e.record.co_owners, co_owner), ..e.record },
                    ..e
                },
            ));
        }
        Ok(())
    }

    /// Grants `grantee` access level 1 (view), 2 (verify) or 3 (transfer) on
    /// IP `ip_id`, replacing an earlier grant; other levels are rejected with
    /// `Unauthorized`. The owner's authorization is checked by the host.
    pub fn grant_ip_access(&mut self, ip_id: u64, grantee: Addr, access_level: u32) -> (r: Result<(), ContractError>)
        requires
            old(self).wf(),
        ensures
            final(self).wf(),
            !old(self)@.has_ip(ip_id) ==> r == Err::<(), ContractError>(ContractError::IpNotFound)
                && final(self)@ == old(self)@,
            old(self)@.has_ip(ip_id) && !(1 <= access_level <= 3) ==> r == Err::<(), ContractError>(
                ContractError::Unauthorized,
            ) && final(self)@ == old(self)@,
            old(self)@.has_ip(ip_id) && 1 <= access_level <= 3 ==> r is Ok && final(self)@ == with_entry(
                old(self)@,
                ip_id,
                IpEntryView {
                    access_grants: upsert_grant(
                        old(self)@.entry(ip_id).access_grants,
                        IpAccessGrant { grantee, access_level },
                    ),
                    ..old(self)@.entry(ip_id)
                },
            ),
    {
        if ip_id == 0 || ip_id > self.ips.len() as u64 {
            return Err(ContractError::IpNotFound);
        }
        if access_level < 1 || access_level > 3 {
            return Err(ContractError::Unauthorized);
        }
        let i = (ip_id - 1) as usize;
        let mut gs = copy_vec(&self.ips[i].access_grants);
        match find_grant(&gs, grantee) {
            Some(k) => {
                gs.set(k, IpAccessGrant { grantee, access_level });
            },
            None => {
                gs.push(IpAccessGrant { grantee, access_level });
            },
        }
        self.ips[i].access_grants = gs;
        proof {
            let e = old(self)@.ips[i as int];
            assert(entries_view(self.ips@) =~= old(self)@.ips.update(
                i as int,
                IpEntryView { access_grants: upsert_grant(e.access_grants, IpAccessGrant { grantee, access_level }), ..e },
            ));
        }
        assert(self@ =~= with_entry(
            old(self)@,
            ip_id,
            IpEntryView {
                access_grants: upsert_grant(old(self)@.entry(ip_id).access_grants, IpAccessGrant { grantee, access_level }),
                ..old(self)@.entry(ip_id)
            },
        ));
        Ok(())
    }

    /// Removes the first grant of `grantee` on IP `ip_id` (no change if it
    /// has none). The owner's authorization is checked by the host.
    pub fn revoke_ip_access(&mut self, ip_id: u64, grantee: Addr) -> (r: Result<(), ContractError>)
        requires
            old(self).wf(),
        ensures
            final(self).wf(),
            !old(self)@.has_ip(ip_id) ==> r == Err::<(), ContractError>(ContractError::IpNotFound)
                && final(self)@ == old(self)@,
            old(self)@.has_ip(ip_id) ==> r is Ok && final(self)@ == if has_grant(
                old(self)@.entry(ip_id).access_grants,
                grantee,
            ) {
                with_entry(
                    old(self)@,
                    ip_id,
                    IpEntryView {
                        access_grants: old(self)@.entry(ip_id).access_grants.remove(
                            grant_index(old(self)@.entry(ip_id).access_grants, grantee),
                        ),
                        ..old(self)@.entry(ip_id)
                    },
                )
            } else {
                old(self)@
            },
    {
        if ip_id == 0 || ip_id > self.ips.len() as u64 {
            return Err(ContractError::IpNotFound);
        }
        let i = (ip_id - 1) as usize;
        let mut gs = copy_vec(&self.ips[i].access_grants);
        match find_grant(&gs, grantee) {
            Some(k) => {
                gs.remove(k);
            },
            None => {
                return Ok(());
            },
        }
        self.ips[i].access_grants = gs;
        proof {
            let e = old(self)@.ips[i as int];
            assert(entries_view(self.ips@) =~= old(self)@.ips.update(
                i as int,
                IpEntryView { access_grants: e.access_grants.remove(grant_index(e.access_grants, grantee)), ..e },
            ));
        }
        assert(self@ =~= with_entry(
            old(self)@,
            ip_id,
            IpEntryView {
                access_grants: old(self)@.entry(ip_id).access_grants.remove(
                    grant_index(old(self)@.entry(ip_id).access_grants, grantee),
                ),
                ..old(self)@.entry(ip_id)
            },
        ));
        Ok(())
    }

    /// The access grants of IP `ip_id`.
    pub fn get_ip_access_grants(&self, ip_id: u64) -> (r: Result<Vec<IpAccessGrant>, ContractError>)
        requires
            self.wf(),
        ensures
            match r {
                Ok(v) => self@.has_ip(ip_id) && v@ == self@.entry(ip_id).access_grants,
                Err(e) => !self@.has_ip(ip_id) && e == ContractError::IpNotFound,
            },
    {
        if ip_id == 0 || ip_id > self.ips.len() as u64 {
            return Err(ContractError::IpNotFound);
        }
        Ok(copy_vec(&self.ips[(ip_id - 1) as usize].access_grants))
    }

    /// Whether `grantee` has at least `required_level` access to IP `ip_id`.
    pub fn check_ip_access(&self, ip_id: u64, grantee: Addr, required_level: u32) -> (r: Result<bool, ContractError>)
        requires
            self.wf(),
        ensures
            match r {
                Ok(b) => self@.has_ip(ip_id) && b == access_allowed(self@.entry(ip_id), grantee, required_level),
                Err(e) => !self@.has_ip(ip_id) && e == ContractError::IpNotFound,
            },
    {
        if ip_id == 0 || ip_id > self.ips.len() as u64 {
            return Err(ContractError::IpNotFound);
        }
        let i = (ip_id - 1) as usize;
        if grantee == self.ips[i].record.owner {
            return Ok(true);
        }
        match find_grant(&self.ips[i].access_grants, grantee) {
            Some(k) => Ok(self.ips[i].access_grants[k].access_level >= required_level),
            None => Ok(false),
        }
    }

    /// Extends the storage life of IP `ip_id` and counts the renewal; a
    /// revoked IP cannot be renewed. The owner's authorization is checked
    /// by the host, which also bumps the storage TTL.
    pub fn renew_ip(&mut self, ip_id: u64) -> (r: Result<u32, ContractError>)
        requires
            old(self).wf(),
            old(self)@.has_ip(ip_id) ==> old(self)@.entry(ip_id).renewal_count < u32::MAX,
        ensures
            final(self).wf(),
            !old(self)@.has_ip(ip_id) ==> r == Err::<u32, ContractError>(ContractError::IpNotFound)
                && final(self)@ == old(self)@,
            old(self)@.has_ip(ip_id) && old(self)@.record(ip_id).revoked ==> r == Err::<u32, ContractError>(
                ContractError::IpAlreadyRevoked,
            ) && final(self)@ == old(self)@,
            old(self)@.has_ip(ip_id) && !old(self)@.record(ip_id).revoked ==> r == Ok::<u32, ContractError>((old(self)@.entry(ip_id).renewal_count + 1) as u32)
                && final(self)@ == with_entry(
                old(self)@,
                ip_id,
                IpEntryView {
                    renewal_count: (old(self)@.entry(ip_id).renewal_count + 1) as u32,
                    ..old(self)@.entry(ip_id)
                },
            ),
    {
        if ip_id == 0 || ip_id > self.ips.len() as u64 {
            return Err(ContractError::IpNotFound);
        }
        let i = (ip_id - 1) as usize;
        if self.ips[i].record.revoked {
            return Err(ContractError::IpAlreadyRevoked);
        }
        let count = self.ips[i].renewal_count;
        self.ips[i].renewal_count = count + 1;
        proof {
            let e = old(self)@.ips[i as int];
            assert(entries_view(self.ips@) =~= old(self)@.ips.update(
                i as int,
                IpEntryView { renewal_count: (count + 1) as u32, ..e },
            ));
        }
        Ok(count + 1)
    }

    /// How many times IP `ip_id` was renewed.
    pub fn get_renewal_count(&self, ip_id: u64) -> (r: Result<u32, ContractError>)
        requires
            self.wf(),
        ensures
            match r {
                Ok(n) => self@.has_ip(ip_id) && n == self@.entry(ip_id).renewal_count,
                Err(e) => !self@.has_ip(ip_id) && e == ContractError::IpNotFound,
            },
    {
        if ip_id == 0 || ip_id > self.ips.len() as u64 {
            return Err(ContractError::IpNotFound);
        }
        Ok(self.ips[(ip_id - 1) as usize].renewal_count)
    }
}

} // verus!
