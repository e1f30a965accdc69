//! The index manager and the storage handle.
//!
//! `RealAethelStorage` couples a vault with a cached index that maps the
//! logical keys `active_session` and `checklist` to document ids. The
//! handle's well-formedness ties the cache to the vault: whenever the
//! cached fingerprint equals the vault's current fingerprint, the cached
//! entries equal what a full linear scan returns. `lookup` therefore
//! answers from the cache only when that is provably the scan's answer,
//! and otherwise rebuilds by `migrate` first — a caller never sees a
//! stale positive or a false negative.

use vstd::prelude::*;

use crate::doc::Patch;
use crate::ids::DocId;
use crate::store::{
    fingerprint_of, scan_active, scan_checklist_id, apply_spec, Fingerprint, Vault,
};
use crate::StoreError;

verus! {

/// The well-known roles the index resolves.
pub enum LogicalKey {
    ActiveSession,
    Checklist,
}

/// The cached index: one entry per logical key, plus the fingerprint of
/// the vault it was computed against.
#[derive(Clone, Copy)]
pub struct Index {
    pub active_session: Option<DocId>,
    pub checklist: Option<DocId>,
    pub fp: Fingerprint,
}

/// What a full linear scan answers for a logical key.
pub open spec fn key_scan(v: Vault, key: LogicalKey) -> Option<DocId> {
    match key {
        LogicalKey::ActiveSession => scan_active(v.model()),
        LogicalKey::Checklist => scan_checklist_id(v.model()),
    }
}

/// The cached entry for a logical key.
pub open spec fn entry_of(idx: Index, key: LogicalKey) -> Option<DocId> {
    match key {
        LogicalKey::ActiveSession => idx.active_session,
        LogicalKey::Checklist => idx.checklist,
    }
}

/// The other logical key.
pub open spec fn other_key(key: LogicalKey) -> LogicalKey {
    match key {
        LogicalKey::ActiveSession => LogicalKey::Checklist,
        LogicalKey::Checklist => LogicalKey::ActiveSession,
    }
}

/// Every cached entry equals the scan's answer against this vault.
pub open spec fn entries_match(idx: Index, v: Vault) -> bool {
    &&& idx.active_session == scan_active(v.model())
    &&& idx.checklist == scan_checklist_id(v.model())
}

/// The storage handle: the vault and the index cache over it.
pub struct RealAethelStorage {
    pub vault: Vault,
    pub index: Option<Index>,
}

impl RealAethelStorage {
    /// Well-formed: the vault is well-formed; a cached index was built
    /// no later than the vault's current stamp, and if its fingerprint
    /// still matches, its entries are the scans' answers.
    pub open spec fn wf(self) -> bool {
        &&& self.vault.wf()
        &&& match self.index {
            Some(idx) => idx.fp.stamp <= self.vault.stamp && (idx.fp == fingerprint_of(
                self.vault,
            ) ==> entries_match(idx, self.vault)),
            None => true,
        }
    }

    /// A fresh, cold handle: the first lookup will migrate.
    pub fn new(vault: Vault) -> (s: Self)
        requires
            vault.wf(),
        ensures
            s.wf(),
            s.vault == vault,
            s.index is None,
    {
        RealAethelStorage { vault, index: None }
    }

    /// Adopt a persisted index. An index stamped later than the vault
    /// cannot have been built against it and is dropped. A kept index is
    /// honest provided it was right for this vault whenever its
    /// fingerprint still matches — the one assumption a persisted cache
    /// carries, which the fingerprint comparison cannot test.
    pub fn resume(vault: Vault, idx: Index) -> (s: Self)
        requires
            vault.wf(),
        ensures
            s.vault == vault,
            s.index == if idx.fp.stamp <= vault.stamp {
                Some(idx)
            } else {
                None::<Index>
            },
            (idx.fp == fingerprint_of(vault) ==> entries_match(idx, vault)) ==> s.wf(),
    {
        if idx.fp.stamp <= vault.stamp {
            RealAethelStorage { vault, index: Some(idx) }
        } else {
            RealAethelStorage { vault, index: None }
        }
    }

    /// Rebuild the index by one full scan per logical key and stamp it
    /// with the vault's current fingerprint. The only O(n) index
    /// operation; it runs at most once per cold state.
    pub fn migrate(&mut self)
        requires
            old(self).wf(),
        ensures
            final(self).wf(),
            final(self).vault == old(self).vault,
            final(self).index == Some(
                Index {
                    active_session: scan_active(old(self).vault.model()),
                    checklist: scan_checklist_id(old(self).vault.model()),
                    fp: fingerprint_of(old(self).vault),
                },
            ),
    {
        let active_session = self.vault.scan_active_session();
        let checklist = self.vault.scan_checklist();
        let fp = self.vault.fingerprint();
        self.index = Some(Index { active_session, checklist, fp });
    }

    /// Resolve a logical key. Answers from the cache only when the
    /// cached fingerprint matches the vault's current one — in which
    /// case the entry provably equals the scan — and otherwise migrates
    /// first; the result always equals a full linear scan's answer.
    pub fn lookup(&mut self, key: LogicalKey) -> (r: Option<DocId>)
        requires
            old(self).wf(),
        ensures
            final(self).wf(),
            final(self).vault == old(self).vault,
            r == key_scan(old(self).vault, key),
            match final (self).index {
                Some(idx) => idx.fp == fingerprint_of(final(self).vault) && entries_match(
                    idx,
                    final(self).vault,
                ),
                None => false,
            },
    {
        let cur = self.vault.fingerprint();
        let fresh: bool = match &self.index {
            Some(idx) => idx.fp == cur,
            None => false,
        };
        if !fresh {
            self.migrate();
        }
        match &self.index {
            Some(idx) => match key {
                LogicalKey::ActiveSession => idx.active_session,
                LogicalKey::Checklist => idx.checklist,
            },
            None => {
                proof {
                    assert(false);
                }
                None
            },
        }
    }

    /// Note the scan answer for one logical key right after a write,
    /// so that the next lookup hits the cache without a rebuild. The
    /// caller supplies what the scan now answers for this key, and the
    /// cache must already hold the other key's current answer.
    pub fn record(&mut self, key: LogicalKey, entry: Option<DocId>)
        requires
            old(self).wf(),
            entry == key_scan(old(self).vault, key),
            match old(self).index {
                Some(idx) => entry_of(idx, other_key(key)) == key_scan(
                    old(self).vault,
                    other_key(key),
                ),
                None => false,
            },
        ensures
            final(self).wf(),
            final(self).vault == old(self).vault,
            match final (self).index {
                Some(idx) => idx.fp == fingerprint_of(final(self).vault) && entries_match(
                    idx,
                    final(self).vault,
                ),
                None => false,
            },
    {
        let fp = self.vault.fingerprint();
        let idx = match &self.index {
            Some(idx) => *idx,
            None => {
                proof {
                    assert(false);
                }
                Index { active_session: None, checklist: None, fp }
            },
        };
        let updated = match key {
            LogicalKey::ActiveSession => Index {
                active_session: entry,
                checklist: idx.checklist,
                fp,
            },
            LogicalKey::Checklist => Index {
                active_session: idx.active_session,
                checklist: entry,
                fp,
            },
        };
        self.index = Some(updated);
    }

    /// Re-stamp a cache whose entries are already the scans' answers
    /// against the current vault, after a write that provably unseated
    /// no logical key.
    pub fn refresh_fingerprint(&mut self)
        requires
            old(self).wf(),
            match old(self).index {
                Some(idx) => entries_match(idx, old(self).vault),
                None => false,
            },
        ensures
            final(self).wf(),
            final(self).vault == old(self).vault,
            match final (self).index {
                Some(idx) => idx.fp == fingerprint_of(final(self).vault) && entries_match(
                    idx,
                    final(self).vault,
                ),
                None => false,
            },
    {
        let fp = self.vault.fingerprint();
        let idx_opt = self.index;
        match idx_opt {
            Some(idx) => {
                self.index = Some(
                    Index { active_session: idx.active_session, checklist: idx.checklist, fp },
                );
            },
            None => {
                proof {
                    assert(false);
                }
            },
        }
    }

    /// Drop the cache after a write that may have unseated a logical
    /// key; the next lookup migrates once rather than ever serving a
    /// dangling id.
    pub fn invalidate(&mut self, key: LogicalKey)
        ensures
            final(self).vault == old(self).vault,
            final(self).index is None,
            old(self).vault.wf() ==> final(self).wf(),
    {
        let _ = key;
        self.index = None;
    }

    /// A write performed outside the index manager, as an external
    /// process would: the vault advances, the cache is left behind and
    /// its fingerprint can no longer match, so the next lookup rebuilds.
    pub fn write_out_of_band(&mut self, patch: Patch) -> (r: Result<DocId, StoreError>)
        requires
            old(self).wf(),
            old(self).vault.stamp < u64::MAX,
            patch.fm_wf(),
        ensures
            final(self).wf(),
            final(self).index == old(self).index,
            apply_spec(old(self).vault, patch, final(self).vault, r),
    {
        let r = self.vault.apply(patch);
        r
    }
}

/// Once the vault's stamp has advanced past an index's, that index's
/// fingerprint cannot match the vault again: an external write is never
/// answered from the old cache.
pub proof fn lemma_stamp_advance_stales_cache(idx: Index, v: Vault)
    requires
        idx.fp.stamp < v.stamp,
    ensures
        idx.fp != fingerprint_of(v),
{
}

} // verus!
