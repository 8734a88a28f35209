//! Protocol-level asset registry: allowlist and blocklist, asset metadata with
//! token standards, risk parameters per collateral asset, and the migration of an
//! asset from one contract to another.  Every change is recorded as an event.

use vstd::prelude::*;
use crate::asset::{
    risk_params_valid, standard_name, AssetRiskParams, ListChangeEvent, ListChangeReason, MigrationEvent,
    MigrationState, MigrationStatus, ProtocolAssetMetadata, RegistryListEntry, TokenStandard,
};
use crate::keyed::{
    distinct_keys, enumerates, find_key, get_or_zero, lemma_push, lemma_update, lists_values, to_map, value_or_zero, values_of,
};
use crate::text::{dec_nat, u64_to_dec};

verus! {

/// Errors returned by [`AssetRegistry`] operations.
#[derive(Debug, Clone, PartialEq, Eq)]
pub enum RegistryError {
    /// Caller is not an authorised admin.
    Unauthorized,
    /// The asset is already in the specified list.
    AlreadyInList,
    /// The asset is not in the specified list.
    NotInList,
    /// The asset metadata has already been registered.
    AlreadyRegistered,
    /// No metadata found for the given asset.
    NotRegistered,
    /// The supplied risk parameters fail the internal invariant check.
    InvalidRiskParams,
    /// A migration already exists for this asset and is not yet completed.
    MigrationAlreadyActive,
    /// No active migration found for this asset.
    NoActiveMigration,
    /// The migration has already been completed or cancelled.
    MigrationNotInProgress,
    /// Validation error with a message.
    ValidationError(String),
}

/// Human-readable text of an error.
pub open spec fn registry_error_text(e: RegistryError) -> Seq<char> {
    match e {
        RegistryError::Unauthorized => "caller is not an admin"@,
        RegistryError::AlreadyInList => "asset is already in this list"@,
        RegistryError::NotInList => "asset is not in this list"@,
        RegistryError::AlreadyRegistered => "asset metadata already registered"@,
        RegistryError::NotRegistered => "asset not registered"@,
        RegistryError::InvalidRiskParams => "invalid risk parameters"@,
        RegistryError::MigrationAlreadyActive => "a migration is already active for this asset"@,
        RegistryError::NoActiveMigration => "no active migration found for this asset"@,
        RegistryError::MigrationNotInProgress => "migration is not in progress"@,
        RegistryError::ValidationError(m) => "validation error: "@ + m@,
    }
}

impl RegistryError {
    /// Human-readable text of the error.
    pub fn message(&self) -> (r: String)
        ensures
            r@ == registry_error_text(*self),
    {
        match self {
            RegistryError::Unauthorized => String::from_str("caller is not an admin"),
            RegistryError::AlreadyInList => String::from_str("asset is already in this list"),
            RegistryError::NotInList => String::from_str("asset is not in this list"),
            RegistryError::AlreadyRegistered => String::from_str("asset metadata already registered"),
            RegistryError::NotRegistered => String::from_str("asset not registered"),
            RegistryError::InvalidRiskParams => String::from_str("invalid risk parameters"),
            RegistryError::MigrationAlreadyActive => String::from_str("a migration is already active for this asset"),
            RegistryError::NoActiveMigration => String::from_str("no active migration found for this asset"),
            RegistryError::MigrationNotInProgress => String::from_str("migration is not in progress"),
            RegistryError::ValidationError(m) => String::from_str("validation error: ").concat(m.as_str()),
        }
    }
}

/// Observable events of the registry.
#[derive(Debug, PartialEq, Eq)]
pub enum RegistryEvent {
    /// An allowlist or blocklist change.
    ListChange(ListChangeEvent),
    /// Asset metadata was registered.
    MetadataRegistered { asset_id: String },
    /// Asset metadata was updated by an admin.
    MetadataUpdated { asset_id: String, updated_by: String },
    /// Risk parameters were set or updated.
    RiskParamsSet { asset_id: String, updated_by: String },
    /// A migration lifecycle event.
    Migration(MigrationEvent),
}

/// Mathematical model of an [`AssetRegistry`].
pub struct RegistryView {
    /// Admin addresses.
    pub admins: Seq<Seq<char>>,
    /// Allowlisted assets.
    pub allowlist: Map<Seq<char>, RegistryListEntry>,
    /// Blocklisted assets.
    pub blocklist: Map<Seq<char>, RegistryListEntry>,
    /// Registered asset metadata.
    pub metadata: Map<Seq<char>, ProtocolAssetMetadata>,
    /// Risk parameters per collateral asset.
    pub risk_params: Map<Seq<char>, AssetRiskParams>,
    /// Migrations per asset.
    pub migrations: Map<Seq<char>, MigrationState>,
    /// Event log, oldest first.
    pub events: Seq<RegistryEvent>,
}

/// Protocol-level asset registry.
pub struct AssetRegistry {
    admins: Vec<String>,
    allowlist: Vec<(String, RegistryListEntry)>,
    blocklist: Vec<(String, RegistryListEntry)>,
    metadata: Vec<(String, ProtocolAssetMetadata)>,
    risk_params: Vec<(String, AssetRiskParams)>,
    migrations: Vec<(String, MigrationState)>,
    events: Vec<RegistryEvent>,
}

impl View for AssetRegistry {
    type V = RegistryView;

    closed spec fn view(&self) -> RegistryView {
        RegistryView {
            admins: self.admins@.map_values(|s: String| s@),
            allowlist: to_map(self.allowlist@),
            blocklist: to_map(self.blocklist@),
            metadata: to_map(self.metadata@),
            risk_params: to_map(self.risk_params@),
            migrations: to_map(self.migrations@),
            events: self.events@,
        }
    }
}

/// `caller` is one of the registry's admins.
pub open spec fn is_admin(v: RegistryView, caller: Seq<char>) -> bool {
    v.admins.contains(caller)
}

/// The call failed with `e` and changed nothing.
pub open spec fn refused(v0: RegistryView, v1: RegistryView, r: Result<(), RegistryError>, e: RegistryError) -> bool {
    r == Err::<(), RegistryError>(e) && v1 == v0
}

/// `e` lists `asset` on behalf of `caller` for `reason` at `now`.
pub open spec fn list_entry_is(e: RegistryListEntry, asset: Seq<char>, caller: Seq<char>, reason: ListChangeReason, now: u64) -> bool {
    &&& e.asset_id@ == asset
    &&& e.changed_by@ == caller
    &&& e.reason == reason
    &&& e.recorded_at == now
    &&& e.active
}

/// `v1` is `v0` with one more event at the end of the log.
pub open spec fn logged(v0: RegistryView, v1: RegistryView) -> bool {
    v1.events.len() == v0.events.len() + 1 && v1.events.drop_last() == v0.events
}

/// An asset is allowed for protocol use when it is allowlisted with an active entry
/// and not blocklisted: the blocklist takes precedence.
pub open spec fn allowed(v: RegistryView, asset: Seq<char>) -> bool {
    !v.blocklist.dom().contains(asset) && v.allowlist.dom().contains(asset) && v.allowlist[asset].active
}

/// Text of the error for a migration snapshot whose balances do not add up.
pub open spec fn snapshot_sum_text(sum: u64, total: u64) -> Seq<char> {
    "balance snapshot sum ("@ + dec_nat(sum as nat) + ") does not equal total_supply ("@ + dec_nat(total as nat) + ")"@
}

/// Text of the error for a holder whose balance on the new contract differs.
pub open spec fn mismatch_text(address: Seq<char>, expected: u64, actual: u64) -> Seq<char> {
    "balance mismatch for "@ + address + ": expected "@ + dec_nat(expected as nat) + ", got "@ + dec_nat(actual as nat)
}

/// Sum of the balances of a snapshot.
pub open spec fn balance_total(s: Seq<(String, u64)>) -> int
    decreases s.len(),
{
    if s.len() == 0 {
        0
    } else {
        balance_total(s.drop_last()) + s.last().1
    }
}

/// Number of approvals of an allowance snapshot (owner and spender pairs, as each
/// owner lists every spender once), saturating at `u64::MAX`.
pub open spec fn approval_count(s: Seq<(String, Vec<(String, u64)>)>) -> u64
    decreases s.len(),
{
    if s.len() == 0 {
        0
    } else {
        let t = approval_count(s.drop_last()) + s.last().1@.len();
        if t > u64::MAX { u64::MAX } else { t as u64 }
    }
}

/// The holder at position `i` of the snapshot has a different balance on the new contract.
pub open spec fn holder_mismatch(snap: Seq<(String, u64)>, new_balances: Seq<(String, u64)>, i: int) -> bool {
    value_or_zero(to_map(new_balances), snap[i].0@) != snap[i].1
}

/// A migration blocks a new one while it is pending or in progress.
pub open spec fn migration_active(v: RegistryView, asset: Seq<char>) -> bool {
    v.migrations.dom().contains(asset) && (v.migrations[asset].status == MigrationStatus::Pending
        || v.migrations[asset].status == MigrationStatus::InProgress)
}

/// Every stored set of risk parameters is valid, and risk parameters and
/// migrations exist only for registered assets.
pub open spec fn registry_consistent(v: RegistryView) -> bool {
    &&& forall|a: Seq<char>| #[trigger] v.risk_params.dom().contains(a) ==> risk_params_valid(v.risk_params[a])
    &&& forall|a: Seq<char>| #[trigger] v.risk_params.dom().contains(a) ==> v.metadata.dom().contains(a)
    &&& forall|a: Seq<char>| #[trigger] v.migrations.dom().contains(a) ==> v.metadata.dom().contains(a)
}

proof fn lemma_consistent_frame(v0: RegistryView, v1: RegistryView)
    requires
        registry_consistent(v0),
        v1.metadata == v0.metadata,
        v1.risk_params == v0.risk_params,
        v1.migrations == v0.migrations,
    ensures
        registry_consistent(v1),
{
}

proof fn lemma_consistent_same(v0: RegistryView, v1: RegistryView)
    requires
        v1.metadata == v0.metadata,
        v1.risk_params == v0.risk_params,
        v1.migrations == v0.migrations,
    ensures
        registry_consistent(v1) == registry_consistent(v0),
{
}

impl AssetRegistry {
    /// One entry per asset in every store.
    pub closed spec fn wf(&self) -> bool {
        &&& distinct_keys(self.allowlist@)
        &&& distinct_keys(self.blocklist@)
        &&& distinct_keys(self.metadata@)
        &&& distinct_keys(self.risk_params@)
        &&& distinct_keys(self.migrations@)
        &&& registry_consistent(self@)
    }

    /// A registry with the given admins and no data.  At least one admin is needed.
    pub fn new(admins: Vec<String>) -> (r: Self)
        requires
            admins@.len() > 0,
        ensures
            r.wf(),
            r@.admins == admins@.map_values(|s: String| s@),
            r@.allowlist.is_empty(),
            r@.blocklist.is_empty(),
            r@.metadata.is_empty(),
            r@.risk_params.is_empty(),
            r@.migrations.is_empty(),
            r@.events.len() == 0,
    {
        let r = AssetRegistry {
            admins,
            allowlist: Vec::new(),
            blocklist: Vec::new(),
            metadata: Vec::new(),
            risk_params: Vec::new(),
            migrations: Vec::new(),
            events: Vec::new(),
        };
        proof {
            assert(to_map(r.allowlist@) =~= Map::<Seq<char>, RegistryListEntry>::empty());
            assert(to_map(r.blocklist@) =~= Map::<Seq<char>, RegistryListEntry>::empty());
            assert(to_map(r.metadata@) =~= Map::<Seq<char>, ProtocolAssetMetadata>::empty());
            assert(to_map(r.risk_params@) =~= Map::<Seq<char>, AssetRiskParams>::empty());
            assert(to_map(r.migrations@) =~= Map::<Seq<char>, MigrationState>::empty());
        }
        r
    }

    /// The event log, oldest first.
    pub fn events(&self) -> (r: &[RegistryEvent])
        ensures
            r@ == self@.events,
    {
        self.events.as_slice()
    }

    /// Take all events out of the log, leaving it empty.
    pub fn drain_events(&mut self) -> (r: Vec<RegistryEvent>)
        requires
            old(self).wf(),
        ensures
            final(self).wf(),
            r@ == old(self)@.events,
            final(self)@ == (RegistryView { events: Seq::empty(), ..old(self)@ }),
    {
        let mut out: Vec<RegistryEvent> = Vec::new();
        std::mem::swap(&mut out, &mut self.events);
        proof {
            assert(self@.events =~= Seq::<RegistryEvent>::empty());
        }
        out
    }

    fn ensure_admin(&self, caller: &str) -> (r: Result<(), RegistryError>)
        ensures
            r is Ok <==> is_admin(self@, caller@),
            r is Err ==> r == Err::<(), RegistryError>(RegistryError::Unauthorized),
    {
        let key = String::from_str(caller);
        let mut i: usize = 0;
        while i < self.admins.len()
            invariant
                i <= self.admins@.len(),
                key@ == caller@,
                forall|j: int| 0 <= j < i ==> self.admins@[j]@ != caller@,
            decreases self.admins@.len() - i,
        {
            if self.admins[i] == key {
                proof {
                    assert(self@.admins[i as int] == caller@);
                }
                return Ok(());
            }
            i = i + 1;
        }
        proof {
            if is_admin(self@, caller@) {
                let j = choose|j: int| 0 <= j < self@.admins.len() && self@.admins[j] == caller@;
                assert(self.admins@[j]@ == caller@);
            }
        }
        Err(RegistryError::Unauthorized)
    }

    fn emit(&mut self, event: RegistryEvent)
        ensures
            final(self)@ == (RegistryView { events: old(self)@.events.push(event), ..old(self)@ }),
            final(self).wf() == old(self).wf(),
    {
        let ghost v0 = self@;
        self.events.push(event);
        proof {
            lemma_consistent_same(v0, self@);
        }
    }
}

/// `v1` is `v0` with `asset` added to the allowlist (`allow`) or the blocklist by
/// `caller` for `reason` at `now`, and the change logged.
pub open spec fn list_added(
    v0: RegistryView,
    v1: RegistryView,
    allow: bool,
    asset: Seq<char>,
    caller: Seq<char>,
    reason: ListChangeReason,
    now: u64,
) -> bool {
    &&& logged(v0, v1)
    &&& if allow {
        &&& list_entry_is(v1.allowlist[asset], asset, caller, reason, now)
        &&& v1 == (RegistryView { allowlist: v0.allowlist.insert(asset, v1.allowlist[asset]), events: v1.events, ..v0 })
        &&& (v1.events.last() matches RegistryEvent::ListChange(
            ListChangeEvent::AllowlistAdded { asset_id: a, changed_by: c, reason: rr },
        ) && a@ == asset && c@ == caller && rr == reason)
    } else {
        &&& list_entry_is(v1.blocklist[asset], asset, caller, reason, now)
        &&& v1 == (RegistryView { blocklist: v0.blocklist.insert(asset, v1.blocklist[asset]), events: v1.events, ..v0 })
        &&& (v1.events.last() matches RegistryEvent::ListChange(
            ListChangeEvent::BlocklistAdded { asset_id: a, changed_by: c, reason: rr },
        ) && a@ == asset && c@ == caller && rr == reason)
    }
}

/// `v1` is `v0` with `asset` removed from the allowlist (`allow`) or the blocklist
/// by `caller`, and the change logged.
pub open spec fn list_removed(v0: RegistryView, v1: RegistryView, allow: bool, asset: Seq<char>, caller: Seq<char>) -> bool {
    &&& logged(v0, v1)
    &&& if allow {
        &&& v1 == (RegistryView { allowlist: v0.allowlist.remove(asset), events: v1.events, ..v0 })
        &&& (v1.events.last() matches RegistryEvent::ListChange(ListChangeEvent::AllowlistRemoved { asset_id: a, changed_by: c })
            && a@ == asset && c@ == caller)
    } else {
        &&& v1 == (RegistryView { blocklist: v0.blocklist.remove(asset), events: v1.events, ..v0 })
        &&& (v1.events.last() matches RegistryEvent::ListChange(ListChangeEvent::BlocklistRemoved { asset_id: a, changed_by: c })
            && a@ == asset && c@ == caller)
    }
}

impl AssetRegistry {
    /// Add an asset to the allowlist.  Fails with `AlreadyInList` when it is there.
    pub fn allowlist_asset(&mut self, caller: &str, asset_id: &str, reason: ListChangeReason, now: u64) -> (r: Result<
        (),
        RegistryError,
    >)
        requires
            old(self).wf(),
        ensures
            final(self).wf(),
            !is_admin(old(self)@, caller@) ==> refused(old(self)@, final(self)@, r, RegistryError::Unauthorized),
            is_admin(old(self)@, caller@) && old(self)@.allowlist.dom().contains(asset_id@) ==> refused(
                old(self)@,
                final(self)@,
                r,
                RegistryError::AlreadyInList,
            ),
            is_admin(old(self)@, caller@) && !old(self)@.allowlist.dom().contains(asset_id@) ==> r is Ok && list_added(
                old(self)@,
                final(self)@,
                true,
                asset_id@,
                caller@,
                reason,
                now,
            ),
    {
        match self.ensure_admin(caller) {
            Err(e) => return Err(e),
            Ok(()) => {},
        }
        if find_key(&self.allowlist, asset_id).is_some() {
            return Err(RegistryError::AlreadyInList);
        }
        let ghost v0 = self@;
        let entry = RegistryListEntry {
            asset_id: String::from_str(asset_id),
            changed_by: String::from_str(caller),
            reason,
            recorded_at: now,
            active: true,
        };
        let key = String::from_str(asset_id);
        proof {
            lemma_push(self.allowlist@, key, entry);
        }
        self.allowlist.push((key, entry));
        self.emit(
            RegistryEvent::ListChange(
                ListChangeEvent::AllowlistAdded {
                    asset_id: String::from_str(asset_id),
                    changed_by: String::from_str(caller),
                    reason,
                },
            ),
        );
        proof {
            assert(self@.events.drop_last() =~= v0.events);
            lemma_consistent_frame(v0, self@);
        }
        Ok(())
    }

    /// Remove an asset from the allowlist.  Fails with `NotInList` when it is absent.
    pub fn remove_from_allowlist(&mut self, caller: &str, asset_id: &str) -> (r: Result<(), RegistryError>)
        requires
            old(self).wf(),
        ensures
            final(self).wf(),
            !is_admin(old(self)@, caller@) ==> refused(old(self)@, final(self)@, r, RegistryError::Unauthorized),
            is_admin(old(self)@, caller@) && !old(self)@.allowlist.dom().contains(asset_id@) ==> refused(
                old(self)@,
                final(self)@,
                r,
                RegistryError::NotInList,
            ),
            is_admin(old(self)@, caller@) && old(self)@.allowlist.dom().contains(asset_id@) ==> r is Ok && list_removed(
                old(self)@,
                final(self)@,
                true,
                asset_id@,
                caller@,
            ),
    {
        match self.ensure_admin(caller) {
            Err(e) => return Err(e),
            Ok(()) => {},
        }
        if find_key(&self.allowlist, asset_id).is_none() {
            return Err(RegistryError::NotInList);
        }
        let ghost v0 = self@;
        crate::keyed::remove_key(&mut self.allowlist, asset_id);
        self.emit(
            RegistryEvent::ListChange(
                ListChangeEvent::AllowlistRemoved { asset_id: String::from_str(asset_id), changed_by: String::from_str(caller) },
            ),
        );
        proof {
            assert(self@.events.drop_last() =~= v0.events);
            lemma_consistent_frame(v0, self@);
        }
        Ok(())
    }

    /// Add an asset to the blocklist.  Fails with `AlreadyInList` when it is there.
    pub fn blocklist_asset(&mut self, caller: &str, asset_id: &str, reason: ListChangeReason, now: u64) -> (r: Result<
        (),
        RegistryError,
    >)
        requires
            old(self).wf(),
        ensures
            final(self).wf(),
            !is_admin(old(self)@, caller@) ==> refused(old(self)@, final(self)@, r, RegistryError::Unauthorized),
            is_admin(old(self)@, caller@) && old(self)@.blocklist.dom().contains(asset_id@) ==> refused(
                old(self)@,
                final(self)@,
                r,
                RegistryError::AlreadyInList,
            ),
            is_admin(old(self)@, caller@) && !old(self)@.blocklist.dom().contains(asset_id@) ==> r is Ok && list_added(
                old(self)@,
                final(self)@,
                false,
                asset_id@,
                caller@,
                reason,
                now,
            ),
    {
        match self.ensure_admin(caller) {
            Err(e) => return Err(e),
            Ok(()) => {},
        }
        if find_key(&self.blocklist, asset_id).is_some() {
            return Err(RegistryError::AlreadyInList);
        }
        let ghost v0 = self@;
        let entry = RegistryListEntry {
            asset_id: String::from_str(asset_id),
            changed_by: String::from_str(caller),
            reason,
            recorded_at: now,
            active: true,
        };
        let key = String::from_str(asset_id);
        proof {
            lemma_push(self.blocklist@, key, entry);
        }
        self.blocklist.push((key, entry));
        self.emit(
            RegistryEvent::ListChange(
                ListChangeEvent::BlocklistAdded {
                    asset_id: String::from_str(asset_id),
                    changed_by: String::from_str(caller),
                    reason,
                },
            ),
        );
        proof {
            assert(self@.events.drop_last() =~= v0.events);
            lemma_consistent_frame(v0, self@);
        }
        Ok(())
    }

    /// Remove an asset from the blocklist.  Fails with `NotInList` when it is absent.
    pub fn remove_from_blocklist(&mut self, caller: &str, asset_id: &str) -> (r: Result<(), RegistryError>)
        requires
            old(self).wf(),
        ensures
            final(self).wf(),
            !is_admin(old(self)@, caller@) ==> refused(old(self)@, final(self)@, r, RegistryError::Unauthorized),
            is_admin(old(self)@, caller@) && !old(self)@.blocklist.dom().contains(asset_id@) ==> refused(
                old(self)@,
                final(self)@,
                r,
                RegistryError::NotInList,
            ),
            is_admin(old(self)@, caller@) && old(self)@.blocklist.dom().contains(asset_id@) ==> r is Ok && list_removed(
                old(self)@,
                final(self)@,
                false,
                asset_id@,
                caller@,
            ),
    {
        match self.ensure_admin(caller) {
            Err(e) => return Err(e),
            Ok(()) => {},
        }
        if find_key(&self.blocklist, asset_id).is_none() {
            return Err(RegistryError::NotInList);
        }
        let ghost v0 = self@;
        crate::keyed::remove_key(&mut self.blocklist, asset_id);
        self.emit(
            RegistryEvent::ListChange(
                ListChangeEvent::BlocklistRemoved { asset_id: String::from_str(asset_id), changed_by: String::from_str(caller) },
            ),
        );
        proof {
            assert(self@.events.drop_last() =~= v0.events);
            lemma_consistent_frame(v0, self@);
        }
        Ok(())
    }

    /// Whether the asset may be used: allowlisted with an active entry and not
    /// blocklisted (the blocklist takes precedence).
    pub fn is_allowed(&self, asset_id: &str) -> (r: bool)
        requires
            self.wf(),
        ensures
            r == allowed(self@, asset_id@),
    {
        if find_key(&self.blocklist, asset_id).is_some() {
            return false;
        }
        match find_key(&self.allowlist, asset_id) {
            Some(i) => self.allowlist[i].1.active,
            None => false,
        }
    }

    /// Whether the asset is blocklisted.
    pub fn is_blocked(&self, asset_id: &str) -> (r: bool)
        requires
            self.wf(),
        ensures
            r == self@.blocklist.dom().contains(asset_id@),
    {
        find_key(&self.blocklist, asset_id).is_some()
    }

    /// The allowlist entries, one per asset.
    pub fn allowlist(&self) -> (r: Vec<&RegistryListEntry>)
        requires
            self.wf(),
        ensures
            lists_values(r@.map_values(|x: &RegistryListEntry| *x), self@.allowlist),
    {
        values_of(&self.allowlist)
    }

    /// The blocklist entries, one per asset.
    pub fn blocklist(&self) -> (r: Vec<&RegistryListEntry>)
        requires
            self.wf(),
        ensures
            lists_values(r@.map_values(|x: &RegistryListEntry| *x), self@.blocklist),
    {
        values_of(&self.blocklist)
    }
}

/// The metadata stored when `m` is registered at `now`.
pub open spec fn registered_metadata(m: ProtocolAssetMetadata, now: u64) -> ProtocolAssetMetadata {
    ProtocolAssetMetadata { registered_at: now, last_updated_at: now, active: true, ..m }
}

/// The reason `m` breaks its token standard's rules, if it does: the native asset
/// has no contract address, SEP-41 and wrapped assets have one.
pub open spec fn standard_violation(m: ProtocolAssetMetadata) -> Option<Seq<char>> {
    if m.standard == TokenStandard::StellarNative && m.contract_address@.len() > 0 {
        Some("StellarNative assets must not have a contract address"@)
    } else if (m.standard == TokenStandard::Sep41 || m.standard == TokenStandard::Wrapped)
        && m.contract_address@.len() == 0 {
        Some(standard_name(m.standard) + " assets must have a contract address"@)
    } else {
        None
    }
}

/// The call failed with a validation error of text `text` and changed nothing.
pub open spec fn invalid(v0: RegistryView, v1: RegistryView, r: Result<(), RegistryError>, text: Seq<char>) -> bool {
    v1 == v0 && (r matches Err(RegistryError::ValidationError(msg)) && msg@ == text)
}

impl AssetRegistry {
    /// Register metadata for a new asset, checking its token standard.  The
    /// registration time, last update time and active flag are set here.
    pub fn register_asset(&mut self, caller: &str, metadata: ProtocolAssetMetadata, now: u64) -> (r: Result<
        (),
        RegistryError,
    >)
        requires
            old(self).wf(),
        ensures
            final(self).wf(),
            ({
                let v0 = old(self)@;
                let v1 = final(self)@;
                let id = metadata.asset_id@;
                &&& !is_admin(v0, caller@) ==> refused(v0, v1, r, RegistryError::Unauthorized)
                &&& is_admin(v0, caller@) && v0.metadata.dom().contains(id) ==> refused(
                    v0,
                    v1,
                    r,
                    RegistryError::AlreadyRegistered,
                )
                &&& is_admin(v0, caller@) && !v0.metadata.dom().contains(id) && standard_violation(metadata) is Some
                    ==> invalid(v0, v1, r, standard_violation(metadata)->Some_0)
                &&& is_admin(v0, caller@) && !v0.metadata.dom().contains(id) && standard_violation(metadata) is None
                    ==> {
                    &&& r is Ok
                    &&& logged(v0, v1)
                    &&& v1 == (RegistryView {
                        metadata: v0.metadata.insert(id, registered_metadata(metadata, now)),
                        events: v1.events,
                        ..v0
                    })
                    &&& (v1.events.last() matches RegistryEvent::MetadataRegistered { asset_id: a } && a@ == id)
                }
            }),
    {
        match self.ensure_admin(caller) {
            Err(e) => return Err(e),
            Ok(()) => {},
        }
        if find_key(&self.metadata, metadata.asset_id.as_str()).is_some() {
            return Err(RegistryError::AlreadyRegistered);
        }
        let empty_address = metadata.contract_address.as_str().is_empty();
        if metadata.standard == TokenStandard::StellarNative && !empty_address {
            return Err(RegistryError::ValidationError(String::from_str("StellarNative assets must not have a contract address")));
        }
        if (metadata.standard == TokenStandard::Sep41 || metadata.standard == TokenStandard::Wrapped) && empty_address {
            let msg = String::from_str(metadata.standard.name()).concat(" assets must have a contract address");
            return Err(RegistryError::ValidationError(msg));
        }
        let ghost v0 = self@;
        let key = metadata.asset_id.clone();
        let event_id = metadata.asset_id.clone();
        let entry = ProtocolAssetMetadata {
            asset_id: metadata.asset_id,
            name: metadata.name,
            symbol: metadata.symbol,
            decimals: metadata.decimals,
            standard: metadata.standard,
            contract_address: metadata.contract_address,
            registered_at: now,
            last_updated_at: now,
            active: true,
        };
        proof {
            lemma_push(self.metadata@, key, entry);
        }
        self.metadata.push((key, entry));
        self.emit(RegistryEvent::MetadataRegistered { asset_id: event_id });
        proof {
            assert(self@.events.drop_last() =~= v0.events);
        }
        Ok(())
    }

    /// Replace the metadata of a registered asset, keeping its registration time.
    pub fn update_asset_metadata(&mut self, caller: &str, new_metadata: ProtocolAssetMetadata, now: u64) -> (r: Result<
        (),
        RegistryError,
    >)
        requires
            old(self).wf(),
        ensures
            final(self).wf(),
            ({
                let v0 = old(self)@;
                let v1 = final(self)@;
                let id = new_metadata.asset_id@;
                &&& !is_admin(v0, caller@) ==> refused(v0, v1, r, RegistryError::Unauthorized)
                &&& is_admin(v0, caller@) && !v0.metadata.dom().contains(id) ==> refused(
                    v0,
                    v1,
                    r,
                    RegistryError::NotRegistered,
                )
                &&& is_admin(v0, caller@) && v0.metadata.dom().contains(id) ==> {
                    &&& r is Ok
                    &&& logged(v0, v1)
                    &&& v1 == (RegistryView {
                        metadata: v0.metadata.insert(
                            id,
                            ProtocolAssetMetadata {
                                registered_at: v0.metadata[id].registered_at,
                                last_updated_at: now,
                                ..new_metadata
                            },
                        ),
                        events: v1.events,
                        ..v0
                    })
                    &&& (v1.events.last() matches RegistryEvent::MetadataUpdated { asset_id: a, updated_by: u } && a@ == id
                        && u@ == caller@)
                }
            }),
    {
        match self.ensure_admin(caller) {
            Err(e) => return Err(e),
            Ok(()) => {},
        }
        let i = match find_key(&self.metadata, new_metadata.asset_id.as_str()) {
            Some(i) => i,
            None => return Err(RegistryError::NotRegistered),
        };
        let ghost v0 = self@;
        let registered_at = self.metadata[i].1.registered_at;
        let event_id = new_metadata.asset_id.clone();
        let updated = ProtocolAssetMetadata {
            asset_id: new_metadata.asset_id,
            name: new_metadata.name,
            symbol: new_metadata.symbol,
            decimals: new_metadata.decimals,
            standard: new_metadata.standard,
            contract_address: new_metadata.contract_address,
            registered_at,
            last_updated_at: now,
            active: new_metadata.active,
        };
        crate::keyed::replace_at(&mut self.metadata, i, updated);
        self.emit(RegistryEvent::MetadataUpdated { asset_id: event_id, updated_by: String::from_str(caller) });
        proof {
            assert(self@.events.drop_last() =~= v0.events);
        }
        Ok(())
    }

    /// Metadata of an asset, if registered.
    pub fn get_asset_metadata(&self, asset_id: &str) -> (r: Option<&ProtocolAssetMetadata>)
        requires
            self.wf(),
        ensures
            match r {
                Some(m) => self@.metadata.dom().contains(asset_id@) && *m == self@.metadata[asset_id@],
                None => !self@.metadata.dom().contains(asset_id@),
            },
    {
        match find_key(&self.metadata, asset_id) {
            Some(i) => Some(&self.metadata[i].1),
            None => None,
        }
    }

    /// Whether metadata exists for the asset.
    pub fn is_registered(&self, asset_id: &str) -> (r: bool)
        requires
            self.wf(),
        ensures
            r == self@.metadata.dom().contains(asset_id@),
    {
        find_key(&self.metadata, asset_id).is_some()
    }

    /// The metadata of every registered asset, one entry per asset.
    pub fn all_assets(&self) -> (r: Vec<&ProtocolAssetMetadata>)
        requires
            self.wf(),
        ensures
            lists_values(r@.map_values(|x: &ProtocolAssetMetadata| *x), self@.metadata),
    {
        values_of(&self.metadata)
    }

    /// Set or replace the risk parameters of a registered asset.  They must satisfy
    /// `ltv ≤ liquidation threshold ≤ 100%`; the update time is set here.
    pub fn set_risk_params(&mut self, caller: &str, params: AssetRiskParams, now: u64) -> (r: Result<(), RegistryError>)
        requires
            old(self).wf(),
        ensures
            final(self).wf(),
            ({
                let v0 = old(self)@;
                let v1 = final(self)@;
                let id = params.asset_id@;
                &&& !is_admin(v0, caller@) ==> refused(v0, v1, r, RegistryError::Unauthorized)
                &&& is_admin(v0, caller@) && !v0.metadata.dom().contains(id) ==> refused(
                    v0,
                    v1,
                    r,
                    RegistryError::NotRegistered,
                )
                &&& is_admin(v0, caller@) && v0.metadata.dom().contains(id) && !risk_params_valid(params) ==> refused(
                    v0,
                    v1,
                    r,
                    RegistryError::InvalidRiskParams,
                )
                &&& is_admin(v0, caller@) && v0.metadata.dom().contains(id) && risk_params_valid(params) ==> {
                    &&& r is Ok
                    &&& logged(v0, v1)
                    &&& v1 == (RegistryView {
                        risk_params: v0.risk_params.insert(id, AssetRiskParams { last_updated_at: now, ..params }),
                        events: v1.events,
                        ..v0
                    })
                    &&& (v1.events.last() matches RegistryEvent::RiskParamsSet { asset_id: a, updated_by: u } && a@ == id
                        && u@ == caller@)
                }
            }),
    {
        match self.ensure_admin(caller) {
            Err(e) => return Err(e),
            Ok(()) => {},
        }
        if find_key(&self.metadata, params.asset_id.as_str()).is_none() {
            return Err(RegistryError::NotRegistered);
        }
        if !params.is_valid() {
            return Err(RegistryError::InvalidRiskParams);
        }
        let ghost v0 = self@;
        let id = params.asset_id.clone();
        let event_id = params.asset_id.clone();
        let p = AssetRiskParams {
            asset_id: params.asset_id,
            ltv_bps: params.ltv_bps,
            liquidation_threshold_bps: params.liquidation_threshold_bps,
            liquidation_penalty_bps: params.liquidation_penalty_bps,
            last_updated_at: now,
        };
        crate::keyed::upsert(&mut self.risk_params, id.as_str(), p);
        self.emit(RegistryEvent::RiskParamsSet { asset_id: event_id, updated_by: String::from_str(caller) });
        proof {
            assert(self@.events.drop_last() =~= v0.events);
        }
        Ok(())
    }

    /// Risk parameters of an asset, if set.
    pub fn get_risk_params(&self, asset_id: &str) -> (r: Option<&AssetRiskParams>)
        requires
            self.wf(),
        ensures
            match r {
                Some(p) => self@.risk_params.dom().contains(asset_id@) && *p == self@.risk_params[asset_id@],
                None => !self@.risk_params.dom().contains(asset_id@),
            },
            r matches Some(p) ==> risk_params_valid(*p),
    {
        proof {
            self.lemma_registry_consistent();
        }
        match find_key(&self.risk_params, asset_id) {
            Some(i) => Some(&self.risk_params[i].1),
            None => None,
        }
    }

    /// Every risk parameter record, one per asset.
    pub fn all_risk_params(&self) -> (r: Vec<&AssetRiskParams>)
        requires
            self.wf(),
        ensures
            lists_values(r@.map_values(|x: &AssetRiskParams| *x), self@.risk_params),
            forall|i: int| 0 <= i < r@.len() ==> risk_params_valid(*(#[trigger] r@[i])),
    {
        let r = values_of(&self.risk_params);
        proof {
            self.lemma_registry_consistent();
            let rv = r@.map_values(|x: &AssetRiskParams| *x);
            let k = choose|k: Seq<Seq<char>>|
                #[trigger] enumerates(k, self@.risk_params.dom()) && rv.len() == k.len() && forall|i: int|
                    0 <= i < k.len() ==> rv[i] == self@.risk_params[k[i]];
            assert forall|i: int| 0 <= i < r@.len() implies risk_params_valid(*(#[trigger] r@[i])) by {
                assert(rv[i] == *r@[i]);
                assert(k.contains(k[i]));
                assert(self@.risk_params.dom().contains(k[i]));
            }
        }
        r
    }
}

/// `m` is the migration of `asset` started by `caller` at `now` from `old_c` to
/// `new_c` with the given snapshots.
pub open spec fn migration_started(
    m: MigrationState,
    asset: Seq<char>,
    old_c: Seq<char>,
    new_c: Seq<char>,
    balances: Seq<(String, u64)>,
    allowances: Seq<(String, Vec<(String, u64)>)>,
    total: u64,
    caller: Seq<char>,
    now: u64,
) -> bool {
    &&& m.asset_id@ == asset
    &&& m.old_contract@ == old_c
    &&& m.new_contract@ == new_c
    &&& m.balance_snapshot@ == balances
    &&& m.allowance_snapshot@ == allowances
    &&& m.total_supply_snapshot == total
    &&& m.status == MigrationStatus::InProgress
    &&& m.initiated_by@ == caller
    &&& m.initiated_at == now
    &&& m.completed_at == 0
    &&& !m.old_contract_paused
}

/// The position `i` holds the first holder whose balance differs on the new contract.
pub open spec fn first_mismatch(snap: Seq<(String, u64)>, new_balances: Seq<(String, u64)>, i: int) -> bool {
    &&& 0 <= i < snap.len()
    &&& holder_mismatch(snap, new_balances, i)
    &&& forall|j: int| 0 <= j < i ==> !holder_mismatch(snap, new_balances, j)
}

/// The four events that close a migration of `asset` with state `m`.
pub open spec fn completion_events(evs: Seq<RegistryEvent>, m: MigrationState, asset: Seq<char>) -> bool {
    &&& evs.len() == 4
    &&& (evs[0] matches RegistryEvent::Migration(
        MigrationEvent::BalancesMigrated { asset_id: a, accounts_migrated: n, total_supply: t },
    ) && a@ == asset && n == m.balance_snapshot@.len() && t == m.total_supply_snapshot)
    &&& (evs[1] matches RegistryEvent::Migration(MigrationEvent::AllowancesMigrated { asset_id: a, allowances_migrated: n })
        && a@ == asset && n == approval_count(m.allowance_snapshot@))
    &&& (evs[2] matches RegistryEvent::Migration(MigrationEvent::OldContractPaused { asset_id: a, old_contract: o })
        && a@ == asset && o@ == m.old_contract@)
    &&& (evs[3] matches RegistryEvent::Migration(
        MigrationEvent::Completed { asset_id: a, old_contract: o, new_contract: n },
    ) && a@ == asset && o@ == m.old_contract@ && n@ == m.new_contract@)
}

proof fn lemma_balance_total_bound(s: Seq<(String, u64)>)
    ensures
        0 <= balance_total(s) <= s.len() * (u64::MAX as int),
    decreases s.len(),
{
    if s.len() > 0 {
        lemma_balance_total_bound(s.drop_last());
        assert(balance_total(s) <= s.len() * (u64::MAX as int)) by (nonlinear_arith)
            requires
                balance_total(s) == balance_total(s.drop_last()) + s.last().1,
                balance_total(s.drop_last()) <= (s.len() - 1) * (u64::MAX as int),
                s.last().1 <= u64::MAX;
    }
}

fn sum_balances(s: &Vec<(String, u64)>) -> (r: u128)
    ensures
        r == balance_total(s@),
{
    let mut sum: u128 = 0;
    let mut i: usize = 0;
    while i < s.len()
        invariant
            i <= s@.len(),
            sum == balance_total(s@.take(i as int)),
        decreases s@.len() - i,
    {
        proof {
            assert(s@.take(i + 1).drop_last() =~= s@.take(i as int));
            lemma_balance_total_bound(s@.take(i + 1));
            assert((i + 1) * (u64::MAX as int) <= u128::MAX) by (nonlinear_arith)
                requires i + 1 <= usize::MAX;
        }
        sum = sum + s[i].1 as u128;
        i = i + 1;
    }
    proof {
        assert(s@.take(s@.len() as int) =~= s@);
    }
    sum
}

fn count_approvals(s: &Vec<(String, Vec<(String, u64)>)>) -> (r: u64)
    ensures
        r == approval_count(s@),
{
    let mut n: u64 = 0;
    let mut i: usize = 0;
    while i < s.len()
        invariant
            i <= s@.len(),
            n == approval_count(s@.take(i as int)),
        decreases s@.len() - i,
    {
        proof {
            assert(s@.take(i + 1).drop_last() =~= s@.take(i as int));
        }
        n = n.saturating_add(s[i].1.len() as u64);
        i = i + 1;
    }
    proof {
        assert(s@.take(s@.len() as int) =~= s@);
    }
    n
}

impl AssetRegistry {
    /// Start migrating a registered asset from `old_contract` to `new_contract`,
    /// keeping snapshots of the balances and allowances of the old contract.  The
    /// balances must add up to `total_supply`, and no migration of the asset may be
    /// pending or in progress.
    pub fn initiate_migration(
        &mut self,
        caller: &str,
        asset_id: &str,
        old_contract: &str,
        new_contract: &str,
        balances: Vec<(String, u64)>,
        allowances: Vec<(String, Vec<(String, u64)>)>,
        total_supply: u64,
        now: u64,
    ) -> (r: Result<(), RegistryError>)
        requires
            old(self).wf(),
            distinct_keys(balances@),
            distinct_keys(allowances@),
            forall|i: int| 0 <= i < allowances@.len() ==> distinct_keys((#[trigger] allowances@[i]).1@),
            balance_total(balances@) <= u64::MAX,
        ensures
            final(self).wf(),
            ({
                let v0 = old(self)@;
                let v1 = final(self)@;
                let a = asset_id@;
                &&& !is_admin(v0, caller@) ==> refused(v0, v1, r, RegistryError::Unauthorized)
                &&& is_admin(v0, caller@) && !v0.metadata.dom().contains(a) ==> refused(
                    v0,
                    v1,
                    r,
                    RegistryError::NotRegistered,
                )
                &&& is_admin(v0, caller@) && v0.metadata.dom().contains(a) && migration_active(v0, a) ==> refused(
                    v0,
                    v1,
                    r,
                    RegistryError::MigrationAlreadyActive,
                )
                &&& is_admin(v0, caller@) && v0.metadata.dom().contains(a) && !migration_active(v0, a)
                    && balance_total(balances@) != total_supply ==> invalid(
                    v0,
                    v1,
                    r,
                    snapshot_sum_text(balance_total(balances@) as u64, total_supply),
                )
                &&& is_admin(v0, caller@) && v0.metadata.dom().contains(a) && !migration_active(v0, a)
                    && balance_total(balances@) == total_supply ==> {
                    &&& r is Ok
                    &&& logged(v0, v1)
                    &&& v1 == (RegistryView { migrations: v0.migrations.insert(a, v1.migrations[a]), events: v1.events, ..v0 })
                    &&& migration_started(
                        v1.migrations[a],
                        a,
                        old_contract@,
                        new_contract@,
                        balances@,
                        allowances@,
                        total_supply,
                        caller@,
                        now,
                    )
                    &&& (v1.events.last() matches RegistryEvent::Migration(
                        MigrationEvent::Initiated { asset_id: x, old_contract: o, new_contract: n, initiated_by: c },
                    ) && x@ == a && o@ == old_contract@ && n@ == new_contract@ && c@ == caller@)
                }
            }),
    {
        match self.ensure_admin(caller) {
            Err(e) => return Err(e),
            Ok(()) => {},
        }
        if find_key(&self.metadata, asset_id).is_none() {
            return Err(RegistryError::NotRegistered);
        }
        match find_key(&self.migrations, asset_id) {
            Some(i) => {
                let st = self.migrations[i].1.status;
                if st == MigrationStatus::Pending || st == MigrationStatus::InProgress {
                    return Err(RegistryError::MigrationAlreadyActive);
                }
            },
            None => {},
        }
        let sum = sum_balances(&balances);
        let sum64 = sum as u64;
        if sum64 != total_supply {
            proof {
                reveal_strlit(")");
            }
            let msg = String::from_str("balance snapshot sum (").concat(u64_to_dec(sum64).as_str()).concat(
                ") does not equal total_supply (",
            ).concat(u64_to_dec(total_supply).as_str()).concat(")");
            proof {
                assert(msg@ =~= snapshot_sum_text(sum64, total_supply));
            }
            return Err(RegistryError::ValidationError(msg));
        }
        let ghost v0 = self@;
        let state = MigrationState {
            asset_id: String::from_str(asset_id),
            old_contract: String::from_str(old_contract),
            new_contract: String::from_str(new_contract),
            balance_snapshot: balances,
            allowance_snapshot: allowances,
            total_supply_snapshot: total_supply,
            status: MigrationStatus::InProgress,
            initiated_by: String::from_str(caller),
            initiated_at: now,
            completed_at: 0,
            old_contract_paused: false,
        };
        crate::keyed::upsert(&mut self.migrations, asset_id, state);
        self.emit(
            RegistryEvent::Migration(
                MigrationEvent::Initiated {
                    asset_id: String::from_str(asset_id),
                    old_contract: String::from_str(old_contract),
                    new_contract: String::from_str(new_contract),
                    initiated_by: String::from_str(caller),
                },
            ),
        );
        proof {
            assert(self@.events.drop_last() =~= v0.events);
        }
        Ok(())
    }

    /// Complete a migration in progress: every snapshotted holder must have the same
    /// balance in `new_balances` (a missing holder counts as 0).  Then the old
    /// contract is paused, the migration is marked completed and four events record
    /// the balances, the allowances, the pause and the completion.
    pub fn complete_migration(&mut self, caller: &str, asset_id: &str, new_balances: &Vec<(String, u64)>, now: u64) -> (r:
        Result<(), RegistryError>)
        requires
            old(self).wf(),
            distinct_keys(new_balances@),
        ensures
            final(self).wf(),
            ({
                let v0 = old(self)@;
                let v1 = final(self)@;
                let a = asset_id@;
                let m = v0.migrations[a];
                let snap = m.balance_snapshot@;
                let nb = new_balances@;
                &&& !is_admin(v0, caller@) ==> refused(v0, v1, r, RegistryError::Unauthorized)
                &&& is_admin(v0, caller@) && !v0.migrations.dom().contains(a) ==> refused(
                    v0,
                    v1,
                    r,
                    RegistryError::NoActiveMigration,
                )
                &&& is_admin(v0, caller@) && v0.migrations.dom().contains(a) && m.status != MigrationStatus::InProgress
                    ==> refused(v0, v1, r, RegistryError::MigrationNotInProgress)
                &&& is_admin(v0, caller@) && v0.migrations.dom().contains(a) && m.status == MigrationStatus::InProgress
                    && (exists|i: int| 0 <= i < snap.len() && holder_mismatch(snap, nb, i)) ==> exists|i: int|
                    #[trigger] first_mismatch(snap, nb, i) && invalid(
                        v0,
                        v1,
                        r,
                        mismatch_text(snap[i].0@, snap[i].1, value_or_zero(to_map(nb), snap[i].0@)),
                    )
                &&& is_admin(v0, caller@) && v0.migrations.dom().contains(a) && m.status == MigrationStatus::InProgress
                    && (forall|i: int| 0 <= i < snap.len() ==> !holder_mismatch(snap, nb, i)) ==> {
                    &&& r is Ok
                    &&& v1.events.len() == v0.events.len() + 4
                    &&& v1.events.take(v0.events.len() as int) == v0.events
                    &&& completion_events(v1.events.skip(v0.events.len() as int), m, a)
                    &&& v1 == (RegistryView {
                        migrations: v0.migrations.insert(
                            a,
                            MigrationState {
                                old_contract_paused: true,
                                status: MigrationStatus::Completed,
                                completed_at: now,
                                ..m
                            },
                        ),
                        events: v1.events,
                        ..v0
                    })
                }
            }),
    {
        match self.ensure_admin(caller) {
            Err(e) => return Err(e),
            Ok(()) => {},
        }
        let i = match find_key(&self.migrations, asset_id) {
            Some(i) => i,
            None => return Err(RegistryError::NoActiveMigration),
        };
        if self.migrations[i].1.status != MigrationStatus::InProgress {
            return Err(RegistryError::MigrationNotInProgress);
        }
        let ghost v0 = self@;
        let ghost snap = self.migrations@[i as int].1.balance_snapshot@;
        proof {
            crate::keyed::lemma_to_map_value(self.migrations@, i as int);
        }
        let n = self.migrations[i].1.balance_snapshot.len();
        let mut j: usize = 0;
        while j < n
            invariant
                self@ == v0,
                v0 == old(self)@,
                self.wf(),
                is_admin(v0, caller@),
                v0.migrations.dom().contains(asset_id@),
                v0.migrations[asset_id@].status == MigrationStatus::InProgress,
                snap == v0.migrations[asset_id@].balance_snapshot@,
                i < self.migrations@.len(),
                snap == self.migrations@[i as int].1.balance_snapshot@,
                n == snap.len(),
                j <= n,
                distinct_keys(new_balances@),
                forall|k: int| 0 <= k < j ==> !holder_mismatch(snap, new_balances@, k),
            decreases n - j,
        {
            let address = &self.migrations[i].1.balance_snapshot[j].0;
            let expected = self.migrations[i].1.balance_snapshot[j].1;
            let actual = get_or_zero(new_balances, address.as_str());
            if actual != expected {
                proof {
                    reveal_strlit(", got ");
                }
                let msg = String::from_str("balance mismatch for ").concat(address.as_str()).concat(": expected ").concat(
                    u64_to_dec(expected).as_str(),
                ).concat(", got ").concat(u64_to_dec(actual).as_str());
                proof {
                    assert(first_mismatch(snap, new_balances@, j as int));
                    assert(msg@ =~= mismatch_text(snap[j as int].0@, snap[j as int].1, actual));
                }
                return Err(RegistryError::ValidationError(msg));
            }
            j = j + 1;
        }
        let accounts_migrated = n as u64;
        let total_supply = self.migrations[i].1.total_supply_snapshot;
        let allowances_migrated = count_approvals(&self.migrations[i].1.allowance_snapshot);
        let old_c = self.migrations[i].1.old_contract.clone();
        let new_c = self.migrations[i].1.new_contract.clone();
        let ghost m0 = self.migrations@[i as int].1;
        let (k, mut st) = self.migrations.remove(i);
        st.old_contract_paused = true;
        st.status = MigrationStatus::Completed;
        st.completed_at = now;
        let ghost s0 = v0;
        proof {
            crate::keyed::lemma_update(old(self).migrations@, i as int, k, st);
        }
        self.migrations.insert(i, (k, st));
        proof {
            assert(self.migrations@ =~= old(self).migrations@.update(i as int, (k, st)));
            assert(k@ == asset_id@);
            assert(m0 == v0.migrations[asset_id@]);
        }
        self.emit(
            RegistryEvent::Migration(
                MigrationEvent::BalancesMigrated { asset_id: String::from_str(asset_id), accounts_migrated, total_supply },
            ),
        );
        self.emit(
            RegistryEvent::Migration(
                MigrationEvent::AllowancesMigrated { asset_id: String::from_str(asset_id), allowances_migrated },
            ),
        );
        self.emit(
            RegistryEvent::Migration(
                MigrationEvent::OldContractPaused { asset_id: String::from_str(asset_id), old_contract: old_c.clone() },
            ),
        );
        self.emit(
            RegistryEvent::Migration(
                MigrationEvent::Completed { asset_id: String::from_str(asset_id), old_contract: old_c, new_contract: new_c },
            ),
        );
        proof {
            assert(self@.events.take(v0.events.len() as int) =~= v0.events);
        }
        Ok(())
    }

    /// Cancel a pending or in-progress migration; the old contract keeps running.
    pub fn cancel_migration(&mut self, caller: &str, asset_id: &str) -> (r: Result<(), RegistryError>)
        requires
            old(self).wf(),
        ensures
            final(self).wf(),
            ({
                let v0 = old(self)@;
                let v1 = final(self)@;
                let a = asset_id@;
                &&& !is_admin(v0, caller@) ==> refused(v0, v1, r, RegistryError::Unauthorized)
                &&& is_admin(v0, caller@) && !v0.migrations.dom().contains(a) ==> refused(
                    v0,
                    v1,
                    r,
                    RegistryError::NoActiveMigration,
                )
                &&& is_admin(v0, caller@) && v0.migrations.dom().contains(a) && (v0.migrations[a].status
                    == MigrationStatus::Completed || v0.migrations[a].status == MigrationStatus::Cancelled)
                    ==> refused(v0, v1, r, RegistryError::MigrationNotInProgress)
                &&& is_admin(v0, caller@) && v0.migrations.dom().contains(a) && (v0.migrations[a].status
                    == MigrationStatus::Pending || v0.migrations[a].status == MigrationStatus::InProgress) ==> {
                    &&& r is Ok
                    &&& logged(v0, v1)
                    &&& v1 == (RegistryView {
                        migrations: v0.migrations.insert(
                            a,
                            MigrationState { status: MigrationStatus::Cancelled, ..v0.migrations[a] },
                        ),
                        events: v1.events,
                        ..v0
                    })
                    &&& (v1.events.last() matches RegistryEvent::Migration(
                        MigrationEvent::Cancelled { asset_id: x, cancelled_by: c },
                    ) && x@ == a && c@ == caller@)
                }
            }),
    {
        match self.ensure_admin(caller) {
            Err(e) => return Err(e),
            Ok(()) => {},
        }
        let i = match find_key(&self.migrations, asset_id) {
            Some(i) => i,
            None => return Err(RegistryError::NoActiveMigration),
        };
        match self.migrations[i].1.status {
            MigrationStatus::Completed | MigrationStatus::Cancelled => {
                return Err(RegistryError::MigrationNotInProgress);
            },
            _ => {},
        }
        let ghost v0 = self@;
        let (k, mut st) = self.migrations.remove(i);
        st.status = MigrationStatus::Cancelled;
        proof {
            crate::keyed::lemma_update(old(self).migrations@, i as int, k, st);
        }
        self.migrations.insert(i, (k, st));
        proof {
            assert(self.migrations@ =~= old(self).migrations@.update(i as int, (k, st)));
        }
        self.emit(
            RegistryEvent::Migration(
                MigrationEvent::Cancelled { asset_id: String::from_str(asset_id), cancelled_by: String::from_str(caller) },
            ),
        );
        proof {
            assert(self@.events.drop_last() =~= v0.events);
        }
        Ok(())
    }

    /// The migration state of an asset, if any.
    pub fn get_migration_state(&self, asset_id: &str) -> (r: Option<&MigrationState>)
        requires
            self.wf(),
        ensures
            match r {
                Some(m) => self@.migrations.dom().contains(asset_id@) && *m == self@.migrations[asset_id@],
                None => !self@.migrations.dom().contains(asset_id@),
            },
    {
        match find_key(&self.migrations, asset_id) {
            Some(i) => Some(&self.migrations[i].1),
            None => None,
        }
    }
}

impl AssetRegistry {
    /// Every stored set of risk parameters satisfies `ltv ≤ liquidation threshold ≤
    /// 100%`, and only registered assets have risk parameters or migrations.
    pub proof fn lemma_registry_consistent(&self)
        requires
            self.wf(),
        ensures
            registry_consistent(self@),
    {
    }
}

/// The blocklist takes precedence: a blocklisted asset is never allowed, whatever
/// the allowlist holds.
pub proof fn lemma_blocklist_precedence(v: RegistryView, asset: Seq<char>)
    requires
        v.blocklist.dom().contains(asset),
    ensures
        !allowed(v, asset),
{
}

/// Allowlisting an asset that was not allowlisted and then removing it restores
/// both lists, the metadata, the risk parameters and the migrations; the log holds
/// the two changes.
pub proof fn lemma_allowlist_round_trip(
    v0: RegistryView,
    v1: RegistryView,
    v2: RegistryView,
    asset: Seq<char>,
    caller: Seq<char>,
    remover: Seq<char>,
    reason: ListChangeReason,
    now: u64,
)
    requires
        !v0.allowlist.dom().contains(asset),
        list_added(v0, v1, true, asset, caller, reason, now),
        list_removed(v1, v2, true, asset, remover),
    ensures
        v2.allowlist == v0.allowlist,
        v2.blocklist == v0.blocklist,
        v2.metadata == v0.metadata,
        v2.risk_params == v0.risk_params,
        v2.migrations == v0.migrations,
        v2.events.len() == v0.events.len() + 2,
        v2.events.take(v0.events.len() as int) == v0.events,
{
    assert(v2.allowlist =~= v0.allowlist);
    assert(v2.events.drop_last().drop_last() == v0.events);
    assert(v2.events.take(v0.events.len() as int) =~= v2.events.drop_last().drop_last());
}

/// Blocklisting an asset that was not blocklisted and then removing it restores
/// both lists; the log holds the two changes.
pub proof fn lemma_blocklist_round_trip(
    v0: RegistryView,
    v1: RegistryView,
    v2: RegistryView,
    asset: Seq<char>,
    caller: Seq<char>,
    remover: Seq<char>,
    reason: ListChangeReason,
    now: u64,
)
    requires
        !v0.blocklist.dom().contains(asset),
        list_added(v0, v1, false, asset, caller, reason, now),
        list_removed(v1, v2, false, asset, remover),
    ensures
        v2.allowlist == v0.allowlist,
        v2.blocklist == v0.blocklist,
        v2.metadata == v0.metadata,
        v2.events.len() == v0.events.len() + 2,
        v2.events.take(v0.events.len() as int) == v0.events,
{
    assert(v2.blocklist =~= v0.blocklist);
    assert(v2.events.drop_last().drop_last() == v0.events);
    assert(v2.events.take(v0.events.len() as int) =~= v2.events.drop_last().drop_last());
}

} // verus!
