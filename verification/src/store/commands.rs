//! What administrative commands on accounts may do, and what the audit says that
//! they changed.

use crate::store::error::{AdminStoreError, AdminStoreErrorKind};
use crate::text::{same_text, texts};
use vstd::prelude::*;

verus! {

/// A name, if something was changed.
pub open spec fn named(changed: bool, name: Seq<char>) -> Seq<Seq<char>> {
    if changed {
        seq![name]
    } else {
        Seq::empty()
    }
}

fn push_named(list: &mut Vec<String>, changed: bool, name: &str)
    ensures
        texts(final(list)@) == texts(old(list)@) + named(changed, name@),
{
    let ghost before = texts(list@);
    if changed {
        list.push(name.to_owned());
        assert(texts(list@) =~= before + seq![name@]);
    } else {
        assert(texts(list@) =~= before + Seq::empty());
    }
}

fn has_true(list: &Vec<bool>) -> (r: bool)
    ensures
        r == list@.contains(true),
{
    let mut i: usize = 0;
    while i < list.len()
        invariant
            i <= list@.len(),
            forall|j: int| 0 <= j < i ==> !list@[j],
        decreases list@.len() - i,
    {
        if list[i] {
            assert(list@[i as int]);
            return true;
        }
        i += 1;
    }
    false
}

/// Which settings came along with an import.
pub struct ImportSettings {
    pub model_access: bool,
    pub notes: bool,
}

/// What an import changes. `accounts` says of each account whether it brings its
/// own access to models.
pub fn import_changes(settings: &Option<ImportSettings>, accounts: &Vec<bool>) -> (r: Vec<String>)
    ensures
        ({
            let access = (settings is Some && settings->0.model_access) || accounts@.contains(true);
            texts(r@) == named(true, "credentials"@) + named(access, "model_access"@) + named(
                settings is Some,
                "enabled"@,
            ) + named(settings is Some, "concurrency_limit"@) + named(settings is Some, "weight"@)
                + named(settings is Some, "group_ids"@) + named(
                settings is Some && settings->0.notes,
                "notes"@,
            )
        }),
{
    let (given, access, notes) = match settings {
        Some(settings) => (true, settings.model_access, settings.notes),
        None => (false, false, false),
    };
    let mut r: Vec<String> = Vec::new();
    assert(texts(r@) + named(true, "credentials"@) =~= named(true, "credentials"@));
    push_named(&mut r, true, "credentials");
    push_named(&mut r, access || has_true(accounts), "model_access");
    push_named(&mut r, given, "enabled");
    push_named(&mut r, given, "concurrency_limit");
    push_named(&mut r, given, "weight");
    push_named(&mut r, given, "group_ids");
    push_named(&mut r, notes, "notes");
    r
}

/// Which parts of an account a command sets.
pub struct AccountChanges {
    pub enabled: bool,
    pub concurrency_limit: bool,
    pub weight: bool,
    pub groups: bool,
    pub model_access: bool,
    pub outbound_proxy: bool,
    pub notes: bool,
    pub turn_state_override: bool,
}

/// What a new credential for an account changes.
pub fn rotation_changes(settings: &Option<AccountChanges>) -> (r: Vec<String>)
    ensures
        texts(r@) == named(true, "credentials"@) + named(settings is Some, "enabled"@) + named(
            settings is Some,
            "concurrency_limit"@,
        ) + named(settings is Some, "weight"@) + named(settings is Some, "groups"@) + named(
            settings is Some && settings->0.model_access,
            "model_access"@,
        ) + named(settings is Some && settings->0.outbound_proxy, "outbound_proxy"@) + named(
            settings is Some && settings->0.notes,
            "notes"@,
        ),
{
    let (given, access, proxy, notes) = match settings {
        Some(settings) => (
            true,
            settings.model_access,
            settings.outbound_proxy,
            settings.notes,
        ),
        None => (false, false, false, false),
    };
    let mut r: Vec<String> = Vec::new();
    assert(texts(r@) + named(true, "credentials"@) =~= named(true, "credentials"@));
    push_named(&mut r, true, "credentials");
    push_named(&mut r, given, "enabled");
    push_named(&mut r, given, "concurrency_limit");
    push_named(&mut r, given, "weight");
    push_named(&mut r, given, "groups");
    push_named(&mut r, access, "model_access");
    push_named(&mut r, proxy, "outbound_proxy");
    push_named(&mut r, notes, "notes");
    r
}

/// What an update of one account changes: it always sets the first four.
pub fn update_changes(command: &AccountChanges) -> (r: Vec<String>)
    ensures
        texts(r@) == named(true, "enabled"@) + named(true, "concurrency_limit"@) + named(
            true,
            "weight"@,
        ) + named(true, "groups"@) + named(command.model_access, "model_access"@) + named(
            command.outbound_proxy,
            "outbound_proxy"@,
        ) + named(command.notes, "notes"@) + named(
            command.turn_state_override,
            "turn_state_override"@,
        ),
{
    let mut r: Vec<String> = Vec::new();
    assert(texts(r@) + named(true, "enabled"@) =~= named(true, "enabled"@));
    push_named(&mut r, true, "enabled");
    push_named(&mut r, true, "concurrency_limit");
    push_named(&mut r, true, "weight");
    push_named(&mut r, true, "groups");
    push_named(&mut r, command.model_access, "model_access");
    push_named(&mut r, command.outbound_proxy, "outbound_proxy");
    push_named(&mut r, command.notes, "notes");
    push_named(&mut r, command.turn_state_override, "turn_state_override");
    r
}

/// What an update of several accounts changes. It leaves notes alone.
pub fn batch_changes(command: &AccountChanges) -> (r: Vec<String>)
    ensures
        texts(r@) == named(command.enabled, "enabled"@) + named(
            command.concurrency_limit,
            "concurrency_limit"@,
        ) + named(command.weight, "weight"@) + named(command.groups, "groups"@) + named(
            command.model_access,
            "model_access"@,
        ) + named(command.outbound_proxy, "outbound_proxy"@) + named(
            command.turn_state_override,
            "turn_state_override"@,
        ),
{
    let mut r: Vec<String> = Vec::new();
    assert(texts(r@) + named(command.enabled, "enabled"@) =~= named(command.enabled, "enabled"@));
    push_named(&mut r, command.enabled, "enabled");
    push_named(&mut r, command.concurrency_limit, "concurrency_limit");
    push_named(&mut r, command.weight, "weight");
    push_named(&mut r, command.groups, "groups");
    push_named(&mut r, command.model_access, "model_access");
    push_named(&mut r, command.outbound_proxy, "outbound_proxy");
    push_named(&mut r, command.turn_state_override, "turn_state_override");
    r
}

/// What the audit names as changed: the account, or all accounts where there is
/// not just one.
pub fn audit_target(account_ids: &Vec<String>) -> (r: String)
    ensures
        r@ == if account_ids@.len() == 1 {
            account_ids@[0]@
        } else {
            "provider_accounts"@
        },
{
    if account_ids.len() == 1 {
        account_ids[0].clone()
    } else {
        "provider_accounts".to_owned()
    }
}

/// The first of the accounts to delete. There has to be one.
pub fn first_deleted(account_ids: &Vec<String>) -> (r: Result<String, AdminStoreError>)
    ensures
        match r {
            Ok(id) => account_ids@.len() > 0 && id@ == account_ids@[0]@,
            Err(error) => account_ids@.len() == 0 && error.is(
                AdminStoreErrorKind::Invalid,
                "account deletion requires at least one account ID"@,
            ),
        },
{
    if account_ids.len() == 0 {
        return Err(
            AdminStoreError::new(
                AdminStoreErrorKind::Invalid,
                "account deletion requires at least one account ID",
            ),
        );
    }
    Ok(account_ids[0].clone())
}

/// Pages are counted from one.
pub fn check_page(page: u64) -> (r: Result<(), AdminStoreError>)
    ensures
        match r {
            Ok(_) => page > 0,
            Err(error) => page == 0 && error.is(
                AdminStoreErrorKind::Invalid,
                "page number must be positive"@,
            ),
        },
{
    if page == 0 {
        return Err(
            AdminStoreError::new(AdminStoreErrorKind::Invalid, "page number must be positive"),
        );
    }
    Ok(())
}

/// What commits a new credential for an account that there is.
#[derive(Debug, Clone, Copy, PartialEq, Eq, Structural)]
pub enum Renewal {
    Rotation,
    Refresh,
    Reauthorization,
}

/// Only a rotation may bring settings along.
pub fn check_renewal(renewal: Renewal, has_settings: bool) -> (r: Result<(), AdminStoreError>)
    ensures
        match r {
            Ok(_) => renewal == Renewal::Rotation || !has_settings,
            Err(error) => has_settings && error.kind == AdminStoreErrorKind::Invalid && (
            match renewal {
                Renewal::Rotation => false,
                Renewal::Refresh => error.message@
                    == "credential refresh cannot change account settings"@,
                Renewal::Reauthorization => error.message@
                    == "reauthorization cannot change account settings"@,
            }),
        },
{
    if !has_settings {
        return Ok(());
    }
    match renewal {
        Renewal::Rotation => Ok(()),
        Renewal::Refresh => Err(
            AdminStoreError::new(
                AdminStoreErrorKind::Invalid,
                "credential refresh cannot change account settings",
            ),
        ),
        Renewal::Reauthorization => Err(
            AdminStoreError::new(
                AdminStoreErrorKind::Invalid,
                "reauthorization cannot change account settings",
            ),
        ),
    }
}

/// The one account that an authorization brought.
pub fn authorized_account(account_ids: Vec<String>) -> (r: Result<String, AdminStoreError>)
    ensures
        match r {
            Ok(id) => account_ids@.len() == 1 && id == account_ids@[0],
            Err(error) => account_ids@.len() != 1 && error.is(
                AdminStoreErrorKind::Unavailable,
                "authorization import returned an unexpected account count"@,
            ),
        },
{
    let mut ids = account_ids;
    if ids.len() == 1 {
        if let Some(id) = ids.pop() {
            return Ok(id);
        }
    }
    Err(
        AdminStoreError::new(
            AdminStoreErrorKind::Unavailable,
            "authorization import returned an unexpected account count",
        ),
    )
}

pub open spec fn kind_is(record: Option<String>, kind: Seq<char>) -> bool {
    record is Some && record->0@ == kind
}

/// Credentials can be exported: each account exists and is of the provider that
/// was asked for. `records` holds the provider of each account that exists. The
/// first account that fails decides what is answered.
#[verifier::loop_isolation(false)]
pub fn check_export(records: &Vec<Option<String>>, provider_kind: &str) -> (r: Result<
    (),
    AdminStoreError,
>)
    ensures
        match r {
            Ok(_) => forall|i: int|
                0 <= i < records@.len() ==> kind_is(#[trigger] records@[i], provider_kind@),
            Err(error) => exists|i: int|
                0 <= i < records@.len() && !kind_is(#[trigger] records@[i], provider_kind@) && (
                forall|j: int| 0 <= j < i ==> kind_is(#[trigger] records@[j], provider_kind@))
                    && error.is(
                    AdminStoreErrorKind::NotFound,
                    if records@[i] is None {
                        "one or more exported credentials do not exist"@
                    } else {
                        "one or more exported credentials belong to another Provider"@
                    },
                ),
        },
{
    let mut i: usize = 0;
    while i < records.len()
        invariant
            i <= records@.len(),
            forall|j: int| 0 <= j < i ==> kind_is(#[trigger] records@[j], provider_kind@),
        decreases records@.len() - i,
    {
        match &records[i] {
            Some(kind) => if !same_text(kind.as_str(), provider_kind) {
                assert(!kind_is(records@[i as int], provider_kind@));
                return Err(
                    AdminStoreError::new(
                        AdminStoreErrorKind::NotFound,
                        "one or more exported credentials belong to another Provider",
                    ),
                );
            },
            None => {
                assert(!kind_is(records@[i as int], provider_kind@));
                return Err(
                    AdminStoreError::new(
                        AdminStoreErrorKind::NotFound,
                        "one or more exported credentials do not exist",
                    ),
                );
            },
        }
        i += 1;
    }
    Ok(())
}

/// The export of credentials can be recorded: each account exists.
pub fn check_exported(exists_each: &Vec<bool>) -> (r: Result<(), AdminStoreError>)
    ensures
        match r {
            Ok(_) => !exists_each@.contains(false),
            Err(error) => exists_each@.contains(false) && error.is(
                AdminStoreErrorKind::NotFound,
                "one or more exported credentials do not exist"@,
            ),
        },
{
    let mut i: usize = 0;
    while i < exists_each.len()
        invariant
            i <= exists_each@.len(),
            forall|j: int| 0 <= j < i ==> exists_each@[j],
        decreases exists_each@.len() - i,
    {
        if !exists_each[i] {
            assert(exists_each@[i as int] == false);
            return Err(
                AdminStoreError::new(
                    AdminStoreErrorKind::NotFound,
                    "one or more exported credentials do not exist",
                ),
            );
        }
        i += 1;
    }
    Ok(())
}

/// The limit of an account goes down to the new one: it is enabled, and its own
/// limit, or where it has none the default, is higher.
pub fn lowers_concurrency(enabled: bool, current: Option<i64>, default_limit: i64, limit: u32) -> (r:
    bool)
    ensures
        r == (enabled && (match current {
            Some(own) => own > limit,
            None => default_limit > limit,
        })),
{
    enabled && (match current {
        Some(own) => own > limit as i64,
        None => default_limit > limit as i64,
    })
}

/// A row that says to which group an account belongs, with whether the group's
/// number and colour can be read.
pub struct GroupRow {
    pub account_id: String,
    pub group_id: String,
    pub name: String,
    pub color: String,
    pub enabled: bool,
    pub id_is_valid: bool,
    pub color_is_valid: bool,
}

/// The groups can be shown: each row can be read. The first that cannot decides
/// what is answered.
#[verifier::loop_isolation(false)]
pub fn check_groups(rows: &Vec<GroupRow>) -> (r: Result<(), AdminStoreError>)
    ensures
        match r {
            Ok(_) => forall|i: int|
                0 <= i < rows@.len() ==> (#[trigger] rows@[i]).id_is_valid
                    && rows@[i].color_is_valid,
            Err(error) => exists|i: int|
                0 <= i < rows@.len() && !((#[trigger] rows@[i]).id_is_valid
                    && rows@[i].color_is_valid) && (forall|j: int|
                    0 <= j < i ==> (#[trigger] rows@[j]).id_is_valid && rows@[j].color_is_valid)
                    && error.is(
                    AdminStoreErrorKind::Invalid,
                    if !rows@[i].id_is_valid {
                        "persisted account group ID is invalid"@
                    } else {
                        "persisted account group color is invalid"@
                    },
                ),
        },
{
    let mut i: usize = 0;
    while i < rows.len()
        invariant
            i <= rows@.len(),
            forall|j: int|
                0 <= j < i ==> (#[trigger] rows@[j]).id_is_valid && rows@[j].color_is_valid,
        decreases rows@.len() - i,
    {
        if !rows[i].id_is_valid {
            assert(!rows@[i as int].id_is_valid);
            return Err(
                AdminStoreError::new(
                    AdminStoreErrorKind::Invalid,
                    "persisted account group ID is invalid",
                ),
            );
        }
        if !rows[i].color_is_valid {
            assert(!rows@[i as int].color_is_valid);
            return Err(
                AdminStoreError::new(
                    AdminStoreErrorKind::Invalid,
                    "persisted account group color is invalid",
                ),
            );
        }
        i += 1;
    }
    Ok(())
}

/// The places of the rows of an account, in their order.
pub open spec fn rows_of_account(rows: Seq<GroupRow>, account_id: Seq<char>) -> Seq<int>
    decreases rows.len(),
{
    if rows.len() == 0 {
        Seq::empty()
    } else {
        let before = rows_of_account(rows.drop_last(), account_id);
        if rows.last().account_id@ == account_id {
            before.push(rows.len() - 1)
        } else {
            before
        }
    }
}

/// The groups of an account, as places among the rows.
pub fn groups_of_account(rows: &Vec<GroupRow>, account_id: &str) -> (r: Vec<usize>)
    ensures
        r@.map_values(|i: usize| i as int) == rows_of_account(rows@, account_id@),
{
    let mut r: Vec<usize> = Vec::new();
    let mut i: usize = 0;
    proof {
        assert(rows@.take(0) =~= Seq::empty());
        assert(r@.map_values(|i: usize| i as int) =~= Seq::empty());
    }
    while i < rows.len()
        invariant
            i <= rows@.len(),
            r@.map_values(|i: usize| i as int) == rows_of_account(
                rows@.take(i as int),
                account_id@,
            ),
        decreases rows@.len() - i,
    {
        let ghost before = r@.map_values(|i: usize| i as int);
        proof {
            assert(rows@.take(i + 1).drop_last() =~= rows@.take(i as int));
        }
        if same_text(rows[i].account_id.as_str(), account_id) {
            r.push(i);
            assert(r@.map_values(|i: usize| i as int) =~= before.push(i as int));
        }
        i += 1;
    }
    proof {
        assert(rows@.take(rows@.len() as int) =~= rows@);
    }
    r
}

/// The longest stretch of time for which requests are counted hour by hour.
pub const HOURLY_SECONDS: i64 = 86400;

/// Requests are counted hour by hour: the stretch of time is a day at most. The
/// ends are in milliseconds.
pub fn counts_by_hour(start_ms: i64, end_ms: i64) -> (r: bool)
    ensures
        r == (end_ms - start_ms <= HOURLY_SECONDS * 1000),
{
    end_ms as i128 - start_ms as i128 <= HOURLY_SECONDS as i128 * 1000
}

} // verus!
