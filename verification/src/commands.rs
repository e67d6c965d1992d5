//! The validated command surface offered to the front-end collaborator:
//! exactly three operations — read a value, write a value, notify the shell —
//! stateless between calls. Every front-end-supplied root identifier goes
//! through the hive resolver before the store is touched, and every failure
//! comes back as a descriptive string preserving the underlying error's cause
//! text, never as a fault thrown across the boundary.
//!
//! These commands exist only on the platform that has the hierarchical store
//! and the shell-broadcast primitive; registering them there — and leaving
//! them off the callable surface everywhere else — is the surrounding
//! process's wiring.

use vstd::prelude::*;
use crate::errors::StoreError;
use crate::hive::{hive_from_str, spec_resolve, Root};
use crate::notify::{broadcast_plan, wide_of, Signal, SignalKind};
use crate::store::{write_effect, Store, StoredValue};

verus! {

/// Reads the 32-bit integer named `value_name` at `path` under the root that
/// `hive` names. The identifier is validated first; an unknown one is
/// rejected with its offending text and the store is not touched. The store
/// failures come back as their descriptive texts, each exactly in its case:
/// the path absent, the name absent under an existing path, or a value there
/// that is not a 32-bit integer.
pub fn read_registry(store: &Store, hive: &str, path: &Vec<String>, value_name: &String) -> (r:
    Result<u32, String>)
    ensures
        match spec_resolve(hive@) {
            None => r matches Err(m) && m@ == "Unknown hive: "@ + hive@,
            Some(root) => match r {
                Ok(v) => store.key_exists(root, path.deep_view()) && store.value_of(
                    root,
                    path.deep_view(),
                    value_name@,
                ) == Some(StoredValue::Dword(v)),
                Err(m) => {
                    ||| m@ == StoreError::PathNotFound.spec_message() && !store.key_exists(
                        root,
                        path.deep_view(),
                    )
                    ||| m@ == StoreError::ValueNotFound.spec_message() && store.key_exists(
                        root,
                        path.deep_view(),
                    ) && store.value_of(root, path.deep_view(), value_name@) is None
                    ||| m@ == StoreError::TypeMismatch.spec_message() && store.key_exists(
                        root,
                        path.deep_view(),
                    ) && store.value_of(root, path.deep_view(), value_name@) == Some(
                        StoredValue::Other,
                    )
                },
            },
        },
{
    let root = match hive_from_str(hive) {
        Ok(root) => root,
        Err(e) => {
            return Err(e.message());
        },
    };
    match store.read(root, path, value_name) {
        Ok(v) => Ok(v),
        Err(e) => Err(e.message()),
    }
}

/// Writes the 32-bit integer `data` under `value_name` at `path` under the
/// root that `hive` names, creating the path if absent and overwriting any
/// prior value. An unknown identifier or a root the process may not write
/// under is rejected with its descriptive text, and the store is left
/// unchanged. The write carries no notification; the front end sequences a
/// separate notify call itself.
pub fn set_registry(
    store: &mut Store,
    hive: &str,
    path: &Vec<String>,
    value_name: &String,
    data: u32,
) -> (r: Result<(), String>)
    ensures
        match spec_resolve(hive@) {
            None => r matches Err(m) && m@ == "Unknown hive: "@ + hive@ && *final(store) == *old(
                store,
            ),
            Some(root) => match r {
                Ok(()) => old(store).is_writable(root) && write_effect(
                    *old(store),
                    *final(store),
                    root,
                    path.deep_view(),
                    value_name@,
                    data,
                ),
                Err(m) => m@ == StoreError::AccessDenied.spec_message() && !old(
                    store,
                ).is_writable(root) && *final(store) == *old(store),
            },
        },
{
    let root = match hive_from_str(hive) {
        Ok(root) => root,
        Err(e) => {
            return Err(e.message());
        },
    };
    match store.write(root, path, value_name, data) {
        Ok(()) => Ok(()),
        Err(e) => Err(e.message()),
    }
}

/// Plans the system-wide broadcast that tells every UI surface to re-read the
/// store: the generic settings-changed signal with the fixed area identifier
/// first, then the theme-changed signal, each waiting at most 100 ms per
/// surface. Dispatch is fire-and-forget — there is no acknowledgement and no
/// listener is required — so the command always succeeds; the surrounding
/// process performs the two dispatches and swallows per-target timeouts.
pub fn broadcast_theme_change() -> (r: Result<Vec<Signal>, String>)
    ensures
        r matches Ok(plan) && plan@.len() == 2 && plan@[0].kind == SignalKind::SettingsChanged
            && plan@[0].payload@ == wide_of("ImmersiveColorSet"@) && plan@[0].timeout_ms == 100
            && plan@[1].kind == SignalKind::ThemeChanged && plan@[1].payload@.len() == 0
            && plan@[1].timeout_ms == 100,
{
    Ok(broadcast_plan())
}

} // verus!
