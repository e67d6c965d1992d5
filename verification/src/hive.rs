use vstd::prelude::*;
use vstd::string::StrSliceExecFns;
use crate::errors::StoreError;

verus! {

/// A root of the hierarchical configuration store: a small closed set of
/// named scopes. Exactly one root answers to each textual identifier;
/// unrecognized identifiers are rejected, never defaulted.
#[derive(Clone, Copy, Debug, Hash, PartialEq, Eq, Structural)]
pub enum Root {
    /// Machine-wide scope ("HKLM").
    LocalMachine,
    /// Per-user scope ("HKCU").
    CurrentUser,
    /// Classes scope ("HKCR").
    ClassesRoot,
    /// All-users scope ("HKU").
    Users,
    /// Current-configuration scope ("HKCC").
    CurrentConfig,
}

/// ASCII upper-case folding of one character, as a code point: lower-case
/// ASCII letters move to their upper-case form, everything else is unchanged.
pub open spec fn upper_val(c: char) -> int {
    if 97 <= c as int && c as int <= 122 {
        c as int - 32
    } else {
        c as int
    }
}

/// `s` spells the upper-case identifier `t` up to ASCII letter case.
pub open spec fn folds_to(s: Seq<char>, t: Seq<char>) -> bool {
    &&& s.len() == t.len()
    &&& forall|i: int| 0 <= i < s.len() ==> upper_val(#[trigger] s[i]) == t[i] as int
}

/// The root a textual identifier names, or `None` where none matches.
/// Matching is a case-insensitive exact comparison against the five known
/// identifiers.
pub open spec fn spec_resolve(s: Seq<char>) -> Option<Root> {
    if folds_to(s, "HKLM"@) {
        Some(Root::LocalMachine)
    } else if folds_to(s, "HKCU"@) {
        Some(Root::CurrentUser)
    } else if folds_to(s, "HKCR"@) {
        Some(Root::ClassesRoot)
    } else if folds_to(s, "HKU"@) {
        Some(Root::Users)
    } else if folds_to(s, "HKCC"@) {
        Some(Root::CurrentConfig)
    } else {
        None
    }
}

/// Whether one character case-folds onto the (upper-case) identifier
/// character `u`.
fn char_folds_to(c: char, u: char) -> (r: bool)
    ensures
        r == (upper_val(c) == u as int),
{
    let cv = c as u32;
    let uv = u as u32;
    if 97 <= cv && cv <= 122 {
        cv - 32 == uv
    } else {
        cv == uv
    }
}

/// Whether `s` spells the upper-case identifier `ident` up to ASCII case.
fn matches_identifier(s: &str, ident: &str) -> (r: bool)
    ensures
        r == folds_to(s@, ident@),
{
    let n = s.unicode_len();
    if n != ident.unicode_len() {
        return false;
    }
    for i in 0..n
        invariant
            n == s@.len(),
            n == ident@.len(),
            forall|j: int| 0 <= j < i ==> upper_val(s@[j]) == ident@[j] as int,
    {
        if !char_folds_to(s.get_char(i), ident.get_char(i)) {
            return false;
        }
    }
    true
}

/// Resolves a textual root identifier to its [`Root`], case-insensitively;
/// any unrecognized identifier fails with [`StoreError::UnknownRoot`]
/// carrying the offending text. Pure: no side effects, no state.
pub fn hive_from_str(s: &str) -> (r: Result<Root, StoreError>)
    ensures
        match spec_resolve(s@) {
            Some(root) => r == Ok::<Root, StoreError>(root),
            None => r matches Err(e) && e matches StoreError::UnknownRoot(t) && t@ == s@,
        },
{
    if matches_identifier(s, "HKLM") {
        Ok(Root::LocalMachine)
    } else if matches_identifier(s, "HKCU") {
        Ok(Root::CurrentUser)
    } else if matches_identifier(s, "HKCR") {
        Ok(Root::ClassesRoot)
    } else if matches_identifier(s, "HKU") {
        Ok(Root::Users)
    } else if matches_identifier(s, "HKCC") {
        Ok(Root::CurrentConfig)
    } else {
        Err(StoreError::UnknownRoot(s.to_owned()))
    }
}

/// Each textual identifier names at most one root: the five identifiers are
/// pairwise incompatible under case folding, so a string that folds onto one
/// of them folds onto no other, and a string that folds onto none resolves to
/// nothing.
pub proof fn lemma_resolver_exclusive(s: Seq<char>)
    ensures
        folds_to(s, "HKLM"@) ==> spec_resolve(s) == Some(Root::LocalMachine),
        folds_to(s, "HKCU"@) ==> spec_resolve(s) == Some(Root::CurrentUser),
        folds_to(s, "HKCR"@) ==> spec_resolve(s) == Some(Root::ClassesRoot),
        folds_to(s, "HKU"@) ==> spec_resolve(s) == Some(Root::Users),
        folds_to(s, "HKCC"@) ==> spec_resolve(s) == Some(Root::CurrentConfig),
        spec_resolve(s) is None <==> !folds_to(s, "HKLM"@) && !folds_to(s, "HKCU"@) && !folds_to(
            s,
            "HKCR"@,
        ) && !folds_to(s, "HKU"@) && !folds_to(s, "HKCC"@),
{
    reveal_strlit("HKLM");
    reveal_strlit("HKCU");
    reveal_strlit("HKCR");
    reveal_strlit("HKU");
    reveal_strlit("HKCC");
    if folds_to(s, "HKLM"@) {
        lemma_folds_to_one(s, "HKLM"@, "HKCU"@, 2);
        lemma_folds_to_one(s, "HKLM"@, "HKCR"@, 2);
        lemma_folds_to_one(s, "HKLM"@, "HKCC"@, 2);
    }
    if folds_to(s, "HKCU"@) {
        lemma_folds_to_one(s, "HKCU"@, "HKLM"@, 2);
        lemma_folds_to_one(s, "HKCU"@, "HKCR"@, 3);
        lemma_folds_to_one(s, "HKCU"@, "HKCC"@, 3);
    }
    if folds_to(s, "HKCR"@) {
        lemma_folds_to_one(s, "HKCR"@, "HKLM"@, 2);
        lemma_folds_to_one(s, "HKCR"@, "HKCU"@, 3);
        lemma_folds_to_one(s, "HKCR"@, "HKCC"@, 3);
    }
}

/// A string that case-folds onto `t1` cannot also case-fold onto a `t2` of
/// the same length that differs from `t1` at some position: the fold of the
/// character there cannot equal two distinct code points.
proof fn lemma_folds_to_one(s: Seq<char>, t1: Seq<char>, t2: Seq<char>, i: int)
    requires
        folds_to(s, t1),
        0 <= i < t1.len(),
        t1.len() == t2.len(),
        t1[i] as int != t2[i] as int,
    ensures
        !folds_to(s, t2),
{
    assert(upper_val(s[i]) == t1[i] as int);
    if folds_to(s, t2) {
        assert(upper_val(s[i]) == t2[i] as int);
        assert(false);
    }
}

} // verus!
