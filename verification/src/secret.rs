//! How the operator's secret phrase is asked for, and what its presence unlocks.

use crate::text::str_equal;
use vstd::prelude::*;

verus! {

/// The way the secret phrase is read from the operator.
#[derive(Clone, Copy, Debug, PartialEq, Eq, Structural)]
pub enum SecretMode {
    /// Read from the controlling terminal with echo switched off.
    Masked,
    /// Read from standard input with echo left on. Meant for test harnesses.
    Visible,
}

/// The deployment tag that selects masked entry.
pub open spec fn production_tag() -> Seq<char> {
    "prod"@
}

/// The mode that a deployment tag selects: masked when the tag is absent or is
/// the production tag, visible for every other tag.
pub open spec fn mode_for(tag: Option<Seq<char>>) -> SecretMode {
    match tag {
        None => SecretMode::Masked,
        Some(t) => if t == production_tag() {
            SecretMode::Masked
        } else {
            SecretMode::Visible
        },
    }
}

/// Chooses how to read the secret from the deployment tag, if one is set.
pub fn secret_mode(tag: Option<&str>) -> (mode: SecretMode)
    ensures
        mode == mode_for(
            match tag {
                Some(t) => Some(t@),
                None => None,
            },
        ),
{
    match tag {
        None => SecretMode::Masked,
        Some(t) => {
            if str_equal(t, "prod") {
                SecretMode::Masked
            } else {
                SecretMode::Visible
            }
        },
    }
}

/// Whether wallet recovery is due once the session is up: the secret that was
/// entered is not empty, or a mnemonic file was named.
pub open spec fn recovery_due_for(secret: Seq<char>, mnemonic_file: bool) -> bool {
    secret.len() > 0 || mnemonic_file
}

/// Decides whether wallet recovery runs, from the secret that was entered and
/// the mnemonic file that was named, if any.
pub fn recovery_due(secret: &str, mnemonic_file: &Option<String>) -> (due: bool)
    ensures
        due == recovery_due_for(secret@, mnemonic_file is Some),
{
    !secret.is_empty() || mnemonic_file.is_some()
}

} // verus!
