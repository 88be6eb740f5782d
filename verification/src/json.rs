//! Structured values as JSON text, by `serde_json`.
//!
//! Two kinds of value travel through a container as JSON: the install options
//! of a binary package and the application descriptor. What JSON text stands
//! for which value is `serde_json`'s business and that of the `Deserialize`
//! and `Serialize` impls in `ahqstore_types`; this module gives those
//! results names, as far as they depend on the text or the value alone, so
//! that the codec's contracts can say where they end up.

use crate::schema::{InstallView, InstallerOptions, InstallerOptionsLinux, InstallerOptionsWin32};
use vstd::prelude::*;

verus! {

/// The install options that `text` is the JSON form of, if it is one.
pub uninterp spec fn json_install(text: Seq<char>) -> Option<InstallView>;

/// The JSON text that `serde_json` writes for install options, if it writes one.
pub uninterp spec fn install_json(install: InstallView) -> Option<Seq<char>>;

/// Whether `text` is the JSON form of an application descriptor.
pub uninterp spec fn is_descriptor_json(text: Seq<char>) -> bool;

/// `serde_json::from_str` at `ahqstore_types::InstallerOptions`, the result
/// moved field by field into this crate's type. It succeeds exactly on the
/// texts that `json_install` knows, with the value that `json_install` gives.
#[verifier::external_body]
pub(crate) fn install_from_json(text: &str) -> (r: Result<InstallerOptions, serde_json::Error>)
    ensures
        r is Ok <==> json_install(text@) is Some,
        r matches Ok(o) ==> json_install(text@) == Some(o@),
{
    let o: ahqstore_types::InstallerOptions = serde_json::from_str(text)?;
    Ok(
        InstallerOptions {
            win32: o.win32.map(|w| InstallerOptionsWin32::new(w.assetId, w.exec, w.installerArgs)),
            linux: o.linux.map(|l| InstallerOptionsLinux::new(l.assetId)),
        },
    )
}

/// `serde_json::to_string` at `ahqstore_types::InstallerOptions`, built field
/// by field from this crate's type. It succeeds exactly on the values for
/// which `install_json` knows a text, with that text.
#[verifier::external_body]
pub(crate) fn install_to_json(install: &InstallerOptions) -> (r: Result<String, serde_json::Error>)
    ensures
        r is Ok <==> install_json(install@) is Some,
        r matches Ok(t) ==> install_json(install@) == Some(t@),
{
    let win32 = install.win32.clone().map(
        |w|
            ahqstore_types::InstallerOptionsWin32 {
                assetId: w.asset_id,
                exec: w.executable,
                installerArgs: w.installer_args,
            },
    );
    let linux = install.linux.clone().map(
        |l| ahqstore_types::InstallerOptionsLinux { assetId: l.asset_id },
    );
    let o = ahqstore_types::InstallerOptions { win32, linux };
    serde_json::to_string(&o)
}

/// `serde_json::from_str` at `ahqstore_types::AHQStoreApplication`. It
/// succeeds exactly on the texts of which `is_descriptor_json` holds. The
/// descriptor that it gives holds a hash map, which is built anew with every
/// call, so nothing is said of the value.
#[verifier::external_body]
pub(crate) fn descriptor_from_json(text: &str) -> (r: Result<
    ahqstore_types::AHQStoreApplication,
    serde_json::Error,
>)
    ensures
        r is Ok <==> is_descriptor_json(text@),
{
    serde_json::from_str(text)
}

/// `serde_json::to_string` at `ahqstore_types::AHQStoreApplication`. The
/// descriptor holds a hash map, whose entries are written in the order in
/// which the map is walked, so nothing is said of the text.
#[verifier::external_body]
pub(crate) fn descriptor_to_json(app: &ahqstore_types::AHQStoreApplication) -> (r: Result<
    String,
    serde_json::Error,
>) {
    serde_json::to_string(app)
}

} // verus!
