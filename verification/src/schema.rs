//! The decoded form of a container: a version and one of three payloads.

use crate::layout::SENTINEL;
use crate::VER;
use std::collections::HashMap;
use vstd::prelude::*;

verus! {

broadcast use vstd::std_specs::hash::group_hash_axioms;

/// The application descriptor of `ahqstore_types`. The codec carries such a
/// value between its JSON text and the caller and never looks inside.
#[verifier::external_type_specification]
#[verifier::external_body]
pub struct ExAHQStoreApplication(ahqstore_types::AHQStoreApplication);

/// How an application is installed on Linux.
#[derive(Debug, Clone, PartialEq, Eq)]
pub struct InstallerOptionsLinux {
    /// The asset that holds the installer.
    pub asset_id: u8,
}

/// How an application is installed on 32- and 64-bit Windows.
#[derive(Debug, Clone, PartialEq, Eq)]
pub struct InstallerOptionsWin32 {
    /// The asset that holds the installer.
    pub asset_id: u8,
    /// The executable to link as a shortcut, if it is not the default one.
    pub executable: Option<String>,
    /// Arguments handed to a custom installer.
    pub installer_args: Option<Vec<String>>,
}

/// The install options of a binary package, one entry per platform.
#[derive(Debug, Clone, PartialEq, Eq)]
pub struct InstallerOptions {
    pub win32: Option<InstallerOptionsWin32>,
    pub linux: Option<InstallerOptionsLinux>,
}

/// The mathematical content of an [`InstallerOptionsWin32`].
pub struct Win32View {
    pub asset_id: u8,
    pub executable: Option<Seq<char>>,
    pub installer_args: Option<Seq<Seq<char>>>,
}

/// The mathematical content of an [`InstallerOptions`]; for Linux the asset
/// id is all there is.
pub struct InstallView {
    pub win32: Option<Win32View>,
    pub linux: Option<u8>,
}

/// The install options that a package has when its container holds none:
/// Linux and Windows both present, each with asset 0, no executable override
/// and no installer arguments.
pub open spec fn default_install() -> InstallView {
    InstallView {
        win32: Some(Win32View { asset_id: 0, executable: None, installer_args: None }),
        linux: Some(0u8),
    }
}

impl InstallerOptionsLinux {
    pub fn new(asset_id: u8) -> (r: InstallerOptionsLinux)
        ensures
            r.asset_id == asset_id,
    {
        InstallerOptionsLinux { asset_id }
    }
}

impl InstallerOptionsWin32 {
    pub fn new(
        asset_id: u8,
        executable: Option<String>,
        installer_args: Option<Vec<String>>,
    ) -> (r: InstallerOptionsWin32)
        ensures
            r.asset_id == asset_id,
            r.executable == executable,
            r.installer_args == installer_args,
    {
        InstallerOptionsWin32 { asset_id, executable, installer_args }
    }
}

impl View for InstallerOptionsWin32 {
    type V = Win32View;

    open spec fn view(&self) -> Win32View {
        Win32View {
            asset_id: self.asset_id,
            executable: match self.executable {
                Some(e) => Some(e@),
                None => None,
            },
            installer_args: match self.installer_args {
                Some(a) => Some(a@.map_values(|s: String| s@)),
                None => None,
            },
        }
    }
}

impl View for InstallerOptions {
    type V = InstallView;

    open spec fn view(&self) -> InstallView {
        InstallView {
            win32: match self.win32 {
                Some(w) => Some(w@),
                None => None,
            },
            linux: match self.linux {
                Some(l) => Some(l.asset_id),
                None => None,
            },
        }
    }
}

impl Default for InstallerOptions {
    /// The options of a package whose container holds none.
    fn default() -> (r: InstallerOptions)
        ensures
            r@ == default_install(),
    {
        InstallerOptions {
            win32: Some(InstallerOptionsWin32 { asset_id: 0, executable: None, installer_args: None }),
            linux: Some(InstallerOptionsLinux { asset_id: 0 }),
        }
    }
}

impl InstallerOptions {
    /// Whether these are the options that an absent install field stands for.
    pub fn is_default(&self) -> (r: bool)
        ensures
            r == (self@ == default_install()),
    {
        let win32_default = match &self.win32 {
            Some(w) => w.asset_id == 0 && w.executable.is_none() && w.installer_args.is_none(),
            None => false,
        };
        let linux_default = match &self.linux {
            Some(l) => l.asset_id == 0,
            None => false,
        };
        win32_default && linux_default
    }
}

/// A binary package: keyed blobs, an icon, a name and install options.
#[non_exhaustive]
#[derive(Debug)]
pub struct BinStruct {
    /// The blobs of the package by their id. The id 255 is reserved: it ends
    /// the list of entries in the container.
    pub data: HashMap<u8, Vec<u8>>,
    /// The icon, an image this codec does not interpret.
    pub icon: Vec<u8>,
    /// The name of the package; may be empty.
    pub name: String,
    /// How the package is installed.
    pub install: InstallerOptions,
}

/// The entries of a binary package with each blob as the bytes it holds.
pub open spec fn blobs(data: Map<u8, Vec<u8>>) -> Map<u8, Seq<u8>> {
    Map::new(|id: u8| data.contains_key(id), |id: u8| data[id]@)
}

/// The mathematical content of a [`BinStruct`].
pub struct BinView {
    pub data: Map<u8, Seq<u8>>,
    pub icon: Seq<u8>,
    pub name: Seq<char>,
    pub install: InstallView,
}

impl View for BinStruct {
    type V = BinView;

    open spec fn view(&self) -> BinView {
        BinView {
            data: blobs(self.data@),
            icon: self.icon@,
            name: self.name@,
            install: self.install@,
        }
    }
}

impl BinStruct {
    pub fn new(
        data: HashMap<u8, Vec<u8>>,
        icon: Vec<u8>,
        name: String,
        install: InstallerOptions,
    ) -> (r: BinStruct)
        ensures
            r.data == data,
            r.icon == icon,
            r.name == name,
            r.install == install,
    {
        BinStruct { data, icon, name, install }
    }
}

/// The payload of a container.
#[non_exhaustive]
#[derive(Debug)]
pub enum AppFileType {
    /// A binary package; type tag 1.
    Bin(BinStruct),
    /// An application descriptor, stored as its JSON text; type tag 2.
    Dat(ahqstore_types::AHQStoreApplication),
    /// A text that is stored as it is and never parsed; type tag 3.
    ODat(String),
}

/// The mathematical content of an [`AppFileType`], as far as the codec knows
/// it: of a descriptor it knows that it is one, and nothing of what it holds.
pub enum PayloadView {
    Bin(BinView),
    Dat,
    ODat(Seq<char>),
}

impl View for AppFileType {
    type V = PayloadView;

    open spec fn view(&self) -> PayloadView {
        match self {
            AppFileType::Bin(b) => PayloadView::Bin(b@),
            AppFileType::Dat(_) => PayloadView::Dat,
            AppFileType::ODat(t) => PayloadView::ODat(t@),
        }
    }
}

/// A decoded container.
#[non_exhaustive]
#[derive(Debug)]
pub struct Schema {
    /// The version of the layout that the bytes were written in.
    pub ver: u16,
    /// The payload.
    pub data: AppFileType,
}

/// The mathematical content of a [`Schema`].
pub struct SchemaView {
    pub ver: u16,
    pub data: PayloadView,
}

impl SchemaView {
    /// Whether a container can hold this schema: its version is the
    /// supported one and, in a binary package, no entry has the reserved id.
    pub open spec fn wf(self) -> bool {
        &&& self.ver == VER
        &&& (self.data matches PayloadView::Bin(bin) ==> !bin.data.contains_key(SENTINEL))
    }
}

impl View for Schema {
    type V = SchemaView;

    open spec fn view(&self) -> SchemaView {
        SchemaView { ver: self.ver, data: self.data@ }
    }
}

impl Schema {
    /// A container of the supported version around `data`.
    pub fn new(data: AppFileType) -> (r: Schema)
        ensures
            r.ver == VER,
            r.data == data,
    {
        Schema { ver: VER, data }
    }

    /// Whether a container can hold this schema.
    pub fn is_well_formed(&self) -> (r: bool)
        ensures
            r == self@.wf(),
    {
        self.ver == VER && match &self.data {
            AppFileType::Bin(bin) => !bin.data.contains_key(&SENTINEL),
            _ => true,
        }
    }
}

} // verus!
