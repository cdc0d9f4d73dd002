//! The records that the parsers produce, and their mathematical views.
use vstd::prelude::*;

verus! {

/// Where a search or listing result comes from.
#[derive(Debug, Clone, Copy, PartialEq, Eq, Structural)]
pub enum PackageSource {
    Default,
    Aur,
    Fedora,
    Alpine,
}

/// The badge text shown for a source.
pub open spec fn source_label(s: PackageSource) -> Seq<char> {
    match s {
        PackageSource::Default => "System"@,
        PackageSource::Aur => "AUR"@,
        PackageSource::Fedora => "Fedora"@,
        PackageSource::Alpine => "Alpine"@,
    }
}

impl PackageSource {
    pub fn as_str(&self) -> (r: &'static str)
        ensures
            r@ == source_label(*self),
    {
        match self {
            PackageSource::Default => "System",
            PackageSource::Aur => "AUR",
            PackageSource::Fedora => "Fedora",
            PackageSource::Alpine => "Alpine",
        }
    }
}

/// One package of a search result or of a listing.
#[derive(Debug, Clone)]
pub struct PackageInfo {
    pub name: String,
    pub description: String,
    pub version: String,
    pub size: String,
    pub source: PackageSource,
}

/// The view of a [`PackageInfo`].
pub struct PackageView {
    pub name: Seq<char>,
    pub description: Seq<char>,
    pub version: Seq<char>,
    pub size: Seq<char>,
    pub source: PackageSource,
}

impl View for PackageInfo {
    type V = PackageView;

    open spec fn view(&self) -> PackageView {
        PackageView {
            name: self.name@,
            description: self.description@,
            version: self.version@,
            size: self.size@,
            source: self.source,
        }
    }
}

pub open spec fn package_views(v: Seq<PackageInfo>) -> Seq<PackageView> {
    v.map_values(|p: PackageInfo| p@)
}

/// One Flatpak application of a search result or of a listing.
#[derive(Debug, Clone)]
pub struct FlatpakInfo {
    pub name: String,
    pub description: String,
    pub version: String,
    pub application: String,
}

/// The view of a [`FlatpakInfo`].
pub struct FlatpakView {
    pub name: Seq<char>,
    pub description: Seq<char>,
    pub version: Seq<char>,
    pub application: Seq<char>,
}

impl View for FlatpakInfo {
    type V = FlatpakView;

    open spec fn view(&self) -> FlatpakView {
        FlatpakView {
            name: self.name@,
            description: self.description@,
            version: self.version@,
            application: self.application@,
        }
    }
}

pub open spec fn flatpak_views(v: Seq<FlatpakInfo>) -> Seq<FlatpakView> {
    v.map_values(|p: FlatpakInfo| p@)
}

/// Details of one package, shown before an install or a removal.
#[derive(Debug, Clone)]
pub struct PackageDetail {
    pub name: String,
    pub version: String,
    pub description: String,
    pub size: String,
    pub is_flatpak: bool,
}

/// The tabs of the main window.
#[derive(Debug, Clone, Copy, PartialEq, Eq, Structural)]
pub enum Tab {
    Search,
    Installed,
    Flatpak,
    Pikman,
}

} // verus!
