//! The catalog of hardware designs: for each core type the versions in
//! which it can be loaded into the FPGA, each with the regions it occupies,
//! the artifact to load and the memory window it needs.

use crate::document::{
    lookup, strings_view, text_at, texts_at, toml_as_integer, toml_as_str, toml_content,
    toml_document, toml_parse, tree_text_at, tree_texts_at, TomlTree,
};
use crate::error::EngineError;
use crate::text::{chars_of, dec_string, dec_text, string_of};
use vstd::prelude::*;

verus! {

/// The memory window of an accelerator, as the descriptor writes it.
#[derive(Debug)]
pub struct MemWindow {
    /// The physical start.
    pub phys_start: String,
    /// The virtual start.
    pub virt_start: String,
    /// The size.
    pub size: String,
}

/// The mathematical content of a `MemWindow`.
pub struct WindowView {
    pub phys_start: Seq<char>,
    pub virt_start: Seq<char>,
    pub size: Seq<char>,
}

impl View for MemWindow {
    type V = WindowView;

    open spec fn view(&self) -> WindowView {
        WindowView { phys_start: self.phys_start@, virt_start: self.virt_start@, size: self.size@ }
    }
}

impl MemWindow {
    /// A copy of the window.
    pub fn copy(&self) -> (r: MemWindow)
        ensures
            r@ == self@,
    {
        MemWindow {
            phys_start: self.phys_start.clone(),
            virt_start: self.virt_start.clone(),
            size: self.size.clone(),
        }
    }
}

/// The contents of a list of windows.
pub open spec fn window_views(windows: Seq<MemWindow>) -> Seq<WindowView> {
    windows.map_values(|w: MemWindow| w@)
}

/// The content of an optional window.
pub open spec fn window_view(w: Option<MemWindow>) -> Option<WindowView> {
    match w {
        Some(w) => Some(w@),
        None => None,
    }
}

/// One version of a hardware design.
#[derive(Debug)]
pub struct Version {
    /// The artifact to load.
    pub name: String,
    /// The regions that the version occupies: one number, or several with
    /// dashes between them.
    pub region: String,
    /// The memory window that the version needs, if it needs one.
    pub window: Option<MemWindow>,
    /// Whether the window is described in full. It is not where the catalog
    /// gives a physical start without a size: such a version has no window
    /// here, and cannot be loaded.
    pub sized: bool,
}

/// The mathematical content of a `Version`.
pub struct VersionView {
    pub name: Seq<char>,
    pub region: Seq<char>,
    pub window: Option<WindowView>,
    pub sized: bool,
}

impl View for Version {
    type V = VersionView;

    open spec fn view(&self) -> VersionView {
        VersionView {
            name: self.name@,
            region: self.region@,
            window: window_view(self.window),
            sized: self.sized,
        }
    }
}

/// The contents of a list of versions.
pub open spec fn version_views(versions: Seq<Version>) -> Seq<VersionView> {
    versions.map_values(|v: Version| v@)
}

/// A hardware design: a core type and its versions, in the order of
/// preference.
#[derive(Debug)]
pub struct Design {
    /// The core type.
    pub core: String,
    /// The versions, the preferred one first, as far as the catalog gives
    /// their artifacts and regions: the list ends before the first version
    /// of which it does not.
    pub versions: Vec<Version>,
    /// Whether the list holds every version of the design.
    pub complete: bool,
}

/// The mathematical content of a `Design`.
pub struct DesignView {
    pub core: Seq<char>,
    pub versions: Seq<VersionView>,
    pub complete: bool,
}

impl View for Design {
    type V = DesignView;

    open spec fn view(&self) -> DesignView {
        DesignView {
            core: self.core@,
            versions: version_views(self.versions@),
            complete: self.complete,
        }
    }
}

/// The contents of a list of designs.
pub open spec fn design_views(designs: Seq<Design>) -> Seq<DesignView> {
    designs.map_values(|d: Design| d@)
}

/// The catalog of hardware designs.
#[derive(Debug)]
pub struct Catalog {
    /// The designs, in the order of the catalog.
    pub designs: Vec<Design>,
}

/// The regions that a catalog entry names: a number, or a text.
pub open spec fn region_text(t: TomlTree) -> Option<Seq<char>> {
    match t {
        TomlTree::Integer(i) => Some(dec_text(i as int)),
        TomlTree::Text(s) => Some(s),
        _ => None,
    }
}

/// The memory window of the version `name`: none where the catalog gives no
/// physical start, and nothing at all where it gives a physical start
/// without a size. A window without a virtual start lies at 0.
pub open spec fn window_of(t: TomlTree, name: Seq<char>) -> Option<Option<WindowView>> {
    match tree_text_at(t, name, "phys_start"@) {
        Some(phys) => match tree_text_at(t, name, "size"@) {
            Some(size) => Some(
                Some(
                    WindowView {
                        phys_start: phys,
                        virt_start: match tree_text_at(t, name, "virt_start"@) {
                            Some(v) => v,
                            None => "0"@,
                        },
                        size: size,
                    },
                ),
            ),
            None => None,
        },
        None => Some(None),
    }
}

/// The version `name` in the catalog, if the catalog gives its artifact and
/// its regions. Whether its window is described in full is part of the
/// version: it matters only to a request that would take the version.
pub open spec fn version_of(t: TomlTree, name: Seq<char>) -> Option<VersionView> {
    let artifact = tree_text_at(t, name, "name"@);
    let region = match t.at(name, "region"@) {
        Some(r) => region_text(r),
        None => None,
    };
    if artifact is Some && region is Some {
        Some(
            VersionView {
                name: artifact->0,
                region: region->0,
                window: match window_of(t, name) {
                    Some(w) => w,
                    None => None,
                },
                sized: window_of(t, name) is Some,
            },
        )
    } else {
        None
    }
}

/// The number of versions at the head of the list `names` whose artifact
/// and regions the catalog gives.
pub open spec fn readable_count(t: TomlTree, names: Seq<Seq<char>>) -> int
    decreases names.len(),
{
    if names.len() == 0 {
        0
    } else if version_of(t, names[0]) is Some {
        1 + readable_count(t, names.skip(1))
    } else {
        0
    }
}

/// The versions `names` in the catalog, up to the first whose artifact or
/// regions the catalog does not give: a design is read version by version,
/// and no further than that.
pub open spec fn versions_of(t: TomlTree, names: Seq<Seq<char>>) -> Seq<VersionView> {
    Seq::new(readable_count(t, names) as nat, |k: int| version_of(t, names[k])->0)
}

/// The design of the core type `core` in the catalog, if the catalog lists
/// its versions.
pub open spec fn design_of(t: TomlTree, core: Seq<char>) -> Option<DesignView> {
    match tree_texts_at(t, core, "versions"@) {
        Some(names) => Some(
            DesignView {
                core: core,
                versions: versions_of(t, names),
                complete: readable_count(t, names) == names.len(),
            },
        ),
        None => None,
    }
}

proof fn lemma_readable_count(t: TomlTree, names: Seq<Seq<char>>)
    ensures
        0 <= readable_count(t, names) <= names.len(),
    decreases names.len(),
{
    if names.len() > 0 {
        lemma_readable_count(t, names.skip(1));
    }
}

/// The designs of the core types `cores` whose versions the catalog lists,
/// in the order of the list. A design whose versions it does not list
/// is left out, and so is unknown to requests; the others are not touched by
/// it.
pub open spec fn designs_of(t: TomlTree, cores: Seq<Seq<char>>) -> Seq<DesignView>
    decreases cores.len(),
{
    if cores.len() == 0 {
        Seq::<DesignView>::empty()
    } else {
        match design_of(t, cores.last()) {
            Some(d) => designs_of(t, cores.drop_last()).push(d),
            None => designs_of(t, cores.drop_last()),
        }
    }
}

/// What a document describes as a catalog, if it lists hardware designs:
/// those of the listed designs whose versions it lists.
pub open spec fn catalog_of(t: TomlTree) -> Option<Seq<DesignView>> {
    match tree_texts_at(t, "hardware_designs"@, "designs"@) {
        Some(cores) => Some(designs_of(t, cores)),
        None => None,
    }
}

fn copy_text(s: &str) -> (r: String)
    ensures
        r@ == s@,
{
    string_of(&chars_of(s))
}

/// Reads one version out of the catalog's document.
pub fn read_version(doc: &toml::Value, name: &str) -> (r: Option<Version>)
    ensures
        match r {
            Some(v) => version_of(toml_content(*doc), name@) == Some(v@),
            None => version_of(toml_content(*doc), name@) is None,
        },
{
    let artifact = match text_at(doc, name, "name") {
        Some(s) => s,
        None => {
            return None;
        },
    };
    let region = match lookup(doc, name, "region") {
        Some(v) => match toml_as_integer(v) {
            Some(i) => dec_string(i),
            None => match toml_as_str(v) {
                Some(s) => s,
                None => {
                    return None;
                },
            },
        },
        None => {
            return None;
        },
    };
    match text_at(doc, name, "phys_start") {
        Some(phys) => match text_at(doc, name, "size") {
            Some(size) => {
                let virt = match text_at(doc, name, "virt_start") {
                    Some(v) => v,
                    None => copy_text("0"),
                };
                let window = MemWindow { phys_start: phys, virt_start: virt, size: size };
                Some(Version { name: artifact, region: region, window: Some(window), sized: true })
            },
            None => Some(Version { name: artifact, region: region, window: None, sized: false }),
        },
        None => Some(Version { name: artifact, region: region, window: None, sized: true }),
    }
}

/// Reads one design out of the catalog's document.
pub fn read_design(doc: &toml::Value, core: &str) -> (r: Option<Design>)
    ensures
        match r {
            Some(d) => design_of(toml_content(*doc), core@) == Some(d@),
            None => design_of(toml_content(*doc), core@) is None,
        },
{
    let names = match texts_at(doc, core, "versions") {
        Some(names) => names,
        None => {
            return None;
        },
    };
    let ghost t = toml_content(*doc);
    let ghost views = strings_view(names@);
    let mut out: Vec<Version> = Vec::new();
    let mut complete = true;
    let mut i: usize = 0;
    assert(views.skip(0) =~= views);
    while i < names.len() && complete
        invariant
            i <= names.len(),
            t == toml_content(*doc),
            views == strings_view(names@),
            tree_texts_at(t, core@, "versions"@) == Some(views),
            complete ==> out.len() == i,
            !complete ==> out.len() < names.len(),
            forall|k: int|
                0 <= k < out.len() ==> (#[trigger] version_of(t, views[k])) == Some(out@[k]@),
            complete ==> readable_count(t, views) == i + readable_count(t, views.skip(i as int)),
            !complete ==> readable_count(t, views) == out.len(),
        decreases names.len() - i + if complete { 1int } else { 0int },
    {
        proof {
            assert(views[i as int] == names@[i as int]@);
            assert(views.skip(i as int)[0] == views[i as int]);
            assert(views.skip(i as int).skip(1) =~= views.skip(i + 1));
        }
        match read_version(doc, names[i].as_str()) {
            Some(v) => {
                out.push(v);
                i += 1;
            },
            None => {
                complete = false;
            },
        }
    }
    proof {
        lemma_readable_count(t, views);
        if complete {
            assert(views.skip(names.len() as int) =~= Seq::<Seq<char>>::empty());
        }
        assert(versions_of(t, views) =~= version_views(out@));
    }
    Some(Design { core: copy_text(core), versions: out, complete: complete })
}

/// Reads the catalog out of its parsed document. A design whose versions
/// the document does not list is left out of the catalog; a design is read up
/// to the first version whose artifact or regions the document does not give.
pub fn read_catalog(doc: &toml::Value) -> (r: Result<Catalog, EngineError>)
    ensures
        match r {
            Ok(c) => catalog_of(toml_content(*doc)) == Some(design_views(c.designs@)),
            Err(e) => e == EngineError::NoCatalogEntry && catalog_of(toml_content(*doc)) is None,
        },
{
    let cores = match texts_at(doc, "hardware_designs", "designs") {
        Some(cores) => cores,
        None => {
            return Err(EngineError::NoCatalogEntry);
        },
    };
    let ghost t = toml_content(*doc);
    let ghost views = strings_view(cores@);
    let mut out: Vec<Design> = Vec::new();
    let mut i: usize = 0;
    assert(views.take(0) =~= Seq::<Seq<char>>::empty());
    assert(design_views(out@) =~= Seq::<DesignView>::empty());
    while i < cores.len()
        invariant
            i <= cores.len(),
            t == toml_content(*doc),
            views == strings_view(cores@),
            tree_texts_at(t, "hardware_designs"@, "designs"@) == Some(views),
            design_views(out@) == designs_of(t, views.take(i as int)),
        decreases cores.len() - i,
    {
        proof {
            assert(views.take(i + 1).drop_last() =~= views.take(i as int));
            assert(views.take(i + 1).last() == cores@[i as int]@);
        }
        match read_design(doc, cores[i].as_str()) {
            Some(d) => {
                let ghost before = design_views(out@);
                out.push(d);
                assert(design_views(out@) =~= before.push(d@));
            },
            None => {},
        }
        i += 1;
    }
    assert(views.take(cores.len() as int) =~= views);
    Ok(Catalog { designs: out })
}

/// What a text describes as a catalog.
pub open spec fn catalog_in(text: Seq<char>) -> Option<Seq<DesignView>> {
    match toml_document(text) {
        Some(t) => catalog_of(t),
        None => None,
    }
}

/// Loads the catalog from the text of its document.
pub fn load_catalog(text: &str) -> (r: Result<Catalog, EngineError>)
    ensures
        match r {
            Ok(c) => catalog_in(text@) == Some(design_views(c.designs@)),
            Err(e) => e == EngineError::NoCatalogEntry && catalog_in(text@) is None,
        },
{
    match toml_parse(text) {
        Ok(doc) => read_catalog(&doc),
        Err(_) => Err(EngineError::NoCatalogEntry),
    }
}

} // verus!
