//! The description of the platform: which templates make up the memory
//! regions and the devices of a cell on this board, with their parameters.

use crate::descriptor::params_view;
use crate::document::{
    strings_view, text_at, texts_at, toml_content, toml_document, toml_parse, tree_text_at,
    tree_texts_at, TomlTree,
};
use crate::error::EngineError;
use crate::templates::Template;
use crate::text::{chars_of, hex_value, parse_hex, string_of};
use vstd::prelude::*;

verus! {

/// One use of a template, with the parameters that the platform gives it.
#[derive(Debug)]
pub struct TemplateUse {
    /// The kind of block.
    pub template: Template,
    /// The parameters, in the order in which they are filled in.
    pub params: Vec<(String, String)>,
}

/// The mathematical content of a `TemplateUse`.
pub struct UseView {
    pub template: Template,
    pub params: Seq<(Seq<char>, Seq<char>)>,
}

impl View for TemplateUse {
    type V = UseView;

    open spec fn view(&self) -> UseView {
        UseView { template: self.template, params: params_view(self.params@) }
    }
}

/// The contents of a list of uses.
pub open spec fn use_views(uses: Seq<TemplateUse>) -> Seq<UseView> {
    uses.map_values(|u: TemplateUse| u@)
}

/// The description of a platform.
#[derive(Debug)]
pub struct Platform {
    /// The name of the preamble for guests that are not Linux.
    pub preamble: Option<String>,
    /// The memory regions of a cell, in the order of the platform's list.
    pub regions: Vec<TemplateUse>,
    /// The devices of a cell, in the order of the platform's list.
    pub devices: Vec<TemplateUse>,
    /// The address of the shared memory of the first network channel.
    pub ivshmem_base: Option<u64>,
}

/// The mathematical content of a `Platform`.
pub struct PlatformView {
    pub preamble: Option<Seq<char>>,
    pub regions: Seq<UseView>,
    pub devices: Seq<UseView>,
    pub ivshmem_base: Option<u64>,
}

impl View for Platform {
    type V = PlatformView;

    open spec fn view(&self) -> PlatformView {
        PlatformView {
            preamble: match self.preamble {
                Some(s) => Some(s@),
                None => None,
            },
            regions: use_views(self.regions@),
            devices: use_views(self.devices@),
            ivshmem_base: self.ivshmem_base,
        }
    }
}

/// The parameter `key` of the template `name`, if the platform gives it.
pub open spec fn param_if(t: TomlTree, name: Seq<char>, key: Seq<char>) -> Seq<
    (Seq<char>, Seq<char>),
> {
    match tree_text_at(t, name, key) {
        Some(v) => seq![(key, v)],
        None => Seq::<(Seq<char>, Seq<char>)>::empty(),
    }
}

/// The parameters that the platform gives the template `name`: those of the
/// placeholders that templates have, in a fixed order.
pub open spec fn platform_params(t: TomlTree, name: Seq<char>) -> Seq<(Seq<char>, Seq<char>)> {
    param_if(t, name, "phys_start"@) + param_if(t, name, "virt_start"@) + param_if(
        t,
        name,
        "size"@,
    ) + param_if(t, name, "address"@) + param_if(t, name, "gic_address"@) + param_if(
        t,
        name,
        "uart_pin"@,
    ) + param_if(t, name, "ivshmem_pin"@)
}

/// The use of the template `name` on the platform, if there is such a
/// template.
pub open spec fn use_of(t: TomlTree, name: Seq<char>) -> Option<UseView> {
    match Template::named(name) {
        Some(k) => Some(UseView { template: k, params: platform_params(t, name) }),
        None => None,
    }
}

/// The uses of the templates `names`, if there are such templates.
pub open spec fn uses_of(t: TomlTree, names: Seq<Seq<char>>) -> Option<Seq<UseView>> {
    if forall|i: int| 0 <= i < names.len() ==> (#[trigger] use_of(t, names[i])) is Some {
        Some(names.map_values(|n: Seq<char>| use_of(t, n)->0))
    } else {
        None
    }
}

/// What a document describes as a platform, if it lists memory regions and
/// devices and names nothing but templates.
pub open spec fn platform_of(t: TomlTree) -> Option<PlatformView> {
    let regions = match tree_texts_at(t, "mem_regions"@, "regions"@) {
        Some(names) => uses_of(t, names),
        None => None,
    };
    let devices = match tree_texts_at(t, "devices"@, "devs"@) {
        Some(names) => uses_of(t, names),
        None => None,
    };
    if regions is Some && devices is Some {
        Some(
            PlatformView {
                preamble: tree_text_at(t, "jailhouse_preample"@, "preamble"@),
                regions: regions->0,
                devices: devices->0,
                ivshmem_base: match tree_text_at(t, "IVSHMEM_TEMPLATE"@, "address"@) {
                    Some(s) => hex_value(s),
                    None => None,
                },
            },
        )
    } else {
        None
    }
}

fn add_param(doc: &toml::Value, name: &str, key: &str, params: &mut Vec<(String, String)>)
    ensures
        params_view(final(params)@) == params_view(old(params)@) + param_if(
            toml_content(*doc),
            name@,
            key@,
        ),
{
    let ghost before = params_view(params@);
    match text_at(doc, name, key) {
        Some(v) => {
            let ghost value = v@;
            params.push((string_of(&chars_of(key)), v));
            assert(params_view(params@) =~= before + seq![(key@, value)]);
        },
        None => {
            assert(params_view(params@) =~= before + Seq::<(Seq<char>, Seq<char>)>::empty());
        },
    }
}

/// Reads the use of one template out of the platform's document.
pub fn read_use(doc: &toml::Value, name: &str) -> (r: Option<TemplateUse>)
    ensures
        match r {
            Some(u) => use_of(toml_content(*doc), name@) == Some(u@),
            None => use_of(toml_content(*doc), name@) is None,
        },
{
    let kind = match Template::from_name(name) {
        Some(k) => k,
        None => {
            return None;
        },
    };
    let mut params: Vec<(String, String)> = Vec::new();
    assert(params_view(params@) =~= Seq::<(Seq<char>, Seq<char>)>::empty());
    add_param(doc, name, "phys_start", &mut params);
    add_param(doc, name, "virt_start", &mut params);
    add_param(doc, name, "size", &mut params);
    add_param(doc, name, "address", &mut params);
    add_param(doc, name, "gic_address", &mut params);
    add_param(doc, name, "uart_pin", &mut params);
    add_param(doc, name, "ivshmem_pin", &mut params);
    assert(params_view(params@) =~= platform_params(toml_content(*doc), name@));
    Some(TemplateUse { template: kind, params: params })
}

fn read_uses(doc: &toml::Value, names: &Vec<String>) -> (r: Option<Vec<TemplateUse>>)
    ensures
        match r {
            Some(uses) => uses_of(toml_content(*doc), strings_view(names@)) == Some(
                use_views(uses@),
            ),
            None => uses_of(toml_content(*doc), strings_view(names@)) is None,
        },
{
    let ghost t = toml_content(*doc);
    let ghost views = strings_view(names@);
    let mut out: Vec<TemplateUse> = Vec::new();
    let mut i: usize = 0;
    while i < names.len()
        invariant
            i <= names.len(),
            t == toml_content(*doc),
            views == strings_view(names@),
            out.len() == i,
            forall|k: int| 0 <= k < i ==> (#[trigger] use_of(t, views[k])) == Some(out@[k]@),
        decreases names.len() - i,
    {
        assert(views[i as int] == names@[i as int]@);
        match read_use(doc, names[i].as_str()) {
            Some(u) => {
                out.push(u);
            },
            None => {
                return None;
            },
        }
        i += 1;
    }
    assert(views.map_values(|n: Seq<char>| use_of(t, n)->0) =~= use_views(out@));
    Some(out)
}

/// Reads the description of the platform out of its parsed document.
pub fn read_platform(doc: &toml::Value) -> (r: Result<Platform, EngineError>)
    ensures
        match r {
            Ok(p) => platform_of(toml_content(*doc)) == Some(p@),
            Err(e) => e == EngineError::DescriptorTemplateMissing && platform_of(
                toml_content(*doc),
            ) is None,
        },
{
    let regions = match texts_at(doc, "mem_regions", "regions") {
        Some(names) => match read_uses(doc, &names) {
            Some(uses) => uses,
            None => {
                return Err(EngineError::DescriptorTemplateMissing);
            },
        },
        None => {
            return Err(EngineError::DescriptorTemplateMissing);
        },
    };
    let devices = match texts_at(doc, "devices", "devs") {
        Some(names) => match read_uses(doc, &names) {
            Some(uses) => uses,
            None => {
                return Err(EngineError::DescriptorTemplateMissing);
            },
        },
        None => {
            return Err(EngineError::DescriptorTemplateMissing);
        },
    };
    let preamble = text_at(doc, "jailhouse_preample", "preamble");
    let base = match text_at(doc, "IVSHMEM_TEMPLATE", "address") {
        Some(s) => parse_hex(s.as_str()),
        None => None,
    };
    Ok(Platform { preamble: preamble, regions: regions, devices: devices, ivshmem_base: base })
}

/// What a text describes as a platform.
pub open spec fn platform_in(text: Seq<char>) -> Option<PlatformView> {
    match toml_document(text) {
        Some(t) => platform_of(t),
        None => None,
    }
}

/// Loads the description of the platform from the text of its document.
pub fn load_config(text: &str) -> (r: Result<Platform, EngineError>)
    ensures
        match r {
            Ok(p) => platform_in(text@) == Some(p@),
            Err(e) => e == EngineError::DescriptorTemplateMissing && platform_in(text@) is None,
        },
{
    match toml_parse(text) {
        Ok(doc) => read_platform(&doc),
        Err(_) => Err(EngineError::DescriptorTemplateMissing),
    }
}

} // verus!
