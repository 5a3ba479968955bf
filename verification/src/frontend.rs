//! What the command-line layer hands to the engine: the request to create a
//! guest, and the description of the image to boot.

use crate::text::{
    chars_of, dec_chars, dec_text, extend_str, read_unsigned, string_of, trim, trimmed,
    unsigned_value,
};
use vstd::prelude::*;

verus! {

/// Declares `serde_json::Value`, a parsed JSON document, as a type whose
/// inside the library does not look at.
#[verifier::external_type_specification]
#[verifier::external_body]
pub struct ExJsonValue(serde_json::Value);

/// A number of a JSON document.
pub enum JsonNumber {
    /// An integer that is not negative.
    Natural(u64),
    /// A negative integer.
    Negative(i64),
    /// A number with a fraction or an exponent, by its bits.
    Real(u64),
}

/// The content of a JSON value.
pub enum JsonTree {
    /// `null`.
    Null,
    /// A boolean.
    Bool(bool),
    /// A number.
    Number(JsonNumber),
    /// A string.
    Text(Seq<char>),
    /// An array, in order.
    Array(Seq<JsonTree>),
    /// An object, by key.
    Object(Map<Seq<char>, JsonTree>),
}

impl JsonTree {
    /// The value under `key`, where this is an object that has the key.
    pub open spec fn member(self, key: Seq<char>) -> Option<JsonTree> {
        match self {
            JsonTree::Object(m) => if m.dom().contains(key) {
                Some(m[key])
            } else {
                None
            },
            _ => None,
        }
    }

    /// The value at the end of a path of keys.
    pub open spec fn at(self, path: Seq<Seq<char>>) -> Option<JsonTree>
        decreases path.len(),
    {
        if path.len() == 0 {
            Some(self)
        } else {
            match self.at(path.drop_last()) {
                Some(t) => t.member(path.last()),
                None => None,
            }
        }
    }

    /// The number as an unsigned integer, where it is one.
    pub open spec fn natural(self) -> Option<u64> {
        match self {
            JsonTree::Number(JsonNumber::Natural(n)) => Some(n),
            _ => None,
        }
    }

    /// The number as a signed integer, where it is one that fits.
    pub open spec fn integer(self) -> Option<i64> {
        match self {
            JsonTree::Number(JsonNumber::Natural(n)) => if n <= i64::MAX {
                Some(n as i64)
            } else {
                None
            },
            JsonTree::Number(JsonNumber::Negative(n)) => Some(n),
            _ => None,
        }
    }

    /// The string, where this is one.
    pub open spec fn text(self) -> Option<Seq<char>> {
        match self {
            JsonTree::Text(s) => Some(s),
            _ => None,
        }
    }
}

/// The content of a value of the `serde_json` crate.
pub uninterp spec fn json_content(v: serde_json::Value) -> JsonTree;

/// The contents of a list of values.
pub open spec fn json_contents(items: Seq<serde_json::Value>) -> Seq<JsonTree> {
    items.map_values(|v: serde_json::Value| json_content(v))
}

/// Makes `serde_json::Value::Null`.
#[verifier::external_body]
pub(crate) fn json_null() -> (v: serde_json::Value)
    ensures
        json_content(v) == JsonTree::Null,
{
    serde_json::Value::Null
}

/// Calls `serde_json::Value::get` with a string index: the value under the
/// key where the receiver is an object that has the key, and nothing
/// otherwise.
#[verifier::external_body]
pub(crate) fn json_get<'a>(v: &'a serde_json::Value, key: &str) -> (r: Option<
    &'a serde_json::Value,
>)
    ensures
        match r {
            Some(x) => json_content(*v).member(key@) == Some(json_content(*x)),
            None => json_content(*v).member(key@) is None,
        },
{
    v.get(key)
}

/// Calls `serde_json::Value::as_u64`: the number where the value is an
/// integer that is not negative.
#[verifier::external_body]
pub(crate) fn json_as_u64(v: &serde_json::Value) -> (r: Option<u64>)
    ensures
        r == json_content(*v).natural(),
{
    v.as_u64()
}

/// Calls `serde_json::Value::as_i64`: the number where the value is an
/// integer that fits 64 bits with a sign.
#[verifier::external_body]
pub(crate) fn json_as_i64(v: &serde_json::Value) -> (r: Option<i64>)
    ensures
        r == json_content(*v).integer(),
{
    v.as_i64()
}

/// Calls `serde_json::Value::as_str`: the string where the value is one.
#[verifier::external_body]
pub(crate) fn json_as_str(v: &serde_json::Value) -> (r: Option<String>)
    ensures
        match r {
            Some(s) => json_content(*v).text() == Some(s@),
            None => json_content(*v).text() is None,
        },
{
    v.as_str().map(String::from)
}

/// Calls `serde_json::Value::as_array`: the items where the value is an
/// array.
#[verifier::external_body]
pub(crate) fn json_as_array(v: &serde_json::Value) -> (r: Option<&Vec<serde_json::Value>>)
    ensures
        match r {
            Some(items) => json_content(*v) == JsonTree::Array(json_contents(items@)),
            None => !(json_content(*v) is Array),
        },
{
    v.as_array()
}

/// The value at the end of a path of four keys.
pub fn json_at4<'a>(v: &'a serde_json::Value, a: &str, b: &str, c: &str, d: &str) -> (r: Option<
    &'a serde_json::Value,
>)
    ensures
        match r {
            Some(x) => json_content(*v).at(seq![a@, b@, c@, d@]) == Some(json_content(*x)),
            None => json_content(*v).at(seq![a@, b@, c@, d@]) is None,
        },
{
    let ghost t = json_content(*v);
    let ghost whole = seq![a@, b@, c@, d@];
    let ghost upto_c = seq![a@, b@, c@];
    let ghost upto_b = seq![a@, b@];
    let ghost upto_a = seq![a@];
    proof {
        reveal_with_fuel(JsonTree::at, 6);
        assert(whole.drop_last() =~= upto_c);
        assert(upto_c.drop_last() =~= upto_b);
        assert(upto_b.drop_last() =~= upto_a);
        assert(upto_a.drop_last() =~= Seq::<Seq<char>>::empty());
        assert(t.at(Seq::<Seq<char>>::empty()) == Some(t));
        assert(t.at(upto_a) == t.member(a@));
        assert(t.at(upto_b) == match t.at(upto_a) {
            Some(x) => x.member(b@),
            None => None,
        });
        assert(t.at(upto_c) == match t.at(upto_b) {
            Some(x) => x.member(c@),
            None => None,
        });
        assert(t.at(whole) == match t.at(upto_c) {
            Some(x) => x.member(d@),
            None => None,
        });
    }
    let x1 = match json_get(v, a) {
        Some(x) => x,
        None => {
            return None;
        },
    };
    let x2 = match json_get(x1, b) {
        Some(x) => x,
        None => {
            return None;
        },
    };
    let x3 = match json_get(x2, c) {
        Some(x) => x,
        None => {
            return None;
        },
    };
    json_get(x3, d)
}

/// The value at the end of a path of two keys.
pub fn json_at2<'a>(v: &'a serde_json::Value, a: &str, b: &str) -> (r: Option<
    &'a serde_json::Value,
>)
    ensures
        match r {
            Some(x) => json_content(*v).at(seq![a@, b@]) == Some(json_content(*x)),
            None => json_content(*v).at(seq![a@, b@]) is None,
        },
{
    let ghost t = json_content(*v);
    let ghost upto_b = seq![a@, b@];
    let ghost upto_a = seq![a@];
    proof {
        reveal_with_fuel(JsonTree::at, 4);
        assert(upto_b.drop_last() =~= upto_a);
        assert(upto_a.drop_last() =~= Seq::<Seq<char>>::empty());
        assert(t.at(Seq::<Seq<char>>::empty()) == Some(t));
        assert(t.at(upto_a) == t.member(a@));
        assert(t.at(upto_b) == match t.at(upto_a) {
            Some(x) => x.member(b@),
            None => None,
        });
    }
    match json_get(v, a) {
        Some(x) => json_get(x, b),
        None => None,
    }
}

/// The request to create a guest, as the command-line layer hands it to the
/// engine.
#[derive(Debug)]
pub struct FrontendConfig {
    /// The runtime configuration of the container, as parsed JSON.
    pub jsonconfig: serde_json::Value,
    /// The directory that holds what the runtime keeps about the container.
    pub crundir: String,
    /// The identifier of the container.
    pub containerid: String,
    /// The bundle directory.
    pub bundle: String,
    /// The root file system of the container.
    pub mountpoint: String,
    /// The console socket, or `.` where none was asked for.
    pub guestconsole: String,
    /// The file that receives the process identifier.
    pub pidfile: String,
}

impl FrontendConfig {
    /// A request with nothing filled in.
    pub fn new() -> (fc: FrontendConfig)
        ensures
            json_content(fc.jsonconfig) == JsonTree::Null,
            fc.crundir@.len() == 0,
            fc.containerid@.len() == 0,
            fc.bundle@.len() == 0,
            fc.mountpoint@.len() == 0,
            fc.guestconsole@.len() == 0,
            fc.pidfile@.len() == 0,
    {
        FrontendConfig {
            jsonconfig: json_null(),
            crundir: String::new(),
            containerid: String::new(),
            bundle: String::new(),
            mountpoint: String::new(),
            guestconsole: String::new(),
            pidfile: String::new(),
        }
    }

    /// The CPU quota that the request declares, if it declares an integer.
    pub open spec fn quota(&self) -> Option<i64> {
        match json_content(self.jsonconfig).at(
            seq!["linux"@, "resources"@, "cpu"@, "quota"@],
        ) {
            Some(t) => t.integer(),
            None => None,
        }
    }

    /// The CPU period that the request declares, if it declares an unsigned
    /// integer.
    pub open spec fn period(&self) -> Option<u64> {
        match json_content(self.jsonconfig).at(
            seq!["linux"@, "resources"@, "cpu"@, "period"@],
        ) {
            Some(t) => t.natural(),
            None => None,
        }
    }

    /// The memory limit in bytes that the request declares, if it declares
    /// an unsigned integer.
    pub open spec fn memory_limit(&self) -> Option<u64> {
        match json_content(self.jsonconfig).at(
            seq!["linux"@, "resources"@, "memory"@, "limit"@],
        ) {
            Some(t) => t.natural(),
            None => None,
        }
    }

    /// The memory reservation that the request declares, if it declares an
    /// unsigned integer.
    pub open spec fn memory_reservation(&self) -> Option<u64> {
        match json_content(self.jsonconfig).at(
            seq!["linux"@, "resources"@, "memory"@, "reservation"@],
        ) {
            Some(t) => t.natural(),
            None => None,
        }
    }

    /// The CPU quota that the request declares.
    pub fn cpu_quota(&self) -> (r: Option<i64>)
        ensures
            r == self.quota(),
    {
        match json_at4(&self.jsonconfig, "linux", "resources", "cpu", "quota") {
            Some(v) => json_as_i64(v),
            None => None,
        }
    }

    /// The CPU period that the request declares.
    pub fn cpu_period(&self) -> (r: Option<u64>)
        ensures
            r == self.period(),
    {
        match json_at4(&self.jsonconfig, "linux", "resources", "cpu", "period") {
            Some(v) => json_as_u64(v),
            None => None,
        }
    }

    /// The memory limit that the request declares.
    pub fn mem_limit(&self) -> (r: Option<u64>)
        ensures
            r == self.memory_limit(),
    {
        match json_at4(&self.jsonconfig, "linux", "resources", "memory", "limit") {
            Some(v) => json_as_u64(v),
            None => None,
        }
    }

    /// The memory reservation that the request declares.
    pub fn mem_reservation(&self) -> (r: Option<u64>)
        ensures
            r == self.memory_reservation(),
    {
        match json_at4(&self.jsonconfig, "linux", "resources", "memory", "reservation") {
            Some(v) => json_as_u64(v),
            None => None,
        }
    }
}

/// Where the root file system of a container lies: the path that the
/// configuration gives under `root.path`, taken from the bundle directory
/// unless it starts at the root. Nothing where the configuration gives no
/// such path.
pub open spec fn rootfs_of(config: JsonTree, bundle: Seq<char>) -> Option<Seq<char>> {
    match config.at(seq!["root"@, "path"@]) {
        Some(t) => match t.text() {
            Some(p) => if p.len() > 0 && p[0] == '/' {
                Some(p)
            } else {
                Some(bundle + "/"@ + p)
            },
            None => None,
        },
        None => None,
    }
}

/// Where the root file system of a container lies.
pub fn mountpoint_of(config: &serde_json::Value, bundle: &str) -> (r: Option<String>)
    ensures
        match r {
            Some(s) => rootfs_of(json_content(*config), bundle@) == Some(s@),
            None => rootfs_of(json_content(*config), bundle@) is None,
        },
{
    let path = match json_at2(config, "root", "path") {
        Some(v) => match json_as_str(v) {
            Some(p) => p,
            None => {
                return None;
            },
        },
        None => {
            return None;
        },
    };
    let chars = chars_of(path.as_str());
    if chars.len() > 0 && chars[0] == '/' {
        Some(path)
    } else {
        let mut out = chars_of(bundle);
        extend_str(&mut out, "/");
        crate::text::extend_chars(&mut out, &chars);
        Some(string_of(&out))
    }
}

/// The process identifier that a text holds: a decimal number with or
/// without a sign, with white space around it at most. A text that holds no
/// such number stands for process 1.
pub open spec fn pid_value(text: Seq<char>) -> i32 {
    let t = trimmed(text);
    if t.len() > 0 && t[0] == '-' {
        if t.len() > 1 && t[1] != '+' {
            match unsigned_value(t.skip(1), 10, 2147483648) {
                Some(v) => (-v) as i32,
                None => 1,
            }
        } else {
            1
        }
    } else {
        match unsigned_value(t, 10, 2147483647) {
            Some(v) => v as i32,
            None => 1,
        }
    }
}

/// Reads the process identifier of a container from the text of its file.
pub fn pid_of(text: &str) -> (pid: i32)
    ensures
        pid == pid_value(text@),
{
    let t = trim(&chars_of(text));
    if t.len() > 0 && t[0] == '-' {
        if t.len() > 1 && t[1] != '+' {
            match read_unsigned(&t, 1, 10, 2147483648) {
                Some(v) => {
                    if v == 2147483648 {
                        -2147483648
                    } else {
                        -(v as i32)
                    }
                },
                None => 1,
            }
        } else {
            1
        }
    } else {
        assert(t@.skip(0) =~= t@);
        match read_unsigned(&t, 0, 10, 2147483647) {
            Some(v) => v as i32,
            None => 1,
        }
    }
}

/// The report on a running container: its identifier, its process, its
/// bundle, its root file system and the time of the report.
pub open spec fn state_text(
    id: Seq<char>,
    pid: i32,
    bundle: Seq<char>,
    rootfs: Seq<char>,
    created: Seq<char>,
) -> Seq<char> {
    "{\n      \"ociVersion\": \"1.0.2-dev\",\n      \"id\": \""@ + id + "\",\n      \"pid\": "@
        + dec_text(pid as int) + ",\n      \"status\": \"running\",\n      \"bundle\": \""@
        + bundle + "\",\n      \"rootfs\": \""@ + rootfs + "\",\n      \"created\": \""@
        + created + "\",\n      \"owner\": \"\"\n    }"@
}

/// Writes the report on a running container.
pub fn state_report(id: &str, pid: i32, bundle: &str, rootfs: &str, created: &str) -> (r: String)
    ensures
        r@ == state_text(id@, pid, bundle@, rootfs@, created@),
{
    let mut out: Vec<char> = Vec::new();
    extend_str(&mut out, "{\n      \"ociVersion\": \"1.0.2-dev\",\n      \"id\": \"");
    extend_str(&mut out, id);
    extend_str(&mut out, "\",\n      \"pid\": ");
    crate::text::extend_chars(&mut out, &dec_chars(pid as i64));
    extend_str(&mut out, ",\n      \"status\": \"running\",\n      \"bundle\": \"");
    extend_str(&mut out, bundle);
    extend_str(&mut out, "\",\n      \"rootfs\": \"");
    extend_str(&mut out, rootfs);
    extend_str(&mut out, "\",\n      \"created\": \"");
    extend_str(&mut out, created);
    extend_str(&mut out, "\",\n      \"owner\": \"\"\n    }");
    assert(out@ =~= state_text(id@, pid, bundle@, rootfs@, created@));
    string_of(&out)
}

/// One accelerator that a guest asks for: a core type to look up in the
/// catalog of hardware designs, or a bitstream with the region to load it
/// into.
#[derive(Debug)]
pub struct Accelerator {
    /// The core type, for a request by name.
    pub core: String,
    /// The path of the bitstream, for an explicit request; empty for a
    /// request by name.
    pub bitstream: String,
    /// The region of an explicit request.
    pub region: String,
    /// The physical start of the accelerator's memory window, if it has
    /// one.
    pub starting_phys_address: String,
    /// The virtual start of the memory window.
    pub acc_starting_vaddress: String,
    /// The size of the memory window.
    pub mem_size: String,
}

/// The mathematical content of an `Accelerator`.
pub struct AccelView {
    pub core: Seq<char>,
    pub bitstream: Seq<char>,
    pub region: Seq<char>,
    pub starting_phys_address: Seq<char>,
    pub acc_starting_vaddress: Seq<char>,
    pub mem_size: Seq<char>,
}

impl View for Accelerator {
    type V = AccelView;

    open spec fn view(&self) -> AccelView {
        AccelView {
            core: self.core@,
            bitstream: self.bitstream@,
            region: self.region@,
            starting_phys_address: self.starting_phys_address@,
            acc_starting_vaddress: self.acc_starting_vaddress@,
            mem_size: self.mem_size@,
        }
    }
}

/// The contents of a list of accelerators.
pub open spec fn accel_views(list: Seq<Accelerator>) -> Seq<AccelView> {
    list.map_values(|a: Accelerator| a@)
}

/// The two image descriptions differ at most in the accelerators bound.
pub open spec fn same_but_bindings(a: ImageConfig, b: ImageConfig) -> bool {
    &&& a.cpio == b.cpio
    &&& a.os_var == b.os_var
    &&& a.kernel == b.kernel
    &&& a.ramdisk == b.ramdisk
    &&& a.inmate == b.inmate
    &&& a.dtb == b.dtb
    &&& a.initrd == b.initrd
    &&& a.netconf == b.netconf
    &&& a.starting_vaddress == b.starting_vaddress
    &&& a.net == b.net
    &&& a.rpu_req == b.rpu_req
    &&& a.accelerators == b.accelerators
}

/// The description of the image to start as a partitioned cell.
#[derive(Debug)]
pub struct ImageConfig {
    /// The initial RAM file system.
    pub cpio: String,
    /// The kind of guest: `linux`, or the name of a runtime such as `zephyr`.
    pub os_var: String,
    /// A kernel that the container brings along.
    pub kernel: String,
    /// A RAM disk that the container brings along.
    pub ramdisk: String,
    /// The file to load into the cell.
    pub inmate: String,
    /// The device tree of a Linux guest.
    pub dtb: String,
    /// The initial RAM disk, where the architecture wants one.
    pub initrd: String,
    /// The network configuration.
    pub netconf: String,
    /// The virtual address at which the inmate expects to start.
    pub starting_vaddress: String,
    /// The network of the guest, or `none`.
    pub net: String,
    /// Whether the guest runs on auxiliary processor cores.
    pub rpu_req: bool,
    /// The accelerators that the guest asks for, in order.
    pub accelerators: Vec<Accelerator>,
    /// The artifacts to load into the FPGA, one for each accelerator bound.
    pub bitstreams: Vec<String>,
    /// The FPGA regions bound, in the order of binding.
    pub regions: Vec<i8>,
}

/// The file to load into the cell: the inmate that the image names, under
/// the mount point and without white space around it, or the default boot
/// image of the mount point where it names none.
pub open spec fn inmate_path(mountpoint: Seq<char>, inmate: Seq<char>) -> Seq<char> {
    if inmate.len() > 0 {
        trimmed(mountpoint + inmate)
    } else {
        mountpoint + "/boot/boot.bin"@
    }
}

impl ImageConfig {
    /// An image description with nothing filled in.
    pub fn new() -> (ic: ImageConfig)
        ensures
            ic.cpio@.len() == 0,
            ic.os_var@.len() == 0,
            ic.kernel@.len() == 0,
            ic.ramdisk@.len() == 0,
            ic.inmate@.len() == 0,
            ic.dtb@.len() == 0,
            ic.initrd@.len() == 0,
            ic.netconf@.len() == 0,
            ic.starting_vaddress@.len() == 0,
            ic.net@.len() == 0,
            !ic.rpu_req,
            ic.accelerators@.len() == 0,
            ic.bitstreams@.len() == 0,
            ic.regions@.len() == 0,
    {
        ImageConfig {
            cpio: String::new(),
            os_var: String::new(),
            kernel: String::new(),
            ramdisk: String::new(),
            inmate: String::new(),
            dtb: String::new(),
            initrd: String::new(),
            netconf: String::new(),
            starting_vaddress: String::new(),
            net: String::new(),
            rpu_req: false,
            accelerators: Vec::new(),
            bitstreams: Vec::new(),
            regions: Vec::new(),
        }
    }

    /// Completes the description read from the image's configuration file:
    /// the inmate is looked for under the mount point.
    pub fn get_from_file(mountpoint: &str, parsed: ImageConfig) -> (ic: ImageConfig)
        ensures
            ic.inmate@ == inmate_path(mountpoint@, parsed.inmate@),
            ic.os_var == parsed.os_var,
            ic.net == parsed.net,
            ic.rpu_req == parsed.rpu_req,
            ic.accelerators == parsed.accelerators,
            ic.bitstreams == parsed.bitstreams,
            ic.regions == parsed.regions,
            ic.cpio == parsed.cpio,
            ic.kernel == parsed.kernel,
            ic.ramdisk == parsed.ramdisk,
            ic.dtb == parsed.dtb,
            ic.initrd == parsed.initrd,
            ic.netconf == parsed.netconf,
            ic.starting_vaddress == parsed.starting_vaddress,
    {
        let mut ic = parsed;
        let mut path = chars_of(mountpoint);
        if ic.inmate.as_str().unicode_len() > 0 {
            extend_str(&mut path, ic.inmate.as_str());
            let cut = trim(&path);
            ic.inmate = string_of(&cut);
        } else {
            extend_str(&mut path, "/boot/boot.bin");
            ic.inmate = string_of(&path);
        }
        ic
    }
}

} // verus!
