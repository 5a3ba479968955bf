//! The configuration of a guest for the Xen hypervisor: a domain
//! configuration file built section by section.

use crate::cpu::{core_count, cores_requested};
use crate::error::EngineError;
use crate::forwarding::{contains_text, text_contains};
use crate::frontend::{FrontendConfig, ImageConfig};
use crate::pattern::{capture_in_lines, first_capture, last_capture, lines_of, regex_compiles};
use crate::text::{
    chars_of, dec_chars, dec_digit_chars, dec_digits, dec_text, extend_chars, extend_str,
    integer_value, join, joined, occurs_at, occurs_at_index, parse_integer_chars, pieces_view,
    split, split_on, string_of, words, words_of,
};
use vstd::prelude::*;

verus! {

/// The volume group that holds the disks of the guests.
pub const LVM_GROUP_NAME: &'static str = "test-vg";

/// The pattern of the line that names the domain.
pub const NAME_PATTERN: &'static str = "name\\s*=\\s*\"([^\"]+)\"";

/// The pattern of the line that records the size of the disk.
pub const STORAGE_PATTERN: &'static str = "#storage_request\\s*=\\s*(\\d+M)";

/// The pattern of the line that names the disk.
pub const DISK_PATTERN: &'static str = "disk\\s*=\\s*\\[\\s*'(/dev/[^,]+)";

/// Everything that the configuration of a Xen guest produces.
#[derive(Debug)]
pub struct Backendconfig {
    /// The text of the domain configuration.
    pub conf: String,
    /// The number of virtual CPUs.
    pub cpus: u8,
    /// The file that the configuration is written to.
    pub conffile: String,
    /// The network of the guest.
    pub net: String,
}

impl Backendconfig {
    /// A configuration with nothing in it.
    pub fn new() -> (c: Backendconfig)
        ensures
            c.conf@.len() == 0,
            c.cpus == 0,
            c.conffile@.len() == 0,
            c.net@.len() == 0,
    {
        Backendconfig {
            conf: String::new(),
            cpus: 0,
            conffile: String::new(),
            net: String::new(),
        }
    }

    fn append(&mut self, tail: &Vec<char>)
        ensures
            final(self).conf@ == old(self).conf@ + tail@,
            final(self).cpus == old(self).cpus,
            final(self).conffile == old(self).conffile,
            final(self).net == old(self).net,
    {
        let mut out = chars_of(self.conf.as_str());
        extend_chars(&mut out, tail);
        self.conf = string_of(&out);
    }
}

/// The head of a domain configuration.
pub open spec fn header_text(id: Seq<char>) -> Seq<char> {
    "\n#---------------------------------------------------------------\n#Configuration file for container with id : "@
        + id
        + " \n#---------------------------------------------------------------\n\nname = \""@
        + id + "\" \n\n"@
}

/// Starts the configuration with its head, which names the domain after
/// the container.
pub fn confighelperstart(fc: &FrontendConfig, c: &mut Backendconfig)
    ensures
        final(c).conf@ == header_text(fc.containerid@),
        final(c).cpus == old(c).cpus,
        final(c).conffile == old(c).conffile,
        final(c).net == old(c).net,
{
    let mut out: Vec<char> = Vec::new();
    extend_str(
        &mut out,
        "\n#---------------------------------------------------------------\n#Configuration file for container with id : ",
    );
    extend_str(&mut out, fc.containerid.as_str());
    extend_str(
        &mut out,
        " \n#---------------------------------------------------------------\n\nname = \"",
    );
    extend_str(&mut out, fc.containerid.as_str());
    extend_str(&mut out, "\" \n\n");
    assert(out@ =~= header_text(fc.containerid@));
    c.conf = string_of(&out);
}

/// The section of a domain configuration that names kernel and RAM disk.
pub open spec fn boot_text(kernel: Seq<char>, ramdisk: Seq<char>) -> Seq<char> {
    "\n\nkernel = \""@ + kernel + "\" \n\nramdisk = \""@ + ramdisk + "\" \n\n"@
}

/// The kernel of a guest that names none.
pub const DEFAULT_INMATE: &'static str = "/root/vmlinuz";

/// The RAM disk of a guest that names none.
pub const DEFAULT_RAMDISK: &'static str = "/root/initrd.gz";

/// Configures what the guest boots: the kernel and the RAM disk that the
/// image names, or the defaults.
pub fn bootconf(c: &mut Backendconfig, ic: &mut ImageConfig)
    ensures
        final(ic).inmate@ == if old(ic).inmate@.len() == 0 {
            DEFAULT_INMATE@
        } else {
            old(ic).inmate@
        },
        final(ic).ramdisk@ == if old(ic).ramdisk@.len() == 0 {
            DEFAULT_RAMDISK@
        } else {
            old(ic).ramdisk@
        },
        final(c).conf@ == old(c).conf@ + boot_text(final(ic).inmate@, final(ic).ramdisk@),
        final(ic).cpio == old(ic).cpio,
        final(ic).os_var == old(ic).os_var,
        final(ic).kernel == old(ic).kernel,
        final(ic).dtb == old(ic).dtb,
        final(ic).initrd == old(ic).initrd,
        final(ic).netconf == old(ic).netconf,
        final(ic).starting_vaddress == old(ic).starting_vaddress,
        final(ic).net == old(ic).net,
        final(ic).rpu_req == old(ic).rpu_req,
        final(ic).accelerators == old(ic).accelerators,
        final(ic).bitstreams == old(ic).bitstreams,
        final(ic).regions == old(ic).regions,
        final(c).cpus == old(c).cpus,
        final(c).conffile == old(c).conffile,
        final(c).net == old(c).net,
{
    if ic.inmate.as_str().unicode_len() == 0 {
        ic.inmate = string_of(&chars_of(DEFAULT_INMATE));
    }
    if ic.ramdisk.as_str().unicode_len() == 0 {
        ic.ramdisk = string_of(&chars_of(DEFAULT_RAMDISK));
    }
    let mut out: Vec<char> = Vec::new();
    extend_str(&mut out, "\n\nkernel = \"");
    extend_str(&mut out, ic.inmate.as_str());
    extend_str(&mut out, "\" \n\nramdisk = \"");
    extend_str(&mut out, ic.ramdisk.as_str());
    extend_str(&mut out, "\" \n\n");
    assert(out@ =~= boot_text(ic.inmate@, ic.ramdisk@));
    c.append(&out);
}

/// The physical CPUs below `total` that no guest is pinned to, ascending.
pub open spec fn free_cpus(total: int, pinned: Seq<i64>) -> Seq<i64>
    decreases total,
{
    if total <= 0 {
        Seq::<i64>::empty()
    } else if pinned.contains((total - 1) as i64) {
        free_cpus(total - 1, pinned)
    } else {
        free_cpus(total - 1, pinned).push((total - 1) as i64)
    }
}

/// A list of numbers as it is printed: in brackets, with commas.
pub open spec fn list_text(items: Seq<i64>) -> Seq<char> {
    "["@ + joined(items.map_values(|i: i64| dec_text(i as int)), ", "@) + "]"@
}

/// A list of numbers as a list of strings is printed: each in quotes.
pub open spec fn quoted_list_text(items: Seq<i64>) -> Seq<char> {
    "["@ + joined(items.map_values(|i: i64| "\""@ + dec_text(i as int) + "\""@), ", "@) + "]"@
}

/// The section of a domain configuration that pins the virtual CPUs.
pub open spec fn cpu_text(cpus: u8, assigned: Seq<i64>) -> Seq<char> {
    "\nvcpus = "@ + dec_digits(cpus as nat) + "\n\ncpus = "@ + list_text(assigned)
        + " \n\ncpu_affinity = "@ + quoted_list_text(assigned) + "\n\n"@
}

fn has_cpu(pinned: &Vec<i64>, k: i64) -> (r: bool)
    ensures
        r == pinned@.contains(k),
{
    let mut i: usize = 0;
    while i < pinned.len()
        invariant
            i <= pinned.len(),
            forall|j: int| 0 <= j < i ==> pinned@[j] != k,
        decreases pinned.len() - i,
    {
        if pinned[i] == k {
            return true;
        }
        i += 1;
    }
    false
}

/// Configures the CPUs of the guest: as many virtual CPUs as requested,
/// pinned to the highest physical CPUs that no other guest is pinned to.
pub fn cpuconf(c: &mut Backendconfig, cpus: u8, total: i64, pinned: &Vec<i64>) -> (r: Result<
    (),
    EngineError,
>)
    ensures
        final(c).conffile == old(c).conffile,
        final(c).net == old(c).net,
        match r {
            Ok(_) => {
                let free = free_cpus(total as int, pinned@);
                &&& cpus <= free.len()
                &&& final(c).cpus == cpus
                &&& final(c).conf@ == old(c).conf@ + cpu_text(cpus, free.skip(free.len() - cpus))
            },
            Err(e) => {
                &&& e == EngineError::InsufficientCpu
                &&& cpus > free_cpus(total as int, pinned@).len()
                &&& final(c).conf == old(c).conf
                &&& final(c).cpus == old(c).cpus
            },
        },
{
    let mut free: Vec<i64> = Vec::new();
    let mut k: i64 = 0;
    while k < total
        invariant
            0 <= k,
            k <= total || total < 0,
            total < 0 ==> k == 0,
            free@ == free_cpus(k as int, pinned@),
        decreases total - k,
    {
        if !has_cpu(pinned, k) {
            free.push(k);
        }
        k += 1;
    }
    proof {
        if total < 0 {
            assert(k == 0);
            assert(free_cpus(0, pinned@) =~= Seq::<i64>::empty());
            assert(free_cpus(total as int, pinned@) =~= Seq::<i64>::empty());
        }
    }
    if cpus as usize > free.len() {
        return Err(EngineError::InsufficientCpu);
    }
    let from: usize = free.len() - cpus as usize;
    let ghost assigned = free@.skip(from as int);
    let mut plain: Vec<Vec<char>> = Vec::new();
    let mut quoted: Vec<Vec<char>> = Vec::new();
    let mut i: usize = from;
    while i < free.len()
        invariant
            from <= i <= free.len(),
            assigned == free@.skip(from as int),
            plain.len() == i - from,
            quoted.len() == i - from,
            forall|j: int|
                0 <= j < i - from ==> (#[trigger] plain@[j])@ == dec_text(assigned[j] as int),
            forall|j: int|
                0 <= j < i - from ==> (#[trigger] quoted@[j])@ == "\""@ + dec_text(
                    assigned[j] as int,
                ) + "\""@,
        decreases free.len() - i,
    {
        let digits = dec_chars(free[i]);
        let mut q: Vec<char> = Vec::new();
        extend_str(&mut q, "\"");
        extend_chars(&mut q, &digits);
        extend_str(&mut q, "\"");
        assert(q@ =~= "\""@ + dec_text(free@[i as int] as int) + "\""@);
        plain.push(digits);
        quoted.push(q);
        i += 1;
    }
    assert(pieces_view(plain@) =~= assigned.map_values(|i: i64| dec_text(i as int)));
    assert(pieces_view(quoted@) =~= assigned.map_values(
        |i: i64| "\""@ + dec_text(i as int) + "\""@,
    ));
    let sep = chars_of(", ");
    let mut out: Vec<char> = Vec::new();
    extend_str(&mut out, "\nvcpus = ");
    extend_chars(&mut out, &dec_digit_chars(cpus as u64));
    extend_str(&mut out, "\n\ncpus = ");
    extend_str(&mut out, "[");
    extend_chars(&mut out, &join(&plain, &sep));
    extend_str(&mut out, "]");
    extend_str(&mut out, " \n\ncpu_affinity = ");
    extend_str(&mut out, "[");
    extend_chars(&mut out, &join(&quoted, &sep));
    extend_str(&mut out, "]");
    extend_str(&mut out, "\n\n");
    assert(out@ =~= cpu_text(cpus, assigned));
    c.cpus = cpus;
    c.append(&out);
    Ok(())
}

/// The name of the guest's logical volume: `lv_` and the name of the
/// domain, as far as the configuration names one.
pub open spec fn volume_name(conf: Seq<char>) -> Seq<char> {
    "lv_"@ + match first_capture(NAME_PATTERN@, lines_of(conf), 1) {
        Some(name) => if regex_compiles(NAME_PATTERN@) {
            name
        } else {
            Seq::<char>::empty()
        },
        None => Seq::<char>::empty(),
    }
}

/// The section of a domain configuration that describes disk and memory.
pub open spec fn mem_text(storage: u64, ram: u64, group: Seq<char>, volume: Seq<char>) -> Seq<char> {
    "\n#storage_request = "@ + (if storage == 0 {
        "1024M"@
    } else {
        dec_digits(storage as nat) + "M "@
    }) + "\ndisk = ['/dev/"@ + group + "/"@ + volume + ",raw,xvda,rw']\n"@ + (if ram == 0 {
        "\n#Initial memory and max memory\nmemory =  1024 \nmaxmem = 1024\n"@
    } else {
        "\n#Initial memory and max memory\nmemory = "@ + dec_digits(ram as nat) + " \nmaxmem = "@
            + dec_digits(ram as nat) + "\n"@
    })
}

/// Configures disk and memory of the guest. The disk is a logical volume of
/// the group, named after the domain; it is refused where the group reports
/// no free space, or less than the guest asks for.
pub fn memconf(
    c: &mut Backendconfig,
    storage_request: u64,
    ram_request: u64,
    group_name: &str,
    vfree_mb: u64,
) -> (r: Result<(), EngineError>)
    ensures
        final(c).cpus == old(c).cpus,
        final(c).conffile == old(c).conffile,
        final(c).net == old(c).net,
        match r {
            Ok(_) => {
                &&& vfree_mb != 0
                &&& storage_request <= vfree_mb
                &&& final(c).conf@ == old(c).conf@ + mem_text(
                    storage_request,
                    ram_request,
                    group_name@,
                    volume_name(old(c).conf@),
                )
            },
            Err(e) => {
                &&& e == EngineError::OutOfMemory
                &&& (vfree_mb == 0 || storage_request > vfree_mb)
                &&& final(c).conf == old(c).conf
            },
        },
{
    if vfree_mb == 0 || storage_request > vfree_mb {
        return Err(EngineError::OutOfMemory);
    }
    let mut volume = chars_of("lv_");
    match capture_in_lines(NAME_PATTERN, c.conf.as_str(), 1, true) {
        Some(name) => {
            extend_str(&mut volume, name.as_str());
        },
        None => {
            assert(volume@ =~= "lv_"@ + Seq::<char>::empty());
        },
    }
    assert(volume@ == volume_name(c.conf@));
    let mut out: Vec<char> = Vec::new();
    extend_str(&mut out, "\n#storage_request = ");
    if storage_request == 0 {
        extend_str(&mut out, "1024M");
    } else {
        extend_chars(&mut out, &dec_digit_chars(storage_request));
        extend_str(&mut out, "M ");
    }
    extend_str(&mut out, "\ndisk = ['/dev/");
    extend_str(&mut out, group_name);
    extend_str(&mut out, "/");
    extend_chars(&mut out, &volume);
    extend_str(&mut out, ",raw,xvda,rw']\n");
    if ram_request == 0 {
        extend_str(
            &mut out,
            "\n#Initial memory and max memory\nmemory =  1024 \nmaxmem = 1024\n",
        );
    } else {
        extend_str(&mut out, "\n#Initial memory and max memory\nmemory = ");
        extend_chars(&mut out, &dec_digit_chars(ram_request));
        extend_str(&mut out, " \nmaxmem = ");
        extend_chars(&mut out, &dec_digit_chars(ram_request));
        extend_str(&mut out, "\n");
    }
    assert(out@ =~= mem_text(storage_request, ram_request, group_name@, volume@));
    c.append(&out);
    Ok(())
}

/// The section of a domain configuration that attaches the guest to the
/// bridge.
pub const NETWORK_TEXT: &'static str = "\nvif = ['bridge=xenbr0'] \n\n";

/// Configures the network of the guest: one interface on the bridge.
pub fn netconfig(c: &mut Backendconfig) -> (r: Result<(), EngineError>)
    ensures
        r is Ok,
        final(c).conf@ == old(c).conf@ + NETWORK_TEXT@,
        final(c).cpus == old(c).cpus,
        final(c).conffile == old(c).conffile,
        final(c).net == old(c).net,
{
    c.append(&chars_of(NETWORK_TEXT));
    Ok(())
}

/// The memory in MB that applies where the request declares none.
pub const DEFAULT_MEGABYTES: u64 = 512;

/// The text of a domain configuration, section by section.
pub open spec fn domain_text(
    fc: FrontendConfig,
    kernel: Seq<char>,
    ramdisk: Seq<char>,
    total: int,
    pinned: Seq<i64>,
) -> Seq<char> {
    let cpus = cores_requested(fc.quota(), fc.period());
    let free = free_cpus(total, pinned);
    let storage = match fc.memory_reservation() {
        Some(m) => m,
        None => DEFAULT_MEGABYTES,
    };
    let ram = match fc.memory_limit() {
        Some(m) => m,
        None => DEFAULT_MEGABYTES,
    };
    let head = header_text(fc.containerid@) + boot_text(kernel, ramdisk) + cpu_text(
        cpus,
        free.skip(free.len() - cpus),
    );
    head + mem_text(storage, ram, LVM_GROUP_NAME@, volume_name(head)) + NETWORK_TEXT@
}

/// Generates the domain configuration of a guest. The guest is refused
/// where fewer physical CPUs are free than it asks for, or the volume group
/// has less free space than it asks for.
pub fn config_generate(
    fc: &FrontendConfig,
    image: ImageConfig,
    total_cpus: i64,
    pinned: &Vec<i64>,
    vfree_mb: u64,
) -> (r: Result<(ImageConfig, Backendconfig), EngineError>)
    ensures
        match r {
            Ok((ic, c)) => {
                &&& cores_requested(fc.quota(), fc.period()) <= free_cpus(
                    total_cpus as int,
                    pinned@,
                ).len()
                &&& c.cpus == cores_requested(fc.quota(), fc.period())
                &&& c.conffile@ == fc.crundir@ + "/config.cfg"@
                &&& c.conf@ == domain_text(*fc, ic.inmate@, ic.ramdisk@, total_cpus as int, pinned@)
                &&& ic.inmate@ == if image.inmate@.len() == 0 {
                    DEFAULT_INMATE@
                } else {
                    image.inmate@
                }
                &&& ic.ramdisk@ == if image.ramdisk@.len() == 0 {
                    DEFAULT_RAMDISK@
                } else {
                    image.ramdisk@
                }
            },
            Err(e) => {
                ||| e == EngineError::InsufficientCpu && cores_requested(fc.quota(), fc.period())
                    > free_cpus(total_cpus as int, pinned@).len()
                ||| e == EngineError::OutOfMemory && cores_requested(fc.quota(), fc.period())
                    <= free_cpus(total_cpus as int, pinned@).len() && (vfree_mb == 0 || (
                match fc.memory_reservation() {
                    Some(m) => m,
                    None => DEFAULT_MEGABYTES,
                }) > vfree_mb)
            },
        },
{
    let mut image = image;
    let mut c = Backendconfig::new();
    let mut path = chars_of(fc.crundir.as_str());
    extend_str(&mut path, "/config.cfg");
    c.conffile = string_of(&path);
    confighelperstart(fc, &mut c);
    bootconf(&mut c, &mut image);
    let cpus = core_count(fc.cpu_quota(), fc.cpu_period());
    match cpuconf(&mut c, cpus, total_cpus, pinned) {
        Ok(_) => {},
        Err(e) => {
            return Err(e);
        },
    }
    let storage = match fc.mem_reservation() {
        Some(m) => m,
        None => DEFAULT_MEGABYTES,
    };
    let ram = match fc.mem_limit() {
        Some(m) => m,
        None => DEFAULT_MEGABYTES,
    };
    match memconf(&mut c, storage, ram, LVM_GROUP_NAME, vfree_mb) {
        Ok(_) => {},
        Err(e) => {
            return Err(e);
        },
    }
    let _ = netconfig(&mut c);
    Ok((image, c))
}

/// The logical volume of a guest, as its domain configuration records it.
#[derive(Debug)]
pub struct Volume {
    /// The size of the volume, such as `1024M`; empty where the
    /// configuration records none.
    pub storage_request: String,
    /// The path of the volume; empty where the configuration names none.
    pub disk: String,
}

/// What a capture is where the pattern compiles, and nothing otherwise.
pub open spec fn captured(pattern: Seq<char>, found: Option<Seq<char>>) -> Seq<char> {
    match found {
        Some(s) => if regex_compiles(pattern) {
            s
        } else {
            Seq::<char>::empty()
        },
        None => Seq::<char>::empty(),
    }
}

/// Reads the logical volume of a guest out of its domain configuration:
/// the last line that records a size, and the last that names a disk.
pub fn guest_volume(config: &str) -> (v: Volume)
    ensures
        v.storage_request@ == captured(
            STORAGE_PATTERN@,
            last_capture(STORAGE_PATTERN@, lines_of(config@), 1),
        ),
        v.disk@ == captured(DISK_PATTERN@, last_capture(DISK_PATTERN@, lines_of(config@), 1)),
{
    let storage = match capture_in_lines(STORAGE_PATTERN, config, 1, false) {
        Some(s) => s,
        None => String::new(),
    };
    let disk = match capture_in_lines(DISK_PATTERN, config, 1, false) {
        Some(s) => s,
        None => String::new(),
    };
    Volume { storage_request: storage, disk: disk }
}

/// The name of a volume and the path of its group: what stands behind and
/// before the last slash of the volume's path. A path without a slash has
/// no group.
pub open spec fn volume_parts(disk: Seq<char>) -> Option<(Seq<char>, Seq<char>)> {
    let parts = split_on(disk, "/"@);
    if parts.len() >= 2 {
        Some((parts.last(), joined(parts.drop_last(), "/"@)))
    } else {
        None
    }
}

/// Splits the path of a volume into the name of the volume and the path of
/// its group.
pub fn split_volume(disk: &str) -> (r: Option<(String, String)>)
    ensures
        match r {
            Some((name, group)) => volume_parts(disk@) == Some((name@, group@)),
            None => volume_parts(disk@) is None,
        },
{
    let mut parts = split(&chars_of(disk), &chars_of("/"));
    if parts.len() < 2 {
        return None;
    }
    let ghost all = pieces_view(parts@);
    let name = parts.pop().unwrap();
    assert(pieces_view(parts@) =~= all.drop_last());
    let group = join(&parts, &chars_of("/"));
    Some((string_of(&name), string_of(&group)))
}

/// The number of CPUs that a line of the CPU listing reports, if the line
/// is the one that reports it: such a line starts with `CPU(s):`, and its
/// second word is the number. Nothing where that word is no number.
pub open spec fn cpus_in_line(line: Seq<char>) -> Option<i64> {
    if words_of(line).len() >= 2 {
        integer_value(words_of(line)[1])
    } else {
        None
    }
}

/// The number of physical CPUs that a CPU listing reports: that of the
/// first line that starts with `CPU(s):`, and 0 where no line does. Nothing
/// where that line holds no number.
pub open spec fn total_in(lines: Seq<Seq<char>>) -> Option<i64>
    decreases lines.len(),
{
    if lines.len() == 0 {
        Some(0)
    } else if occurs_at(lines[0], "CPU(s):"@, 0) {
        cpus_in_line(lines[0])
    } else {
        total_in(lines.skip(1))
    }
}

/// The number of physical CPUs that a CPU listing reports.
pub open spec fn cpu_total(listing: Seq<char>) -> Option<i64> {
    total_in(lines_of(listing))
}

/// Reads the number of physical CPUs out of the listing of `lscpu`.
pub fn total_of(listing: &str) -> (r: Option<i64>)
    ensures
        r == cpu_total(listing@),
{
    let lines = split(&chars_of(listing), &chars_of("\n"));
    let ghost all = lines_of(listing@);
    let mark = chars_of("CPU(s):");
    let mut i: usize = 0;
    assert(all.skip(0) =~= all);
    while i < lines.len()
        invariant
            i <= lines.len(),
            all == pieces_view(lines@),
            all == lines_of(listing@),
            mark@ == "CPU(s):"@,
            total_in(all) == total_in(all.skip(i as int)),
        decreases lines.len() - i,
    {
        proof {
            assert(all.skip(i as int)[0] == lines@[i as int]@);
            assert(all.skip(i as int).skip(1) =~= all.skip(i + 1));
        }
        if occurs_at_index(&lines[i], &mark, 0) {
            let w = words(&lines[i]);
            if w.len() >= 2 {
                assert(pieces_view(w@)[1] == w@[1]@);
                return parse_integer_chars(&w[1]);
            } else {
                return None;
            }
        }
        i += 1;
    }
    assert(all.skip(lines.len() as int) =~= Seq::<Seq<char>>::empty());
    Some(0)
}

/// The physical CPU that a line of the listing of virtual CPUs reports a
/// guest pinned to: the fourth word of the line, if that is a number. The
/// heading and the lines of the control domain report none.
pub open spec fn pinned_in_line(line: Seq<char>) -> Option<i64> {
    if contains_text(line, "Name"@) || contains_text(line, "Domain-0"@) || words_of(line).len()
        < 4 {
        None
    } else {
        integer_value(words_of(line)[3])
    }
}

/// The physical CPUs that the lines report guests pinned to, in the order
/// of the lines.
pub open spec fn pinned_in_lines(lines: Seq<Seq<char>>) -> Seq<i64>
    decreases lines.len(),
{
    if lines.len() == 0 {
        Seq::<i64>::empty()
    } else {
        match pinned_in_line(lines.last()) {
            Some(cpu) => pinned_in_lines(lines.drop_last()).push(cpu),
            None => pinned_in_lines(lines.drop_last()),
        }
    }
}

/// The physical CPUs that a listing of virtual CPUs reports guests pinned
/// to.
pub open spec fn pinned_in(listing: Seq<char>) -> Seq<i64> {
    pinned_in_lines(lines_of(listing))
}

/// Reads the physical CPUs that guests are pinned to out of the listing of
/// `xl vcpu-list`.
pub fn pinned_of(listing: &str) -> (r: Vec<i64>)
    ensures
        r@ == pinned_in(listing@),
{
    let lines = split(&chars_of(listing), &chars_of("\n"));
    let ghost all = lines_of(listing@);
    let heading = chars_of("Name");
    let control = chars_of("Domain-0");
    let mut out: Vec<i64> = Vec::new();
    let mut i: usize = 0;
    assert(all.take(0) =~= Seq::<Seq<char>>::empty());
    while i < lines.len()
        invariant
            i <= lines.len(),
            all == pieces_view(lines@),
            heading@ == "Name"@,
            control@ == "Domain-0"@,
            out@ == pinned_in_lines(all.take(i as int)),
        decreases lines.len() - i,
    {
        proof {
            assert(all.take(i + 1).drop_last() =~= all.take(i as int));
            assert(all.take(i + 1).last() == lines@[i as int]@);
        }
        if !text_contains(&lines[i], &heading) && !text_contains(&lines[i], &control) {
            let w = words(&lines[i]);
            if w.len() >= 4 {
                assert(pieces_view(w@)[3] == w@[3]@);
                match parse_integer_chars(&w[3]) {
                    Some(cpu) => {
                        out.push(cpu);
                    },
                    None => {},
                }
            }
        }
        i += 1;
    }
    assert(all.take(lines.len() as int) =~= all);
    out
}

} // verus!
