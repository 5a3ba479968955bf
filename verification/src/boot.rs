//! What a cell boots where the image names nothing.

use crate::frontend::ImageConfig;
use crate::text::{chars_of, string_of};
use vstd::prelude::*;

verus! {

/// The kernel of a Linux guest that brings none along.
pub const DEFAULT_KERNEL: &'static str = "/root/runPHI/demo_containers/linux/Image";

/// The initial RAM file system of a guest that brings none along.
pub const DEFAULT_CPIO: &'static str = "/root/runPHI/demo_containers/linux/rootfs.cpio.gz";

/// The device tree of a Linux guest that brings none along.
pub const DEFAULT_DTB: &'static str = "/root/jailhouse/configs/arm64/dts/inmate-qemu-arm64.dtb";

/// Completes what the image boots: a guest that names no kernel, no RAM
/// file system or no device tree gets the defaults, and a guest that names a
/// RAM file system gets the archive made of it.
pub fn bootconfbackend(ic: &mut ImageConfig, cpio_archive: &str)
    ensures
        final(ic).kernel@ == if old(ic).kernel@.len() == 0 {
            DEFAULT_KERNEL@
        } else {
            old(ic).kernel@
        },
        final(ic).cpio@ == if old(ic).cpio@.len() == 0 {
            DEFAULT_CPIO@
        } else {
            cpio_archive@
        },
        final(ic).dtb@ == if old(ic).dtb@.len() == 0 {
            DEFAULT_DTB@
        } else {
            old(ic).dtb@
        },
        final(ic).os_var == old(ic).os_var,
        final(ic).ramdisk == old(ic).ramdisk,
        final(ic).inmate == old(ic).inmate,
        final(ic).initrd == old(ic).initrd,
        final(ic).netconf == old(ic).netconf,
        final(ic).starting_vaddress == old(ic).starting_vaddress,
        final(ic).net == old(ic).net,
        final(ic).rpu_req == old(ic).rpu_req,
        final(ic).accelerators == old(ic).accelerators,
        final(ic).bitstreams == old(ic).bitstreams,
        final(ic).regions == old(ic).regions,
{
    if ic.kernel.as_str().unicode_len() == 0 {
        ic.kernel = string_of(&chars_of(DEFAULT_KERNEL));
    }
    if ic.cpio.as_str().unicode_len() == 0 {
        ic.cpio = string_of(&chars_of(DEFAULT_CPIO));
    } else {
        ic.cpio = string_of(&chars_of(cpio_archive));
    }
    if ic.dtb.as_str().unicode_len() == 0 {
        ic.dtb = string_of(&chars_of(DEFAULT_DTB));
    }
}

} // verus!
