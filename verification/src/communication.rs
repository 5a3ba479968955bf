//! The console of a cell.

use crate::config_generator::{BackendView, Backendconfig};
use crate::error::EngineError;
use crate::pattern::{regex_compiles, regex_cut_after, regex_match_end, regex_new};
use crate::text::{chars_of, extend_str, string_of};
use vstd::prelude::*;

verus! {

/// The pattern behind which the console is declared: the opening of the
/// cell's description.
pub const CELL_PATTERN: &'static str = "cell = \\{";

/// The declaration of the console of a cell.
pub const CONSOLE_TEMPLATE: &'static str =
    ".console = {\n\t.address = 0x09000000,\n\t.type = JAILHOUSE_CON_TYPE_PL011,\n\t.flags = JAILHOUSE_CON_ACCESS_MMIO |\n\t\t JAILHOUSE_CON_REGDIST_4,\n},";

/// The text with the console declared behind the first `n` characters.
pub open spec fn with_console(conf: Seq<char>, n: nat) -> Seq<char> {
    conf.take(n as int) + "\n"@ + CONSOLE_TEMPLATE@ + "\n"@ + conf.skip(n as int)
}

/// Declares the console in a rendered descriptor, behind the opening of the
/// cell's description. A descriptor without such an opening stays as it
/// is.
pub fn communicationconfig(c: &mut Backendconfig) -> (r: Result<(), EngineError>)
    ensures
        match r {
            Ok(_) => {
                &&& regex_compiles(CELL_PATTERN@)
                &&& regex_match_end(CELL_PATTERN@, old(c)@.conf) is Some
                &&& final(c)@ == (BackendView {
                    conf: with_console(
                        old(c)@.conf,
                        regex_match_end(CELL_PATTERN@, old(c)@.conf)->0,
                    ),
                    ..old(c)@
                })
            },
            Err(e) => {
                &&& e == EngineError::DescriptorTemplateMissing
                &&& !regex_compiles(CELL_PATTERN@) || regex_match_end(
                    CELL_PATTERN@,
                    old(c)@.conf,
                ) is None
                &&& final(c)@ == old(c)@
            },
        },
{
    let re = match regex_new(CELL_PATTERN) {
        Ok(re) => re,
        Err(_) => {
            return Err(EngineError::DescriptorTemplateMissing);
        },
    };
    match regex_cut_after(&re, c.conf.as_str()) {
        Some((head, tail)) => {
            let ghost conf = c@.conf;
            let mut out = chars_of(head.as_str());
            extend_str(&mut out, "\n");
            extend_str(&mut out, CONSOLE_TEMPLATE);
            extend_str(&mut out, "\n");
            extend_str(&mut out, tail.as_str());
            proof {
                let n = head@.len() as int;
                assert(conf.take(n) =~= head@);
                assert(conf.skip(n) =~= tail@);
                assert(out@ =~= with_console(conf, n as nat));
            }
            c.conf = string_of(&out);
            Ok(())
        },
        None => Err(EngineError::DescriptorTemplateMissing),
    }
}

} // verus!
