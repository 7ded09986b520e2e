//! The banner and warning text shown before a run.

use vstd::prelude::*;

verus! {

/// The banner block.
pub fn banner() -> (r: String)
    ensures
        r@ == "\n            _____    \n       ____/__  /____\n      / ___/ / / ___/\n     (__  ) / / /    \n    /____/ /_/_/     \n    \n    @nt54hamnghi\n"@,
{
    "\n            _____    \n       ____/__  /____\n      / ___/ / / ___/\n     (__  ) / / /    \n    /____/ /_/_/     \n    \n    @nt54hamnghi\n".to_owned()
}

/// The warnings block.
pub fn warnings() -> (r: String)
    ensures
        r@ == "\nWARNING:\n[!] This tool is for educational purposes only.\n[!] Users are responsible for their actions.\n[!] Please respect the terms of use of all data sources used by this tool.\n"@,
{
    "\nWARNING:\n[!] This tool is for educational purposes only.\n[!] Users are responsible for their actions.\n[!] Please respect the terms of use of all data sources used by this tool.\n".to_owned()
}

/// The banner and the warnings, newline-joined: what is printed first.
pub fn header() -> (r: String)
    ensures
        r@ == "\n            _____    \n       ____/__  /____\n      / ___/ / / ___/\n     (__  ) / / /    \n    /____/ /_/_/     \n    \n    @nt54hamnghi\n"@
            + "\n"@
            + "\nWARNING:\n[!] This tool is for educational purposes only.\n[!] Users are responsible for their actions.\n[!] Please respect the terms of use of all data sources used by this tool.\n"@,
{
    let mut s = banner();
    s.append("\n");
    let w = warnings();
    s.append(w.as_str());
    s
}

} // verus!
