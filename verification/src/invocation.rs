//! What the program was asked to do, read off its command line.

use vstd::prelude::*;

verus! {

/// One run: the directory to search and the address to post to. The address
/// is passed on as it is; nothing here looks into it.
#[derive(Debug, Clone, PartialEq, Eq)]
pub struct Invocation {
    pub root: String,
    pub destination: String,
}

/// The text of the guidance printed where arguments are missing.
pub open spec fn usage_text() -> Seq<char> {
    "Please provide the directory path and Orthanc server URL as arguments"@
}

/// The guidance to print where arguments are missing.
pub fn usage() -> (text: &'static str)
    ensures
        text@ == usage_text(),
{
    "Please provide the directory path and Orthanc server URL as arguments"
}

/// Reads the command line, program name first. The directory is the first
/// argument after the name and the address the second; what follows them is
/// not looked at. `None` means that one of the two is missing, and then no
/// work is to be done.
pub fn parse_invocation(args: &Vec<String>) -> (parsed: Option<Invocation>)
    ensures
        match parsed {
            Some(invocation) => {
                &&& args.len() >= 3
                &&& invocation.root@ == args[1]@
                &&& invocation.destination@ == args[2]@
            },
            None => args.len() < 3,
        },
{
    if args.len() < 3 {
        None
    } else {
        Some(Invocation { root: args[1].clone(), destination: args[2].clone() })
    }
}

} // verus!
