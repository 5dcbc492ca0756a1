//! The gateway's command line.

use std::path::PathBuf;

use vstd::prelude::*;

verus! {

/// `std::path::PathBuf`: an owned file system path.
#[verifier::external_type_specification]
#[verifier::external_body]
pub struct ExPathBuf(PathBuf);

/// The command line: the path of the gateway configuration file.
pub struct Cli {
    pub config: PathBuf,
}

} // verus!
