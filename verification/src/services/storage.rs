//! Where the last accepted program and the uploaded media are kept.

use vstd::prelude::*;
use vstd::string::*;

verus! {

/// The persistence service: one directory that holds the last accepted
/// program and the uploaded media files.
pub struct StorageService {
    program_dir: String,
}

impl StorageService {
    /// The directory of the service.
    pub closed spec fn dir(&self) -> Seq<char> {
        self.program_dir@
    }

    /// The name under which the last accepted program is kept.
    pub open spec fn program_file() -> Seq<char> {
        "current_program.xml"@
    }

    pub fn new(program_dir: String) -> (s: StorageService)
        ensures
            s.dir() == program_dir@,
    {
        StorageService { program_dir }
    }

    /// The program directory path.
    pub fn program_dir(&self) -> (r: &String)
        ensures
            r@ == self.dir(),
    {
        &self.program_dir
    }

    /// The name under which the last accepted program is kept.
    pub fn program_file_name() -> (r: &'static str)
        ensures
            r@ == Self::program_file(),
    {
        "current_program.xml"
    }
}

} // verus!
