//! The library that gives FTD documents the source of the modules they import.
use vstd::prelude::*;
use crate::text::{concat2, concat3, opt_view, str_eq};

verus! {

/// The declarations appended to fpm's own module.
pub open spec fn package_data_decl() -> Seq<char> {
    "\n\n-- optional package-data package:\n"@
}

/// A library that serves fpm's own module and the documents of the current directory.
#[derive(Debug, Clone, Copy, PartialEq, Eq, Default)]
pub struct FPMLibrary {}

impl FPMLibrary {
    /// The file that holds the module `name`: `./<name>.ftd`.
    pub fn file_path(&self, name: &str) -> (r: String)
        ensures
            r@ == "./"@ + name@ + ".ftd"@,
    {
        concat3("./", name, ".ftd")
    }

    /// The source of the module `name`: for `fpm`, fpm's declarations `fpm_ftd` followed
    /// by the optional `package-data` variable; for any other, `file`, what was read from
    /// [`Self::file_path`] if it could be read.
    pub fn get(&self, name: &str, fpm_ftd: &str, file: Option<String>) -> (r: Option<String>)
        ensures
            name@ == "fpm"@ ==> opt_view(r) == Some(fpm_ftd@ + package_data_decl()),
            name@ != "fpm"@ ==> r == file,
    {
        if str_eq(name, "fpm") {
            Some(concat2(fpm_ftd, "\n\n-- optional package-data package:\n"))
        } else {
            file
        }
    }
}

} // verus!
