//! Names of the canned JSON responses used when mocking the remote APIs.

use vstd::prelude::*;
use vstd::string::StringExecFns;

verus! {

/// One canned response; the file under `tests/` carries the same name.
#[derive(Debug, Clone, Copy, PartialEq, Eq, Structural)]
pub enum ResponseFromFile {
    Tasks,
    Sync,
}

impl ResponseFromFile {
    /// The bare name of this response.
    pub fn name(&self) -> (r: String)
        ensures
            match self {
                ResponseFromFile::Tasks => r@ == "Tasks"@,
                ResponseFromFile::Sync => r@ == "Sync"@,
            },
    {
        match self {
            ResponseFromFile::Tasks => "Tasks".to_owned(),
            ResponseFromFile::Sync => "Sync".to_owned(),
        }
    }

    /// The path of the file holding this response.
    pub fn path(&self) -> (r: String)
        ensures
            match self {
                ResponseFromFile::Tasks => r@ == "tests/Tasks.json"@,
                ResponseFromFile::Sync => r@ == "tests/Sync.json"@,
            },
    {
        let mut path = "tests/".to_owned();
        path.append(self.name().as_str());
        path.append(".json");
        proof {
            reveal_strlit("tests/");
            reveal_strlit("Tasks");
            reveal_strlit("Sync");
            reveal_strlit(".json");
            reveal_strlit("tests/Tasks.json");
            reveal_strlit("tests/Sync.json");
            assert(path@ =~= "tests/Tasks.json"@ || path@ =~= "tests/Sync.json"@);
        }
        path
    }
}

} // verus!
