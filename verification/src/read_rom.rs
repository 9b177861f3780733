//! A ROM image: the path it is read from and the bytes read.
use vstd::prelude::*;

verus! {

pub struct ROM {
    pub path: String,
    /// The image's bytes, empty until the host reads the file.
    pub content: Vec<u8>,
}

impl ROM {
    pub fn new(path: String) -> (r: Self)
        ensures
            r.path@ == path@,
            r.content@ == Seq::<u8>::empty(),
    {
        ROM { path: path, content: Vec::<u8>::new() }
    }
}

} // verus!
