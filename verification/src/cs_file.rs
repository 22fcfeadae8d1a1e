//! The game's file singleton, through which file capabilities are processed.
use vstd::prelude::*;

verus! {

/// The file singleton object: only its vtable address is read.
#[derive(Clone, Copy, Debug)]
pub struct CsFile {
    pub vtable: u64,
}

/// The words of the file singleton's vtable, in order.
#[derive(Clone, Copy, Debug)]
pub struct CsFileVtable {
    pub rtclass: u64,
    pub dtor: u64,
    pub get_rescap: u64,
    pub process_filecap: u64,
}

impl CsFile {
    /// Chooses the file singleton among the game's registered singletons:
    /// `CSFile` where the game registers one, else `SprjFile`; a null
    /// address counts as no singleton.
    pub fn instance_address(cs_file: Option<u64>, sprj_file: Option<u64>) -> (r: Option<u64>)
        ensures
            r == (match (if cs_file is Some {
                cs_file
            } else {
                sprj_file
            }) {
                Some(p) => if p == 0 {
                    None
                } else {
                    Some(p)
                },
                None => None,
            }),
    {
        let chosen = match cs_file {
            Some(p) => Some(p),
            None => sprj_file,
        };
        match chosen {
            Some(p) => if p == 0 {
                None
            } else {
                Some(p)
            },
            None => None,
        }
    }
}

} // verus!
