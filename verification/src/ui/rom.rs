use vstd::prelude::*;

verus! {

/// A program image and where, if anywhere, it has been loaded into memory.
#[derive(Debug)]
pub struct Rom {
    pub name: String,
    pub bytes: Vec<u8>,
    pub loaded_at: Option<usize>,
}

impl Rom {
    /// A program image that is not loaded anywhere yet.
    pub fn new(name: String, bytes: Vec<u8>) -> (rom: Rom)
        ensures
            rom.name@ == name@,
            rom.bytes@ == bytes@,
            rom.loaded_at is None,
    {
        Rom { name, bytes, loaded_at: None }
    }

    /// The memory cells the image was loaded into, as recorded when it was
    /// loaded.
    pub fn loaded_range(&self) -> (r: Option<core::ops::Range<usize>>)
        requires
            self.loaded_at matches Some(start) ==> start + self.bytes@.len() <= usize::MAX,
        ensures
            match self.loaded_at {
                Some(start) => r matches Some(range)
                    && range.start == start && range.end == start + self.bytes@.len(),
                None => r is None,
            },
    {
        match self.loaded_at {
            Some(start) => Some(start..start + self.bytes.len()),
            None => None,
        }
    }
}

} // verus!
