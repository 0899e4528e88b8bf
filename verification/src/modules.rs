//! The module store: one stored blob, answered with its checksum.

use crate::digest::{decimal_digits, decimal_text, simple_hash, xor_fold};
use vstd::prelude::*;

verus! {

/// Why an upload was refused. A refused upload changes nothing.
#[derive(Clone, Copy, Debug, PartialEq, Eq, Structural)]
pub enum ModuleError {
    /// The upload holds no bytes.
    Empty,
}

impl ModuleError {
    /// The error as a sentence.
    pub fn message(&self) -> (r: String)
        ensures
            r@ == "Invalid or empty module"@,
    {
        "Invalid or empty module".to_owned()
    }
}

/// The checksum text of `module`: its checksum in decimal notation.
pub open spec fn checksum_text(module: Seq<u8>) -> Seq<char> {
    decimal_digits(xor_fold(module) as nat)
}

/// The module store.
pub struct ModuleStore {
    stored: Option<Vec<u8>>,
}

impl View for ModuleStore {
    type V = Option<Seq<u8>>;

    closed spec fn view(&self) -> Option<Seq<u8>> {
        match self.stored {
            Some(module) => Some(module@),
            None => None,
        }
    }
}

impl ModuleStore {
    /// A store that holds no module.
    pub fn new() -> (r: ModuleStore)
        ensures
            r@ == None::<Seq<u8>>,
    {
        ModuleStore { stored: None }
    }

    /// Whether a module is stored.
    pub fn is_loaded(&self) -> (r: bool)
        ensures
            r == self@.is_some(),
    {
        self.stored.is_some()
    }

    /// Stores `module` in place of what was stored before, and answers with
    /// its checksum text. An empty module is refused.
    pub fn upload(&mut self, module: Vec<u8>) -> (r: Result<String, ModuleError>)
        ensures
            module@.len() == 0 ==> {
                &&& r == Err::<String, ModuleError>(ModuleError::Empty)
                &&& final(self)@ == old(self)@
            },
            module@.len() > 0 ==> {
                &&& final(self)@ == Some(module@)
                &&& r matches Ok(text)
                &&& text@ == checksum_text(module@)
            },
    {
        if module.len() == 0 {
            return Err(ModuleError::Empty);
        }
        let hash = simple_hash(module.as_slice());
        self.stored = Some(module);
        Ok(decimal_text(hash))
    }
}

} // verus!
