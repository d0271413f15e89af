//! The functions of the player script last seen, kept under the reference
//! of that script.

use crate::extract::{extract_functions, functions_bytes, player_functions};
use vstd::prelude::*;
use vstd::string::*;
use vstd::utf8::*;

verus! {

/// The functions extracted from one player script, under the reference the
/// script was fetched by. It holds the functions of one script at most: a
/// script with another reference takes the place of the one before.
pub struct PlayerFunctionSet {
    entry: Option<(String, Vec<(String, String)>)>,
}

/// What is to be done for a reference to a player script.
pub enum PlayerAction {
    /// These are its functions.
    Serve(Vec<(String, String)>),
    /// The script is to be fetched and handed to `refresh`.
    Fetch,
}

/// A copy of a list of functions.
pub fn copy_functions(functions: &Vec<(String, String)>) -> (r: Vec<(String, String)>)
    ensures
        r@ == functions@,
{
    let mut out: Vec<(String, String)> = Vec::new();
    let mut i: usize = 0;
    while i < functions.len()
        invariant
            i <= functions.len(),
            out@ == functions@.subrange(0, i as int),
        decreases functions.len() - i,
    {
        let ghost before = out@;
        let entry = (functions[i].0.clone(), functions[i].1.clone());
        assert(entry == functions@[i as int]);
        out.push(entry);
        assert(out@ =~= functions@.subrange(0, i + 1));
        i += 1;
    }
    assert(functions@.subrange(0, functions.len() as int) =~= functions@);
    out
}

impl PlayerFunctionSet {
    /// The reference of the script whose functions are held.
    pub closed spec fn reference(&self) -> Option<Seq<char>> {
        match self.entry {
            Some(e) => Some(e.0@),
            None => None,
        }
    }

    /// The functions that are held, by name and source; none where nothing
    /// is held.
    pub closed spec fn functions(&self) -> Seq<(Seq<u8>, Seq<u8>)> {
        match self.entry {
            Some(e) => functions_bytes(e.1@),
            None => Seq::empty(),
        }
    }

    /// A set that holds nothing.
    pub fn new() -> (r: PlayerFunctionSet)
        ensures
            r.reference() is None,
            r.functions() == Seq::<(Seq<u8>, Seq<u8>)>::empty(),
    {
        PlayerFunctionSet { entry: None }
    }

    /// The functions of the script with this reference, where they are
    /// held.
    pub fn lookup(&self, reference: &str) -> (r: Option<Vec<(String, String)>>)
        ensures
            match r {
                Some(functions) => self.reference() == Some(reference@) && functions_bytes(
                    functions@,
                ) == self.functions(),
                None => self.reference() != Some(reference@),
            },
    {
        match &self.entry {
            Some(e) => {
                if crate::text::same_text(e.0.as_str(), reference) {
                    Some(copy_functions(&e.1))
                } else {
                    None
                }
            },
            None => None,
        }
    }

    /// What is to be done for a reference: its functions are served where
    /// they are held, else the script is to be fetched.
    pub fn request(&self, reference: &str) -> (action: PlayerAction)
        ensures
            match action {
                PlayerAction::Serve(functions) => self.reference() == Some(reference@)
                    && functions_bytes(functions@) == self.functions(),
                PlayerAction::Fetch => self.reference() != Some(reference@),
            },
    {
        match self.lookup(reference) {
            Some(functions) => PlayerAction::Serve(functions),
            None => PlayerAction::Fetch,
        }
    }

    /// Takes the script fetched by `reference`: its functions are extracted
    /// and held in the place of whatever was held, and returned.
    pub fn refresh(&mut self, reference: &str, body: String) -> (functions: Vec<(String, String)>)
        ensures
            final(self).reference() == Some(reference@),
            final(self).functions() == player_functions(encode_utf8(body@)),
            functions_bytes(functions@) == player_functions(encode_utf8(body@)),
    {
        let functions = extract_functions(body);
        let kept = copy_functions(&functions);
        self.entry = Some((reference.to_owned(), kept));
        functions
    }
}

} // verus!
