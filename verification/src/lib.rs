//! Turn websites into desktop web apps: launcher (`.desktop`) files, isolated browser
//! profiles, browser detection and favicon handling, with the logic verified by Verus.
use vstd::prelude::*;

pub mod browser;
pub mod choices;
pub mod desktop;
pub mod detect;
pub mod favicon;
pub mod paths;
pub mod profile;
pub mod text;
pub mod webapp;
pub mod weburl;

verus! {

/// `String::push` appends one character.
pub assume_specification[ String::push ](s: &mut String, ch: char)
    ensures
        final(s)@ == old(s)@.push(ch),
;

} // verus!
