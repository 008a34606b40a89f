//! The data each front-end page renders.  Rendering itself is the
//! templating layer's affair, outside this library.

use vstd::prelude::*;

verus! {

/// The greeting page's data.
pub struct HelloTemplate<'a> {
    pub name: &'a str,
}

/// The login page carries no data.
pub struct LoginTemplate;

/// The registration page carries no data.
pub struct RegisterTemplate;

} // verus!
