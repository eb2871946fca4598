use vstd::prelude::*;

verus! {

/// A small demonstration payload served by the interactive API.
#[derive(Debug, Clone)]
pub struct Details {
    pub name: String,
    pub age: i32,
}

/// The envelope every interactive API response is wrapped in.
#[derive(Debug, Clone)]
pub struct GenericResponse<T> {
    pub code: String,
    pub data: T,
}

} // verus!
