//! A named benchmark description: the measuring run itself lives outside
//! the library, next to the clock it needs.

use vstd::prelude::*;

verus! {

/// A benchmark's name and how many iterations it runs.
pub struct Benchmark {
    pub name: String,
    pub iterations: u32,
}

impl Benchmark {
    /// A benchmark called `name` running `iterations` times.
    pub fn new(name: &str, iterations: u32) -> (r: Self)
        ensures
            r.name@ == name@,
            r.iterations == iterations,
    {
        Benchmark { name: String::from_str(name), iterations }
    }
}

} // verus!
