use vstd::prelude::*;

verus! {

/// The name under which the OpenGL render driver is listed.
pub open spec fn gl_name() -> Seq<char> {
    seq!['o', 'p', 'e', 'n', 'g', 'l']
}

/// Pick the OpenGL render driver from the drivers' names, listed in the order
/// in which the system numbers them: the index of the first one so named, or
/// `None` where there is none.
pub fn find_gl_driver(names: &[String]) -> (r: Option<u32>)
    requires
        names@.len() <= u32::MAX,
    ensures
        match r {
            Some(i) => {
                &&& i < names@.len()
                &&& names@[i as int]@ == gl_name()
                &&& forall|j: int| 0 <= j < i ==> names@[j]@ != gl_name()
            },
            None => forall|j: int| 0 <= j < names@.len() ==> names@[j]@ != gl_name(),
        },
{
    let gl = "opengl".to_owned();
    proof {
        reveal_strlit("opengl");
        assert(gl@ =~= gl_name());
    }
    let mut i: usize = 0;
    while i < names.len()
        invariant
            i <= names@.len(),
            names@.len() <= u32::MAX,
            gl@ == gl_name(),
            forall|j: int| 0 <= j < i ==> names@[j]@ != gl_name(),
        decreases names@.len() - i,
    {
        if names[i] == gl {
            return Some(i as u32);
        }
        i = i + 1;
    }
    None
}

} // verus!
