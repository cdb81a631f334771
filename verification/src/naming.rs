//! File names: which names an audio container, and what the file written
//! beside an input is called. Names are taken as bytes, as the file system
//! holds them.

use vstd::prelude::*;

verus! {

/// The extension of an audio container: the bytes of `.wav`.
pub open spec fn container_extension() -> Seq<u8> {
    seq![0x2Eu8, 0x77u8, 0x61u8, 0x76u8]
}

/// The extension of a recovered payload: the bytes of `.recovered`.
pub open spec fn recovered_extension() -> Seq<u8> {
    seq![0x2Eu8, 0x72u8, 0x65u8, 0x63u8, 0x6Fu8, 0x76u8, 0x65u8, 0x72u8, 0x65u8, 0x64u8]
}

/// The container extension stands in `name` at position `at`.
pub open spec fn extension_at(name: Seq<u8>, at: int) -> bool {
    &&& 0 <= at
    &&& at + 4 <= name.len()
    &&& name.subrange(at, at + 4) == container_extension()
}

/// The name holds the container extension somewhere: such an input is
/// decoded, any other is encoded.
pub open spec fn names_container(name: Seq<u8>) -> bool {
    exists|at: int| extension_at(name, at)
}

/// Tells whether `name` names an audio container.
pub fn is_container_name(name: &Vec<u8>) -> (found: bool)
    ensures
        found == names_container(name@),
{
    if name.len() < 4 {
        assert forall|at: int| !extension_at(name@, at) by {}
        return false;
    }
    let last: usize = name.len() - 4;
    let mut at: usize = 0;
    while at <= last
        invariant
            at <= last + 1,
            last + 4 == name.len(),
            forall|k: int| 0 <= k < at ==> !extension_at(name@, k),
        decreases last + 1 - at,
    {
        if name[at] == 0x2E && name[at + 1] == 0x77 && name[at + 2] == 0x61 && name[at + 3]
            == 0x76 {
            assert(name@.subrange(at as int, at + 4) =~= container_extension());
            assert(extension_at(name@, at as int));
            return true;
        }
        assert(!extension_at(name@, at as int)) by {
            let part = name@.subrange(at as int, at + 4);
            if part == container_extension() {
                assert(part[0] == 0x2E && part[1] == 0x77 && part[2] == 0x61 && part[3] == 0x76);
            }
        }
        at += 1;
    }
    assert forall|k: int| !extension_at(name@, k) by {}
    false
}

/// The name of the container written for an input: the input's name with
/// the container extension behind it.
pub fn container_name(input: &Vec<u8>) -> (name: Vec<u8>)
    ensures
        name@ == input@ + container_extension(),
{
    let mut name: Vec<u8> = Vec::new();
    let mut i: usize = 0;
    while i < input.len()
        invariant
            i <= input.len(),
            name@ == input@.take(i as int),
        decreases input.len() - i,
    {
        name.push(input[i]);
        i += 1;
        assert(name@ =~= input@.take(i as int));
    }
    name.push(0x2E);
    name.push(0x77);
    name.push(0x61);
    name.push(0x76);
    assert(name@ =~= input@ + container_extension());
    name
}

/// The name of the payload recovered from a container: the container's name
/// without its last four bytes, with the recovered extension behind it.
pub fn recovered_name(container: &Vec<u8>) -> (name: Vec<u8>)
    requires
        container@.len() >= 4,
    ensures
        name@ == container@.take(container@.len() - 4) + recovered_extension(),
{
    let stem: usize = container.len() - 4;
    let mut name: Vec<u8> = Vec::new();
    let mut i: usize = 0;
    while i < stem
        invariant
            i <= stem,
            stem + 4 == container.len(),
            name@ == container@.take(i as int),
        decreases stem - i,
    {
        name.push(container[i]);
        i += 1;
        assert(name@ =~= container@.take(i as int));
    }
    name.push(0x2E);
    name.push(0x72);
    name.push(0x65);
    name.push(0x63);
    name.push(0x6F);
    name.push(0x76);
    name.push(0x65);
    name.push(0x72);
    name.push(0x65);
    name.push(0x64);
    assert(name@ =~= container@.take(container@.len() - 4) + recovered_extension());
    name
}

} // verus!
