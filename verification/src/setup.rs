//! What has to be settled before there is a device: which extensions the runtime wants
//! enabled, and whether the Vulkan at hand is new enough for it.
use vstd::prelude::*;

verus! {

/// The byte that separates the names in a list of extensions.
pub const SPACE: u8 = 0x20;

/// A version: major, minor, patch.
#[derive(Clone, Copy, Debug, PartialEq, Eq, Structural)]
pub struct Version {
    pub major: u16,
    pub minor: u16,
    pub patch: u32,
}

impl Version {
    /// Whether `self` is a later version than `other`: majors decide, then minors, then
    /// patches.
    pub open spec fn later_than(self, other: Version) -> bool {
        ||| self.major > other.major
        ||| self.major == other.major && self.minor > other.minor
        ||| self.major == other.major && self.minor == other.minor && self.patch > other.patch
    }
}

/// `openxr::Version::new` for both versions, and `>` between the two. A version of the
/// runtime is one number that holds the major version in its top 16 bits, the minor version in
/// the next 16 and the patch in the low 32; versions are ordered as those numbers are.
#[verifier::external_body]
fn exceeds(required: Version, supported: Version) -> (more: bool)
    ensures
        more == required.later_than(supported),
{
    openxr::Version::new(required.major, required.minor, required.patch) > openxr::Version::new(
        supported.major,
        supported.minor,
        supported.patch,
    )
}

/// Whether a runtime that requires at least the version `required` can be served with the
/// version `supported`.
pub fn runtime_satisfied(required: Version, supported: Version) -> (satisfied: bool)
    ensures
        satisfied == !required.later_than(supported),
{
    !exceeds(required, supported)
}

/// The names `names` in one list, a space between each two.
pub open spec fn joined(names: Seq<Seq<u8>>) -> Seq<u8>
    decreases names.len(),
{
    if names.len() == 0 {
        Seq::empty()
    } else if names.len() == 1 {
        names[0]
    } else {
        joined(names.drop_last()) + seq![SPACE] + names.last()
    }
}

/// The contents of `names`, name by name.
pub open spec fn contents(names: Seq<Vec<u8>>) -> Seq<Seq<u8>> {
    Seq::new(names.len(), |i: int| names[i]@)
}

/// Adding a byte to the last name adds it to the list.
proof fn lemma_joined_grows(names: Seq<Seq<u8>>, last: Seq<u8>, byte: u8)
    ensures
        joined(names.push(last.push(byte))) == joined(names.push(last)).push(byte),
{
    let longer = names.push(last.push(byte));
    let shorter = names.push(last);
    assert(longer.drop_last() =~= names);
    assert(shorter.drop_last() =~= names);
    if names.len() == 0 {
        assert(joined(longer) =~= joined(shorter).push(byte));
    } else {
        assert(joined(longer) =~= joined(shorter).push(byte));
    }
}

/// Starting a new, empty name adds a space to the list.
proof fn lemma_joined_breaks(names: Seq<Seq<u8>>, last: Seq<u8>)
    ensures
        joined(names.push(last).push(Seq::empty())) == joined(names.push(last)).push(SPACE),
{
    let broken = names.push(last).push(Seq::<u8>::empty());
    assert(broken.drop_last() =~= names.push(last));
    assert(joined(broken) =~= joined(names.push(last)).push(SPACE));
}

/// Splits a list of extension names at its spaces. Every space separates two names, so a list
/// of `n` spaces holds `n + 1` names, some of which may be empty; put back together with one
/// space between each two, the names are the list again.
pub fn extension_names(list: &[u8]) -> (names: Vec<Vec<u8>>)
    ensures
        names@.len() >= 1,
        joined(contents(names@)) == list@,
        forall|i: int, k: int|
            0 <= i < names@.len() && 0 <= k < names@[i]@.len() ==> (#[trigger] names@[i]@[k]) != SPACE,
{
    let mut names: Vec<Vec<u8>> = Vec::new();
    let mut current: Vec<u8> = Vec::new();
    let mut i: usize = 0;
    assert(contents(names@).push(current@) =~= seq![Seq::<u8>::empty()]);
    assert(joined(contents(names@).push(current@)) =~= list@.take(0));
    while i < list.len()
        invariant
            i <= list@.len(),
            joined(contents(names@).push(current@)) == list@.take(i as int),
            forall|a: int, k: int|
                0 <= a < names@.len() && 0 <= k < names@[a]@.len() ==> (#[trigger] names@[a]@[k])
                    != SPACE,
            forall|k: int| 0 <= k < current@.len() ==> current@[k] != SPACE,
        decreases list@.len() - i,
    {
        let byte = list[i];
        let ghost before = contents(names@);
        let ghost last = current@;
        if byte == SPACE {
            names.push(current);
            current = Vec::new();
            proof {
                lemma_joined_breaks(before, last);
                assert(contents(names@) =~= before.push(last));
                assert(contents(names@).push(current@) =~= before.push(last).push(Seq::empty()));
            }
        } else {
            current.push(byte);
            proof {
                lemma_joined_grows(before, last, byte);
            }
        }
        assert(list@.take(i + 1) =~= list@.take(i as int).push(byte));
        i = i + 1;
    }
    let ghost before = contents(names@);
    let ghost last = current@;
    names.push(current);
    proof {
        assert(contents(names@) =~= before.push(last));
        assert(list@.take(list@.len() as int) =~= list@);
    }
    names
}

} // verus!
