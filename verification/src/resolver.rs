//! The host symbol registry: import names (C strings) bound to the host
//! shims that serve them. A later binding of a name takes precedence over
//! an earlier one, and over any generic host-library binding.

use vstd::prelude::*;
use crate::bytes::{c_str, c_str_len, prefix_eq};
use crate::shims::HostShim;

verus! {

/// The shim bound to C-string key `k` in registrations `s`: the latest
/// registration of that name wins.
pub open spec fn lookup_shim(s: Seq<(Seq<u8>, HostShim)>, k: Seq<u8>) -> Option<HostShim>
    decreases s.len(),
{
    if s.len() == 0 {
        None
    } else if s.last().0 == k {
        Some(s.last().1)
    } else {
        lookup_shim(s.drop_last(), k)
    }
}

/// Named host shims: import names (C strings) bound to host entry points.
pub struct ShimRegistry {
    entries: Vec<(Vec<u8>, HostShim)>,
}

impl ShimRegistry {
    /// The registrations, oldest first, each name taken as the C string it
    /// holds.
    pub closed spec fn registrations(&self) -> Seq<(Seq<u8>, HostShim)> {
        self.entries@.map_values(|e: (Vec<u8>, HostShim)| (e.0@, e.1))
    }

    /// The shim an import named `name` binds to.
    pub open spec fn resolves(&self, name: Seq<u8>) -> Option<HostShim> {
        lookup_shim(self.registrations(), c_str(name))
    }

    /// A registry with nothing registered.
    pub fn new() -> (r: ShimRegistry)
        ensures
            r.registrations() == Seq::<(Seq<u8>, HostShim)>::empty(),
    {
        ShimRegistry { entries: Vec::new() }
    }

    /// Bind the import named by the C string in `name` to `shim`; it takes
    /// precedence over any earlier binding of that name.
    pub fn register_named(&mut self, name: &[u8], shim: HostShim)
        ensures
            final(self).registrations() == old(self).registrations().push((c_str(name@), shim)),
    {
        let n = c_str_len(name);
        let mut key: Vec<u8> = Vec::new();
        let mut i: usize = 0;
        while i < n
            invariant
                n <= name@.len(),
                i <= n,
                key@ == name@.subrange(0, i as int),
            decreases n - i,
        {
            key.push(name[i]);
            i = i + 1;
            assert(key@ =~= name@.subrange(0, i as int));
        }
        self.entries.push((key, shim));
        proof {
            assert(self.registrations() =~= old(self).registrations().push((c_str(name@), shim)));
        }
    }

    /// The shim the import named by the C string in `name` resolves to.
    pub fn resolve(&self, name: &[u8]) -> (r: Option<HostShim>)
        ensures
            r == self.resolves(name@),
    {
        let n = c_str_len(name);
        let mut i: usize = self.entries.len();
        assert(self.registrations().subrange(0, i as int) =~= self.registrations());
        while i > 0
            invariant
                i <= self.entries@.len(),
                n <= name@.len(),
                c_str(name@) == name@.subrange(0, n as int),
                lookup_shim(self.registrations(), c_str(name@)) == lookup_shim(
                    self.registrations().subrange(0, i as int),
                    c_str(name@),
                ),
            decreases i,
        {
            let e = &self.entries[i - 1];
            let ghost sub = self.registrations().subrange(0, i as int);
            assert(sub.last() == (e.0@, e.1));
            assert(sub.drop_last() =~= self.registrations().subrange(0, i - 1));
            if e.0.len() == n && prefix_eq(name, n, e.0.as_slice()) {
                return Some(e.1);
            }
            i = i - 1;
        }
        assert(self.registrations().subrange(0, 0) =~= Seq::<(Seq<u8>, HostShim)>::empty());
        None
    }
}

/// Registering a name binds it: an import with that name then resolves to
/// the shim just registered, and every other name resolves as before.
pub proof fn law_registered_name_resolves(
    before: Seq<(Seq<u8>, HostShim)>,
    name: Seq<u8>,
    shim: HostShim,
    other: Seq<u8>,
)
    ensures
        lookup_shim(before.push((c_str(name), shim)), c_str(name)) == Some(shim),
        c_str(other) != c_str(name) ==> lookup_shim(before.push((c_str(name), shim)), c_str(other))
            == lookup_shim(before, c_str(other)),
{
    assert(before.push((c_str(name), shim)).drop_last() =~= before);
}

} // verus!
