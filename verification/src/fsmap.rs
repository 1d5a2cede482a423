//! Guest filesystem path remapping: absolute guest paths under the writable
//! Android mount roots (`/data`, `/sdcard`, `/storage`, `/cache`) are
//! rewritten to host paths under a configured root directory, so what the
//! guest persists there is a real host file; every other path passes through.

use vstd::prelude::*;
use crate::bytes::{bytes_starts_with, starts_with};
use vstd::utf8::valid_utf8;

verus! {

/// The replacement text `String::from_utf8_lossy` makes of `b`, as bytes.
pub uninterp spec fn utf8_lossy(b: Seq<u8>) -> Seq<u8>;

/// Every byte is ASCII.
pub open spec fn is_ascii_bytes(b: Seq<u8>) -> bool {
    forall|i: int| 0 <= i < b.len() ==> b[i] < 0x80
}

/// The text of `b` decoded lossily: valid UTF-8 (so any ASCII) comes back
/// unchanged, anything else is whatever `from_utf8_lossy` makes of it.
pub open spec fn lossy(b: Seq<u8>) -> Seq<u8> {
    if valid_utf8(b) {
        b
    } else {
        utf8_lossy(b)
    }
}

/// `String::from_utf8_lossy(b)` as bytes.
///
/// Trusted: std documents that valid UTF-8 comes back unchanged; what it
/// makes of other input (U+FFFD replacements) is only named, not stated.
#[verifier::external_body]
pub(crate) fn lossy_utf8(b: &[u8]) -> (r: Vec<u8>)
    ensures
        valid_utf8(b@) ==> r@ == b@,
        !valid_utf8(b@) ==> r@ == utf8_lossy(b@),
{
    String::from_utf8_lossy(b).into_owned().into_bytes()
}

/// ASCII bytes are valid UTF-8.
pub proof fn lemma_ascii_is_valid_utf8(b: Seq<u8>)
    requires
        is_ascii_bytes(b),
    ensures
        valid_utf8(b),
    decreases b.len(),
{
    if b.len() > 0 {
        let x = b[0];
        assert(x <= 0x7f ==> (x & 0x7fu8) as u32 <= 0x7f) by (bit_vector);
        let rest = b.subrange(1, b.len() as int);
        assert(vstd::utf8::pop_first_scalar(b) =~= rest);
        lemma_ascii_is_valid_utf8(rest);
    }
}

/// Dropping an ASCII prefix of valid UTF-8 leaves valid UTF-8.
proof fn lemma_valid_utf8_after_ascii(g: Seq<u8>, n: int)
    requires
        valid_utf8(g),
        0 <= n <= g.len(),
        forall|i: int| 0 <= i < n ==> g[i] < 0x80,
    ensures
        valid_utf8(g.subrange(n, g.len() as int)),
    decreases n,
{
    if n == 0 {
        assert(g.subrange(0, g.len() as int) =~= g);
    } else {
        let rest = g.subrange(1, g.len() as int);
        assert(vstd::utf8::pop_first_scalar(g) =~= rest);
        lemma_valid_utf8_after_ascii(rest, n - 1);
        assert(rest.subrange(n - 1, rest.len() as int) =~= g.subrange(n, g.len() as int));
    }
}

/// The five mapped guest roots, longest first so `/storage/emulated` wins
/// over `/storage`.
pub open spec fn root_prefix(k: int) -> Seq<u8> {
    if k == 0 {
        seq![0x2fu8, 0x73u8, 0x74u8, 0x6fu8, 0x72u8, 0x61u8, 0x67u8, 0x65u8, 0x2fu8, 0x65u8, 0x6du8, 0x75u8, 0x6cu8, 0x61u8, 0x74u8, 0x65u8, 0x64u8]
    } else if k == 1 {
        seq![0x2fu8, 0x73u8, 0x74u8, 0x6fu8, 0x72u8, 0x61u8, 0x67u8, 0x65u8]
    } else if k == 2 {
        seq![0x2fu8, 0x64u8, 0x61u8, 0x74u8, 0x61u8]
    } else if k == 3 {
        seq![0x2fu8, 0x73u8, 0x64u8, 0x63u8, 0x61u8, 0x72u8, 0x64u8]
    } else if k == 4 {
        seq![0x2fu8, 0x63u8, 0x61u8, 0x63u8, 0x68u8, 0x65u8]
    } else {
        Seq::empty()
    }
}

/// The host directory (relative to the configured root) backing root `k`.
pub open spec fn root_dir(k: int) -> Seq<u8> {
    if k == 0 {
        seq![0x73u8, 0x74u8, 0x6fu8, 0x72u8, 0x61u8, 0x67u8, 0x65u8, 0x2fu8, 0x65u8, 0x6du8, 0x75u8, 0x6cu8, 0x61u8, 0x74u8, 0x65u8, 0x64u8]
    } else if k == 1 {
        seq![0x73u8, 0x74u8, 0x6fu8, 0x72u8, 0x61u8, 0x67u8, 0x65u8]
    } else if k == 2 {
        seq![0x64u8, 0x61u8, 0x74u8, 0x61u8]
    } else if k == 3 {
        seq![0x73u8, 0x64u8, 0x63u8, 0x61u8, 0x72u8, 0x64u8]
    } else if k == 4 {
        seq![0x63u8, 0x61u8, 0x63u8, 0x68u8, 0x65u8]
    } else {
        Seq::empty()
    }
}

fn root_prefix_bytes(k: usize) -> (r: Vec<u8>)
    requires
        k < 5,
    ensures
        r@ == root_prefix(k as int),
{
    match k {
        0 => vec![0x2fu8, 0x73u8, 0x74u8, 0x6fu8, 0x72u8, 0x61u8, 0x67u8, 0x65u8, 0x2fu8, 0x65u8, 0x6du8, 0x75u8, 0x6cu8, 0x61u8, 0x74u8, 0x65u8, 0x64u8],
        1 => vec![0x2fu8, 0x73u8, 0x74u8, 0x6fu8, 0x72u8, 0x61u8, 0x67u8, 0x65u8],
        2 => vec![0x2fu8, 0x64u8, 0x61u8, 0x74u8, 0x61u8],
        3 => vec![0x2fu8, 0x73u8, 0x64u8, 0x63u8, 0x61u8, 0x72u8, 0x64u8],
        4 => vec![0x2fu8, 0x63u8, 0x61u8, 0x63u8, 0x68u8, 0x65u8],
        _ => Vec::new(),
    }
}

fn root_dir_bytes(k: usize) -> (r: Vec<u8>)
    requires
        k < 5,
    ensures
        r@ == root_dir(k as int),
{
    match k {
        0 => vec![0x73u8, 0x74u8, 0x6fu8, 0x72u8, 0x61u8, 0x67u8, 0x65u8, 0x2fu8, 0x65u8, 0x6du8, 0x75u8, 0x6cu8, 0x61u8, 0x74u8, 0x65u8, 0x64u8],
        1 => vec![0x73u8, 0x74u8, 0x6fu8, 0x72u8, 0x61u8, 0x67u8, 0x65u8],
        2 => vec![0x64u8, 0x61u8, 0x74u8, 0x61u8],
        3 => vec![0x73u8, 0x64u8, 0x63u8, 0x61u8, 0x72u8, 0x64u8],
        4 => vec![0x63u8, 0x61u8, 0x63u8, 0x68u8, 0x65u8],
        _ => Vec::new(),
    }
}

/// Whether `g` is mapped root `k` itself or a path below it: it starts
/// with the root, and the root is followed by `/` or ends `g`.
pub open spec fn under_root(g: Seq<u8>, k: int) -> bool {
    let p = root_prefix(k);
    starts_with(g, p) && (g.len() == p.len() || g[p.len() as int] == 0x2f)
}

/// The host-relative path for `rest`, what follows root `k` in a guest
/// path (empty, or starting with `/`): the root's directory, then the rest
/// lossily decoded as UTF-8.
pub open spec fn host_relative(dir: Seq<u8>, rest: Seq<u8>) -> Seq<u8> {
    if rest.len() == 0 {
        dir
    } else {
        dir + lossy(rest)
    }
}

/// Remap `g` against the roots from `k` on: the first root that `g` equals
/// or lies below decides.
pub open spec fn remap_from(g: Seq<u8>, k: int) -> Option<Seq<u8>>
    decreases 5 - k,
{
    if k >= 5 {
        None
    } else if under_root(g, k) {
        Some(host_relative(root_dir(k), g.subrange(root_prefix(k).len() as int, g.len() as int)))
    } else {
        remap_from(g, k + 1)
    }
}

/// The host-relative path of guest path `g`: `None` unless `g` is absolute
/// and is one of the mapped roots or lies below one.
pub open spec fn spec_remap_relative(g: Seq<u8>) -> Option<Seq<u8>> {
    if g.len() == 0 || g[0] != 0x2f {
        None
    } else {
        remap_from(g, 0)
    }
}

/// Rewrite an absolute guest path equal to or below a mapped Android root
/// to its host path relative to the configured root; `None` for relative
/// or empty paths and for absolute paths outside the mapped roots (`/proc`,
/// `/system`, `/datafoo`, ...).
pub fn remap_relative(guest: &[u8]) -> (r: Option<Vec<u8>>)
    ensures
        match r {
            Some(v) => spec_remap_relative(guest@) == Some(v@),
            None => spec_remap_relative(guest@) is None,
        },
{
    if guest.len() == 0 || guest[0] != 0x2fu8 {
        return None;
    }
    let mut k: usize = 0;
    while k < 5
        invariant
            k <= 5,
            guest@.len() > 0 && guest@[0] == 0x2f,
            remap_from(guest@, 0) == remap_from(guest@, k as int),
        decreases 5 - k,
    {
        let prefix = root_prefix_bytes(k);
        let plen = prefix.len();
        if bytes_starts_with(guest, prefix.as_slice()) && (guest.len() == plen || guest[plen]
            == 0x2fu8) {
            let dir = root_dir_bytes(k);
            let rest = slice_from(guest, plen);
            let mut out = dir;
            if rest.len() == 0 {
                assert(rest@ =~= guest@.subrange(plen as int, guest@.len() as int));
                return Some(out);
            }
            let tail = lossy_utf8(rest.as_slice());
            let mut i: usize = 0;
            let ghost base = out@;
            while i < tail.len()
                invariant
                    i <= tail@.len(),
                    out@ == base + tail@.subrange(0, i as int),
                decreases tail@.len() - i,
            {
                out.push(tail[i]);
                proof {
                    assert(tail@.subrange(0, i + 1) =~= tail@.subrange(0, i as int).push(tail@[i as int]));
                }
                i = i + 1;
            }
            proof {
                assert(tail@.subrange(0, tail@.len() as int) =~= tail@);
                assert(rest@ =~= guest@.subrange(plen as int, guest@.len() as int));
                assert(out@ =~= host_relative(root_dir(k as int), rest@));
            }
            return Some(out);
        }
        k = k + 1;
    }
    None
}

/// The bytes of `b` from index `from` on.
fn slice_from(b: &[u8], from: usize) -> (r: Vec<u8>)
    requires
        from <= b@.len(),
    ensures
        r@ == b@.subrange(from as int, b@.len() as int),
{
    let mut out: Vec<u8> = Vec::new();
    let mut i = from;
    while i < b.len()
        invariant
            from <= i <= b@.len(),
            out@ == b@.subrange(from as int, i as int),
        decreases b@.len() - i,
    {
        out.push(b[i]);
        proof {
            assert(b@.subrange(from as int, i + 1) =~= b@.subrange(from as int, i as int).push(b@[i as int]));
        }
        i = i + 1;
    }
    out
}

/// `PathBuf::join(root, rel)` for a relative `rel`: a `/` is put between
/// them unless `root` is empty or already ends with one.
pub open spec fn join_root(root: Seq<u8>, rel: Seq<u8>) -> Seq<u8> {
    if root.len() == 0 || root.last() == 0x2f {
        root + rel
    } else {
        root + seq![0x2fu8] + rel
    }
}

/// The host path of guest path `g` under `root`, if `g` is remapped and the
/// result holds no NUL byte (so it can become a C string).
pub open spec fn spec_remap_host(root: Seq<u8>, g: Seq<u8>) -> Option<Seq<u8>> {
    match spec_remap_relative(g) {
        Some(rel) => {
            let h = join_root(root, rel);
            if h.contains(0u8) {
                None
            } else {
                Some(h)
            }
        },
        None => None,
    }
}

/// Whether `b` holds a NUL byte.
fn has_nul(b: &[u8]) -> (r: bool)
    ensures
        r == b@.contains(0u8),
{
    let mut i: usize = 0;
    while i < b.len()
        invariant
            i <= b@.len(),
            forall|k: int| 0 <= k < i ==> b@[k] != 0,
        decreases b@.len() - i,
    {
        if b[i] == 0 {
            assert(b@[i as int] == 0u8);
            return true;
        }
        i = i + 1;
    }
    false
}

/// The host path (as C-string bytes, without the NUL) that guest path
/// `guest` maps to under the host root `root`; `None` when the guest path
/// is not remapped or the joined path would hold a NUL byte.
pub fn remap_host_path(root: &[u8], guest: &[u8]) -> (r: Option<Vec<u8>>)
    ensures
        match r {
            Some(v) => spec_remap_host(root@, guest@) == Some(v@),
            None => spec_remap_host(root@, guest@) is None,
        },
{
    let rel = match remap_relative(guest) {
        Some(v) => v,
        None => {
            return None;
        },
    };
    let mut host: Vec<u8> = Vec::new();
    let mut i: usize = 0;
    while i < root.len()
        invariant
            i <= root@.len(),
            host@ == root@.subrange(0, i as int),
        decreases root@.len() - i,
    {
        host.push(root[i]);
        proof {
            assert(root@.subrange(0, i + 1) =~= root@.subrange(0, i as int).push(root@[i as int]));
        }
        i = i + 1;
    }
    assert(host@ =~= root@);
    if root.len() != 0 && root[root.len() - 1] != 0x2fu8 {
        host.push(0x2fu8);
    }
    let ghost base = host@;
    let mut j: usize = 0;
    while j < rel.len()
        invariant
            j <= rel@.len(),
            host@ == base + rel@.subrange(0, j as int),
        decreases rel@.len() - j,
    {
        host.push(rel[j]);
        proof {
            assert(rel@.subrange(0, j + 1) =~= rel@.subrange(0, j as int).push(rel@[j as int]));
        }
        j = j + 1;
    }
    proof {
        assert(rel@.subrange(0, rel@.len() as int) =~= rel@);
        assert(host@ =~= join_root(root@, rel@));
    }
    if has_nul(host.as_slice()) {
        return None;
    }
    Some(host)
}

/// The guest-root configuration: a root taken from the environment (when
/// set and non-empty) and an override that takes precedence over it.
pub struct RootConfig {
    configured: Option<Vec<u8>>,
    override_root: Option<Vec<u8>>,
}

impl RootConfig {
    /// The root from the environment (`None` when unset or empty).
    pub closed spec fn configured(&self) -> Option<Seq<u8>> {
        match self.configured {
            Some(v) => Some(v@),
            None => None,
        }
    }

    /// The override root, if one is pinned.
    pub closed spec fn override_root(&self) -> Option<Seq<u8>> {
        match self.override_root {
            Some(v) => Some(v@),
            None => None,
        }
    }

    /// The active root: the override, else the configured root.
    pub open spec fn active(&self) -> Option<Seq<u8>> {
        match self.override_root() {
            Some(r) => Some(r),
            None => self.configured(),
        }
    }

    /// A configuration from the environment value of the root variable; an
    /// empty value counts as unset. No override is pinned.
    pub fn new(env_value: Option<Vec<u8>>) -> (c: RootConfig)
        ensures
            c.override_root() is None,
            c.configured() == match env_value {
                Some(v) => if v@.len() == 0 {
                    None
                } else {
                    Some(v@)
                },
                None => None::<Seq<u8>>,
            },
    {
        let configured = match env_value {
            Some(v) => if v.len() == 0 {
                None
            } else {
                Some(v)
            },
            None => None,
        };
        RootConfig { configured, override_root: None }
    }

    /// Pin the active root to `root` (replacing any earlier override); an
    /// empty `root` clears the override instead, so the configured root
    /// applies again.
    pub fn set_root_for_tests(&mut self, root: Vec<u8>)
        ensures
            root@.len() == 0 ==> final(self).override_root() is None,
            root@.len() != 0 ==> final(self).override_root() == Some(root@),
            final(self).configured() == old(self).configured(),
    {
        if root.len() == 0 {
            self.override_root = None;
        } else {
            self.override_root = Some(root);
        }
    }

    /// Drop the override, so the configured root applies again.
    pub fn clear_override(&mut self)
        ensures
            final(self).override_root() is None,
            final(self).configured() == old(self).configured(),
    {
        self.override_root = None;
    }

    /// The resolved root (override, else environment), as used both by path
    /// remapping and by host staging.
    pub fn staging_root(&self) -> (r: Option<Vec<u8>>)
        ensures
            match r {
                Some(v) => self.active() == Some(v@),
                None => self.active() is None,
            },
    {
        match &self.override_root {
            Some(v) => Some(v.clone()),
            None => match &self.configured {
                Some(v) => Some(v.clone()),
                None => None,
            },
        }
    }

    /// Remap a guest path (`None` for a null guest pointer) under the active
    /// root: `None` when no root is active, the pointer is null, or the path
    /// is not remapped.
    pub fn remap_path_bytes(&self, guest: Option<&[u8]>) -> (r: Option<Vec<u8>>)
        ensures
            match (self.active(), guest) {
                (Some(root), Some(g)) => match r {
                    Some(v) => spec_remap_host(root, g@) == Some(v@),
                    None => spec_remap_host(root, g@) is None,
                },
                _ => r is None,
            },
    {
        let root = match self.staging_root() {
            Some(v) => v,
            None => {
                return None;
            },
        };
        match guest {
            Some(g) => remap_host_path(root.as_slice(), g),
            None => None,
        }
    }
}

/// The first mapped root that `g` equals or lies below, searching from
/// root `k`.
pub open spec fn matched_root_from(g: Seq<u8>, k: int) -> Option<int>
    decreases 5 - k,
{
    if k >= 5 {
        None
    } else if under_root(g, k) {
        Some(k)
    } else {
        matched_root_from(g, k + 1)
    }
}

proof fn lemma_remap_from_matched(g: Seq<u8>, k: int)
    requires
        0 <= k <= 5,
    ensures
        match matched_root_from(g, k) {
            Some(m) => 0 <= m < 5 && under_root(g, m) && remap_from(g, k) == Some(
                host_relative(root_dir(m), g.subrange(root_prefix(m).len() as int, g.len() as int)),
            ),
            None => remap_from(g, k) is None && forall|m: int| k <= m < 5 ==> !under_root(g, m),
        },
    decreases 5 - k,
{
    if k < 5 && !under_root(g, k) {
        lemma_remap_from_matched(g, k + 1);
    }
}

/// The remapped host path always lies under the configured root: it starts
/// with the root's bytes.
pub proof fn law_remap_stays_under_root(root: Seq<u8>, g: Seq<u8>)
    ensures
        spec_remap_host(root, g) matches Some(h) ==> h.subrange(0, root.len() as int) == root,
{
    if let Some(rel) = spec_remap_relative(g) {
        let h = join_root(root, rel);
        assert(h.subrange(0, root.len() as int) =~= root);
    }
}

/// The mapped roots are ASCII.
proof fn lemma_root_prefix_ascii(k: int)
    requires
        0 <= k < 5,
    ensures
        is_ascii_bytes(root_prefix(k)),
{
    let p = root_prefix(k);
    assert forall|i: int| 0 <= i < p.len() implies p[i] < 0x80 by {
        if k == 0 {
            assert(p[i] <= 0x75);
        }
    }
}

/// An absolute guest path that is valid UTF-8 is remapped exactly when it is one of the
/// mapped roots or lies below one (after a `/`), and then it keeps its
/// directories: its host-relative path is the guest path without the
/// leading `/`.
pub proof fn law_remap_preserves_guest_dirs(g: Seq<u8>)
    requires
        valid_utf8(g),
        g.len() > 0 && g[0] == 0x2f,
    ensures
        spec_remap_relative(g) is Some <==> exists|k: int| 0 <= k < 5 && under_root(g, k),
        spec_remap_relative(g) is Some ==> spec_remap_relative(g) == Some(
            g.subrange(1, g.len() as int),
        ),
{
    lemma_remap_from_matched(g, 0);
    match matched_root_from(g, 0) {
        None => {},
        Some(k) => {
            let p = root_prefix(k);
            let rest = g.subrange(p.len() as int, g.len() as int);
            assert(root_dir(0) =~= root_prefix(0).subrange(1, root_prefix(0).len() as int));
            assert(root_dir(1) =~= root_prefix(1).subrange(1, root_prefix(1).len() as int));
            assert(root_dir(2) =~= root_prefix(2).subrange(1, root_prefix(2).len() as int));
            assert(root_dir(3) =~= root_prefix(3).subrange(1, root_prefix(3).len() as int));
            assert(root_dir(4) =~= root_prefix(4).subrange(1, root_prefix(4).len() as int));
            assert(root_dir(k) =~= p.subrange(1, p.len() as int));
            assert(g.subrange(0, p.len() as int) == p);
            if rest.len() == 0 {
                assert(g.subrange(1, g.len() as int) =~= p.subrange(1, p.len() as int));
            } else {
                assert(rest[0] == 0x2f);
                lemma_root_prefix_ascii(k);
                assert forall|i: int| 0 <= i < p.len() implies g[i] < 0x80 by {
                    assert(g[i] == p[i]);
                }
                lemma_valid_utf8_after_ascii(g, p.len() as int);
                assert(g.subrange(1, g.len() as int) =~= p.subrange(1, p.len() as int) + rest);
            }
        },
    }
}

/// Whether `g` is `r` itself or a path below it (`r`, then `/`).
pub open spec fn is_or_below(g: Seq<u8>, r: Seq<u8>) -> bool {
    g == r || starts_with(g, r.push(0x2fu8))
}

proof fn lemma_under_prefix_iff(g: Seq<u8>, p: Seq<u8>)
    ensures
        (starts_with(g, p) && (g.len() == p.len() || g[p.len() as int] == 0x2f)) <==> is_or_below(
            g,
            p,
        ),
{
    let q = p.push(0x2fu8);
    if starts_with(g, p) && g.len() == p.len() {
        assert(g =~= p);
    }
    if starts_with(g, p) && g.len() > p.len() && g[p.len() as int] == 0x2f {
        assert(g.subrange(0, p.len() as int + 1) =~= q);
    }
    if g == p {
        assert(g.subrange(0, p.len() as int) =~= p);
    }
    if starts_with(g, q) {
        let h = g.subrange(0, q.len() as int);
        assert(h == q);
        assert(g.subrange(0, p.len() as int) =~= h.subrange(0, p.len() as int));
        assert(h.subrange(0, p.len() as int) =~= p);
        assert(g[p.len() as int] == h[p.len() as int]);
        assert(h[p.len() as int] == 0x2f);
    }
}

/// Exactly the writable Android mount roots are remapped: an absolute
/// guest path is remapped when it is `/data`, `/sdcard`, `/storage` or
/// `/cache` or lies below one of them after a `/`, and in no other case
/// (`/system`, `/vendor`, `/proc`, `/datafoo` pass through); a remapped
/// path that is valid UTF-8 maps to itself without the leading `/`.
pub proof fn law_mapped_roots_are_the_android_roots(g: Seq<u8>)
    ensures
        spec_remap_relative(g) is Some <==> (is_or_below(g, seq![0x2fu8, 0x64u8, 0x61u8, 0x74u8, 0x61u8])
            || is_or_below(g, seq![0x2fu8, 0x73u8, 0x64u8, 0x63u8, 0x61u8, 0x72u8, 0x64u8])
            || is_or_below(g, seq![0x2fu8, 0x73u8, 0x74u8, 0x6fu8, 0x72u8, 0x61u8, 0x67u8, 0x65u8])
            || is_or_below(g, seq![0x2fu8, 0x63u8, 0x61u8, 0x63u8, 0x68u8, 0x65u8])),
        valid_utf8(g) && spec_remap_relative(g) is Some ==> spec_remap_relative(g) == Some(
            g.subrange(1, g.len() as int),
        ),
{
    let data = seq![0x2fu8, 0x64u8, 0x61u8, 0x74u8, 0x61u8];
    let sdcard = seq![0x2fu8, 0x73u8, 0x64u8, 0x63u8, 0x61u8, 0x72u8, 0x64u8];
    let storage = seq![0x2fu8, 0x73u8, 0x74u8, 0x6fu8, 0x72u8, 0x61u8, 0x67u8, 0x65u8];
    let cache = seq![0x2fu8, 0x63u8, 0x61u8, 0x63u8, 0x68u8, 0x65u8];
    assert(root_prefix(1) =~= storage);
    assert(root_prefix(2) =~= data);
    assert(root_prefix(3) =~= sdcard);
    assert(root_prefix(4) =~= cache);
    lemma_under_prefix_iff(g, root_prefix(1));
    lemma_under_prefix_iff(g, root_prefix(2));
    lemma_under_prefix_iff(g, root_prefix(3));
    lemma_under_prefix_iff(g, root_prefix(4));
    if under_root(g, 0) {
        let p0 = root_prefix(0);
        assert(g.subrange(0, 9) =~= p0.subrange(0, 9));
        assert(p0.subrange(0, 9) =~= storage.push(0x2fu8));
        assert(starts_with(g, storage.push(0x2fu8)));
    }
    assert(under_root(g, 1) <==> is_or_below(g, storage));
    assert(under_root(g, 2) <==> is_or_below(g, data));
    assert(under_root(g, 3) <==> is_or_below(g, sdcard));
    assert(under_root(g, 4) <==> is_or_below(g, cache));
    let lit = is_or_below(g, data) || is_or_below(g, sdcard) || is_or_below(g, storage)
        || is_or_below(g, cache);
    if lit {
        assert(g.len() > 0 && g[0] == 0x2f) by {
            if under_root(g, 1) {
                assert(g[0] == g.subrange(0, 8)[0]);
            } else if under_root(g, 2) {
                assert(g[0] == g.subrange(0, 5)[0]);
            } else if under_root(g, 3) {
                assert(g[0] == g.subrange(0, 7)[0]);
            } else {
                assert(g[0] == g.subrange(0, 6)[0]);
            }
        }
        lemma_remap_from_matched(g, 0);
        assert(spec_remap_relative(g) is Some);
    }
    if spec_remap_relative(g) is Some {
        lemma_remap_from_matched(g, 0);
        let m = matched_root_from(g, 0)->0;
        assert(under_root(g, m));
        assert(lit);
    }
    if valid_utf8(g) && spec_remap_relative(g) is Some {
        law_remap_preserves_guest_dirs(g);
    }
}

/// Only absolute paths are ever remapped: empty and relative guest paths
/// pass through unchanged.
pub proof fn law_relative_paths_pass_through(g: Seq<u8>)
    requires
        g.len() == 0 || g[0] != 0x2f,
    ensures
        spec_remap_relative(g) is None,
{
}

/// The end of `p[..e]` once trailing `/` separators and `.` components
/// (a `.` right after a `/`) are dropped, as `Path` skips them.
pub open spec fn trim_slashes_end(p: Seq<u8>, e: int) -> int
    decreases e,
{
    if e > 0 && p[e - 1] == 0x2f {
        trim_slashes_end(p, e - 1)
    } else if e > 1 && p[e - 1] == 0x2e && p[e - 2] == 0x2f {
        trim_slashes_end(p, e - 1)
    } else {
        e
    }
}

/// The start of the last component of `p[..e]` (the index after the last
/// `/` before `e`, or 0).
pub open spec fn component_start(p: Seq<u8>, e: int) -> int
    decreases e,
{
    if e > 0 && p[e - 1] != 0x2f {
        component_start(p, e - 1)
    } else {
        e
    }
}

/// The parent directory of path `p`, as `Path::parent` takes it: trailing
/// separators and `.` components are dropped, then the last component,
/// then the separators and `.` components before it (a lone leading `/`
/// stays, as the root). `None` when nothing is left: `p` is empty, only
/// the root, or a single relative component.
pub open spec fn spec_parent(p: Seq<u8>) -> Option<Seq<u8>> {
    let e = trim_slashes_end(p, p.len() as int);
    if e == 0 {
        None
    } else {
        let k = component_start(p, e);
        if k == 0 {
            None
        } else {
            let j = trim_slashes_end(p, k);
            if j == 0 {
                Some(p.subrange(0, 1))
            } else {
                Some(p.subrange(0, j))
            }
        }
    }
}

/// The directory a host path lives in: the path without its last
/// component (and the separators around it), `None` when that leaves
/// nothing.
pub fn parent_bytes(p: &[u8]) -> (r: Option<Vec<u8>>)
    ensures
        match r {
            Some(v) => spec_parent(p@) == Some(v@),
            None => spec_parent(p@) is None,
        },
{
    let mut e: usize = p.len();
    while e > 0 && (p[e - 1] == 0x2fu8 || (e > 1 && p[e - 1] == 0x2eu8 && p[e - 2] == 0x2fu8))
        invariant
            e <= p@.len(),
            trim_slashes_end(p@, e as int) == trim_slashes_end(p@, p@.len() as int),
        decreases e,
    {
        e = e - 1;
    }
    if e == 0 {
        return None;
    }
    let mut k: usize = e;
    while k > 0 && p[k - 1] != 0x2fu8
        invariant
            k <= e,
            e <= p@.len(),
            component_start(p@, k as int) == component_start(p@, e as int),
        decreases k,
    {
        k = k - 1;
    }
    if k == 0 {
        return None;
    }
    let mut j: usize = k;
    while j > 0 && (p[j - 1] == 0x2fu8 || (j > 1 && p[j - 1] == 0x2eu8 && p[j - 2] == 0x2fu8))
        invariant
            j <= k,
            k <= p@.len(),
            trim_slashes_end(p@, j as int) == trim_slashes_end(p@, k as int),
        decreases j,
    {
        j = j - 1;
    }
    let end: usize = if j == 0 {
        1
    } else {
        j
    };
    let mut out: Vec<u8> = Vec::new();
    let mut i: usize = 0;
    while i < end
        invariant
            end <= p@.len(),
            i <= end,
            out@ == p@.subrange(0, i as int),
        decreases end - i,
    {
        out.push(p[i]);
        proof {
            assert(p@.subrange(0, i + 1) =~= p@.subrange(0, i as int).push(p@[i as int]));
        }
        i = i + 1;
    }
    Some(out)
}

proof fn lemma_component_start_after_slash(p: Seq<u8>, d: int, e: int)
    requires
        0 <= d < e <= p.len(),
        p[d] == 0x2f,
        forall|i: int| d < i < e ==> p[i] != 0x2f,
    ensures
        component_start(p, e) == d + 1,
    decreases e,
{
    if e > d + 1 {
        lemma_component_start_after_slash(p, d, e - 1);
    }
}

/// The parent of `dir/name`, for a directory `dir` not ending in `/` or in
/// a `.` component and a final component `name` that is neither empty nor
/// `.` and holds no `/`, is `dir`: the parent directory of a remapped file
/// is the host path with its last component dropped.
pub proof fn law_parent_drops_last_component(dir: Seq<u8>, name: Seq<u8>)
    requires
        dir.len() > 0,
        dir.last() != 0x2f,
        !(dir.len() > 1 && dir.last() == 0x2e && dir[dir.len() - 2] == 0x2f),
        name.len() > 0,
        name != seq![0x2eu8],
        forall|i: int| 0 <= i < name.len() ==> name[i] != 0x2f,
    ensures
        spec_parent(dir + seq![0x2fu8] + name) == Some(dir),
{
    let p = dir + seq![0x2fu8] + name;
    let d = dir.len() as int;
    assert(p[p.len() - 1] == name.last());
    if name.len() == 1 {
        assert(name =~= seq![name[0]]);
    } else {
        assert(p[p.len() - 2] == name[name.len() - 2]);
    }
    assert(trim_slashes_end(p, p.len() as int) == p.len());
    assert forall|i: int| d < i < p.len() implies p[i] != 0x2f by {
        assert(p[i] == name[i - d - 1]);
    }
    lemma_component_start_after_slash(p, d, p.len() as int);
    assert(p[d - 1] == dir.last());
    if d > 1 {
        assert(p[d - 2] == dir[d - 2]);
    }
    assert(trim_slashes_end(p, d) == d);
    assert(trim_slashes_end(p, d + 1) == d);
    assert(p.subrange(0, d) =~= dir);
}

/// `PathBuf::join(base, p)`: an absolute `p` replaces `base`; otherwise
/// `p` is appended as by `join_root`.
pub open spec fn path_join(base: Seq<u8>, p: Seq<u8>) -> Seq<u8> {
    if p.len() > 0 && p[0] == 0x2f {
        p
    } else {
        join_root(base, p)
    }
}

/// Join `p` onto `base` as `PathBuf::join` does.
pub fn join_path(base: &[u8], p: &[u8]) -> (r: Vec<u8>)
    ensures
        r@ == path_join(base@, p@),
{
    let mut out: Vec<u8> = Vec::new();
    if !(p.len() > 0 && p[0] == 0x2fu8) {
        let mut i: usize = 0;
        while i < base.len()
            invariant
                i <= base@.len(),
                out@ == base@.subrange(0, i as int),
            decreases base@.len() - i,
        {
            out.push(base[i]);
            proof {
                assert(base@.subrange(0, i + 1) =~= base@.subrange(0, i as int).push(base@[i as int]));
            }
            i = i + 1;
        }
        assert(out@ =~= base@);
        if base.len() != 0 && base[base.len() - 1] != 0x2fu8 {
            out.push(0x2fu8);
        }
    }
    let ghost pre = out@;
    let mut j: usize = 0;
    while j < p.len()
        invariant
            j <= p@.len(),
            out@ == pre + p@.subrange(0, j as int),
        decreases p@.len() - j,
    {
        out.push(p[j]);
        proof {
            assert(p@.subrange(0, j + 1) =~= p@.subrange(0, j as int).push(p@[j as int]));
        }
        j = j + 1;
    }
    assert(p@.subrange(0, p@.len() as int) =~= p@);
    assert(out@ =~= path_join(base@, p@));
    out
}

} // verus!
