use vstd::prelude::*;
use vstd::string::StrSliceExecFns;
use vstd::string::StringExecFns;

use crate::fs_scan::spec_ascii_lower;
use crate::fs_scan::spec_extension_of;
use crate::fs_scan::extension_of;
use crate::fs_scan::str_eq;
use crate::fs_scan::str_eq_fold_both;

verus! {

/// What a plugin declares it can do.
#[derive(PartialEq, Eq, Structural, Clone, Copy, Debug)]
pub enum PluginCapability {
    Decoder,
    Encoder,
    Interactive,
    /// Anything the host does not know; such an entry is reported and
    /// otherwise ignored.
    Unknown,
}

/// A plugin's declarative self-description, one per plugin directory: name,
/// semantic version (which must equal the host version), backend kind
/// (shared library, one-shot subprocess, or persistent daemon), the file
/// extensions it serves, its capabilities, and backend-specific connection
/// parameters.
pub struct PluginManifest {
    pub name: String,
    pub version: String,
    pub backend: String,
    pub extensions: Vec<String>,
    pub capabilities: Vec<PluginCapability>,
    pub daemon_port: Option<u16>,
    pub interpreter: Option<String>,
    pub executable: Option<String>,
}

/// The backend a manifest gets when it names none.
pub fn default_plugin_type() -> (r: String)
    ensures
        r@ == "shared_lib"@,
{
    String::from_str("shared_lib")
}

/// Whether a capability list declares the given capability.
pub fn has_capability(caps: &Vec<PluginCapability>, cap: PluginCapability) -> (r: bool)
    ensures
        r == caps@.contains(cap),
{
    let n = caps.len();
    let mut c: usize = 0;
    while c < n
        invariant
            n == caps@.len(),
            c <= n,
            forall|j: int| 0 <= j < c ==> caps@[j] != cap,
        decreases n - c,
    {
        if caps[c] == cap {
            proof {
                assert(caps@.contains(cap));
            }
            return true;
        }
        c = c + 1;
    }
    proof {
        assert(!caps@.contains(cap));
    }
    false
}

/// The plugin slot an extension resolves to in the registry's extension
/// table: the last registered entry whose declared extension case-folds to
/// the same string (a later registration shadows an earlier one, as a map
/// insert would).
pub open spec fn spec_ext_lookup(table: Seq<(String, usize)>, ext: Seq<char>) -> Option<usize>
    decreases table.len(),
{
    if table.len() == 0 {
        None
    } else if spec_ascii_lower(table.last().0@) == spec_ascii_lower(ext) {
        Some(table.last().1)
    } else {
        spec_ext_lookup(table.drop_last(), ext)
    }
}

/// The registry of loaded plugins: the accepted manifests in registration
/// order, the extension table mapping declared extensions to their plugin's
/// slot, and the slots of the interactive plugins in registration order.
pub struct PluginManager {
    pub plugins: Vec<PluginManifest>,
    pub ext_table: Vec<(String, usize)>,
    pub interactive: Vec<usize>,
}

impl PluginManager {
    /// Every table entry and every interactive slot points at a registered
    /// manifest.
    pub open spec fn wf(&self) -> bool {
        &&& forall|k: int|
            0 <= k < self.ext_table@.len() ==> (#[trigger] self.ext_table@[k]).1
                < self.plugins@.len()
        &&& forall|k: int|
            0 <= k < self.interactive@.len() ==> (#[trigger] self.interactive@[k])
                < self.plugins@.len()
    }

    /// An empty registry.
    pub fn new() -> (out: PluginManager)
        ensures
            out.wf(),
            out.plugins@.len() == 0,
            out.ext_table@.len() == 0,
            out.interactive@.len() == 0,
    {
        PluginManager { plugins: Vec::new(), ext_table: Vec::new(), interactive: Vec::new() }
    }

    /// Registers a plugin whose backend resource was located and started. A
    /// manifest whose declared version differs from the host version is
    /// skipped and the registry is unchanged. An accepted manifest takes the
    /// next slot, each of its declared extensions is appended to the
    /// extension table (shadowing earlier claims of the same extension), and
    /// a plugin with the interactive capability is appended to the
    /// interactive list.
    pub fn register(&mut self, manifest: PluginManifest, host_version: &str) -> (accepted: bool)
        requires
            old(self).wf(),
        ensures
            final(self).wf(),
            accepted == (manifest.version@ == host_version@),
            !accepted ==> final(self).plugins@ == old(self).plugins@ && final(self).ext_table@
                == old(self).ext_table@ && final(self).interactive@ == old(self).interactive@,
            accepted ==> ({
                let slot = old(self).plugins@.len() as usize;
                &&& final(self).plugins@ == old(self).plugins@.push(manifest)
                &&& final(self).ext_table@.len() == old(self).ext_table@.len()
                    + manifest.extensions@.len()
                &&& forall|k: int|
                    0 <= k < old(self).ext_table@.len() ==> #[trigger] final(self).ext_table@[k]
                        == old(self).ext_table@[k]
                &&& forall|j: int|
                    0 <= j < manifest.extensions@.len() ==> (#[trigger] final(self).ext_table@[old(self).ext_table@.len() + j]).0@ == manifest.extensions@[j]@ && final(self).ext_table@[old(self).ext_table@.len() + j].1 == slot
                &&& (manifest.capabilities@.contains(PluginCapability::Interactive) ==> final(self).interactive@ == old(self).interactive@.push(slot))
                &&& (!manifest.capabilities@.contains(PluginCapability::Interactive) ==> final(self).interactive@ == old(self).interactive@)
            }),
    {
        if !str_eq(manifest.version.as_str(), host_version) {
            return false;
        }
        let slot = self.plugins.len();
        if has_capability(&manifest.capabilities, PluginCapability::Interactive) {
            self.interactive.push(slot);
        }
        let ne = manifest.extensions.len();
        let mut e: usize = 0;
        while e < ne
            invariant
                ne == manifest.extensions@.len(),
                e <= ne,
                slot < old(self).plugins@.len() + 1,
                self.plugins@ == old(self).plugins@,
                self.interactive@.len() <= old(self).interactive@.len() + 1,
                forall|k: int|
                    0 <= k < self.interactive@.len() ==> (#[trigger] self.interactive@[k]) <= slot,
                self.interactive@ == (if manifest.capabilities@.contains(
                    PluginCapability::Interactive,
                ) {
                    old(self).interactive@.push(slot as usize)
                } else {
                    old(self).interactive@
                }),
                old(self).wf(),
                slot == old(self).plugins@.len(),
                self.ext_table@.len() == old(self).ext_table@.len() + e,
                forall|k: int|
                    0 <= k < old(self).ext_table@.len() ==> #[trigger] self.ext_table@[k] == old(self).ext_table@[k],
                forall|j: int|
                    0 <= j < e ==> (#[trigger] self.ext_table@[old(self).ext_table@.len() + j]).0@
                        == manifest.extensions@[j]@ && self.ext_table@[old(self).ext_table@.len() + j].1 == slot,
            decreases ne - e,
        {
            self.ext_table.push((manifest.extensions[e].clone(), slot));
            e = e + 1;
        }
        self.plugins.push(manifest);
        proof {
            assert forall|k: int|
                0 <= k < self.ext_table@.len() implies (#[trigger] self.ext_table@[k]).1
                < self.plugins@.len() by {
                if k < old(self).ext_table@.len() {
                    assert(self.ext_table@[k] == old(self).ext_table@[k]);
                } else {
                    let j = k - old(self).ext_table@.len();
                    assert(self.ext_table@[old(self).ext_table@.len() + j].1 == slot);
                }
            }
            assert forall|k: int|
                0 <= k < self.interactive@.len() implies (#[trigger] self.interactive@[k])
                < self.plugins@.len() by {
                if k < old(self).interactive@.len() {
                    assert(self.interactive@[k] == old(self).interactive@[k]);
                }
            }
        }
        true
    }

    /// The slot the extension of `path` resolves to, regardless of
    /// capabilities.
    pub fn slot_for(&self, path: &str) -> (r: Option<usize>)
        requires
            self.wf(),
        ensures
            r == (match spec_extension_of(path@) {
                Some(e) => spec_ext_lookup(self.ext_table@, e),
                None => None::<usize>,
            }),
            r matches Some(slot) ==> slot < self.plugins@.len(),
    {
        let ext = match extension_of(path) {
            Some(e) => e,
            None => {
                return None;
            },
        };
        let n = self.ext_table.len();
        proof {
            assert(self.ext_table@.subrange(0, n as int) =~= self.ext_table@);
        }
        let mut i: usize = n;
        while i > 0
            invariant
                self.wf(),
                n == self.ext_table@.len(),
                i <= n,
                spec_extension_of(path@) == Some(ext@),
                spec_ext_lookup(self.ext_table@, ext@) == spec_ext_lookup(
                    self.ext_table@.subrange(0, i as int),
                    ext@,
                ),
            decreases i,
        {
            let ghost pfx = self.ext_table@.subrange(0, i as int);
            proof {
                assert(pfx.len() == i);
                assert(pfx.last() == self.ext_table@[i - 1]);
                assert(pfx.drop_last() =~= self.ext_table@.subrange(0, i - 1));
            }
            if str_eq_fold_both(self.ext_table[i - 1].0.as_str(), ext.as_str()) {
                proof {
                    assert(spec_ext_lookup(pfx, ext@) == Some(pfx.last().1));
                    assert(self.ext_table@[i - 1].1 == pfx.last().1);
                }
                return Some(self.ext_table[i - 1].1);
            }
            i = i - 1;
        }
        proof {
            assert(self.ext_table@.subrange(0, 0) =~= Seq::<(String, usize)>::empty());
        }
        None
    }

    /// Whether any plugin serves the extension of `path`.
    pub fn has_plugin(&self, path: &str) -> (r: bool)
        requires
            self.wf(),
        ensures
            r == (match spec_extension_of(path@) {
                Some(e) => spec_ext_lookup(self.ext_table@, e) is Some,
                None => false,
            }),
    {
        self.slot_for(path).is_some()
    }

    /// The plugin slot that will decode `path`: the slot its extension
    /// resolves to, provided that plugin declares the decoder capability;
    /// a plugin without it declines, as the decode call itself would.
    pub fn decoder_for(&self, path: &str) -> (r: Option<usize>)
        requires
            self.wf(),
        ensures
            r == (match spec_extension_of(path@) {
                Some(e) => match spec_ext_lookup(self.ext_table@, e) {
                    Some(slot) => if self.plugins@[slot as int].capabilities@.contains(
                        PluginCapability::Decoder,
                    ) {
                        Some(slot)
                    } else {
                        None::<usize>
                    },
                    None => None::<usize>,
                },
                None => None::<usize>,
            }),
            r matches Some(slot) ==> slot < self.plugins@.len(),
    {
        let slot = match self.slot_for(path) {
            Some(s) => s,
            None => {
                return None;
            },
        };
        proof {
            assert(slot < self.plugins@.len());
        }
        if has_capability(&self.plugins[slot].capabilities, PluginCapability::Decoder) {
            Some(slot)
        } else {
            None
        }
    }

    /// The plugin slot that will encode to `path`: the slot its extension
    /// resolves to, provided that plugin declares the encoder capability.
    pub fn encoder_for(&self, path: &str) -> (r: Option<usize>)
        requires
            self.wf(),
        ensures
            r == (match spec_extension_of(path@) {
                Some(e) => match spec_ext_lookup(self.ext_table@, e) {
                    Some(slot) => if self.plugins@[slot as int].capabilities@.contains(
                        PluginCapability::Encoder,
                    ) {
                        Some(slot)
                    } else {
                        None::<usize>
                    },
                    None => None::<usize>,
                },
                None => None::<usize>,
            }),
            r matches Some(slot) ==> slot < self.plugins@.len(),
    {
        let slot = match self.slot_for(path) {
            Some(s) => s,
            None => {
                return None;
            },
        };
        proof {
            assert(slot < self.plugins@.len());
        }
        if has_capability(&self.plugins[slot].capabilities, PluginCapability::Encoder) {
            Some(slot)
        } else {
            None
        }
    }

    /// The declared extensions the registry serves, in registration order;
    /// a later duplicate shadows an earlier one at lookup.
    pub fn get_supported_extensions(&self) -> (out: Vec<String>)
        requires
            self.wf(),
        ensures
            out@.len() == self.ext_table@.len(),
            forall|k: int|
                0 <= k < out@.len() ==> (#[trigger] out@[k])@ == self.ext_table@[k].0@,
    {
        let mut out: Vec<String> = Vec::new();
        let n = self.ext_table.len();
        let mut i: usize = 0;
        while i < n
            invariant
                n == self.ext_table@.len(),
                i <= n,
                out@.len() == i,
                forall|k: int| 0 <= k < i ==> (#[trigger] out@[k])@ == self.ext_table@[k].0@,
            decreases n - i,
        {
            out.push(self.ext_table[i].0.clone());
            i = i + 1;
        }
        out
    }

    /// The first registered interactive plugin's slot, if any.
    pub fn get_interactive_plugin(&self) -> (r: Option<usize>)
        requires
            self.wf(),
        ensures
            self.interactive@.len() > 0 ==> r == Some(self.interactive@[0]),
            self.interactive@.len() == 0 ==> r is None,
            r matches Some(slot) ==> slot < self.plugins@.len(),
    {
        if self.interactive.len() > 0 {
            Some(self.interactive[0])
        } else {
            None
        }
    }
}

/// Whether `s` ends with `suffix`.
pub open spec fn spec_ends_with(s: Seq<char>, suffix: Seq<char>) -> bool {
    s.len() >= suffix.len() && s.subrange(s.len() - suffix.len(), s.len() as int) == suffix
}

/// Whether a path ends with the given suffix (used to pick the shared
/// library file out of a plugin directory's listing).
pub fn ends_with(s: &str, suffix: &str) -> (r: bool)
    ensures
        r == spec_ends_with(s@, suffix@),
{
    let n = s.unicode_len();
    let m = suffix.unicode_len();
    if n < m {
        return false;
    }
    let mut i: usize = 0;
    while i < m
        invariant
            n == s@.len(),
            m == suffix@.len(),
            m <= n,
            i <= m,
            forall|j: int| 0 <= j < i ==> s@[n - m + j] == suffix@[j],
        decreases m - i,
    {
        if s.get_char(n - m + i) != suffix.get_char(i) {
            proof {
                assert(s@.subrange(n - m, n as int)[i as int] != suffix@[i as int]);
            }
            return false;
        }
        i = i + 1;
    }
    proof {
        assert(s@.subrange(n - m, n as int) =~= suffix@);
    }
    true
}

/// The index of the first entry of a directory listing that ends with the
/// platform's dynamic-library suffix — the file loaded as the plugin's
/// shared library — or nothing if the directory holds none.
pub fn find_library_entry(entries: &Vec<String>, suffix: &str) -> (r: Option<usize>)
    ensures
        r matches Some(k) ==> k < entries@.len() && spec_ends_with(entries@[k as int]@, suffix@)
            && (forall|j: int|
            0 <= j < k ==> !spec_ends_with((#[trigger] entries@[j])@, suffix@)),
        r is None ==> forall|j: int|
            0 <= j < entries@.len() ==> !spec_ends_with((#[trigger] entries@[j])@, suffix@),
{
    let n = entries.len();
    let mut i: usize = 0;
    while i < n
        invariant
            n == entries@.len(),
            i <= n,
            forall|j: int| 0 <= j < i ==> !spec_ends_with((#[trigger] entries@[j])@, suffix@),
        decreases n - i,
    {
        if ends_with(entries[i].as_str(), suffix) {
            return Some(i);
        }
        i = i + 1;
    }
    None
}

/// The prefix of a NUL-terminated buffer a foreign call filled: everything
/// before the first zero byte (the whole buffer if none is zero).
pub open spec fn spec_c_prefix_len(bytes: Seq<u8>, i: int) -> int
    decreases bytes.len() - i,
{
    if i < 0 || i >= bytes.len() {
        bytes.len() as int
    } else if bytes[i] == 0 {
        i
    } else {
        spec_c_prefix_len(bytes, i + 1)
    }
}

/// Cuts a foreign NUL-terminated buffer at its first zero byte.
pub fn c_buffer_prefix(bytes: &Vec<u8>) -> (out: Vec<u8>)
    ensures
        out@ == bytes@.subrange(0, spec_c_prefix_len(bytes@, 0)),
{
    let n = bytes.len();
    let mut out: Vec<u8> = Vec::new();
    let mut i: usize = 0;
    while i < n
        invariant
            n == bytes@.len(),
            i <= n,
            out@ == bytes@.subrange(0, i as int),
            forall|j: int| 0 <= j < i ==> bytes@[j] != 0,
            spec_c_prefix_len(bytes@, 0) == spec_c_prefix_len(bytes@, i as int),
        decreases n - i,
    {
        if bytes[i] == 0 {
            return out;
        }
        out.push(bytes[i]);
        proof {
            assert(out@ =~= bytes@.subrange(0, i + 1));
        }
        i = i + 1;
    }
    proof {
        assert(out@ =~= bytes@.subrange(0, spec_c_prefix_len(bytes@, 0)));
    }
    out
}

} // verus!
