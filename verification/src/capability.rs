//! What a backend declares that it supports.

use crate::text::{joined, str_eq, unit_result};
use vstd::prelude::*;

verus! {

/// Whether a capability can only be read, or also be written.
#[derive(Debug, Clone, Copy, PartialEq, Eq, Structural)]
pub enum AccessMode {
    ReadOnly,
    ReadWrite,
}

/// The model of a capability.
pub struct CapabilityView {
    pub name: Seq<char>,
    pub access: AccessMode,
    pub description: Option<Seq<char>>,
}

/// One thing that a backend supports, such as "layout" or "workspace".
#[derive(Debug)]
pub struct Capability {
    /// The name by which scripts and clients address it.
    pub name: String,
    /// Whether it can be written.
    pub access: AccessMode,
    /// What it is, for people.
    pub description: Option<String>,
}

/// The model of an optional string.
pub open spec fn opt_string(s: Option<String>) -> Option<Seq<char>> {
    match s {
        Some(t) => Some(t@),
        None => None,
    }
}

/// A copy of an optional string.
pub fn clone_opt(s: &Option<String>) -> (r: Option<String>)
    ensures
        opt_string(r) == opt_string(*s),
{
    match s {
        Some(t) => Some(t.clone()),
        None => None,
    }
}

impl View for Capability {
    type V = CapabilityView;

    open spec fn view(&self) -> CapabilityView {
        CapabilityView {
            name: self.name@,
            access: self.access,
            description: opt_string(self.description),
        }
    }
}

impl Clone for Capability {
    fn clone(&self) -> (r: Capability)
        ensures
            r@ == self@,
    {
        Capability {
            name: self.name.clone(),
            access: self.access,
            description: clone_opt(&self.description),
        }
    }
}

impl Capability {
    /// A capability that can only be read.
    pub fn read_only(name: &str) -> (c: Capability)
        ensures
            c@ == (CapabilityView {
                name: name@,
                access: AccessMode::ReadOnly,
                description: None,
            }),
    {
        Capability { name: name.to_owned(), access: AccessMode::ReadOnly, description: None }
    }

    /// A capability that can be read and written.
    pub fn read_write(name: &str) -> (c: Capability)
        ensures
            c@ == (CapabilityView {
                name: name@,
                access: AccessMode::ReadWrite,
                description: None,
            }),
    {
        Capability { name: name.to_owned(), access: AccessMode::ReadWrite, description: None }
    }

    /// The same capability with a description.
    pub fn with_description(self, desc: &str) -> (c: Capability)
        ensures
            c@ == (CapabilityView { description: Some(desc@), ..self@ }),
    {
        Capability { name: self.name, access: self.access, description: Some(desc.to_owned()) }
    }

    /// Whether the capability can be written.
    pub fn is_writable(&self) -> (r: bool)
        ensures
            r == (self@.access == AccessMode::ReadWrite),
    {
        matches!(self.access, AccessMode::ReadWrite)
    }
}

/// The models of a sequence of capabilities.
pub open spec fn capabilities_view(caps: Seq<Capability>) -> Seq<CapabilityView> {
    Seq::new(caps.len(), |i: int| caps[i]@)
}

/// All capabilities of a backend, in the order in which they were declared.
#[derive(Debug)]
pub struct CapabilityManifest {
    capabilities: Vec<Capability>,
}

impl View for CapabilityManifest {
    type V = Seq<CapabilityView>;

    closed spec fn view(&self) -> Seq<CapabilityView> {
        capabilities_view(self.capabilities@)
    }
}

impl Default for CapabilityManifest {
    fn default() -> (m: CapabilityManifest)
        ensures
            m@ == Seq::<CapabilityView>::empty(),
    {
        CapabilityManifest { capabilities: Vec::new() }
    }
}

impl Clone for CapabilityManifest {
    fn clone(&self) -> (r: CapabilityManifest)
        ensures
            r@ == self@,
    {
        let mut copy: Vec<Capability> = Vec::new();
        for i in 0..self.capabilities.len()
            invariant
                copy@.len() == i,
                forall|j: int| 0 <= j < i ==> (#[trigger] copy@[j])@ == self.capabilities@[j]@,
        {
            copy.push(self.capabilities[i].clone());
        }
        let r = CapabilityManifest { capabilities: copy };
        assert(r@ =~= self@);
        r
    }
}

/// The first capability of that name.
pub open spec fn manifest_find(manifest: Seq<CapabilityView>, name: Seq<char>) -> Option<
    CapabilityView,
>
    decreases manifest.len(),
{
    if manifest.len() == 0 {
        None
    } else if manifest[0].name == name {
        Some(manifest[0])
    } else {
        manifest_find(manifest.skip(1), name)
    }
}

/// The model of an optional capability.
pub open spec fn opt_capability(c: Option<&Capability>) -> Option<CapabilityView> {
    match c {
        Some(c) => Some(c@),
        None => None,
    }
}

impl CapabilityManifest {
    /// The manifest that declares nothing.
    pub fn new() -> (m: CapabilityManifest)
        ensures
            m@ == Seq::<CapabilityView>::empty(),
    {
        CapabilityManifest::default()
    }

    /// The manifest that declares these capabilities, in this order.
    pub fn from_vec(caps: Vec<Capability>) -> (m: CapabilityManifest)
        ensures
            m@ == capabilities_view(caps@),
            m@.len() == caps@.len(),
    {
        CapabilityManifest { capabilities: caps }
    }

    /// The manifest with one more capability, at its end.
    pub fn add(self, cap: Capability) -> (m: CapabilityManifest)
        ensures
            m@ == self@.push(cap@),
    {
        let mut capabilities = self.capabilities;
        capabilities.push(cap);
        let m = CapabilityManifest { capabilities };
        assert(m@ =~= self@.push(cap@));
        m
    }

    /// The capability of that name. Of two with one name the earlier counts.
    pub fn find(&self, name: &str) -> (r: Option<&Capability>)
        ensures
            opt_capability(r) == manifest_find(self@, name@),
    {
        assert(self@.skip(0) =~= self@);
        for i in 0..self.capabilities.len()
            invariant
                manifest_find(self@.skip(i as int), name@) == manifest_find(self@, name@),
        {
            assert(self@.skip(i as int)[0] == self.capabilities@[i as int]@);
            assert(self@.skip(i as int).skip(1) =~= self@.skip(i + 1));
            if str_eq(self.capabilities[i].name.as_str(), name) {
                return Some(&self.capabilities[i]);
            }
        }
        assert(self@.skip(self.capabilities@.len() as int).len() == 0);
        None
    }

    /// The capabilities, in order.
    pub fn iter(&self) -> (r: &Vec<Capability>)
        ensures
            capabilities_view(r@) == self@,
            r@.len() == self@.len(),
    {
        &self.capabilities
    }

    /// Whether nothing is declared.
    pub fn is_empty(&self) -> (r: bool)
        ensures
            r == (self@.len() == 0),
    {
        self.capabilities.len() == 0
    }

    /// The number of capabilities.
    pub fn len(&self) -> (n: usize)
        ensures
            n == self@.len(),
    {
        self.capabilities.len()
    }
}

/// Why a key must not be written, if it must not: it is not declared, or it is
/// declared read-only.
pub open spec fn write_refusal(manifest: Seq<CapabilityView>, key: Seq<char>) -> Option<Seq<char>> {
    match manifest_find(manifest, key) {
        None => Some("unknown key: "@ + key),
        Some(c) => if c.access == AccessMode::ReadWrite {
            None
        } else {
            Some("read-only key: "@ + key)
        },
    }
}

/// Checks that a key may be written.
pub fn check_writable(manifest: &CapabilityManifest, key: &str) -> (r: Result<(), String>)
    ensures
        unit_result(r) == (match write_refusal(manifest@, key@) {
            Some(e) => Err(e),
            None => Ok(()),
        }),
{
    match manifest.find(key) {
        None => Err(joined("unknown key: ", key)),
        Some(c) => if c.is_writable() {
            Ok(())
        } else {
            Err(joined("read-only key: ", key))
        },
    }
}

/// Only what a manifest lists is found, and what it lists first under a name is
/// what is found under that name.
pub proof fn find_is_first(manifest: Seq<CapabilityView>, name: Seq<char>)
    ensures
        match manifest_find(manifest, name) {
            Some(c) => exists|i: int|
                0 <= i < manifest.len() && c == #[trigger] manifest[i] && c.name == name && (
                forall|j: int| 0 <= j < i ==> (#[trigger] manifest[j]).name != name),
            None => forall|j: int| 0 <= j < manifest.len() ==> (#[trigger] manifest[j]).name != name,
        },
    decreases manifest.len(),
{
    if manifest.len() > 0 {
        if manifest[0].name == name {
            assert(manifest_find(manifest, name) == Some(manifest[0]));
        } else {
            let rest = manifest.skip(1);
            find_is_first(rest, name);
            match manifest_find(rest, name) {
                Some(c) => {
                    let i = choose|i: int|
                        0 <= i < rest.len() && c == #[trigger] rest[i] && c.name == name && (
                        forall|j: int| 0 <= j < i ==> (#[trigger] rest[j]).name != name);
                    assert(c == manifest[i + 1]);
                    assert forall|j: int| 0 <= j < i + 1 implies (#[trigger] manifest[j]).name
                        != name by {
                        if j > 0 {
                            assert(rest[j - 1] == manifest[j]);
                        }
                    }
                },
                None => {
                    assert forall|j: int| 0 <= j < manifest.len() implies (#[trigger] manifest[j]).name
                        != name by {
                        if j > 0 {
                            assert(rest[j - 1] == manifest[j]);
                        }
                    }
                },
            }
        }
    }
}

/// Adding a capability at the end changes what is found only under its own
/// name, and there only if the name was free.
pub proof fn find_after_add(manifest: Seq<CapabilityView>, cap: CapabilityView, name: Seq<char>)
    ensures
        manifest_find(manifest.push(cap), name) == (match manifest_find(manifest, name) {
            Some(c) => Some(c),
            None => if cap.name == name {
                Some(cap)
            } else {
                None
            },
        }),
    decreases manifest.len(),
{
    let more = manifest.push(cap);
    if manifest.len() == 0 {
        assert(manifest_find(more.skip(1), name) is None);
    } else {
        assert(more.skip(1) =~= manifest.skip(1).push(cap));
        find_after_add(manifest.skip(1), cap, name);
    }
}

/// A key can be written exactly if the first capability of that name is writable. Else it
/// is told why not.
pub proof fn writable_keys(manifest: Seq<CapabilityView>, key: Seq<char>, i: int)
    ensures
        0 <= i < manifest.len() && manifest[i].name == key && (forall|j: int|
            0 <= j < i ==> (#[trigger] manifest[j]).name != key) ==> write_refusal(manifest,
                key) == (
        if manifest[i].access == AccessMode::ReadWrite {
            None
        } else {
            Some("read-only key: "@ + key)
        }),
        (forall|j: int| 0 <= j < manifest.len() ==> (#[trigger] manifest[j]).name != key)
            ==> write_refusal(manifest, key) == Some("unknown key: "@ + key),
{
    find_is_first(manifest, key);
    match manifest_find(manifest, key) {
        Some(c) => {
            let k = choose|k: int|
                0 <= k < manifest.len() && c == #[trigger] manifest[k] && c.name == key && (forall|
                    j: int,
                | 0 <= j < k ==> (#[trigger] manifest[j]).name != key);
            if 0 <= i < manifest.len() && manifest[i].name == key && (forall|j: int|
                0 <= j < i ==> (#[trigger] manifest[j]).name != key) {
                assert(k == i);
            }
        },
        None => {},
    }
}

} // verus!
