//! An ordered collection of certificate extensions.
//!
//! A certificate must not carry more than one instance of a particular
//! extension, and some extensions must be written out in the order they
//! were inserted. The collection keeps both properties: types are unique,
//! and adding an extension of a type already present replaces it in place
//! without disturbing the order.

use vstd::prelude::*;
use vstd::slice::slice_index_get;

verus! {

/// The kind of an extension; a collection holds at most one extension of
/// each kind.
#[derive(Clone, Copy, Debug, PartialEq, Eq, Structural)]
pub enum ExtensionType {
    KeyUsage,
    ExtKeyUsage,
    SubjectAltName,
    IssuerAltName,
    /// An extension named by a raw numeric object identifier.
    OtherNid(u64),
}

/// One extension: its kind, whether it is critical, and its value as the
/// configuration text it will be written from.
#[derive(Debug)]
pub struct Extension {
    pub ext_type: ExtensionType,
    pub critical: bool,
    pub value: String,
}

impl Extension {
    /// The kind of this extension.
    pub fn get_type(&self) -> (t: ExtensionType)
        ensures
            t == self.ext_type,
    {
        self.ext_type
    }
}

/// A collection of extensions with pairwise distinct types, in insertion
/// order.
pub struct Extensions {
    extensions: Vec<Extension>,
}

impl View for Extensions {
    type V = Seq<Extension>;

    closed spec fn view(&self) -> Seq<Extension> {
        self.extensions@
    }
}

impl Extensions {
    /// No two extensions in the collection share a type.
    pub open spec fn wf(&self) -> bool {
        forall|i: int, j: int|
            0 <= i < j < self@.len() ==> self@[i].ext_type != self@[j].ext_type
    }

    /// Creates a new empty collection.
    pub fn new() -> (r: Extensions)
        ensures
            r@ =~= Seq::<Extension>::empty(),
            r.wf(),
    {
        Extensions { extensions: Vec::new() }
    }

    /// Adds a new extension, replacing any existing one of the same type;
    /// a new type is appended, so insertion order is kept.
    pub fn add(&mut self, ext: Extension)
        requires
            old(self).wf(),
        ensures
            final(self).wf(),
            (forall|i: int|
                0 <= i < old(self)@.len() ==> old(self)@[i].ext_type != ext.ext_type)
                ==> final(self)@ =~= old(self)@.push(ext),
            forall|i: int|
                0 <= i < old(self)@.len() && old(self)@[i].ext_type == ext.ext_type
                    ==> final(self)@ =~= old(self)@.update(i, ext),
    {
        let n: usize = self.extensions.len();
        let ty: ExtensionType = ext.get_type();
        let mut i: usize = 0;
        while i < n
            invariant
                i <= n,
                n == self@.len(),
                self@ == old(self)@,
                old(self).wf(),
                ty == ext.ext_type,
                forall|k: int| 0 <= k < i ==> self@[k].ext_type != ext.ext_type,
            decreases n - i,
        {
            let t: ExtensionType = slice_index_get(self.extensions.as_slice(), i).get_type();
            if t == ty {
                proof {
                    assert forall|j: int|
                        0 <= j < old(self)@.len() && old(self)@[j].ext_type
                            == ext.ext_type implies j == i by {
                        if j < i {
                        } else if j > i {
                            assert(old(self)@[i as int].ext_type == old(self)@[j].ext_type);
                        }
                    }
                }
                self.extensions.set(i, ext);
                return ;
            }
            i = i + 1;
        }
        self.extensions.push(ext);
    }

    /// Returns an iterator over `(type, extension)` pairs in insertion
    /// order.
    pub fn iter(&self) -> (it: ExtensionsIter)
        ensures
            it.elems() == self@,
            it.pos() == 0,
    {
        ExtensionsIter { current: 0, extensions: &self.extensions }
    }
}

/// An iterator over the `(ExtensionType, Extension)` pairs of a
/// collection, front to back.
pub struct ExtensionsIter<'a> {
    current: usize,
    extensions: &'a Vec<Extension>,
}

impl<'a> ExtensionsIter<'a> {
    /// How many pairs have been handed out already.
    pub closed spec fn pos(&self) -> int {
        self.current as int
    }

    /// The extensions the iterator walks over.
    pub closed spec fn elems(&self) -> Seq<Extension> {
        self.extensions@
    }

    /// The next pair, or nothing when the collection is exhausted.
    pub fn next(&mut self) -> (r: Option<(ExtensionType, &'a Extension)>)
        ensures
            final(self).elems() == old(self).elems(),
            old(self).pos() < old(self).elems().len() ==> {
                &&& final(self).pos() == old(self).pos() + 1
                &&& r matches Some(p) && p.0 == old(self).elems()[old(self).pos()].ext_type
                    && *p.1 == old(self).elems()[old(self).pos()]
            },
            old(self).pos() >= old(self).elems().len() ==> r is None && final(self).pos()
                == old(self).pos(),
    {
        if self.current < self.extensions.len() {
            let v: &'a Vec<Extension> = self.extensions;
            let e: &'a Extension = slice_index_get(v.as_slice(), self.current);
            let t: ExtensionType = e.get_type();
            self.current = self.current + 1;
            Some((t, e))
        } else {
            None
        }
    }
}

} // verus!
