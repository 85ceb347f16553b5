//! A shared handle to a type map, which every descriptor carries.
use std::sync::Arc;
use vstd::prelude::*;

use crate::type_map::{TypeMap, TypeMapView};

verus! {

/// `Clone` of `Arc` in std: the new pointer shares the allocation of the old one, so
/// both point to the same value.
#[verifier::external_body]
fn share<T>(a: &Arc<T>) -> (r: Arc<T>)
    ensures
        r == *a,
{
    a.clone()
}

/// A set of protobuf definitions, shared by every descriptor taken from it.
pub struct FileDescriptor {
    inner: Arc<TypeMap>,
}

impl View for FileDescriptor {
    type V = TypeMapView;

    closed spec fn view(&self) -> TypeMapView {
        self.inner@
    }
}

impl FileDescriptor {
    #[verifier::type_invariant]
    pub open spec fn inv(&self) -> bool {
        &&& self@.wf()
        &&& self@.names_valid()
    }

    /// Wraps a type map so that descriptors can share it. Every name the map registers
    /// must be bound to one of its messages or enums, as in every map that
    /// `TypeMap::new` and `TypeMap::from_parts` give.
    pub fn new(type_map: TypeMap) -> (r: Self)
        requires
            type_map@.names_valid(),
        ensures
            r@ == type_map@,
    {
        proof {
            use_type_invariant(&type_map);
        }
        FileDescriptor { inner: Arc::new(type_map) }
    }

    /// The type map behind this handle, which keeps the rules of type maps.
    pub fn type_map(&self) -> (r: &TypeMap)
        ensures
            r@ == self@,
            self@.wf(),
            self@.names_valid(),
    {
        proof {
            use_type_invariant(self);
        }
        &self.inner
    }
}

impl Clone for FileDescriptor {
    /// Another handle to the same type map.
    fn clone(&self) -> (r: Self)
        ensures
            r == *self,
    {
        proof {
            use_type_invariant(self);
        }
        FileDescriptor { inner: share(&self.inner) }
    }
}

} // verus!
