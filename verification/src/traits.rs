//! The marker for type mappings across the boundary that are safe.

use std::borrow::Cow;
use std::path::PathBuf;
use vstd::prelude::*;

verus! {

/// The owned path of the standard library, `std::path::PathBuf`. Nothing is
/// stated of it: it occurs only as a type that text may stand for.
#[verifier::external_type_specification]
#[verifier::external_body]
pub struct ExPathBuf(PathBuf);

/// Marks that a value of the implementing type may stand on the caller's side
/// for a value of `Rt` on the implementation's side: both have the same
/// encoding on the wire.
///
/// A wrong implementation does not endanger memory; it makes deserialization
/// fail or read other data than was written.
pub trait SafeTypeMapping<Rt> {

}

impl<'a> SafeTypeMapping<Cow<'a, str>> for String {

}

impl<'a> SafeTypeMapping<Option<Cow<'a, str>>> for String {

}

impl<'a> SafeTypeMapping<Vec<Cow<'a, str>>> for Vec<String> {

}

impl<'a, T> SafeTypeMapping<Cow<'a, [T]>> for Vec<T> where [T]: ToOwned {

}

impl<'a, T> SafeTypeMapping<Option<Cow<'a, [T]>>> for Vec<T> where [T]: ToOwned {

}

impl<'a, T> SafeTypeMapping<Vec<Cow<'a, [T]>>> for Vec<Vec<T>> where [T]: ToOwned {

}

impl SafeTypeMapping<PathBuf> for String {

}

impl SafeTypeMapping<Option<PathBuf>> for String {

}

impl SafeTypeMapping<Vec<PathBuf>> for Vec<String> {

}

/// Every type is a safe mapping of itself.
impl<T> SafeTypeMapping<T> for T {

}

} // verus!
