//! A miniature public API surface. The tests describe these same items as
//! declaration records, build them into a surface tree, and compare the
//! rendered text against the declarations written here.

use vstd::prelude::*;

verus! {

/// This is a sample function
pub fn sample_function() {
}

/// This is a sample struct
pub struct SampleStruct {
}

/// This is a sample function
pub fn sample_function2() {
}

/// This is a sample struct
pub struct SampleStruct2 {
}

pub fn use_sample_struct2() {
    let _s = SampleStruct2 {  };
}

pub trait MyTrait {

}

pub fn foo<T, V>(_v: &T) {
}

pub fn bar<T, V>(_v: &T) {
}

} // verus!
