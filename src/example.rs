//! Items whose documentation holds diagram blocks, as written by the users of
//! this library.

use vstd::prelude::*;

verus! {

/// Some function.
///
/// ```svgbob,
///  .--------------------.
///  | Diagrams here      |
///  `--------------------'
/// ```
pub fn test_function() {
}

/// Some structure.
///
/// ```svgbob,
///  .--------------------.
///  | Diagrams here      |
///  `--------------------'
/// ```
pub struct TestStruct {
    /// ```svgbob,
    ///  .--------------------.
    ///  | Diagrams here      |
    ///  `--------------------'
    /// ```
    pub field1: u32,
}

impl TestStruct {
    /// Some method.
    ///
    /// ```svgbob,
    /// hoge
    /// ```
    pub fn test_method() {
    }
}

} // verus!
