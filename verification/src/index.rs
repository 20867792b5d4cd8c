//! The finished, queryable result of indexing.
//!
//! An `Index` seeds the dictionary with the standard-library classes and
//! indexes the program's toplevel definitions over them.  The signatures it
//! holds are as written: whether their types exist is checked later, while
//! lowering.

use vstd::prelude::*;
use crate::ast::Definition;
use crate::class_dict::ClassDict;
use crate::error::Error;
use crate::indexing::sp_index_program;
use crate::names::ClassFullname;
use crate::names::MethodFirstname;
use crate::sk::MethodSignature;
use crate::sk::SkClass;
use crate::strmap::StrMap;
use crate::strmap::spec_get;

verus! {

/// All the classes and method signatures of a program.
pub struct Index {
    pub class_dict: ClassDict,
}

impl Index {
    /// Index the standard library and the program's toplevel definitions.
    pub fn new(stdlib_classes: StrMap<SkClass>, toplevel_defs: &Vec<Definition>) -> (r: Result<
        Index,
        Error,
    >)
        ensures
            match sp_index_program(stdlib_classes@, toplevel_defs@) {
                Ok(d) => r matches Ok(ix) && ix.class_dict.sk_classes@ == d,
                Err(k) => r matches Err(e) && e@.kind == k,
            },
    {
        let mut class_dict = ClassDict { sk_classes: stdlib_classes };
        match class_dict.index_program(toplevel_defs) {
            Ok(()) => Ok(Index { class_dict }),
            Err(e) => Err(e),
        }
    }

    /// Find a method signature from a class fullname and a method name.
    pub fn find_method(
        &self,
        class_fullname: &ClassFullname,
        method_name: &MethodFirstname,
    ) -> (r: Option<&MethodSignature>)
        ensures
            match r {
                Some(sig) => match spec_get(self.class_dict.sk_classes@, class_fullname@) {
                    Some(c) => spec_get(c.method_sigs, method_name@) == Some(sig@),
                    None => false,
                },
                None => match spec_get(self.class_dict.sk_classes@, class_fullname@) {
                    Some(c) => spec_get(c.method_sigs, method_name@) is None,
                    None => true,
                },
            },
    {
        match self.class_dict.sk_classes.get(&class_fullname.0) {
            Some(c) => c.method_sigs.get(&method_name.0),
            None => None,
        }
    }

    /// Find a class by fullname.
    pub fn find_class(&self, class_fullname: &ClassFullname) -> (r: Option<&SkClass>)
        ensures
            match r {
                Some(c) => spec_get(self.class_dict.sk_classes@, class_fullname@) == Some(c@),
                None => spec_get(self.class_dict.sk_classes@, class_fullname@) is None,
            },
    {
        self.class_dict.sk_classes.get(&class_fullname.0)
    }
}

} // verus!
