//! How the payload build rewrites each item that carries an rseq attribute.
use vstd::prelude::*;

use crate::build_error::RseqBuildError;
use crate::macros::RseqMacro;
use crate::start_signature::{
    assert_rseq_start_signature, start_error_is, start_failure, FnSignatureShape,
    START_SIGNATURE_CONTEXT,
};

verus! {

/// Places a commit action in the commit section.
pub const ATTR_COMMIT_SECTION: &'static str = "unsafe(link_section = \".rseq_commit\")";
/// Keeps the item's symbol name.
pub const ATTR_NO_MANGLE: &'static str = "unsafe(no_mangle)";
/// Keeps a commit action out of line.
pub const ATTR_INLINE_NEVER: &'static str = "inline(never)";
/// Places code in the critical section.
pub const ATTR_CRITICAL_SECTION: &'static str = "unsafe(link_section = \".rseq_critical\")";
/// Gives a shared struct the C layout.
pub const ATTR_REPR_C: &'static str = "repr(C)";
/// Makes a shared struct copyable.
pub const ATTR_DERIVE_CLONE_COPY: &'static str = "derive(Clone, Copy)";

/// An item that carries an rseq attribute.
pub enum RseqItem {
    Fn(FnSignatureShape),
    Struct,
}

/// The rewrite of an item: the attributes to add, in order, and whether the
/// function becomes `pub unsafe extern "C"`.
pub struct ItemRewrite {
    pub attributes: Vec<&'static str>,
    pub public_unsafe_extern_c: bool,
}

/// The attributes each macro adds to the item it marks.
pub open spec fn added_attributes(m: RseqMacro) -> Seq<Seq<char>> {
    match m {
        RseqMacro::CommitAction => seq![ATTR_COMMIT_SECTION@, ATTR_NO_MANGLE@, ATTR_INLINE_NEVER@],
        RseqMacro::Start => seq![ATTR_NO_MANGLE@, ATTR_CRITICAL_SECTION@],
        RseqMacro::Section => seq![ATTR_CRITICAL_SECTION@],
        RseqMacro::SharedStruct => seq![ATTR_REPR_C@, ATTR_DERIVE_CLONE_COPY@],
    }
}

/// The macro applies to the item: the struct macro to structs, the others
/// to functions. Items it does not apply to produce no code.
pub open spec fn applies_to(m: RseqMacro, item: RseqItem) -> bool {
    match m {
        RseqMacro::SharedStruct => item is Struct,
        _ => item is Fn,
    }
}

/// The texts of a list of attributes.
pub open spec fn attribute_texts(a: Seq<&'static str>) -> Seq<Seq<char>> {
    a.map_values(|s: &'static str| s@)
}

impl RseqMacro {
    /// The rewrite of `item` for this macro. `Ok(None)`: the item produces no
    /// code. An entry function whose signature breaks the rule fails with
    /// the signature error, wrapped in the context of the check.
    pub fn item_rewrite(&self, item: &RseqItem) -> (res: Result<Option<ItemRewrite>, RseqBuildError>)
        ensures
            !applies_to(*self, *item) ==> res matches Ok(None),
            applies_to(*self, *item) && (*self != RseqMacro::Start || start_failure(item->Fn_0) is None)
                ==> (res matches Ok(Some(r)) && attribute_texts(r.attributes@) == added_attributes(*self)
                    && r.public_unsafe_extern_c == (*self == RseqMacro::Start)),
            applies_to(*self, *item) && *self == RseqMacro::Start ==> (start_failure(item->Fn_0) matches Some(f)
                ==> (res matches Err(RseqBuildError::Context { message, source })
                    && message@ == START_SIGNATURE_CONTEXT@ && start_error_is(*source, item->Fn_0.name@, f))),
    {
        match (self, item) {
            (RseqMacro::CommitAction, RseqItem::Fn(_)) => {
                let attributes = vec![ATTR_COMMIT_SECTION, ATTR_NO_MANGLE, ATTR_INLINE_NEVER];
                assert(attribute_texts(attributes@) =~= added_attributes(*self));
                Ok(Some(ItemRewrite { attributes, public_unsafe_extern_c: false }))
            },
            (RseqMacro::Start, RseqItem::Fn(sig)) => {
                match assert_rseq_start_signature(sig) {
                    Err(e) => Err(e.wrap(START_SIGNATURE_CONTEXT.to_owned())),
                    Ok(()) => {
                        let attributes = vec![ATTR_NO_MANGLE, ATTR_CRITICAL_SECTION];
                        assert(attribute_texts(attributes@) =~= added_attributes(*self));
                        Ok(Some(ItemRewrite { attributes, public_unsafe_extern_c: true }))
                    },
                }
            },
            (RseqMacro::Section, RseqItem::Fn(_)) => {
                let attributes = vec![ATTR_CRITICAL_SECTION];
                assert(attribute_texts(attributes@) =~= added_attributes(*self));
                Ok(Some(ItemRewrite { attributes, public_unsafe_extern_c: false }))
            },
            (RseqMacro::SharedStruct, RseqItem::Struct) => {
                let attributes = vec![ATTR_REPR_C, ATTR_DERIVE_CLONE_COPY];
                assert(attribute_texts(attributes@) =~= added_attributes(*self));
                Ok(Some(ItemRewrite { attributes, public_unsafe_extern_c: false }))
            },
            _ => Ok(None),
        }
    }
}

} // verus!
