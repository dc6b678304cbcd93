//! The rseq attribute macros: which attribute marks which kind of item, and
//! how the payload build rewrites each marked item.
use vstd::prelude::*;

use crate::text_order::names_equal;

verus! {

/// The rseq attribute macros.
#[derive(Clone, Copy, Debug, PartialEq, Eq, Structural)]
pub enum RseqMacro {
    CommitAction,
    Start,
    Section,
    SharedStruct,
}

/// The attribute that marks a commit action.
pub const COMMIT_ACTION_ATTRIBUTE: &'static str = "rseq_commit_action";
/// The attribute that marks the entry of a critical section.
pub const START_ATTRIBUTE: &'static str = "rseq_critical_section_start";
/// The attribute that marks code of a critical section.
pub const SECTION_ATTRIBUTE: &'static str = "rseq_critical_section";
/// The attribute that marks a struct shared with the payload.
pub const SHARED_STRUCT_ATTRIBUTE: &'static str = "rseq_shared_struct";

/// The macro whose attribute is named `id`.
pub open spec fn macro_of_ident(id: Seq<char>) -> Option<RseqMacro> {
    if id == COMMIT_ACTION_ATTRIBUTE@ {
        Some(RseqMacro::CommitAction)
    } else if id == START_ATTRIBUTE@ {
        Some(RseqMacro::Start)
    } else if id == SECTION_ATTRIBUTE@ {
        Some(RseqMacro::Section)
    } else if id == SHARED_STRUCT_ATTRIBUTE@ {
        Some(RseqMacro::SharedStruct)
    } else {
        None
    }
}

/// The attribute name of each macro.
pub open spec fn attribute_of_macro(m: RseqMacro) -> Seq<char> {
    match m {
        RseqMacro::CommitAction => COMMIT_ACTION_ATTRIBUTE@,
        RseqMacro::Start => START_ATTRIBUTE@,
        RseqMacro::Section => SECTION_ATTRIBUTE@,
        RseqMacro::SharedStruct => SHARED_STRUCT_ATTRIBUTE@,
    }
}

/// The macro of the first attribute, among `attrs`, that names one; each
/// attribute is given by the identifier its path consists of, or `None`
/// when its path is not a single identifier.
pub open spec fn first_macro(attrs: Seq<Option<String>>) -> Option<RseqMacro>
    decreases attrs.len(),
{
    if attrs.len() == 0 {
        None
    } else {
        match attrs[0] {
            Some(id) if macro_of_ident(id@) is Some => macro_of_ident(id@),
            _ => first_macro(attrs.drop_first()),
        }
    }
}

impl RseqMacro {
    /// The macro whose attribute is named `id`, if any.
    pub fn from_attribute_ident(id: &str) -> (res: Option<RseqMacro>)
        ensures
            res == macro_of_ident(id@),
    {
        if names_equal(id, COMMIT_ACTION_ATTRIBUTE) {
            Some(RseqMacro::CommitAction)
        } else if names_equal(id, START_ATTRIBUTE) {
            Some(RseqMacro::Start)
        } else if names_equal(id, SECTION_ATTRIBUTE) {
            Some(RseqMacro::Section)
        } else if names_equal(id, SHARED_STRUCT_ATTRIBUTE) {
            Some(RseqMacro::SharedStruct)
        } else {
            None
        }
    }

    /// The macro of the first attribute of an item that names one.
    pub fn from_rust_attribure(attrs: &[Option<String>]) -> (res: Option<RseqMacro>)
        ensures
            res == first_macro(attrs@),
    {
        let mut i: usize = 0;
        assert(attrs@.skip(0) =~= attrs@);
        while i < attrs.len()
            invariant
                i <= attrs@.len(),
                first_macro(attrs@) == first_macro(attrs@.skip(i as int)),
            decreases attrs@.len() - i,
        {
            assert(attrs@.skip(i as int).drop_first() =~= attrs@.skip(i + 1));
            assert(attrs@.skip(i as int)[0] == attrs@[i as int]);
            match &attrs[i] {
                Some(id) => {
                    let m = RseqMacro::from_attribute_ident(id.as_str());
                    if m.is_some() {
                        return m;
                    }
                },
                None => {},
            }
            i = i + 1;
        }
        assert(attrs@.skip(i as int) =~= Seq::<Option<String>>::empty());
        None
    }
}

/// Each macro's attribute name leads back to the macro, and no other name
/// does.
pub proof fn lemma_attribute_names_identify_macros(m: RseqMacro, id: Seq<char>)
    ensures
        macro_of_ident(attribute_of_macro(m)) == Some(m),
        macro_of_ident(id) == Some(m) ==> id == attribute_of_macro(m),
{
    reveal_strlit("rseq_commit_action");
    reveal_strlit("rseq_critical_section_start");
    reveal_strlit("rseq_critical_section");
    reveal_strlit("rseq_shared_struct");
    assert(COMMIT_ACTION_ATTRIBUTE@.len() != START_ATTRIBUTE@.len());
    assert(COMMIT_ACTION_ATTRIBUTE@.len() != SECTION_ATTRIBUTE@.len());
    assert(COMMIT_ACTION_ATTRIBUTE@[5] != SHARED_STRUCT_ATTRIBUTE@[5]);
    assert(START_ATTRIBUTE@.len() != SECTION_ATTRIBUTE@.len());
    assert(START_ATTRIBUTE@.len() != SHARED_STRUCT_ATTRIBUTE@.len());
    assert(SECTION_ATTRIBUTE@.len() != SHARED_STRUCT_ATTRIBUTE@.len());
}

/// The four attribute names, written out, name their macros, and every other
/// name names none.
pub proof fn lemma_attribute_texts(id: Seq<char>)
    ensures
        macro_of_ident("rseq_commit_action"@) == Some(RseqMacro::CommitAction),
        macro_of_ident("rseq_critical_section_start"@) == Some(RseqMacro::Start),
        macro_of_ident("rseq_critical_section"@) == Some(RseqMacro::Section),
        macro_of_ident("rseq_shared_struct"@) == Some(RseqMacro::SharedStruct),
        id != "rseq_commit_action"@ && id != "rseq_critical_section_start"@ && id != "rseq_critical_section"@
            && id != "rseq_shared_struct"@ ==> macro_of_ident(id) is None,
{
    reveal_strlit("rseq_commit_action");
    reveal_strlit("rseq_critical_section_start");
    reveal_strlit("rseq_critical_section");
    reveal_strlit("rseq_shared_struct");
    lemma_attribute_names_identify_macros(RseqMacro::CommitAction, id);
    lemma_attribute_names_identify_macros(RseqMacro::Start, id);
    lemma_attribute_names_identify_macros(RseqMacro::Section, id);
    lemma_attribute_names_identify_macros(RseqMacro::SharedStruct, id);
}

/// The attribute at `k` names a macro.
pub open spec fn names_macro_at(attrs: Seq<Option<String>>, k: int) -> bool {
    attrs[k] matches Some(id) && macro_of_ident(id@) is Some
}

/// The macro found for an item is that of the first of its attributes that
/// names one, wherever in the list that attribute stands (the last one
/// included); an item none of whose attributes names a macro has none.
pub proof fn lemma_first_marking_attribute_decides(attrs: Seq<Option<String>>)
    ensures
        forall|k: int|
            0 <= k < attrs.len() && #[trigger] names_macro_at(attrs, k)
                && (forall|j: int| 0 <= j < k ==> !names_macro_at(attrs, j))
            ==> first_macro(attrs) == macro_of_ident(attrs[k]->Some_0@),
        (forall|j: int| 0 <= j < attrs.len() ==> !names_macro_at(attrs, j)) ==> first_macro(attrs) is None,
        first_macro(attrs) matches Some(m) ==> exists|k: int| 0 <= k < attrs.len() && names_macro_at(attrs, k)
            && macro_of_ident(attrs[k]->Some_0@) == Some(m),
    decreases attrs.len(),
{
    if attrs.len() > 0 {
        let rest = attrs.drop_first();
        lemma_first_marking_attribute_decides(rest);
        assert forall|j: int| 0 <= j < rest.len() implies rest[j] == attrs[j + 1] by {}
        assert forall|k: int|
            0 <= k < attrs.len() && #[trigger] names_macro_at(attrs, k)
                && (forall|j: int| 0 <= j < k ==> !names_macro_at(attrs, j))
            implies first_macro(attrs) == macro_of_ident(attrs[k]->Some_0@) by {
            if k > 0 {
                assert(!names_macro_at(attrs, 0));
                assert(rest[k - 1] == attrs[k]);
                assert(names_macro_at(rest, k - 1));
                assert forall|j: int| 0 <= j < k - 1 implies !names_macro_at(rest, j) by {
                    assert(!names_macro_at(attrs, j + 1));
                }
            }
        }
        if forall|j: int| 0 <= j < attrs.len() ==> !names_macro_at(attrs, j) {
            assert(!names_macro_at(attrs, 0));
            assert forall|j: int| 0 <= j < rest.len() implies !names_macro_at(rest, j) by {
                assert(!names_macro_at(attrs, j + 1));
            }
        }
        if first_macro(attrs) is Some {
            if !names_macro_at(attrs, 0) {
                let m = first_macro(attrs)->Some_0;
                let k = choose|k: int| 0 <= k < rest.len() && names_macro_at(rest, k)
                    && macro_of_ident(rest[k]->Some_0@) == Some(m);
                assert(rest[k] == attrs[k + 1]);
                assert(names_macro_at(attrs, k + 1));
            } else {
                assert(names_macro_at(attrs, 0));
            }
        }
    }
}

/// An item marked by a single attribute, or whose last attribute is the one
/// that marks it, gets that attribute's macro.
pub proof fn lemma_only_attribute_marks(attrs: Seq<Option<String>>, id: String, m: RseqMacro)
    requires
        attrs.len() > 0,
        attrs.last() == Some(id),
        id@ == attribute_of_macro(m),
        forall|j: int| 0 <= j < attrs.len() - 1 ==> !names_macro_at(attrs, j),
    ensures
        first_macro(attrs) == Some(m),
        first_macro(seq![Some(id)]) == Some(m),
{
    lemma_attribute_names_identify_macros(m, id@);
    lemma_first_marking_attribute_decides(attrs);
    assert(attrs[attrs.len() - 1] == Some(id));
    assert(names_macro_at(attrs, attrs.len() - 1));
    lemma_first_marking_attribute_decides(seq![Some(id)]);
    assert(seq![Some(id)][0] == Some(id));
    assert(names_macro_at(seq![Some(id)], 0));
}

} // verus!
