//! The constants that the rseq attribute macros leave in place of a marked
//! function: a typed constant that carries the function's symbol name.
use vstd::prelude::*;

verus! {

/// The name of a critical-section entry function.
#[derive(Clone, Copy)]
pub struct RseqStart(pub &'static str);

/// The name of a commit action.
#[derive(Clone, Copy)]
pub struct RseqCommitActionName(pub &'static str);

impl RseqStart {
    /// The function's name.
    pub fn as_str(&self) -> (res: &'static str)
        ensures
            res == self.0,
    {
        self.0
    }

    /// The text the name is shown as: the name itself.
    pub fn to_display_string(&self) -> (res: String)
        ensures
            res@ == self.0@,
    {
        self.0.to_owned()
    }
}

impl std::ops::Deref for RseqStart {
    type Target = str;

    /// The function's name: `*name` reads as the `&str` it carries.
    fn deref(&self) -> (res: &str)
        ensures
            res == self.0,
    {
        self.0
    }
}

impl RseqCommitActionName {
    /// The function's name.
    pub fn as_str(&self) -> (res: &'static str)
        ensures
            res == self.0,
    {
        self.0
    }

    /// The text the name is shown as: the name itself.
    pub fn to_display_string(&self) -> (res: String)
        ensures
            res@ == self.0@,
    {
        self.0.to_owned()
    }
}

/// The attribute that silences the lint on lower-case constants.
pub const ALLOW_LOWER_CASE: &'static str = "#[allow(non_upper_case_globals)] ";
/// The keyword that opens a constant.
pub const CONST_KEYWORD: &'static str = "const ";
/// The text between a constant's name and its type.
pub const TYPE_SEPARATOR: &'static str = ": ";
/// The text between a constant's type and its value.
pub const VALUE_SEPARATOR: &'static str = " = ";
/// The text that opens the string argument of the value.
pub const OPEN_NAME: &'static str = "(\"";
/// The text that closes the value and the constant.
pub const CLOSE_NAME: &'static str = "\");";
/// A space.
pub const SPACE: &'static str = " ";
/// The type and value of the constant left for a critical-section helper.
pub const UNIT_CONSTANT: &'static str = ": () = ();";
/// The type of the constant left for a commit action.
pub const COMMIT_ACTION_NAME_TYPE: &'static str = "RseqCommitActionName";
/// The type of the constant left for a critical-section entry.
pub const START_NAME_TYPE: &'static str = "RseqStart";

/// The visibility followed by a space, or nothing for the default visibility.
pub open spec fn visibility_prefix(vis: Seq<char>) -> Seq<char> {
    if vis.len() == 0 {
        Seq::empty()
    } else {
        vis + SPACE@
    }
}

/// `#[allow(non_upper_case_globals)] VIS const NAME: TYPE = TYPE("NAME");`
pub open spec fn const_wrapper_text(vis: Seq<char>, name: Seq<char>, type_ident: Seq<char>) -> Seq<char> {
    ALLOW_LOWER_CASE@ + visibility_prefix(vis) + CONST_KEYWORD@ + name + TYPE_SEPARATOR@ + type_ident
        + VALUE_SEPARATOR@ + type_ident + OPEN_NAME@ + name + CLOSE_NAME@
}

/// `#[allow(non_upper_case_globals)] VIS const NAME: () = ();`
pub open spec fn unit_const_text(vis: Seq<char>, name: Seq<char>) -> Seq<char> {
    ALLOW_LOWER_CASE@ + visibility_prefix(vis) + CONST_KEYWORD@ + name + UNIT_CONSTANT@
}

/// Appends the visibility and, when there is one, a space.
fn push_visibility(text: &mut String, vis: &str)
    ensures
        final(text)@ == old(text)@ + visibility_prefix(vis@),
{
    if !vis.is_empty() {
        text.append(vis);
        text.append(SPACE);
    } else {
        assert(vis@ =~= Seq::<char>::empty());
    }
}

/// The constant of type `type_ident` that names the function `name`, with
/// the function's visibility `vis` (empty for the default visibility).
pub fn make_const_string_wrapper(vis: &str, name: &str, type_ident: &str) -> (res: String)
    ensures
        res@ == const_wrapper_text(vis@, name@, type_ident@),
{
    let mut text = String::new();
    text.append(ALLOW_LOWER_CASE);
    push_visibility(&mut text, vis);
    text.append(CONST_KEYWORD);
    text.append(name);
    text.append(TYPE_SEPARATOR);
    text.append(type_ident);
    text.append(VALUE_SEPARATOR);
    text.append(type_ident);
    text.append(OPEN_NAME);
    text.append(name);
    text.append(CLOSE_NAME);
    assert(text@ =~= const_wrapper_text(vis@, name@, type_ident@));
    text
}

/// What `#[rseq_commit_action]` leaves for the function: a
/// `RseqCommitActionName` constant that holds its name.
pub fn rseq_commit_action_impl(vis: &str, name: &str) -> (res: String)
    ensures
        res@ == const_wrapper_text(vis@, name@, COMMIT_ACTION_NAME_TYPE@),
{
    make_const_string_wrapper(vis, name, COMMIT_ACTION_NAME_TYPE)
}

/// What `#[rseq_critical_section_start]` leaves for the function: a
/// `RseqStart` constant that holds its name.
pub fn rseq_critical_section_start_impl(vis: &str, name: &str) -> (res: String)
    ensures
        res@ == const_wrapper_text(vis@, name@, START_NAME_TYPE@),
{
    make_const_string_wrapper(vis, name, START_NAME_TYPE)
}

/// What `#[rseq_critical_section]` leaves for the function: a unit constant
/// under its name.
pub fn rseq_critical_section_impl(vis: &str, name: &str) -> (res: String)
    ensures
        res@ == unit_const_text(vis@, name@),
{
    let mut text = String::new();
    text.append(ALLOW_LOWER_CASE);
    push_visibility(&mut text, vis);
    text.append(CONST_KEYWORD);
    text.append(name);
    text.append(UNIT_CONSTANT);
    assert(text@ =~= unit_const_text(vis@, name@));
    text
}

impl std::ops::Deref for RseqCommitActionName {
    type Target = str;

    /// The function's name: `*name` reads as the `&str` it carries.
    fn deref(&self) -> (res: &str)
        ensures
            res == self.0,
    {
        self.0
    }
}

} // verus!
