//! The `rseq_context!` description of a task: its keys, and the payload
//! source and task constant generated from it.
use vstd::prelude::*;

use crate::text_order::names_equal;

verus! {

/// The keys of a task description.
#[derive(Clone, Copy, Debug, PartialEq, Eq, Structural)]
pub enum ContextKey {
    Name,
    Helpers,
    Commit,
    Cs,
}

pub const NAME_KEY: &'static str = "name";
pub const HELPERS_KEY: &'static str = "helpers";
pub const COMMIT_KEY: &'static str = "commit";
pub const CS_KEY: &'static str = "cs";

/// The message for a key that is none of the four.
pub const UNKNOWN_KEY_MESSAGE: &'static str = "Unknown key";
pub const MISSING_NAME_MESSAGE: &'static str = "missing name";
pub const MISSING_HELPERS_MESSAGE: &'static str = "missing helpers";
pub const MISSING_COMMIT_MESSAGE: &'static str = "missing commit";
pub const MISSING_CS_MESSAGE: &'static str = "missing cs";

/// The key written `key`.
pub open spec fn key_of(key: Seq<char>) -> Option<ContextKey> {
    if key == NAME_KEY@ {
        Some(ContextKey::Name)
    } else if key == HELPERS_KEY@ {
        Some(ContextKey::Helpers)
    } else if key == COMMIT_KEY@ {
        Some(ContextKey::Commit)
    } else if key == CS_KEY@ {
        Some(ContextKey::Cs)
    } else {
        None
    }
}

/// The key written `key`, if it is one of the four.
pub fn context_key(key: &str) -> (res: Option<ContextKey>)
    ensures
        res == key_of(key@),
{
    if names_equal(key, NAME_KEY) {
        Some(ContextKey::Name)
    } else if names_equal(key, HELPERS_KEY) {
        Some(ContextKey::Helpers)
    } else if names_equal(key, COMMIT_KEY) {
        Some(ContextKey::Commit)
    } else if names_equal(key, CS_KEY) {
        Some(ContextKey::Cs)
    } else {
        None
    }
}

/// The keys a task description has given so far.
pub struct ContextKeysSeen {
    pub name: bool,
    pub helpers: bool,
    pub commit: bool,
    pub cs: bool,
}

/// The first key the description lacks, in the order name, helpers,
/// commit, cs.
pub open spec fn first_missing(seen: ContextKeysSeen) -> Option<ContextKey> {
    if !seen.name {
        Some(ContextKey::Name)
    } else if !seen.helpers {
        Some(ContextKey::Helpers)
    } else if !seen.commit {
        Some(ContextKey::Commit)
    } else if !seen.cs {
        Some(ContextKey::Cs)
    } else {
        None
    }
}

/// The message for a description that lacks `key`.
pub open spec fn missing_message(key: ContextKey) -> Seq<char> {
    match key {
        ContextKey::Name => MISSING_NAME_MESSAGE@,
        ContextKey::Helpers => MISSING_HELPERS_MESSAGE@,
        ContextKey::Commit => MISSING_COMMIT_MESSAGE@,
        ContextKey::Cs => MISSING_CS_MESSAGE@,
    }
}

impl ContextKeysSeen {
    /// No key given yet.
    pub fn new() -> (res: ContextKeysSeen)
        ensures
            !res.name && !res.helpers && !res.commit && !res.cs,
    {
        ContextKeysSeen { name: false, helpers: false, commit: false, cs: false }
    }

    /// Records that `key` was given; a key given again replaces its value.
    pub fn record(&mut self, key: ContextKey)
        ensures
            final(self).name == (old(self).name || key == ContextKey::Name),
            final(self).helpers == (old(self).helpers || key == ContextKey::Helpers),
            final(self).commit == (old(self).commit || key == ContextKey::Commit),
            final(self).cs == (old(self).cs || key == ContextKey::Cs),
    {
        match key {
            ContextKey::Name => self.name = true,
            ContextKey::Helpers => self.helpers = true,
            ContextKey::Commit => self.commit = true,
            ContextKey::Cs => self.cs = true,
        }
    }

    /// The error message for the first key the description lacks, if any.
    pub fn missing(&self) -> (res: Option<&'static str>)
        ensures
            match first_missing(*self) {
                None => res is None,
                Some(k) => res matches Some(m) && m@ == missing_message(k),
            },
    {
        if !self.name {
            Some(MISSING_NAME_MESSAGE)
        } else if !self.helpers {
            Some(MISSING_HELPERS_MESSAGE)
        } else if !self.commit {
            Some(MISSING_COMMIT_MESSAGE)
        } else if !self.cs {
            Some(MISSING_CS_MESSAGE)
        } else {
            None
        }
    }
}

/// The keys given by a description whose keys are all known.
pub open spec fn keys_seen(keys: Seq<Seq<char>>) -> ContextKeysSeen
    decreases keys.len(),
{
    if keys.len() == 0 {
        ContextKeysSeen { name: false, helpers: false, commit: false, cs: false }
    } else {
        let before = keys_seen(keys.drop_last());
        let k = key_of(keys.last());
        ContextKeysSeen {
            name: before.name || k == Some(ContextKey::Name),
            helpers: before.helpers || k == Some(ContextKey::Helpers),
            commit: before.commit || k == Some(ContextKey::Commit),
            cs: before.cs || k == Some(ContextKey::Cs),
        }
    }
}

/// What a description with the keys `keys`, in order, is answered: the
/// first unknown key fails the description; otherwise it fails for the
/// first key it lacks, or is accepted.
pub open spec fn keys_outcome(keys: Seq<Seq<char>>) -> Result<(), Seq<char>> {
    if exists|i: int| 0 <= i < keys.len() && key_of(#[trigger] keys[i]) is None {
        Err(UNKNOWN_KEY_MESSAGE@)
    } else {
        match first_missing(keys_seen(keys)) {
            None => Ok(()),
            Some(k) => Err(missing_message(k)),
        }
    }
}

/// Checks the keys of a task description, in the order they are written.
pub fn check_context_keys(keys: &[String]) -> (res: Result<(), &'static str>)
    ensures
        match keys_outcome(keys@.map_values(|k: String| k@)) {
            Ok(()) => res is Ok,
            Err(m) => res matches Err(t) && t@ == m,
        },
{
    let ghost ks = keys@.map_values(|k: String| k@);
    let mut seen = ContextKeysSeen::new();
    let mut i: usize = 0;
    assert(ks.take(0) =~= Seq::<Seq<char>>::empty());
    while i < keys.len()
        invariant
            ks == keys@.map_values(|k: String| k@),
            i <= keys@.len(),
            seen == keys_seen(ks.take(i as int)),
            forall|j: int| 0 <= j < i ==> key_of(#[trigger] ks[j]) is Some,
        decreases keys@.len() - i,
    {
        assert(ks.take(i + 1).drop_last() =~= ks.take(i as int));
        assert(ks[i as int] == keys@[i as int]@);
        match context_key(keys[i].as_str()) {
            Some(k) => seen.record(k),
            None => {
                return Err(UNKNOWN_KEY_MESSAGE);
            },
        }
        i = i + 1;
    }
    assert(ks.take(keys@.len() as int) =~= ks);
    match seen.missing() {
        Some(m) => Err(m),
        None => Ok(()),
    }
}

/// The text between the helpers and the commit action.
pub const BEFORE_COMMIT: &'static str = "\n\n #[unsafe(no_mangle)]\n#[unsafe(link_section = \".rseq_commit\")]\n";
/// The text between the commit action and the section entry.
pub const BEFORE_SECTION: &'static str = "\n\n#[unsafe(no_mangle)]\n#[unsafe(link_section = \".rseq_critical\")]\n";
/// The text after the section entry.
pub const SOURCE_END: &'static str = "\n";

/// The payload source of a task: its helpers, its commit action in the
/// commit section, its entry in the critical section, each unmangled.
pub open spec fn payload_source_text(helpers: Seq<char>, commit: Seq<char>, cs_wrapper: Seq<char>) -> Seq<char> {
    helpers + BEFORE_COMMIT@ + commit + BEFORE_SECTION@ + cs_wrapper + SOURCE_END@
}

/// The payload source of a task from the source of its helpers, its commit
/// action and its section entry.
pub fn payload_source(helpers: &str, commit: &str, cs_wrapper: &str) -> (res: String)
    ensures
        res@ == payload_source_text(helpers@, commit@, cs_wrapper@),
{
    let mut text = String::new();
    text.append(helpers);
    text.append(BEFORE_COMMIT);
    text.append(commit);
    text.append(BEFORE_SECTION);
    text.append(cs_wrapper);
    text.append(SOURCE_END);
    assert(text@ =~= payload_source_text(helpers@, commit@, cs_wrapper@));
    text
}

/// The text between the output directory and the task name.
pub const FILE_PREFIX: &'static str = "/rseq_";
/// The extension of a payload source file.
pub const FILE_SUFFIX: &'static str = ".rs";

/// The path of the payload source file of task `task` in `out_dir`.
pub fn payload_file_name(out_dir: &str, task: &str) -> (res: String)
    ensures
        res@ == out_dir@ + FILE_PREFIX@ + task@ + FILE_SUFFIX@,
{
    let mut text = String::new();
    text.append(out_dir);
    text.append(FILE_PREFIX);
    text.append(task);
    text.append(FILE_SUFFIX);
    text
}

pub const TASK_CONST_OPEN: &'static str = "pub const ";
pub const TASK_CONST_MAIN: &'static str = ": RseqTask = RseqTask { main_symbol: stringify!(";
pub const TASK_CONST_COMMIT: &'static str = "), commit_symbol: stringify!(";
pub const TASK_CONST_CLOSE: &'static str = "), };";

/// The source of the task constant that names the section entry and the
/// commit action of task `task`.
pub fn task_constant_source(task: &str, entry: &str, commit: &str) -> (res: String)
    ensures
        res@ == TASK_CONST_OPEN@ + task@ + TASK_CONST_MAIN@ + entry@ + TASK_CONST_COMMIT@ + commit@ + TASK_CONST_CLOSE@,
{
    let mut text = String::new();
    text.append(TASK_CONST_OPEN);
    text.append(task);
    text.append(TASK_CONST_MAIN);
    text.append(entry);
    text.append(TASK_CONST_COMMIT);
    text.append(commit);
    text.append(TASK_CONST_CLOSE);
    text
}

/// Each key text, written out, names the key of the same name, and every
/// other text names none.
pub proof fn lemma_key_texts(key: Seq<char>)
    ensures
        key_of("name"@) == Some(ContextKey::Name),
        key_of("helpers"@) == Some(ContextKey::Helpers),
        key_of("commit"@) == Some(ContextKey::Commit),
        key_of("cs"@) == Some(ContextKey::Cs),
        key != "name"@ && key != "helpers"@ && key != "commit"@ && key != "cs"@ ==> key_of(key) is None,
{
    reveal_strlit("name");
    reveal_strlit("helpers");
    reveal_strlit("commit");
    reveal_strlit("cs");
    assert("name"@.len() != "helpers"@.len());
    assert("name"@.len() != "commit"@.len());
    assert("name"@.len() != "cs"@.len());
    assert("helpers"@.len() != "commit"@.len());
    assert("helpers"@.len() != "cs"@.len());
    assert("commit"@.len() != "cs"@.len());
}

/// A description that lacks keys is refused for the first of them in the
/// order name, helpers, commit, cs, with the message that names that key.
pub proof fn lemma_missing_key_is_named(seen: ContextKeysSeen)
    ensures
        !seen.name ==> first_missing(seen) == Some(ContextKey::Name),
        seen.name && !seen.helpers ==> first_missing(seen) == Some(ContextKey::Helpers),
        seen.name && seen.helpers && !seen.commit ==> first_missing(seen) == Some(ContextKey::Commit),
        seen.name && seen.helpers && seen.commit && !seen.cs ==> first_missing(seen) == Some(ContextKey::Cs),
        seen.name && seen.helpers && seen.commit && seen.cs ==> first_missing(seen) is None,
        missing_message(ContextKey::Name) == "missing name"@,
        missing_message(ContextKey::Helpers) == "missing helpers"@,
        missing_message(ContextKey::Commit) == "missing commit"@,
        missing_message(ContextKey::Cs) == "missing cs"@,
{
}

/// A key is among those given exactly when some written key names it.
proof fn lemma_keys_seen_has(keys: Seq<Seq<char>>)
    ensures
        keys_seen(keys).name <==> exists|i: int| 0 <= i < keys.len() && key_of(#[trigger] keys[i]) == Some(ContextKey::Name),
        keys_seen(keys).helpers <==> exists|i: int| 0 <= i < keys.len() && key_of(#[trigger] keys[i]) == Some(ContextKey::Helpers),
        keys_seen(keys).commit <==> exists|i: int| 0 <= i < keys.len() && key_of(#[trigger] keys[i]) == Some(ContextKey::Commit),
        keys_seen(keys).cs <==> exists|i: int| 0 <= i < keys.len() && key_of(#[trigger] keys[i]) == Some(ContextKey::Cs),
    decreases keys.len(),
{
    if keys.len() > 0 {
        let before = keys.drop_last();
        lemma_keys_seen_has(before);
        assert forall|i: int| 0 <= i < before.len() implies before[i] == keys[i] by {}
        assert(keys.last() == keys[keys.len() - 1]);
        if keys_seen(keys).name {
            if keys_seen(before).name {
                let i = choose|i: int| 0 <= i < before.len() && key_of(#[trigger] before[i]) == Some(ContextKey::Name);
                assert(key_of(keys[i]) == Some(ContextKey::Name));
            }
        }
        if exists|i: int| 0 <= i < keys.len() && key_of(#[trigger] keys[i]) == Some(ContextKey::Name) {
            let i = choose|i: int| 0 <= i < keys.len() && key_of(#[trigger] keys[i]) == Some(ContextKey::Name);
            if i < before.len() {
                assert(key_of(before[i]) == Some(ContextKey::Name));
            }
        }
        if keys_seen(keys).helpers {
            if keys_seen(before).helpers {
                let i = choose|i: int| 0 <= i < before.len() && key_of(#[trigger] before[i]) == Some(ContextKey::Helpers);
                assert(key_of(keys[i]) == Some(ContextKey::Helpers));
            }
        }
        if exists|i: int| 0 <= i < keys.len() && key_of(#[trigger] keys[i]) == Some(ContextKey::Helpers) {
            let i = choose|i: int| 0 <= i < keys.len() && key_of(#[trigger] keys[i]) == Some(ContextKey::Helpers);
            if i < before.len() {
                assert(key_of(before[i]) == Some(ContextKey::Helpers));
            }
        }
        if keys_seen(keys).commit {
            if keys_seen(before).commit {
                let i = choose|i: int| 0 <= i < before.len() && key_of(#[trigger] before[i]) == Some(ContextKey::Commit);
                assert(key_of(keys[i]) == Some(ContextKey::Commit));
            }
        }
        if exists|i: int| 0 <= i < keys.len() && key_of(#[trigger] keys[i]) == Some(ContextKey::Commit) {
            let i = choose|i: int| 0 <= i < keys.len() && key_of(#[trigger] keys[i]) == Some(ContextKey::Commit);
            if i < before.len() {
                assert(key_of(before[i]) == Some(ContextKey::Commit));
            }
        }
        if keys_seen(keys).cs {
            if keys_seen(before).cs {
                let i = choose|i: int| 0 <= i < before.len() && key_of(#[trigger] before[i]) == Some(ContextKey::Cs);
                assert(key_of(keys[i]) == Some(ContextKey::Cs));
            }
        }
        if exists|i: int| 0 <= i < keys.len() && key_of(#[trigger] keys[i]) == Some(ContextKey::Cs) {
            let i = choose|i: int| 0 <= i < keys.len() && key_of(#[trigger] keys[i]) == Some(ContextKey::Cs);
            if i < before.len() {
                assert(key_of(before[i]) == Some(ContextKey::Cs));
            }
        }
    }
}

/// A description is accepted exactly when every key it writes is one of
/// `name`, `helpers`, `commit`, `cs`, and it writes each of the four.
pub proof fn lemma_description_accepted(keys: Seq<Seq<char>>)
    ensures
        keys_outcome(keys) is Ok <==> {
            &&& forall|i: int| 0 <= i < keys.len() ==> {
                let k = #[trigger] keys[i];
                k == "name"@ || k == "helpers"@ || k == "commit"@ || k == "cs"@
            }
            &&& exists|i: int| 0 <= i < keys.len() && #[trigger] keys[i] == "name"@
            &&& exists|i: int| 0 <= i < keys.len() && #[trigger] keys[i] == "helpers"@
            &&& exists|i: int| 0 <= i < keys.len() && #[trigger] keys[i] == "commit"@
            &&& exists|i: int| 0 <= i < keys.len() && #[trigger] keys[i] == "cs"@
        },
{
    lemma_keys_seen_has(keys);
    lemma_key_texts(Seq::empty());
    assert forall|k: Seq<char>| #[trigger] key_of(k) is Some <==> (k == "name"@ || k == "helpers"@ || k == "commit"@ || k == "cs"@) by {
        lemma_key_texts(k);
    }
    assert forall|k: Seq<char>| #[trigger] key_of(k) == Some(ContextKey::Name) <==> k == "name"@ by {
        lemma_key_texts(k);
    }
    assert forall|k: Seq<char>| #[trigger] key_of(k) == Some(ContextKey::Helpers) <==> k == "helpers"@ by {
        lemma_key_texts(k);
    }
    assert forall|k: Seq<char>| #[trigger] key_of(k) == Some(ContextKey::Commit) <==> k == "commit"@ by {
        lemma_key_texts(k);
    }
    assert forall|k: Seq<char>| #[trigger] key_of(k) == Some(ContextKey::Cs) <==> k == "cs"@ by {
        lemma_key_texts(k);
    }
}

} // verus!
