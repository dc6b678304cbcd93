//! The table of post-commit offsets: its order, its text, and the lookup of
//! a commit action's offset in it.
use vstd::prelude::*;

use crate::decimal::{decimal, push_decimal};
use crate::text_order::{
    compare_names, lemma_lex_transitive, lemma_lex_trichotomy, lemma_name_key_injective, lex_lt,
    name_key, TextOrder,
};

verus! {

broadcast use vstd::seq_lib::group_to_multiset_ensures;

/// The first line of the table's text.
pub const TABLE_HEADER: &'static str = "pub const RSEQ_CS_POST_COMMIT_OFFSETS: &[(&str, u64)] = &[\n";

/// The last line of the table's text.
pub const TABLE_FOOTER: &'static str = "];\n";

/// The text that opens an entry line.
pub const ENTRY_OPEN: &'static str = "    (\"";

/// The text between an entry's name and its offset.
pub const ENTRY_SEPARATOR: &'static str = "\", ";

/// The text that closes an entry line.
pub const ENTRY_CLOSE: &'static str = "),\n";

/// The entries are in non-decreasing order of their names.
pub open spec fn sorted_by_name(s: Seq<(String, usize)>) -> bool {
    forall|i: int, j: int| 0 <= i < j < s.len() ==> !lex_lt(name_key(#[trigger] s[j].0@), name_key(#[trigger] s[i].0@))
}

/// The line of the table for the entry `name`, `offset`.
pub open spec fn entry_line(name: Seq<char>, offset: nat) -> Seq<char> {
    ENTRY_OPEN@ + name + ENTRY_SEPARATOR@ + decimal(offset) + ENTRY_CLOSE@
}

/// The lines of the table for `entries`, in order.
pub open spec fn entry_lines(entries: Seq<(String, usize)>) -> Seq<char>
    decreases entries.len(),
{
    if entries.len() == 0 {
        Seq::empty()
    } else {
        entry_lines(entries.drop_last()) + entry_line(entries.last().0@, entries.last().1 as nat)
    }
}

/// The whole text of the table for `entries`.
pub open spec fn table_text(entries: Seq<(String, usize)>) -> Seq<char> {
    TABLE_HEADER@ + entry_lines(entries) + TABLE_FOOTER@
}

/// The entries named `n`, in order.
pub open spec fn named(s: Seq<(String, usize)>, n: Seq<char>) -> Seq<(String, usize)>
    decreases s.len(),
{
    if s.len() == 0 {
        Seq::empty()
    } else if s.last().0@ == n {
        named(s.drop_last(), n).push(s.last())
    } else {
        named(s.drop_last(), n)
    }
}

/// Inserting `e` before entries that all have other names adds `e` last
/// among the entries of its name and changes no other name's entries.
proof fn lemma_named_insert(s: Seq<(String, usize)>, pos: int, e: (String, usize), n: Seq<char>)
    requires
        0 <= pos <= s.len(),
        forall|k: int| pos <= k < s.len() ==> (#[trigger] s[k]).0@ != e.0@,
    ensures
        named(s.insert(pos, e), n) == if e.0@ == n { named(s, n).push(e) } else { named(s, n) },
    decreases s.len(),
{
    if pos == s.len() {
        assert(s.insert(pos, e) =~= s.push(e));
        assert(s.push(e).drop_last() =~= s);
    } else {
        let t = s.drop_last();
        lemma_named_insert(t, pos, e, n);
        assert(s.insert(pos, e) =~= t.insert(pos, e).push(s.last()));
        assert(t.insert(pos, e).push(s.last()).drop_last() =~= t.insert(pos, e));
        assert(s.last() == s[s.len() - 1]);
    }
}

/// Sorts the entries by name; entries with equal names keep their order.
pub fn sort_by_name(results: &mut Vec<(String, usize)>)
    ensures
        sorted_by_name(final(results)@),
        final(results)@.to_multiset() == old(results)@.to_multiset(),
        forall|n: Seq<char>| #[trigger] named(final(results)@, n) == named(old(results)@, n),
{
    let mut rest: Vec<(String, usize)> = Vec::new();
    std::mem::swap(results, &mut rest);
    let mut out: Vec<(String, usize)> = Vec::new();
    let mut i: usize = 0;
    while i < rest.len()
        invariant
            i <= rest@.len(),
            sorted_by_name(out@),
            out@.to_multiset() == rest@.take(i as int).to_multiset(),
            forall|n: Seq<char>| #[trigger] named(out@, n) == named(rest@.take(i as int), n),
        decreases rest@.len() - i,
    {
        let e: (String, usize) = (rest[i].0.clone(), rest[i].1);
        assert(e == rest@[i as int]);
        let pos = insertion_point(&out, e.0.as_str());
        let ghost before = out@;
        out.insert(pos, e);
        proof {
            lemma_insert_keeps_sorted(before, pos as int, e);
            assert(rest@.take(i + 1) =~= rest@.take(i as int).push(e));
            assert forall|k: int| pos <= k < before.len() implies (#[trigger] before[k]).0@ != e.0@ by {
                lemma_lex_trichotomy(name_key(e.0@), name_key(before[k].0@));
            }
            assert forall|n: Seq<char>| #[trigger] named(out@, n) == named(rest@.take(i + 1), n) by {
                lemma_named_insert(before, pos as int, e, n);
                assert(rest@.take(i + 1).drop_last() =~= rest@.take(i as int));
            }
        }
        i = i + 1;
    }
    assert(rest@.take(rest@.len() as int) =~= rest@);
    *results = out;
}

/// The position after every entry of `out` whose name is not after `name`.
fn insertion_point(out: &Vec<(String, usize)>, name: &str) -> (pos: usize)
    requires
        sorted_by_name(out@),
    ensures
        pos <= out@.len(),
        forall|k: int| 0 <= k < pos ==> !lex_lt(name_key(name@), name_key(#[trigger] out@[k].0@)),
        forall|k: int| pos <= k < out@.len() ==> lex_lt(name_key(name@), name_key(#[trigger] out@[k].0@)),
{
    let mut j: usize = 0;
    while j < out.len()
        invariant
            j <= out@.len(),
            sorted_by_name(out@),
            forall|k: int| 0 <= k < j ==> !lex_lt(name_key(name@), name_key(#[trigger] out@[k].0@)),
        decreases out@.len() - j,
    {
        match compare_names(name, out[j].0.as_str()) {
            TextOrder::Less => {
                assert forall|k: int| j <= k < out@.len() implies lex_lt(name_key(name@), name_key(#[trigger] out@[k].0@)) by {
                    if k > j {
                        let a = name_key(out@[j as int].0@);
                        let b = name_key(out@[k].0@);
                        assert(!lex_lt(b, a));
                        lemma_lex_trichotomy(a, b);
                        if a == b {
                        } else {
                            lemma_lex_transitive(name_key(name@), a, b);
                        }
                    }
                }
                return j;
            },
            _ => {},
        }
        j = j + 1;
    }
    j
}

/// Inserting at the point `insertion_point` finds keeps the entries sorted.
proof fn lemma_insert_keeps_sorted(out: Seq<(String, usize)>, pos: int, e: (String, usize))
    requires
        sorted_by_name(out),
        0 <= pos <= out.len(),
        forall|k: int| 0 <= k < pos ==> !lex_lt(name_key(e.0@), name_key(#[trigger] out[k].0@)),
        forall|k: int| pos <= k < out.len() ==> lex_lt(name_key(e.0@), name_key(#[trigger] out[k].0@)),
    ensures
        sorted_by_name(out.insert(pos, e)),
{
    let s = out.insert(pos, e);
    assert forall|i: int, j: int| 0 <= i < j < s.len() implies !lex_lt(name_key(#[trigger] s[j].0@), name_key(#[trigger] s[i].0@)) by {
        if i == pos {
            let kj = name_key(s[j].0@);
            assert(s[j] == out[j - 1]);
            lemma_lex_trichotomy(name_key(e.0@), kj);
        } else if j == pos {
            assert(s[i] == out[i]);
        } else {
            let oi = if i < pos { i } else { i - 1 };
            let oj = if j < pos { j } else { j - 1 };
            assert(s[i] == out[oi]);
            assert(s[j] == out[oj]);
        }
    }
}

/// The text of the table for `entries`, in their order.
pub fn render_offsets_table(entries: &Vec<(String, usize)>) -> (res: String)
    ensures
        res@ == table_text(entries@),
{
    let mut text = String::new();
    text.append(TABLE_HEADER);
    let mut i: usize = 0;
    assert(entries@.take(0) =~= Seq::<(String, usize)>::empty());
    while i < entries.len()
        invariant
            i <= entries@.len(),
            text@ == TABLE_HEADER@ + entry_lines(entries@.take(i as int)),
        decreases entries@.len() - i,
    {
        let ghost before = text@;
        text.append(ENTRY_OPEN);
        text.append(entries[i].0.as_str());
        text.append(ENTRY_SEPARATOR);
        push_decimal(&mut text, entries[i].1);
        text.append(ENTRY_CLOSE);
        assert(entries@.take(i + 1).drop_last() =~= entries@.take(i as int));
        assert(text@ =~= before + entry_line(entries@[i as int].0@, entries@[i as int].1 as nat));
        i = i + 1;
    }
    assert(entries@.take(entries@.len() as int) =~= entries@);
    text.append(TABLE_FOOTER);
    text
}

/// The text of the table of post-commit offsets: the entries sorted by
/// name, one line each.
pub fn generate_output(results: &mut Vec<(String, usize)>) -> (res: String)
    ensures
        sorted_by_name(final(results)@),
        final(results)@.to_multiset() == old(results)@.to_multiset(),
        forall|n: Seq<char>| #[trigger] named(final(results)@, n) == named(old(results)@, n),
        res@ == table_text(final(results)@),
{
    sort_by_name(results);
    render_offsets_table(results)
}

/// The names of the compiled table are in non-decreasing order.
pub open spec fn table_sorted(t: Seq<(&str, u64)>) -> bool {
    forall|i: int, j: int| 0 <= i < j < t.len() ==> !lex_lt(name_key(#[trigger] t[j].0@), name_key(#[trigger] t[i].0@))
}

/// The table has an entry for `name` with offset `offset`.
pub open spec fn table_has(t: Seq<(&str, u64)>, name: Seq<char>, offset: u64) -> bool {
    exists|i: int| 0 <= i < t.len() && (#[trigger] t[i]).0@ == name && t[i].1 == offset
}

/// The table has an entry for `name`.
pub open spec fn table_names(t: Seq<(&str, u64)>, name: Seq<char>) -> bool {
    exists|i: int| 0 <= i < t.len() && (#[trigger] t[i]).0@ == name
}

/// The post-commit offset recorded for the commit action `name`, found by
/// binary search over a table sorted by name.
///
/// Whatever the table, a result is the offset of an entry named `name`; in a
/// sorted table the search finds `name` whenever an entry has it.
pub fn find_offset(table: &[(&str, u64)], name: &str) -> (res: Option<u64>)
    ensures
        res matches Some(v) ==> table_has(table@, name@, v),
        table_sorted(table@) && res is None ==> !table_names(table@, name@),
{
    let mut lo: usize = 0;
    let mut hi: usize = table.len();
    while lo < hi
        invariant
            lo <= hi <= table@.len(),
            table_sorted(table@) ==> forall|k: int| 0 <= k < lo ==> lex_lt(name_key((#[trigger] table@[k]).0@), name_key(name@)),
            table_sorted(table@) ==> forall|k: int| hi <= k < table@.len() ==> lex_lt(name_key(name@), name_key((#[trigger] table@[k]).0@)),
        decreases hi - lo,
    {
        let mid = lo + (hi - lo) / 2;
        let entry_name: &str = table[mid].0;
        match compare_names(entry_name, name) {
            TextOrder::Equal => {
                assert(table@[mid as int].0@ == name@);
                return Some(table[mid].1);
            },
            TextOrder::Less => {
                proof {
                    if table_sorted(table@) {
                        assert forall|k: int| 0 <= k < mid + 1 implies lex_lt(name_key((#[trigger] table@[k]).0@), name_key(name@)) by {
                            if k < mid {
                                let a = name_key(table@[k].0@);
                                let b = name_key(table@[mid as int].0@);
                                assert(!lex_lt(b, a));
                                lemma_lex_trichotomy(a, b);
                                if a != b {
                                    lemma_lex_transitive(a, b, name_key(name@));
                                }
                            }
                        }
                    }
                }
                lo = mid + 1;
            },
            TextOrder::Greater => {
                proof {
                    if table_sorted(table@) {
                        assert forall|k: int| mid <= k < table@.len() implies lex_lt(name_key(name@), name_key((#[trigger] table@[k]).0@)) by {
                            if k > mid {
                                let a = name_key(table@[mid as int].0@);
                                let b = name_key(table@[k].0@);
                                assert(!lex_lt(b, a));
                                lemma_lex_trichotomy(a, b);
                                if a != b {
                                    lemma_lex_transitive(name_key(name@), a, b);
                                }
                            }
                        }
                    }
                }
                hi = mid;
            },
        }
    }
    proof {
        if table_sorted(table@) {
            assert forall|k: int| 0 <= k < table@.len() implies (#[trigger] table@[k]).0@ != name@ by {
                lemma_lex_trichotomy(name_key(table@[k].0@), name_key(name@));
            }
        }
    }
    None
}

/// A compiled table that lists the entries of a sorted result, name for
/// name and offset for offset, is sorted; so `find_offset` finds the offset
/// recorded for every name of the result.
pub proof fn lemma_rendered_order_is_searchable(entries: Seq<(String, usize)>, table: Seq<(&str, u64)>)
    requires
        sorted_by_name(entries),
        table.len() == entries.len(),
        forall|i: int| 0 <= i < table.len() ==> (#[trigger] table[i]).0@ == entries[i].0@ && table[i].1 == entries[i].1,
    ensures
        table_sorted(table),
        forall|i: int| 0 <= i < table.len() ==> table_names(table, (#[trigger] entries[i]).0@),
{
    assert forall|i: int, j: int| 0 <= i < j < table.len() implies !lex_lt(name_key(#[trigger] table[j].0@), name_key(#[trigger] table[i].0@)) by {
        assert(table[i].0@ == entries[i].0@);
        assert(table[j].0@ == entries[j].0@);
        assert(!lex_lt(name_key(entries[j].0@), name_key(entries[i].0@)));
    }
    assert forall|i: int| 0 <= i < table.len() implies table_names(table, (#[trigger] entries[i]).0@) by {
        assert(table[i].0@ == entries[i].0@);
    }
}

} // verus!
