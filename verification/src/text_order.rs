//! The order of names: byte-wise lexicographic order of their UTF-8 bytes,
//! the order `str` and `String` compare by.
use vstd::prelude::*;

verus! {

/// `a` comes strictly before `b` in byte-wise lexicographic order.
pub open spec fn lex_lt(a: Seq<u8>, b: Seq<u8>) -> bool
    decreases a.len(),
{
    if a.len() == 0 {
        b.len() > 0
    } else if b.len() == 0 {
        false
    } else if a[0] != b[0] {
        a[0] < b[0]
    } else {
        lex_lt(a.drop_first(), b.drop_first())
    }
}

/// The bytes that order the name `s`.
pub open spec fn name_key(s: Seq<char>) -> Seq<u8> {
    vstd::utf8::encode_utf8(s)
}

/// The result of comparing two names.
pub enum TextOrder {
    Less,
    Equal,
    Greater,
}

/// Exactly one of `a < b`, `a == b`, `b < a` holds.
pub proof fn lemma_lex_trichotomy(a: Seq<u8>, b: Seq<u8>)
    ensures
        lex_lt(a, b) || a == b || lex_lt(b, a),
        !(lex_lt(a, b) && lex_lt(b, a)),
        !(lex_lt(a, b) && a == b),
    decreases a.len(),
{
    if a.len() == 0 || b.len() == 0 {
        if a.len() == 0 && b.len() == 0 {
            assert(a =~= b);
        }
    } else if a[0] != b[0] {
    } else {
        lemma_lex_trichotomy(a.drop_first(), b.drop_first());
        if a.drop_first() == b.drop_first() {
            assert(a =~= seq![a[0]] + a.drop_first());
            assert(b =~= seq![b[0]] + b.drop_first());
        }
    }
}

/// Byte-wise lexicographic order is transitive.
pub proof fn lemma_lex_transitive(a: Seq<u8>, b: Seq<u8>, c: Seq<u8>)
    requires
        lex_lt(a, b),
        lex_lt(b, c),
    ensures
        lex_lt(a, c),
    decreases a.len(),
{
    if a.len() == 0 {
    } else if a[0] != b[0] || b[0] != c[0] {
    } else {
        lemma_lex_transitive(a.drop_first(), b.drop_first(), c.drop_first());
    }
}

/// Equal keys belong to equal names.
pub proof fn lemma_name_key_injective(a: Seq<char>, b: Seq<char>)
    requires
        name_key(a) == name_key(b),
    ensures
        a == b,
{
    vstd::utf8::encode_utf8_decode_utf8(a);
    vstd::utf8::encode_utf8_decode_utf8(b);
}

/// Compares the names `a` and `b` by their bytes.
pub fn compare_names(a: &str, b: &str) -> (res: TextOrder)
    ensures
        res is Less <==> lex_lt(name_key(a@), name_key(b@)),
        res is Equal <==> a@ == b@,
        res is Greater <==> lex_lt(name_key(b@), name_key(a@)),
{
    let x = a.as_bytes();
    let y = b.as_bytes();
    let ghost ka = name_key(a@);
    let ghost kb = name_key(b@);
    proof {
        lemma_lex_trichotomy(ka, kb);
        if ka == kb {
            lemma_name_key_injective(a@, b@);
        }
    }
    let mut i: usize = 0;
    assert(ka.skip(0) =~= ka);
    assert(kb.skip(0) =~= kb);
    while i < x.len() && i < y.len()
        invariant
            x@ == ka,
            y@ == kb,
            ka == name_key(a@),
            kb == name_key(b@),
            i <= x@.len(),
            i <= y@.len(),
            ka.take(i as int) == kb.take(i as int),
            lex_lt(ka, kb) == lex_lt(ka.skip(i as int), kb.skip(i as int)),
            lex_lt(kb, ka) == lex_lt(kb.skip(i as int), ka.skip(i as int)),
        decreases x@.len() - i,
    {
        let ghost sa = ka.skip(i as int);
        let ghost sb = kb.skip(i as int);
        assert(sa[0] == x@[i as int] && sb[0] == y@[i as int]);
        if x[i] < y[i] {
            proof { lemma_name_key_differs(a@, b@, i as int); }
            return TextOrder::Less;
        }
        if x[i] > y[i] {
            proof { lemma_name_key_differs(a@, b@, i as int); }
            return TextOrder::Greater;
        }
        assert(sa.drop_first() =~= ka.skip(i + 1));
        assert(sb.drop_first() =~= kb.skip(i + 1));
        assert(ka.take(i + 1) =~= ka.take(i as int).push(x@[i as int]));
        assert(kb.take(i + 1) =~= kb.take(i as int).push(y@[i as int]));
        i = i + 1;
    }
    if x.len() == y.len() {
        assert(ka =~= ka.take(i as int));
        assert(kb =~= kb.take(i as int));
        proof { lemma_name_key_injective(a@, b@); }
        TextOrder::Equal
    } else if x.len() < y.len() {
        proof { lemma_name_key_differs(a@, b@, i as int); }
        TextOrder::Less
    } else {
        proof { lemma_name_key_differs(a@, b@, i as int); }
        TextOrder::Greater
    }
}

/// Names whose keys differ at some position are different names.
proof fn lemma_name_key_differs(a: Seq<char>, b: Seq<char>, i: int)
    requires
        0 <= i,
        (i < name_key(a).len() && i < name_key(b).len() && name_key(a)[i] != name_key(b)[i])
            || name_key(a).len() != name_key(b).len(),
    ensures
        a != b,
{
}

/// The names `a` and `b` are the same.
pub fn names_equal(a: &str, b: &str) -> (res: bool)
    ensures
        res == (a@ == b@),
{
    match compare_names(a, b) {
        TextOrder::Equal => true,
        _ => false,
    }
}

} // verus!
