use vstd::prelude::*;

verus! {

/// Strict lexicographic order on byte sequences: `a` comes before `b` when
/// at the first differing position `a` holds the smaller byte, or when `a`
/// is a proper prefix of `b`.
pub open spec fn lex_lt(a: Seq<u8>, b: Seq<u8>) -> bool
    decreases a.len(),
{
    if b.len() == 0 {
        false
    } else if a.len() == 0 {
        true
    } else if a[0] < b[0] {
        true
    } else if a[0] > b[0] {
        false
    } else {
        lex_lt(a.drop_first(), b.drop_first())
    }
}

/// No byte sequence comes before itself.
pub proof fn lemma_lex_lt_irreflexive(a: Seq<u8>)
    ensures
        !lex_lt(a, a),
    decreases a.len(),
{
    if a.len() > 0 {
        lemma_lex_lt_irreflexive(a.drop_first());
    }
}

/// The order is transitive.
pub proof fn lemma_lex_lt_transitive(a: Seq<u8>, b: Seq<u8>, c: Seq<u8>)
    requires
        lex_lt(a, b),
        lex_lt(b, c),
    ensures
        lex_lt(a, c),
    decreases a.len(),
{
    if a.len() > 0 && b.len() > 0 && c.len() > 0 && a[0] == b[0] && b[0] == c[0] {
        lemma_lex_lt_transitive(a.drop_first(), b.drop_first(), c.drop_first());
    }
}

/// At most one direction of the order can hold.
pub proof fn lemma_lex_lt_asymmetric(a: Seq<u8>, b: Seq<u8>)
    requires
        lex_lt(a, b),
    ensures
        !lex_lt(b, a),
{
    if lex_lt(b, a) {
        lemma_lex_lt_transitive(a, b, a);
        lemma_lex_lt_irreflexive(a);
    }
}

/// Ordered byte sequences are distinct.
pub proof fn lemma_lex_lt_neq(a: Seq<u8>, b: Seq<u8>)
    requires
        lex_lt(a, b),
    ensures
        a != b,
{
    if a == b {
        lemma_lex_lt_irreflexive(a);
    }
}

/// How two byte sequences relate once they agree on their first `i`
/// positions: the first difference decides, a spent shorter one precedes,
/// and two spent ones are equal.
proof fn lemma_lex_from_prefix(a: Seq<u8>, b: Seq<u8>, i: int)
    requires
        0 <= i <= a.len(),
        i <= b.len(),
        forall|j: int| 0 <= j < i ==> a[j] == b[j],
    ensures
        i < a.len() && i < b.len() && a[i] < b[i] ==> lex_lt(a, b),
        i == a.len() && i < b.len() ==> lex_lt(a, b),
        i == a.len() && i == b.len() ==> a == b,
    decreases i,
{
    if i == 0 {
        if a.len() == 0 && b.len() == 0 {
            assert(a =~= b);
        }
    } else {
        let a1 = a.drop_first();
        let b1 = b.drop_first();
        assert(forall|j: int| 0 <= j < i - 1 ==> a1[j] == b1[j]);
        lemma_lex_from_prefix(a1, b1, i - 1);
        if i - 1 == a1.len() && i - 1 == b1.len() && a1 == b1 {
            assert(a =~= b);
        }
    }
}

/// Result of a three-way byte-sequence comparison.
#[derive(Debug, Clone, Copy, PartialEq, Eq, Structural)]
pub enum ByteOrdering {
    Less,
    Equal,
    Greater,
}

/// Compare two byte strings in lexicographic order.
pub fn bytes_cmp(a: &Vec<u8>, b: &Vec<u8>) -> (o: ByteOrdering)
    ensures
        o is Equal <==> a@ == b@,
        o is Less <==> lex_lt(a@, b@),
        o is Greater <==> lex_lt(b@, a@),
{
    let a_len = a.len();
    let b_len = b.len();
    let mut i: usize = 0;
    while i < a_len && i < b_len
        invariant
            a_len == a@.len(),
            b_len == b@.len(),
            i <= a_len,
            i <= b_len,
            forall|j: int| 0 <= j < i ==> a@[j] == b@[j],
        decreases a_len - i,
    {
        let x = a[i];
        let y = b[i];
        if x < y {
            proof {
                lemma_lex_from_prefix(a@, b@, i as int);
                lemma_lex_lt_asymmetric(a@, b@);
                lemma_lex_lt_neq(a@, b@);
            }
            return ByteOrdering::Less;
        }
        if x > y {
            proof {
                lemma_lex_from_prefix(b@, a@, i as int);
                lemma_lex_lt_asymmetric(b@, a@);
                lemma_lex_lt_neq(b@, a@);
            }
            return ByteOrdering::Greater;
        }
        i += 1;
    }
    proof {
        if a@.len() < b@.len() {
            lemma_lex_from_prefix(a@, b@, i as int);
            lemma_lex_lt_asymmetric(a@, b@);
            lemma_lex_lt_neq(a@, b@);
        } else if b@.len() < a@.len() {
            lemma_lex_from_prefix(b@, a@, i as int);
            lemma_lex_lt_asymmetric(b@, a@);
            lemma_lex_lt_neq(b@, a@);
        } else {
            lemma_lex_from_prefix(a@, b@, i as int);
            lemma_lex_lt_irreflexive(a@);
        }
    }
    if a_len < b_len {
        ByteOrdering::Less
    } else if a_len > b_len {
        ByteOrdering::Greater
    } else {
        ByteOrdering::Equal
    }
}

} // verus!
