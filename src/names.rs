use vstd::prelude::*;

verus! {

/// ASCII code of the prefix of statement names.
pub const STATEMENT_PREFIX: u8 = 115;

/// ASCII code of the prefix of portal names.
pub const PORTAL_PREFIX: u8 = 112;

/// The ASCII decimal digits of `n`, most significant first, without leading zeros.
pub open spec fn decimal(n: nat) -> Seq<u8>
    decreases n,
{
    if n < 10 {
        seq![(48 + n) as u8]
    } else {
        decimal(n / 10).push((48 + n % 10) as u8)
    }
}

/// The name of the `n`-th prepared statement: `s` followed by `n` in decimal.
pub open spec fn statement_name(n: nat) -> Seq<u8> {
    seq![STATEMENT_PREFIX].add(decimal(n))
}

/// The name of the `n`-th portal: `p` followed by `n` in decimal.
pub open spec fn portal_name(n: nat) -> Seq<u8> {
    seq![PORTAL_PREFIX].add(decimal(n))
}

proof fn lemma_decimal_len(n: nat)
    ensures
        decimal(n).len() >= 1,
        n >= 10 ==> decimal(n).len() >= 2,
    decreases n,
{
    if n >= 10 {
        lemma_decimal_len(n / 10);
    }
}

proof fn lemma_decimal_injective(a: nat, b: nat)
    requires
        decimal(a) == decimal(b),
    ensures
        a == b,
    decreases a,
{
    lemma_decimal_len(a);
    lemma_decimal_len(b);
    if a < 10 && b < 10 {
        assert(decimal(a)[0] == (48 + a) as u8);
        assert(decimal(b)[0] == (48 + b) as u8);
        assert(decimal(a)[0] == decimal(b)[0]);
    } else if a < 10 {
        assert(decimal(a).len() == 1);
    } else if b < 10 {
        assert(decimal(b).len() == 1);
    } else {
        let da = decimal(a / 10);
        let db = decimal(b / 10);
        assert(decimal(a).last() == (48 + a % 10) as u8);
        assert(decimal(b).last() == (48 + b % 10) as u8);
        assert(decimal(a).last() == decimal(b).last());
        assert(decimal(a).drop_last() =~= da);
        assert(decimal(b).drop_last() =~= db);
        lemma_decimal_injective(a / 10, b / 10);
        assert(a % 10 == b % 10);
        assert(a == 10 * (a / 10) + a % 10);
        assert(b == 10 * (b / 10) + b % 10);
    }
}

/// Distinct counters give distinct names, and no statement name is a portal name.
pub proof fn lemma_names_distinct(i: nat, j: nat)
    ensures
        i != j ==> statement_name(i) != statement_name(j),
        i != j ==> portal_name(i) != portal_name(j),
        statement_name(i) != portal_name(j),
{
    if statement_name(i) == statement_name(j) {
        assert(statement_name(i).drop_first() =~= decimal(i));
        assert(statement_name(j).drop_first() =~= decimal(j));
        lemma_decimal_injective(i, j);
    }
    if portal_name(i) == portal_name(j) {
        assert(portal_name(i).drop_first() =~= decimal(i));
        assert(portal_name(j).drop_first() =~= decimal(j));
        lemma_decimal_injective(i, j);
    }
    assert(statement_name(i)[0] != portal_name(j)[0]);
}

/// The names of any `n` successive allocations of one kind are pairwise distinct, and
/// distinct from every name of the other kind.
pub proof fn lemma_allocations_distinct(start: nat, n: nat)
    ensures
        forall|i: nat, j: nat|
            i < n && j < n && i != j ==> #[trigger] statement_name(start + i) != #[trigger] statement_name(start + j),
        forall|i: nat, j: nat|
            i < n && j < n && i != j ==> #[trigger] portal_name(start + i) != #[trigger] portal_name(start + j),
        forall|i: nat, j: nat| #[trigger] statement_name(i) != #[trigger] portal_name(j),
{
    assert forall|i: nat, j: nat|
        i < n && j < n && i != j implies #[trigger] statement_name(start + i) != #[trigger] statement_name(start + j) by {
        lemma_names_distinct(start + i, start + j);
    }
    assert forall|i: nat, j: nat|
        i < n && j < n && i != j implies #[trigger] portal_name(start + i) != #[trigger] portal_name(start + j) by {
        lemma_names_distinct(start + i, start + j);
    }
    assert forall|i: nat, j: nat| #[trigger] statement_name(i) != #[trigger] portal_name(j) by {
        lemma_names_distinct(i, j);
    }
}

/// Appends the decimal digits of `n` to `out`.
fn push_decimal(out: &mut Vec<u8>, n: u64)
    ensures
        final(out)@ == old(out)@ + decimal(n as nat),
    decreases n,
{
    if n >= 10 {
        push_decimal(out, n / 10);
    }
    let digit: u8 = (n % 10) as u8;
    out.push(48 + digit);
    proof {
        assert(decimal(n as nat) =~= if n < 10 {
            seq![(48 + n) as u8]
        } else {
            decimal((n / 10) as nat).push((48 + n % 10) as u8)
        });
    }
}

/// Source of statement and portal names that are never handed out twice.
pub struct NameAllocator {
    /// Number of statement names handed out so far.
    pub statements: u64,
    /// Number of portal names handed out so far.
    pub portals: u64,
}

impl NameAllocator {
    pub fn new() -> (r: NameAllocator)
        ensures
            r.statements == 0,
            r.portals == 0,
    {
        NameAllocator { statements: 0, portals: 0 }
    }

    /// A fresh statement name, `s` and the number of statement names made before it.
    pub fn next_statement(&mut self) -> (r: Vec<u8>)
        requires
            old(self).statements < u64::MAX,
        ensures
            r@ == statement_name(old(self).statements as nat),
            forall|k: nat| k < old(self).statements ==> r@ != #[trigger] statement_name(k),
            final(self).statements == old(self).statements + 1,
            final(self).portals == old(self).portals,
    {
        let mut r: Vec<u8> = Vec::new();
        r.push(STATEMENT_PREFIX);
        push_decimal(&mut r, self.statements);
        self.statements = self.statements + 1;
        proof {
            assert(r@ =~= statement_name(old(self).statements as nat));
            assert forall|k: nat| k < old(self).statements implies r@ != #[trigger] statement_name(k) by {
                lemma_names_distinct(old(self).statements as nat, k);
            }
        }
        r
    }

    /// A fresh portal name, `p` and the number of portal names made before it.
    pub fn next_portal(&mut self) -> (r: Vec<u8>)
        requires
            old(self).portals < u64::MAX,
        ensures
            r@ == portal_name(old(self).portals as nat),
            forall|k: nat| k < old(self).portals ==> r@ != #[trigger] portal_name(k),
            final(self).portals == old(self).portals + 1,
            final(self).statements == old(self).statements,
    {
        let mut r: Vec<u8> = Vec::new();
        r.push(PORTAL_PREFIX);
        push_decimal(&mut r, self.portals);
        self.portals = self.portals + 1;
        proof {
            assert(r@ =~= portal_name(old(self).portals as nat));
            assert forall|k: nat| k < old(self).portals implies r@ != #[trigger] portal_name(k) by {
                lemma_names_distinct(k, old(self).portals as nat);
            }
        }
        r
    }
}

} // verus!
