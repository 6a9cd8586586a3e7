//! An in-memory session store: a verified backend for the `SessionManage`
//! contract.
//!
//! Records live in a vector of `(identifier, data)` pairs with pairwise
//! distinct identifiers. Identifiers are issued from a counter, as `"S"`
//! followed by the counter in decimal, so a fresh identifier can never collide
//! with a live one.

use vstd::prelude::*;

use crate::manager::DeepClone;
use crate::manager::SessionManage;

verus! {

/// Error a `MemoryStore` operation reports when it cannot persist a record.
#[derive(Debug, Clone, PartialEq, Eq, Structural)]
pub enum StoreError {
    /// The identifier counter is used up; no fresh identifier can be issued.
    IdentifiersExhausted,
}

spec fn digit_char(d: nat) -> char {
    if d == 0 {
        '0'
    } else if d == 1 {
        '1'
    } else if d == 2 {
        '2'
    } else if d == 3 {
        '3'
    } else if d == 4 {
        '4'
    } else if d == 5 {
        '5'
    } else if d == 6 {
        '6'
    } else if d == 7 {
        '7'
    } else if d == 8 {
        '8'
    } else {
        '9'
    }
}

spec fn char_digit(c: char) -> nat {
    if c == '0' {
        0
    } else if c == '1' {
        1
    } else if c == '2' {
        2
    } else if c == '3' {
        3
    } else if c == '4' {
        4
    } else if c == '5' {
        5
    } else if c == '6' {
        6
    } else if c == '7' {
        7
    } else if c == '8' {
        8
    } else {
        9
    }
}

/// The decimal digits of `n`, most significant first.
spec fn dec_chars(n: nat) -> Seq<char>
    decreases n,
{
    if n < 10 {
        seq![digit_char(n)]
    } else {
        dec_chars(n / 10).push(digit_char(n % 10))
    }
}

/// The number a digit sequence denotes; inverse of `dec_chars`.
spec fn dec_value(s: Seq<char>) -> nat
    decreases s.len(),
{
    if s.len() == 0 {
        0
    } else {
        10 * dec_value(s.drop_last()) + char_digit(s.last())
    }
}

/// The identifier text issued for counter value `n`.
pub closed spec fn id_chars_of(n: nat) -> Seq<char> {
    seq!['S'] + dec_chars(n)
}

proof fn lemma_digit_round_trip(d: nat)
    requires
        d < 10,
    ensures
        char_digit(digit_char(d)) == d,
{
}

proof fn lemma_dec_chars_value(n: nat)
    ensures
        dec_value(dec_chars(n)) == n,
    decreases n,
{
    lemma_digit_round_trip(n % 10);
    if n < 10 {
        let s = dec_chars(n);
        assert(s.drop_last() =~= Seq::<char>::empty());
        assert(s.last() == digit_char(n));
        assert(dec_value(s) == 10 * dec_value(Seq::<char>::empty()) + char_digit(digit_char(n)));
    } else {
        lemma_dec_chars_value(n / 10);
        let s = dec_chars(n);
        assert(s.drop_last() =~= dec_chars(n / 10));
        assert(s.last() == digit_char(n % 10));
        assert(dec_value(s) == 10 * (n / 10) + n % 10);
        assert(10 * (n / 10) + n % 10 == n) by (nonlinear_arith);
    }
}

proof fn lemma_id_chars_injective(a: nat, b: nat)
    requires
        id_chars_of(a) == id_chars_of(b),
    ensures
        a == b,
{
    assert(dec_chars(a) =~= dec_chars(b)) by {
        assert(id_chars_of(a).len() == 1 + dec_chars(a).len());
        assert(id_chars_of(b).len() == 1 + dec_chars(b).len());
        assert forall|i: int| 0 <= i < dec_chars(a).len() implies dec_chars(a)[i] == dec_chars(
            b,
        )[i] by {
            assert(id_chars_of(a)[i + 1] == dec_chars(a)[i]);
            assert(id_chars_of(b)[i + 1] == dec_chars(b)[i]);
        }
    }
    lemma_dec_chars_value(a);
    lemma_dec_chars_value(b);
}

fn digit_str(d: u64) -> (s: &'static str)
    requires
        d < 10,
    ensures
        s@ =~= seq![digit_char(d as nat)],
{
    proof {
        reveal_strlit("0");
        reveal_strlit("1");
        reveal_strlit("2");
        reveal_strlit("3");
        reveal_strlit("4");
        reveal_strlit("5");
        reveal_strlit("6");
        reveal_strlit("7");
        reveal_strlit("8");
        reveal_strlit("9");
    }
    if d == 0 {
        "0"
    } else if d == 1 {
        "1"
    } else if d == 2 {
        "2"
    } else if d == 3 {
        "3"
    } else if d == 4 {
        "4"
    } else if d == 5 {
        "5"
    } else if d == 6 {
        "6"
    } else if d == 7 {
        "7"
    } else if d == 8 {
        "8"
    } else {
        "9"
    }
}

fn push_dec(n: u64, out: &mut String)
    ensures
        final(out)@ == old(out)@ + dec_chars(n as nat),
    decreases n,
{
    if n < 10 {
        out.append(digit_str(n));
    } else {
        push_dec(n / 10, out);
        out.append(digit_str(n % 10));
        assert(final(out)@ =~= old(out)@ + dec_chars(n as nat));
    }
}

/// The association a list of `(identifier, data)` pairs spells out.
spec fn map_of<D>(entries: Seq<(String, D)>) -> Map<Seq<char>, D>
    decreases entries.len(),
{
    if entries.len() == 0 {
        Map::empty()
    } else {
        map_of(entries.drop_last()).insert(entries.last().0@, entries.last().1)
    }
}

/// Pairwise distinct identifiers.
spec fn distinct_keys<D>(entries: Seq<(String, D)>) -> bool {
    forall|i: int, j: int|
        0 <= i < j < entries.len() ==> entries[i].0@ != entries[j].0@
}

proof fn lemma_map_of_contains<D>(entries: Seq<(String, D)>, k: Seq<char>)
    ensures
        map_of(entries).contains_key(k) <==> exists|i: int|
            0 <= i < entries.len() && entries[i].0@ == k,
    decreases entries.len(),
{
    if entries.len() > 0 {
        let prefix = entries.drop_last();
        lemma_map_of_contains(prefix, k);
        if map_of(entries).contains_key(k) {
            if entries.last().0@ == k {
                assert(entries[entries.len() - 1].0@ == k);
            } else {
                let i = choose|i: int| 0 <= i < prefix.len() && prefix[i].0@ == k;
                assert(entries[i].0@ == k);
            }
        }
        if exists|i: int| 0 <= i < entries.len() && entries[i].0@ == k {
            let i = choose|i: int| 0 <= i < entries.len() && entries[i].0@ == k;
            if i < entries.len() - 1 {
                assert(prefix[i].0@ == k);
            }
        }
    }
}

proof fn lemma_map_of_index<D>(entries: Seq<(String, D)>, i: int)
    requires
        distinct_keys(entries),
        0 <= i < entries.len(),
    ensures
        map_of(entries).contains_key(entries[i].0@),
        map_of(entries)[entries[i].0@] == entries[i].1,
    decreases entries.len(),
{
    let prefix = entries.drop_last();
    if i < entries.len() - 1 {
        assert(distinct_keys(prefix)) by {
            assert forall|a: int, b: int|
                0 <= a < b < prefix.len() implies prefix[a].0@ != prefix[b].0@ by {
                assert(entries[a].0@ != entries[b].0@);
            }
        }
        lemma_map_of_index(prefix, i);
        assert(entries.last().0@ != entries[i].0@);
        assert(prefix[i] == entries[i]);
    }
}

proof fn lemma_map_of_remove<D>(entries: Seq<(String, D)>, i: int)
    requires
        distinct_keys(entries),
        0 <= i < entries.len(),
    ensures
        map_of(entries.remove(i)) == map_of(entries).remove(entries[i].0@),
    decreases entries.len(),
{
    let k = entries[i].0@;
    let prefix = entries.drop_last();
    assert(distinct_keys(prefix)) by {
        assert forall|a: int, b: int|
            0 <= a < b < prefix.len() implies prefix[a].0@ != prefix[b].0@ by {
            assert(entries[a].0@ != entries[b].0@);
        }
    }
    if i == entries.len() - 1 {
        assert(entries.remove(i) =~= prefix);
        assert(!map_of(prefix).contains_key(k)) by {
            lemma_map_of_contains(prefix, k);
            if exists|j: int| 0 <= j < prefix.len() && prefix[j].0@ == k {
                let j = choose|j: int| 0 <= j < prefix.len() && prefix[j].0@ == k;
                assert(entries[j].0@ == entries[i].0@);
            }
        }
        assert(map_of(entries.remove(i)) =~= map_of(entries).remove(k));
    } else {
        lemma_map_of_remove(prefix, i);
        let shorter = entries.remove(i);
        assert(shorter.drop_last() =~= prefix.remove(i));
        assert(shorter.last() == entries.last());
        let lastk = entries.last().0@;
        assert(lastk != k);
        assert(map_of(shorter) == map_of(prefix.remove(i)).insert(lastk, entries.last().1));
        assert(map_of(prefix).remove(k).insert(lastk, entries.last().1) =~= map_of(
            prefix,
        ).insert(lastk, entries.last().1).remove(k));
        assert(map_of(entries.remove(i)) =~= map_of(entries).remove(k));
    }
}

/// Builds the identifier string for counter value `n`.
fn make_id(n: u64) -> (s: String)
    ensures
        s@ == id_chars_of(n as nat),
{
    proof {
        reveal_strlit("S");
    }
    let mut s = String::from_str("S");
    push_dec(n, &mut s);
    proof {
        assert(s@ =~= id_chars_of(n as nat));
    }
    s
}

/// `k` is an identifier this store issued before the counter reached `bound`.
spec fn key_from_counter(k: Seq<char>, bound: nat) -> bool {
    exists|n: nat| n < bound && k == id_chars_of(n)
}

/// An in-memory backend for the `SessionManage` contract.
///
/// Records are held directly by the store; a shared, concurrency-safe handle
/// around it (a reference-counted lock) is the caller's concern. Lookups and
/// removals never malfunction; creation refuses only when the identifier
/// counter is used up.
#[derive(Debug)]
pub struct MemoryStore<D: Clone> {
    next_id: u64,
    entries: Vec<(String, D)>,
}

impl<D: Clone> MemoryStore<D> {
    #[verifier::type_invariant]
    spec fn wf(self) -> bool {
        &&& distinct_keys(self.entries@)
        &&& forall|i: int|
            #![trigger self.entries@[i]]
            0 <= i < self.entries@.len() ==> key_from_counter(
                self.entries@[i].0@,
                self.next_id as nat,
            )
    }
}

impl<D: DeepClone> MemoryStore<D> {
    /// An empty store whose first issued identifier is `"S1"`.
    pub fn new() -> (r: Self)
        ensures
            r.sessions() == Map::<Seq<char>, D>::empty(),
            r.reliable(),
            r.can_create(),
    {
        MemoryStore { next_id: 1, entries: Vec::new() }
    }

    /// An empty store that numbers its identifiers starting from `first`.
    pub fn numbered_from(first: u64) -> (r: Self)
        ensures
            r.sessions() == Map::<Seq<char>, D>::empty(),
            r.reliable(),
            r.can_create() == (first < u64::MAX),
    {
        MemoryStore { next_id: first, entries: Vec::new() }
    }

    /// How many records are currently live.
    pub fn len(&self) -> (n: usize)
        ensures
            n == self.sessions().dom().len(),
    {
        proof {
            use_type_invariant(self);
            lemma_map_of_len(self.entries@);
        }
        self.entries.len()
    }
}

proof fn lemma_map_of_len<D>(entries: Seq<(String, D)>)
    requires
        distinct_keys(entries),
    ensures
        map_of(entries).dom().len() == entries.len(),
        map_of(entries).dom().finite(),
    decreases entries.len(),
{
    if entries.len() > 0 {
        let prefix = entries.drop_last();
        assert(distinct_keys(prefix)) by {
            assert forall|a: int, b: int|
                0 <= a < b < prefix.len() implies prefix[a].0@ != prefix[b].0@ by {
                assert(entries[a].0@ != entries[b].0@);
            }
        }
        lemma_map_of_len(prefix);
        let k = entries.last().0@;
        assert(!map_of(prefix).contains_key(k)) by {
            lemma_map_of_contains(prefix, k);
            if exists|j: int| 0 <= j < prefix.len() && prefix[j].0@ == k {
                let j = choose|j: int| 0 <= j < prefix.len() && prefix[j].0@ == k;
                assert(entries[j].0@ == entries[entries.len() - 1].0@);
            }
        }
        vstd::set::axiom_set_insert_finite(map_of(prefix).dom(), k);
        vstd::set::axiom_set_insert_len(map_of(prefix).dom(), k);
        assert(map_of(entries).dom() =~= map_of(prefix).dom().insert(k));
    }
}

impl<D: DeepClone> SessionManage<D> for MemoryStore<D> {
    type SessionID = String;

    type UserInfo = D;

    type Error = StoreError;

    closed spec fn sessions(&self) -> Map<Seq<char>, D> {
        map_of(self.entries@)
    }

    closed spec fn reliable(&self) -> bool {
        true
    }

    closed spec fn can_create(&self) -> bool {
        self.next_id < u64::MAX
    }

    open spec fn id_chars(id: &String) -> Seq<char> {
        id@
    }

    open spec fn stored(data: &D) -> D {
        *data
    }

    fn add_session(&mut self, session_data: D) -> (r: Result<String, StoreError>) {
        proof {
            use_type_invariant(&*self);
        }
        let ghost old_entries = self.entries@;
        let ghost bound = self.next_id as nat;
        if self.next_id == u64::MAX {
            return Err(StoreError::IdentifiersExhausted);
        }
        let id = make_id(self.next_id);
        proof {
            assert forall|i: int| 0 <= i < old_entries.len() implies old_entries[i].0@
                != id@ by {
                assert(key_from_counter(old_entries[i].0@, bound));
                let n = choose|n: nat| n < bound && old_entries[i].0@ == id_chars_of(n);
                if old_entries[i].0@ == id@ {
                    lemma_id_chars_injective(n, bound);
                }
            }
            lemma_map_of_contains(old_entries, id@);
        }
        let mut es: Vec<(String, D)> = Vec::new();
        core::mem::swap(&mut es, &mut self.entries);
        let returned = id.clone();
        es.push((id, session_data));
        self.next_id = self.next_id + 1;
        proof {
            assert(es@.drop_last() =~= old_entries);
            assert forall|i: int| #![trigger es@[i]] 0 <= i < es@.len() implies key_from_counter(
                es@[i].0@,
                self.next_id as nat,
            ) by {
                if i < es@.len() - 1 {
                    assert(key_from_counter(old_entries[i].0@, bound));
                    let n = choose|n: nat| n < bound && old_entries[i].0@ == id_chars_of(n);
                    assert(n < self.next_id as nat);
                } else {
                    assert(es@[i].0@ == id_chars_of(bound));
                }
            }
        }
        core::mem::swap(&mut es, &mut self.entries);
        Ok(returned)
    }

    fn verify_session(&self, session_id: &str) -> (r: Result<Option<D>, StoreError>) {
        proof {
            use_type_invariant(self);
        }
        let key = String::from_str(session_id);
        let n = self.entries.len();
        let mut i: usize = 0;
        while i < n
            invariant
                n == self.entries@.len(),
                i <= n,
                key@ == session_id@,
                distinct_keys(self.entries@),
                forall|j: int| 0 <= j < i ==> self.entries@[j].0@ != session_id@,
            decreases n - i,
        {
            if self.entries[i].0 == key {
                let data = self.entries[i].1.deep_clone();
                proof {
                    lemma_map_of_index(self.entries@, i as int);
                }
                return Ok(Some(data));
            }
            i = i + 1;
        }
        proof {
            lemma_map_of_contains(self.entries@, session_id@);
        }
        Ok(None)
    }

    fn delete_session(&mut self, session_id: &str) -> (r: Result<(), StoreError>) {
        proof {
            use_type_invariant(&*self);
        }
        let ghost old_entries = self.entries@;
        let key = String::from_str(session_id);
        let n = self.entries.len();
        let mut i: usize = 0;
        while i < n
            invariant
                self.entries@ == old_entries,
                old_entries == old(self).entries@,
                self.next_id == old(self).next_id,
                n == old_entries.len(),
                i <= n,
                key@ == session_id@,
                forall|j: int| 0 <= j < i ==> old_entries[j].0@ != session_id@,
            decreases n - i,
        {
            proof {
                use_type_invariant(&*self);
            }
            if self.entries[i].0 == key {
                let ghost bound = self.next_id as nat;
                let mut es: Vec<(String, D)> = Vec::new();
                core::mem::swap(&mut es, &mut self.entries);
                es.remove(i);
                proof {
                    lemma_map_of_remove(old_entries, i as int);
                    assert forall|a: int, b: int|
                        0 <= a < b < es@.len() implies es@[a].0@ != es@[b].0@ by {
                        let a0: int = if a < i { a } else { a + 1 };
                        let b0: int = if b < i { b } else { b + 1 };
                        assert(es@[a] == old_entries[a0]);
                        assert(es@[b] == old_entries[b0]);
                    }
                    assert forall|j: int| #![trigger es@[j]] 0 <= j < es@.len() implies
                        key_from_counter(es@[j].0@, bound) by {
                        let j0: int = if j < i { j } else { j + 1 };
                        assert(es@[j] == old_entries[j0]);
                        assert(key_from_counter(old_entries[j0].0@, bound));
                    }
                }
                core::mem::swap(&mut es, &mut self.entries);
                proof {
                    assert(self.entries@ == old_entries.remove(i as int));
                    assert(old_entries[i as int].0@ == session_id@);
                    assert(map_of(self.entries@) == map_of(old_entries).remove(session_id@));
                }
                return Ok(());
            }
            i = i + 1;
        }
        proof {
            lemma_map_of_contains(old_entries, session_id@);
            assert(map_of(old_entries).remove(session_id@) =~= map_of(old_entries));
        }
        Ok(())
    }
}

} // verus!
