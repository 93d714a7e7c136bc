//! Generating a random password: three symbols, three digits, three capital and three
//! small letters, no character twice, in random order.
use vstd::prelude::*;
use vstd::multiset::Multiset;
use rand::seq::SliceRandom;
use crate::text::push_char_from;

verus! {

/// The symbols a password draws from.
pub open spec fn symbol_pool() -> Seq<char> {
    seq!['!', '@', '#', '$', '%', '&', '*', '?']
}

/// The digits a password draws from.
pub open spec fn digit_pool() -> Seq<char> {
    seq!['1', '2', '3', '4', '5', '6', '7', '8', '9', '0']
}

/// The capital letters a password draws from.
pub open spec fn upper_pool() -> Seq<char> {
    seq![
        'A', 'B', 'C', 'D', 'E', 'F', 'G', 'H', 'I', 'J', 'K', 'L', 'M',
        'N', 'O', 'P', 'Q', 'R', 'S', 'T', 'U', 'V', 'W', 'X', 'Y', 'Z',
    ]
}

/// The small letters a password draws from.
pub open spec fn lower_pool() -> Seq<char> {
    seq![
        'a', 'b', 'c', 'd', 'e', 'f', 'g', 'h', 'i', 'j', 'k', 'l', 'm',
        'n', 'o', 'p', 'q', 'r', 's', 't', 'u', 'v', 'w', 'x', 'y', 'z',
    ]
}

/// Membership in a pool, as a predicate.
pub open spec fn in_pool(pool: Seq<char>) -> spec_fn(char) -> bool {
    |c: char| pool.contains(c)
}

/// How many characters of `p` (counted with repetition) come from `pool`.
pub open spec fn count_from(p: Seq<char>, pool: Seq<char>) -> nat {
    p.to_multiset().filter(in_pool(pool)).len()
}

/// What every generated password is: twelve characters, none twice, three from each pool,
/// and nothing from outside the pools.
pub open spec fn well_formed_password(p: Seq<char>) -> bool {
    &&& p.len() == 12
    &&& p.no_duplicates()
    &&& count_from(p, symbol_pool()) == 3
    &&& count_from(p, digit_pool()) == 3
    &&& count_from(p, upper_pool()) == 3
    &&& count_from(p, lower_pool()) == 3
    &&& forall|i: int|
        0 <= i < p.len() ==> symbol_pool().contains(#[trigger] p[i]) || digit_pool().contains(p[i])
            || upper_pool().contains(p[i]) || lower_pool().contains(p[i])
}

#[verifier::external_type_specification]
#[verifier::external_body]
pub struct ExThreadRng(rand::rngs::ThreadRng);

/// `rand::thread_rng`: a handle to the thread's random number generator.
#[verifier::external_body]
fn thread_rng() -> rand::rngs::ThreadRng {
    rand::thread_rng()
}

/// `SliceRandom::choose_multiple` on `pool`, collected: `min(amount, pool.len())` elements
/// drawn at random from distinct positions of `pool`, in random order. Which ones, and in
/// which order, is left open; that they come from distinct positions is stated as the
/// drawn multiset lying within the pool's.
#[verifier::external_body]
fn choose_multiple(pool: &Vec<char>, rng: &mut rand::rngs::ThreadRng, amount: usize) -> (r: Vec<char>)
    ensures
        r@.len() == if amount <= pool@.len() { amount as nat } else { pool@.len() },
        r@.to_multiset().subset_of(pool@.to_multiset()),
{
    pool.choose_multiple(rng, amount).cloned().collect()
}

proof fn lemma_drawn_from_distinct(s: Seq<char>, t: Seq<char>)
    requires
        s.to_multiset().subset_of(t.to_multiset()),
        t.no_duplicates(),
    ensures
        s.no_duplicates(),
        forall|i: int| 0 <= i < s.len() ==> t.contains(#[trigger] s[i]),
{
    broadcast use vstd::multiset::group_multiset_axioms;
    broadcast use vstd::seq_lib::group_to_multiset_ensures;
    t.lemma_multiset_has_no_duplicates();
    assert forall|x: char| s.to_multiset().contains(x) implies s.to_multiset().count(x) == 1 by {
        assert(s.to_multiset().count(x) <= t.to_multiset().count(x));
    }
    s.lemma_multiset_has_no_duplicates_conv();
    assert forall|i: int| 0 <= i < s.len() implies t.contains(#[trigger] s[i]) by {
        assert(s.contains(s[i]));
        assert(s.to_multiset().count(s[i]) > 0);
    }
}

proof fn lemma_same_size_submultiset(m1: Multiset<char>, m2: Multiset<char>)
    requires
        m1.subset_of(m2),
        m1.len() == m2.len(),
    ensures
        m1 == m2,
{
    broadcast use vstd::multiset::group_multiset_axioms;
    vstd::multiset::lemma_multiset_empty_len(m2.sub(m1));
    assert forall|v: char| m1.count(v) == m2.count(v) by {
        assert(m2.sub(m1).count(v) == 0);
    }
    assert(m1 =~= m2);
}

proof fn lemma_count_all_in(s: Seq<char>, pool: Seq<char>)
    requires
        forall|i: int| 0 <= i < s.len() ==> pool.contains(#[trigger] s[i]),
    ensures
        count_from(s, pool) == s.len(),
{
    broadcast use vstd::multiset::group_multiset_axioms;
    broadcast use vstd::seq_lib::group_to_multiset_ensures;
    let m = s.to_multiset();
    assert forall|v: char| #[trigger] m.filter(in_pool(pool)).count(v) == m.count(v) by {
        if m.count(v) > 0 {
            assert(s.contains(v));
        }
    }
    assert(m.filter(in_pool(pool)) =~= m);
}

proof fn lemma_count_none_in(s: Seq<char>, pool: Seq<char>)
    requires
        forall|i: int| 0 <= i < s.len() ==> !pool.contains(#[trigger] s[i]),
    ensures
        count_from(s, pool) == 0,
{
    broadcast use vstd::multiset::group_multiset_axioms;
    broadcast use vstd::seq_lib::group_to_multiset_ensures;
    let m = s.to_multiset();
    assert forall|v: char| #[trigger] m.filter(in_pool(pool)).count(v) == 0 by {
        if m.count(v) > 0 {
            assert(s.contains(v));
            let i = choose|i: int| 0 <= i < s.len() && s[i] == v;
            assert(!pool.contains(s[i]));
        }
    }
    assert(m.filter(in_pool(pool)) =~= Multiset::empty());
}

proof fn lemma_count_concat(a: Seq<char>, b: Seq<char>, pool: Seq<char>)
    ensures
        count_from(a + b, pool) == count_from(a, pool) + count_from(b, pool),
{
    broadcast use vstd::multiset::group_multiset_axioms;
    vstd::seq_lib::lemma_multiset_commutative(a, b);
    let f = in_pool(pool);
    assert((a + b).to_multiset().filter(f) =~= a.to_multiset().filter(f).add(b.to_multiset().filter(f)));
}

/// Draws three characters of `pool`.
fn draw_three(pool: &Vec<char>, rng: &mut rand::rngs::ThreadRng) -> (r: Vec<char>)
    requires
        pool@.len() >= 3,
        pool@.no_duplicates(),
    ensures
        r@.len() == 3,
        r@.no_duplicates(),
        forall|i: int| 0 <= i < r@.len() ==> pool@.contains(#[trigger] r@[i]),
{
    let r = choose_multiple(pool, rng, 3);
    proof {
        lemma_drawn_from_distinct(r@, pool@);
    }
    r
}

proof fn lemma_pools_disjoint()
    ensures
        forall|c: char| symbol_pool().contains(c) ==> !digit_pool().contains(c) && !upper_pool().contains(c) && !lower_pool().contains(c),
        forall|c: char| digit_pool().contains(c) ==> !upper_pool().contains(c) && !lower_pool().contains(c),
        forall|c: char| upper_pool().contains(c) ==> !lower_pool().contains(c),
{
    assert forall|c: char| symbol_pool().contains(c) implies !digit_pool().contains(c) && !upper_pool().contains(c) && !lower_pool().contains(c) by {
        let i = choose|i: int| 0 <= i < symbol_pool().len() && symbol_pool()[i] == c;
        if digit_pool().contains(c) {
            let j = choose|j: int| 0 <= j < digit_pool().len() && digit_pool()[j] == c;
        }
        if upper_pool().contains(c) {
            let j = choose|j: int| 0 <= j < upper_pool().len() && upper_pool()[j] == c;
        }
        if lower_pool().contains(c) {
            let j = choose|j: int| 0 <= j < lower_pool().len() && lower_pool()[j] == c;
        }
    }
    assert forall|c: char| digit_pool().contains(c) implies !upper_pool().contains(c) && !lower_pool().contains(c) by {
        let i = choose|i: int| 0 <= i < digit_pool().len() && digit_pool()[i] == c;
        if upper_pool().contains(c) {
            let j = choose|j: int| 0 <= j < upper_pool().len() && upper_pool()[j] == c;
        }
        if lower_pool().contains(c) {
            let j = choose|j: int| 0 <= j < lower_pool().len() && lower_pool()[j] == c;
        }
    }
    assert forall|c: char| upper_pool().contains(c) implies !lower_pool().contains(c) by {
        let i = choose|i: int| 0 <= i < upper_pool().len() && upper_pool()[i] == c;
        if lower_pool().contains(c) {
            let j = choose|j: int| 0 <= j < lower_pool().len() && lower_pool()[j] == c;
        }
    }
}

proof fn lemma_pools_distinct()
    ensures
        symbol_pool().no_duplicates(),
        digit_pool().no_duplicates(),
        upper_pool().no_duplicates(),
        lower_pool().no_duplicates(),
{
}

/// Generates a random password: three symbols, three digits, three capital and three small
/// letters, drawn without repetition and put in random order.
pub fn generate() -> (r: String)
    ensures
        well_formed_password(r@),
{
    let symbols: Vec<char> = vec!['!', '@', '#', '$', '%', '&', '*', '?'];
    let numbers: Vec<char> = vec!['1', '2', '3', '4', '5', '6', '7', '8', '9', '0'];
    let big_alph: Vec<char> = vec![
        'A', 'B', 'C', 'D', 'E', 'F', 'G', 'H', 'I', 'J', 'K', 'L', 'M',
        'N', 'O', 'P', 'Q', 'R', 'S', 'T', 'U', 'V', 'W', 'X', 'Y', 'Z',
    ];
    let small_al: Vec<char> = vec![
        'a', 'b', 'c', 'd', 'e', 'f', 'g', 'h', 'i', 'j', 'k', 'l', 'm',
        'n', 'o', 'p', 'q', 'r', 's', 't', 'u', 'v', 'w', 'x', 'y', 'z',
    ];
    proof {
        assert(symbols@ =~= symbol_pool());
        assert(numbers@ =~= digit_pool());
        assert(big_alph@ =~= upper_pool());
        assert(small_al@ =~= lower_pool());
        lemma_pools_distinct();
        lemma_pools_disjoint();
    }
    let mut rng = thread_rng();
    let mut sample1 = draw_three(&symbols, &mut rng);
    let mut sample2 = draw_three(&numbers, &mut rng);
    let mut sample3 = draw_three(&big_alph, &mut rng);
    let mut sample4 = draw_three(&small_al, &mut rng);
    let ghost s1 = sample1@;
    let ghost s2 = sample2@;
    let ghost s3 = sample3@;
    let ghost s4 = sample4@;
    sample1.append(&mut sample2);
    sample1.append(&mut sample3);
    sample1.append(&mut sample4);
    let ghost all = sample1@;
    proof {
        assert(all =~= s1 + s2 + s3 + s4);
        vstd::seq_lib::lemma_no_dup_in_concat(s1, s2);
        vstd::seq_lib::lemma_no_dup_in_concat(s1 + s2, s3);
        vstd::seq_lib::lemma_no_dup_in_concat(s1 + s2 + s3, s4);
        lemma_count_concat(s1 + s2 + s3, s4, symbol_pool());
        lemma_count_concat(s1 + s2, s3, symbol_pool());
        lemma_count_concat(s1, s2, symbol_pool());
        lemma_count_concat(s1 + s2 + s3, s4, digit_pool());
        lemma_count_concat(s1 + s2, s3, digit_pool());
        lemma_count_concat(s1, s2, digit_pool());
        lemma_count_concat(s1 + s2 + s3, s4, upper_pool());
        lemma_count_concat(s1 + s2, s3, upper_pool());
        lemma_count_concat(s1, s2, upper_pool());
        lemma_count_concat(s1 + s2 + s3, s4, lower_pool());
        lemma_count_concat(s1 + s2, s3, lower_pool());
        lemma_count_concat(s1, s2, lower_pool());
        lemma_count_all_in(s1, symbol_pool());
        lemma_count_none_in(s1, digit_pool());
        lemma_count_none_in(s1, upper_pool());
        lemma_count_none_in(s1, lower_pool());
        lemma_count_all_in(s2, digit_pool());
        lemma_count_none_in(s2, symbol_pool());
        lemma_count_none_in(s2, upper_pool());
        lemma_count_none_in(s2, lower_pool());
        lemma_count_all_in(s3, upper_pool());
        lemma_count_none_in(s3, symbol_pool());
        lemma_count_none_in(s3, digit_pool());
        lemma_count_none_in(s3, lower_pool());
        lemma_count_all_in(s4, lower_pool());
        lemma_count_none_in(s4, symbol_pool());
        lemma_count_none_in(s4, digit_pool());
        lemma_count_none_in(s4, upper_pool());
    }
    let sample5 = choose_multiple(&sample1, &mut rng, 12);
    proof {
        broadcast use vstd::seq_lib::group_to_multiset_ensures;
        lemma_same_size_submultiset(sample5@.to_multiset(), all.to_multiset());
        lemma_drawn_from_distinct(sample5@, all);
        assert forall|i: int| 0 <= i < sample5@.len() implies symbol_pool().contains(#[trigger] sample5@[i])
            || digit_pool().contains(sample5@[i]) || upper_pool().contains(sample5@[i])
            || lower_pool().contains(sample5@[i]) by {
            let k = choose|k: int| 0 <= k < all.len() && all[k] == sample5@[i];
            if k < 3 {
                assert(s1[k] == all[k]);
            } else if k < 6 {
                assert(s2[k - 3] == all[k]);
            } else if k < 9 {
                assert(s3[k - 6] == all[k]);
            } else {
                assert(s4[k - 9] == all[k]);
            }
        }
    }
    let alphabet = "!@#$%&*?1234567890ABCDEFGHIJKLMNOPQRSTUVWXYZabcdefghijklmnopqrstuvwxyz";
    proof {
        reveal_strlit("!@#$%&*?1234567890ABCDEFGHIJKLMNOPQRSTUVWXYZabcdefghijklmnopqrstuvwxyz");
        let all_pools = symbol_pool() + digit_pool() + upper_pool() + lower_pool();
        assert(alphabet@ =~= all_pools);
        assert forall|c: char|
            symbol_pool().contains(c) || digit_pool().contains(c) || upper_pool().contains(c)
                || lower_pool().contains(c) implies alphabet@.contains(c) by {
            if symbol_pool().contains(c) {
                let j = choose|j: int| 0 <= j < symbol_pool().len() && symbol_pool()[j] == c;
                assert(all_pools[j] == c);
            } else if digit_pool().contains(c) {
                let j = choose|j: int| 0 <= j < digit_pool().len() && digit_pool()[j] == c;
                assert(all_pools[8 + j] == c);
            } else if upper_pool().contains(c) {
                let j = choose|j: int| 0 <= j < upper_pool().len() && upper_pool()[j] == c;
                assert(all_pools[18 + j] == c);
            } else {
                let j = choose|j: int| 0 <= j < lower_pool().len() && lower_pool()[j] == c;
                assert(all_pools[44 + j] == c);
            }
        }
    }
    let mut password = String::new();
    let mut k: usize = 0;
    while k < sample5.len()
        invariant
            k <= sample5@.len(),
            password@ == sample5@.take(k as int),
            forall|i: int| 0 <= i < sample5@.len() ==> alphabet@.contains(#[trigger] sample5@[i]),
        decreases sample5@.len() - k,
    {
        push_char_from(&mut password, alphabet, sample5[k]);
        k = k + 1;
        assert(password@ =~= sample5@.take(k as int));
    }
    assert(sample5@.take(sample5@.len() as int) =~= sample5@);
    password
}

} // verus!
