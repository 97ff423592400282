//! Character sequences: case folding, code-point order and sorting by a key.
use vstd::prelude::*;
use vstd::multiset::*;

verus! {

broadcast use vstd::seq_lib::group_to_multiset_ensures;

/// What `str::to_lowercase` makes of a string.
pub uninterp spec fn lower_of(s: Seq<char>) -> Seq<char>;

/// Relies on `str::to_lowercase`: the lowercase form of `s`, which depends
/// on the characters of `s` alone.
#[verifier::external_body]
pub(crate) fn lowercase(s: &str) -> (r: String)
    ensures
        r@ == lower_of(s@),
{
    s.to_lowercase()
}

/// The view of an optional string.
pub open spec fn option_view(o: Option<String>) -> Option<Seq<char>> {
    match o {
        Some(s) => Some(s@),
        None => None,
    }
}

/// Lexicographic order of character sequences by code point; this is the
/// order of `str`'s `Ord`, which compares the UTF-8 bytes.
pub open spec fn chars_le(a: Seq<char>, b: Seq<char>) -> bool
    decreases a.len(),
{
    if a.len() == 0 {
        true
    } else if b.len() == 0 {
        false
    } else if a[0] != b[0] {
        a[0] < b[0]
    } else {
        chars_le(a.drop_first(), b.drop_first())
    }
}

pub proof fn lemma_chars_le_total(a: Seq<char>, b: Seq<char>)
    ensures
        chars_le(a, b) || chars_le(b, a),
    decreases a.len(),
{
    if a.len() > 0 && b.len() > 0 && a[0] == b[0] {
        lemma_chars_le_total(a.drop_first(), b.drop_first());
    }
}

pub proof fn lemma_chars_le_transitive(a: Seq<char>, b: Seq<char>, c: Seq<char>)
    requires
        chars_le(a, b),
        chars_le(b, c),
    ensures
        chars_le(a, c),
    decreases a.len(),
{
    if a.len() > 0 && b.len() > 0 && c.len() > 0 && a[0] == b[0] && b[0] == c[0] {
        lemma_chars_le_transitive(a.drop_first(), b.drop_first(), c.drop_first());
    }
}

pub proof fn lemma_chars_le_reflexive(a: Seq<char>)
    ensures
        chars_le(a, a),
    decreases a.len(),
{
    if a.len() > 0 {
        lemma_chars_le_reflexive(a.drop_first());
    }
}

/// `s` is ordered by `key` under `chars_le`.
pub open spec fn sorted_by_key<T>(s: Seq<T>, key: spec_fn(T) -> Seq<char>) -> bool {
    forall|i: int, j: int|
        0 <= i < j < s.len() ==> chars_le(#[trigger] key(s[i]), #[trigger] key(s[j]))
}

/// The characters of `s`, one element each.
pub fn chars_of(s: &str) -> (r: Vec<char>)
    ensures
        r@ == s@,
{
    let n = s.unicode_len();
    let mut r: Vec<char> = Vec::new();
    let mut i: usize = 0;
    while i < n
        invariant
            n == s@.len(),
            i <= n,
            r@ == s@.subrange(0, i as int),
        decreases n - i,
    {
        r.push(s.get_char(i));
        i += 1;
        assert(r@ =~= s@.subrange(0, i as int));
    }
    assert(r@ =~= s@);
    r
}

/// Compares two character sequences in code-point order.
pub fn chars_le_exec(a: &Vec<char>, b: &Vec<char>) -> (r: bool)
    ensures
        r == chars_le(a@, b@),
{
    let mut i: usize = 0;
    assert(a@.skip(0) =~= a@ && b@.skip(0) =~= b@);
    while i < a.len() && i < b.len()
        invariant
            i <= a.len(),
            i <= b.len(),
            chars_le(a@, b@) == chars_le(a@.skip(i as int), b@.skip(i as int)),
        decreases a.len() - i,
    {
        if a[i] != b[i] {
            return a[i] < b[i];
        }
        assert(a@.skip(i as int).drop_first() =~= a@.skip(i + 1));
        assert(b@.skip(i as int).drop_first() =~= b@.skip(i + 1));
        i += 1;
    }
    i == a.len()
}

/// The position of a least key.
fn index_of_least(keys: &Vec<Vec<char>>) -> (m: usize)
    requires
        keys.len() > 0,
    ensures
        m < keys.len(),
        forall|j: int| 0 <= j < keys.len() ==> chars_le(keys[m as int]@, #[trigger] keys[j]@),
{
    let mut m: usize = 0;
    let mut i: usize = 1;
    proof {
        lemma_chars_le_reflexive(keys[0]@);
    }
    while i < keys.len()
        invariant
            1 <= i <= keys.len(),
            m < i,
            forall|j: int| 0 <= j < i ==> chars_le(keys[m as int]@, #[trigger] keys[j]@),
        decreases keys.len() - i,
    {
        if !chars_le_exec(&keys[m], &keys[i]) {
            proof {
                lemma_chars_le_total(keys[m as int]@, keys[i as int]@);
                assert forall|j: int| 0 <= j <= i implies chars_le(keys[i as int]@, #[trigger] keys[j]@) by {
                    if j < i {
                        lemma_chars_le_transitive(keys[i as int]@, keys[m as int]@, keys[j]@);
                    } else {
                        lemma_chars_le_reflexive(keys[i as int]@);
                    }
                }
            }
            m = i;
        }
        i += 1;
    }
    m
}

/// Sorts `items` by `key`, given `keys[i]` as the key of `items[i]`.
pub fn sort_by_keys<T>(
    items: Vec<T>,
    keys: Vec<Vec<char>>,
    Ghost(key): Ghost<spec_fn(T) -> Seq<char>>,
) -> (r: Vec<T>)
    requires
        items.len() == keys.len(),
        forall|i: int| 0 <= i < items.len() ==> #[trigger] keys[i]@ == key(items[i]),
    ensures
        r@.to_multiset() == items@.to_multiset(),
        sorted_by_key(r@, key),
{
    let ghost all = items@;
    let mut rest = items;
    let mut rest_keys = keys;
    let mut out: Vec<T> = Vec::new();
    proof {
        assert(out@.to_multiset() =~= Multiset::empty());
        assert(out@.to_multiset().add(rest@.to_multiset()) =~= all.to_multiset());
    }
    while rest.len() > 0
        invariant
            rest.len() == rest_keys.len(),
            forall|i: int| 0 <= i < rest.len() ==> #[trigger] rest_keys[i]@ == key(rest[i]),
            out@.to_multiset().add(rest@.to_multiset()) == all.to_multiset(),
            sorted_by_key(out@, key),
            forall|i: int, j: int|
                0 <= i < out.len() && 0 <= j < rest.len() ==> chars_le(
                    #[trigger] key(out[i]),
                    #[trigger] key(rest[j]),
                ),
        decreases rest.len(),
    {
        let m = index_of_least(&rest_keys);
        let ghost before = rest@;
        let ghost before_out = out@;
        let ghost before_keys = rest_keys@;
        let _k = rest_keys.remove(m);
        let x = rest.remove(m);
        proof {
            assert(key(x) == _k@);
            assert(rest@ == before.remove(m as int));
            assert(before.remove(m as int).to_multiset() == before.to_multiset().remove(x));
            assert(before.to_multiset().count(x) > 0);
            assert forall|i: int, j: int|
                0 <= i <= before_out.len() && 0 <= j < rest.len() implies chars_le(
                #[trigger] key(before_out.push(x)[i]),
                #[trigger] key(rest[j]),
            ) by {
                let jj = if j < m { j } else { j + 1 };
                assert(rest[j] == before[jj]);
                assert(rest_keys@.len() + 1 == before.len());
                if i == before_out.len() {
                    assert(chars_le(before_keys[m as int]@, before_keys[jj]@));
                }
            }
        }
        out.push(x);
        proof {
            assert(out@.to_multiset().add(rest@.to_multiset()) =~= all.to_multiset());
        }
    }
    out
}

} // verus!
