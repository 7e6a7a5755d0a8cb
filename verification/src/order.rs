//! The order in which stores page their rows: keys compared as `String`s compare, character by
//! character, and pages that take the smallest keys after a cursor.

use vstd::prelude::*;
use crate::names::lex_lt;
use crate::text::chars_of;

verus! {

/// `a` sorts before `b`.
pub fn str_lt(a: &str, b: &str) -> (r: bool)
    ensures
        r == lex_lt(a@, b@),
{
    let x = chars_of(a);
    let y = chars_of(b);
    let mut i: usize = 0;
    while i < x.len() && i < y.len()
        invariant
            x@ == a@,
            y@ == b@,
            i <= x@.len(),
            i <= y@.len(),
            x@.subrange(0, i as int) == y@.subrange(0, i as int),
        decreases x.len() - i,
    {
        if x[i] != y[i] {
            let lt = (x[i] as u32) < (y[i] as u32);
            proof {
                if lt {
                    assert(lex_lt(a@, b@));
                } else {
                    lemma_not_lt_at(a@, b@, i as int);
                }
            }
            return lt;
        }
        assert(x@.subrange(0, i as int + 1) =~= y@.subrange(0, i as int + 1)) by {
            assert(x@.subrange(0, i as int + 1) =~= x@.subrange(0, i as int).push(x@[i as int]));
            assert(y@.subrange(0, i as int + 1) =~= y@.subrange(0, i as int).push(y@[i as int]));
        }
        i = i + 1;
    }
    let lt = x.len() < y.len();
    proof {
        if lt {
            assert(a@ =~= b@.subrange(0, a@.len() as int)) by {
                assert(x@.subrange(0, i as int) =~= x@);
            }
        } else {
            lemma_not_lt_prefix(a@, b@, i as int);
        }
    }
    lt
}

/// Two texts that first differ at `i`, where `a`'s character is not smaller, are not ordered
/// `a` before `b`.
proof fn lemma_not_lt_at(a: Seq<char>, b: Seq<char>, i: int)
    requires
        0 <= i < a.len(),
        i < b.len(),
        a.subrange(0, i) == b.subrange(0, i),
        a[i] != b[i],
        !((a[i] as u32) < (b[i] as u32)),
    ensures
        !lex_lt(a, b),
{
    assert forall|j: int| 0 <= j < a.len() && j < b.len() && a.subrange(0, j) == b.subrange(0, j) implies !((a[j] as u32) < (b[j] as u32)) by {
        if j < i {
            assert(a[j] == a.subrange(0, i)[j]);
            assert(b[j] == b.subrange(0, i)[j]);
        } else if j > i {
            assert(a.subrange(0, j)[i] == a[i]);
            assert(b.subrange(0, j)[i] == b[i]);
        }
    }
    if a.len() < b.len() && a == b.subrange(0, a.len() as int) {
        assert(a[i] == b.subrange(0, a.len() as int)[i]);
    }
}

/// When `b` is no longer than the common prefix of length `i`, `a` is not ordered before `b`.
proof fn lemma_not_lt_prefix(a: Seq<char>, b: Seq<char>, i: int)
    requires
        0 <= i <= a.len(),
        i <= b.len(),
        a.subrange(0, i) == b.subrange(0, i),
        i == a.len() || i == b.len(),
        !(a.len() < b.len()),
    ensures
        !lex_lt(a, b),
{
    assert forall|j: int| 0 <= j < a.len() && j < b.len() && a.subrange(0, j) == b.subrange(0, j) implies !((a[j] as u32) < (b[j] as u32)) by {
        assert(j < i);
        assert(a[j] == a.subrange(0, i)[j]);
        assert(b[j] == b.subrange(0, i)[j]);
    }
}

/// No text sorts before itself.
pub proof fn lemma_lex_irreflexive(a: Seq<char>)
    ensures
        !lex_lt(a, a),
{
}

/// Of two different texts, one sorts before the other.
pub proof fn lemma_lex_total(a: Seq<char>, b: Seq<char>)
    ensures
        a == b || lex_lt(a, b) || lex_lt(b, a),
{
    let n = if a.len() < b.len() { a.len() as int } else { b.len() as int };
    if exists|i: int| 0 <= i < n && a[i] != b[i] {
        let k = choose|i: int| 0 <= i < n && a[i] != b[i];
        lemma_first_difference(a, b, k);
    } else {
        if a.len() < b.len() {
            assert(a =~= b.subrange(0, a.len() as int));
        } else if b.len() < a.len() {
            assert(b =~= a.subrange(0, b.len() as int));
        } else {
            assert(a =~= b);
        }
    }
}

/// From any difference, the first one decides the order.
proof fn lemma_first_difference(a: Seq<char>, b: Seq<char>, k: int)
    requires
        0 <= k < a.len(),
        k < b.len(),
        a[k] != b[k],
    ensures
        lex_lt(a, b) || lex_lt(b, a),
    decreases k,
{
    if exists|i: int| 0 <= i < k && a[i] != b[i] {
        let j = choose|i: int| 0 <= i < k && a[i] != b[i];
        lemma_first_difference(a, b, j);
    } else {
        assert(a.subrange(0, k) =~= b.subrange(0, k));
        if (a[k] as u32) < (b[k] as u32) {
            assert(lex_lt(a, b));
        } else {
            assert((b[k] as u32) < (a[k] as u32)) by {
                vstd::utf8::char_u32_cast(a[k], a[k] as u32);
                vstd::utf8::char_u32_cast(b[k], b[k] as u32);
            }
            assert(b.subrange(0, k) =~= a.subrange(0, k));
            assert(lex_lt(b, a));
        }
    }
}

/// Whether `k` sorts after the cursor (every key does when there is none).
pub open spec fn above(cursor: Option<Seq<char>>, k: Seq<char>) -> bool {
    match cursor {
        None => true,
        Some(c) => lex_lt(c, k),
    }
}

/// The keys of some entries.
pub open spec fn keys_of<V>(rows: Seq<(String, V)>) -> Seq<Seq<char>> {
    Seq::new(rows.len(), |i: int| rows[i].0@)
}

/// `picked` indexes, in increasing key order, the smallest keys after the cursor: at most
/// `cap` of them, and every key after the cursor not picked sorts after the last one picked
/// (which only happens when `cap` were picked).
pub open spec fn ordered_page(keys: Seq<Seq<char>>, cursor: Option<Seq<char>>, cap: int, picked: Seq<usize>) -> bool {
    &&& picked.len() <= cap
    &&& forall|i: int| 0 <= i < picked.len() ==> (#[trigger] picked[i]) < keys.len() && above(cursor, keys[picked[i] as int])
    &&& forall|i: int| 0 < i < picked.len() ==> lex_lt(keys[picked[i - 1] as int], keys[(#[trigger] picked[i]) as int])
    &&& forall|k: int| 0 <= k < keys.len() && above(cursor, #[trigger] keys[k]) ==> (exists|i: int| 0 <= i < picked.len() && picked[i] == k)
        || (picked.len() == cap && (picked.len() == 0 || lex_lt(keys[picked.last() as int], keys[k])))
}

/// Whether key `k` sorts after the last picked key (every key does before the first pick).
pub open spec fn beyond(keys: Seq<Seq<char>>, last: Option<usize>, k: int) -> bool {
    match last {
        None => true,
        Some(p) => lex_lt(keys[p as int], keys[k]),
    }
}

/// The positions of the rows on one page: the smallest keys after `cursor`, at most `cap`, in
/// key order.
pub fn page_indices<V>(rows: &Vec<(String, V)>, cursor: Option<&str>, cap: usize) -> (picked: Vec<usize>)
    requires
        crate::keyed::unique_keys(rows@),
    ensures
        ordered_page(keys_of(rows@), match cursor { Some(c) => Some(c@), None => None }, cap as int, picked@),
{
    let ghost keys = keys_of(rows@);
    let ghost cur: Option<Seq<char>> = match cursor { Some(c) => Some(c@), None => None };
    let mut picked: Vec<usize> = Vec::new();
    let mut last: Option<usize> = None;
    while picked.len() < cap
        invariant
            keys == keys_of(rows@),
            cur == (match cursor { Some(c) => Some(c@), None => None::<Seq<char>> }),
            crate::keyed::unique_keys(rows@),
            picked@.len() <= cap,
            last == (if picked@.len() == 0 { None } else { Some(picked@.last()) }),
            forall|i: int| 0 <= i < picked@.len() ==> (#[trigger] picked@[i]) < keys.len() && above(cur, keys[picked@[i] as int]),
            forall|i: int| 0 < i < picked@.len() ==> lex_lt(keys[picked@[i - 1] as int], keys[(#[trigger] picked@[i]) as int]),
            forall|k: int| 0 <= k < keys.len() && above(cur, #[trigger] keys[k]) && !beyond(keys, last, k) ==> exists|i: int|
                0 <= i < picked@.len() && picked@[i] == k,
        ensures
            picked@.len() == cap || forall|k: int| 0 <= k < keys.len() && above(cur, #[trigger] keys[k]) ==> exists|i: int|
                0 <= i < picked@.len() && picked@[i] == k,
        decreases cap - picked@.len(),
    {
        let mut best: Option<usize> = None;
        let mut j: usize = 0;
        while j < rows.len()
            invariant
                keys == keys_of(rows@),
                cur == (match cursor { Some(c) => Some(c@), None => None::<Seq<char>> }),
                j <= rows@.len(),
                last is Some ==> (last->0 as int) < keys.len(),
                match best {
                    Some(b) => b < j && above(cur, keys[b as int]) && beyond(keys, last, b as int) && forall|k: int|
                        0 <= k < j && above(cur, #[trigger] keys[k]) && beyond(keys, last, k) ==> !lex_lt(keys[k], keys[b as int]),
                    None => forall|k: int| 0 <= k < j ==> !(above(cur, #[trigger] keys[k]) && beyond(keys, last, k)),
                },
            decreases rows.len() - j,
        {
            let key = rows[j].0.as_str();
            assert(key@ == keys[j as int]);
            let after_cursor = match cursor {
                Some(c) => str_lt(c, key),
                None => true,
            };
            let after_last = match last {
                Some(p) => str_lt(rows[p].0.as_str(), key),
                None => true,
            };
            if after_cursor && after_last {
                let smaller = match best {
                    Some(b) => str_lt(key, rows[b].0.as_str()),
                    None => true,
                };
                if smaller {
                    proof {
                        if let Some(b) = best {
                            assert forall|k: int| 0 <= k < j + 1 && above(cur, #[trigger] keys[k]) && beyond(keys, last, k) implies !lex_lt(keys[k], keys[j as int]) by {
                                if k < j {
                                    assert(!lex_lt(keys[k], keys[b as int]));
                                    lemma_lex_total(keys[k], keys[b as int]);
                                    if lex_lt(keys[k], keys[j as int]) {
                                        lemma_lex_transitive(keys[k], keys[j as int], keys[b as int]);
                                    }
                                } else {
                                    lemma_lex_irreflexive(keys[k]);
                                }
                            }
                        } else {
                            assert forall|k: int| 0 <= k < j + 1 && above(cur, #[trigger] keys[k]) && beyond(keys, last, k) implies !lex_lt(keys[k], keys[j as int]) by {
                                lemma_lex_irreflexive(keys[k]);
                            }
                        }
                    }
                    best = Some(j);
                } else {
                    proof {
                        let b = best->0;
                        lemma_lex_total(keys[j as int], keys[b as int]);
                    }
                }
            }
            j = j + 1;
        }
        match best {
            None => {
                proof {
                    assert forall|k: int| 0 <= k < keys.len() && above(cur, #[trigger] keys[k]) implies exists|i: int|
                        0 <= i < picked@.len() && picked@[i] == k by {
                        assert(!beyond(keys, last, k));
                    }
                }
                break;
            },
            Some(b) => {
                let ghost before = picked@;
                picked.push(b);
                proof {
                    assert(picked@[picked@.len() - 1] == b);
                    assert forall|k: int| 0 <= k < keys.len() && above(cur, #[trigger] keys[k]) && !beyond(keys, Some(b), k) implies exists|i: int|
                        0 <= i < picked@.len() && picked@[i] == k by {
                        if !beyond(keys, last, k) {
                            let i = choose|i: int| 0 <= i < before.len() && before[i] == k;
                            assert(picked@[i] == k);
                        } else {
                            assert(!lex_lt(keys[k], keys[b as int]));
                            lemma_lex_total(keys[k], keys[b as int]);
                            assert(keys[k] == keys[b as int]);
                            assert(rows@[k].0@ == rows@[b as int].0@);
                            assert(picked@[picked@.len() - 1] == k);
                        }
                    }
                }
                last = Some(b);
            },
        }
    }
    proof {
        assert forall|k: int| 0 <= k < keys.len() && above(cur, #[trigger] keys[k]) implies (exists|i: int|
            0 <= i < picked@.len() && picked@[i] == k) || (picked@.len() == cap && (picked@.len() == 0 || lex_lt(
            keys[picked@.last() as int],
            keys[k],
        ))) by {
            if !beyond(keys, last, k) {
            }
        }
    }
    picked
}

/// Equal prefixes agree at every position below their length.
proof fn lemma_prefix_at(a: Seq<char>, b: Seq<char>, i: int, k: int)
    requires
        0 <= k < i <= a.len(),
        i <= b.len(),
        a.subrange(0, i) == b.subrange(0, i),
    ensures
        a[k] == b[k],
{
    assert(a[k] == a.subrange(0, i)[k]);
    assert(b[k] == b.subrange(0, i)[k]);
}

/// Equal prefixes stay equal when shortened.
proof fn lemma_prefix_shorter(a: Seq<char>, b: Seq<char>, i: int, j: int)
    requires
        0 <= j <= i <= a.len(),
        i <= b.len(),
        a.subrange(0, i) == b.subrange(0, i),
    ensures
        a.subrange(0, j) == b.subrange(0, j),
{
    assert forall|k: int| 0 <= k < j implies a.subrange(0, j)[k] == b.subrange(0, j)[k] by {
        lemma_prefix_at(a, b, i, k);
    }
    assert(a.subrange(0, j) =~= b.subrange(0, j));
}

/// The order is transitive.
pub proof fn lemma_lex_transitive(a: Seq<char>, b: Seq<char>, c: Seq<char>)
    requires
        lex_lt(a, b),
        lex_lt(b, c),
    ensures
        lex_lt(a, c),
{
    let ab = exists|i: int| 0 <= i < a.len() && i < b.len() && a.subrange(0, i) == b.subrange(0, i) && (a[i] as u32) < (b[i] as u32);
    let bc = exists|j: int| 0 <= j < b.len() && j < c.len() && b.subrange(0, j) == c.subrange(0, j) && (b[j] as u32) < (c[j] as u32);
    if ab {
        let i = choose|i: int| 0 <= i < a.len() && i < b.len() && a.subrange(0, i) == b.subrange(0, i) && (a[i] as u32) < (b[i] as u32);
        if bc {
            let j = choose|j: int| 0 <= j < b.len() && j < c.len() && b.subrange(0, j) == c.subrange(0, j) && (b[j] as u32) < (c[j] as u32);
            if i < j {
                lemma_prefix_shorter(b, c, j, i);
                lemma_prefix_at(b, c, j, i);
                assert(a.subrange(0, i) =~= c.subrange(0, i));
                assert((a[i] as u32) < (c[i] as u32));
            } else if i == j {
                assert(a.subrange(0, i) =~= c.subrange(0, i));
            } else {
                lemma_prefix_shorter(a, b, i, j);
                lemma_prefix_at(a, b, i, j);
                assert(a.subrange(0, j) =~= c.subrange(0, j));
                assert((a[j] as u32) < (c[j] as u32));
            }
        } else {
            assert(b.len() < c.len() && b == c.subrange(0, b.len() as int));
            assert(b.subrange(0, i) =~= c.subrange(0, i)) by {
                assert forall|k: int| 0 <= k < i implies b.subrange(0, i)[k] == c.subrange(0, i)[k] by {
                    assert(c.subrange(0, b.len() as int)[k] == c[k]);
                }
            }
            assert(b[i] == c[i]) by {
                assert(c.subrange(0, b.len() as int)[i] == c[i]);
            }
            assert(a.subrange(0, i) =~= c.subrange(0, i));
            assert((a[i] as u32) < (c[i] as u32));
        }
    } else {
        assert(a.len() < b.len() && a == b.subrange(0, a.len() as int));
        if bc {
            let j = choose|j: int| 0 <= j < b.len() && j < c.len() && b.subrange(0, j) == c.subrange(0, j) && (b[j] as u32) < (c[j] as u32);
            if j < a.len() {
                assert(a.subrange(0, j) =~= c.subrange(0, j)) by {
                    assert forall|k: int| 0 <= k < j implies a.subrange(0, j)[k] == c.subrange(0, j)[k] by {
                        assert(b.subrange(0, a.len() as int)[k] == b[k]);
                        lemma_prefix_at(b, c, j, k);
                    }
                }
                assert(a[j] == b[j]) by {
                    assert(b.subrange(0, a.len() as int)[j] == b[j]);
                }
                assert((a[j] as u32) < (c[j] as u32));
            } else {
                assert(a =~= c.subrange(0, a.len() as int)) by {
                    assert forall|k: int| 0 <= k < a.len() implies a[k] == c.subrange(0, a.len() as int)[k] by {
                        assert(b.subrange(0, a.len() as int)[k] == b[k]);
                        lemma_prefix_at(b, c, j, k);
                    }
                }
            }
        } else {
            assert(b.len() < c.len() && b == c.subrange(0, b.len() as int));
            assert(a =~= c.subrange(0, a.len() as int)) by {
                assert forall|k: int| 0 <= k < a.len() implies a[k] == c.subrange(0, a.len() as int)[k] by {
                    assert(b.subrange(0, a.len() as int)[k] == b[k]);
                    assert(c.subrange(0, b.len() as int)[k] == c[k]);
                }
            }
        }
    }
}

} // verus!
