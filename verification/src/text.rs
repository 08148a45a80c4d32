//! Strings and lists of strings, as the mirrors use them: remote IDs, tag names, and the
//! duplicate-free lists that link entities to each other.

use vstd::prelude::*;
use vstd::string::StrSliceExecFns;

verus! {

/// The mathematical value of a list of strings.
pub open spec fn texts(list: Seq<String>) -> Seq<Seq<char>> {
    Seq::new(list.len(), |i: int| list[i]@)
}

/// The mathematical value of an optional string.
pub open spec fn text(s: Option<String>) -> Option<Seq<char>> {
    match s {
        Some(s) => Some(s@),
        None => None,
    }
}

/// `list` with `item` at its end, unless the list holds it already.
pub open spec fn with_item(list: Seq<Seq<char>>, item: Seq<char>) -> Seq<Seq<char>> {
    if list.contains(item) {
        list
    } else {
        list.push(item)
    }
}

/// `list` without any occurrence of `item`.
pub open spec fn without_item(list: Seq<Seq<char>>, item: Seq<char>) -> Seq<Seq<char>> {
    list.filter(|other: Seq<char>| other != item)
}

/// `str`'s `==`: two string slices are equal where they hold the same characters.
#[verifier::external_body]
pub(crate) fn str_eq(a: &str, b: &str) -> (equal: bool)
    ensures
        equal == (a@ == b@),
{
    a == b
}

/// A copy of an optional string.
pub fn copy_text(s: &Option<String>) -> (copy: Option<String>)
    ensures
        text(copy) == text(*s),
{
    match s {
        Some(s) => Some(s.clone()),
        None => None,
    }
}

/// Whether `s` begins with `prefix`.
pub fn starts_with(s: &str, prefix: &str) -> (found: bool)
    ensures
        found == prefix@.is_prefix_of(s@),
{
    let n = prefix.unicode_len();
    let m = s.unicode_len();
    if n > m {
        return false;
    }
    let mut i: usize = 0;
    while i < n
        invariant
            i <= n <= m,
            n == prefix@.len(),
            m == s@.len(),
            forall|j: int| 0 <= j < i ==> s@[j] == prefix@[j],
        decreases n - i,
    {
        if s.get_char(i) != prefix.get_char(i) {
            assert(s@.subrange(0, n as int)[i as int] != prefix@[i as int]);
            return false;
        }
        i = i + 1;
    }
    assert(prefix@ =~= s@.subrange(0, n as int));
    true
}

/// Whether the list holds the item.
pub fn holds(list: &Vec<String>, item: &str) -> (found: bool)
    ensures
        found == texts(list@).contains(item@),
{
    let mut i: usize = 0;
    while i < list.len()
        invariant
            i <= list.len(),
            forall|j: int| 0 <= j < i ==> #[trigger] texts(list@)[j] != item@,
        decreases list.len() - i,
    {
        if str_eq(list[i].as_str(), item) {
            assert(texts(list@)[i as int] == item@);
            return true;
        }
        i = i + 1;
    }
    false
}

/// Puts the item at the end of the list, unless the list holds it already. Tells whether
/// the list grew.
pub fn insert_item(list: &mut Vec<String>, item: String) -> (grew: bool)
    ensures
        texts(final(list)@) == with_item(texts(old(list)@), item@),
        grew == !texts(old(list)@).contains(item@),
{
    if holds(list, item.as_str()) {
        false
    } else {
        list.push(item);
        assert(texts(list@) =~= texts(old(list)@).push(item@));
        true
    }
}

/// Takes every occurrence of the item out of the list. Tells whether there was one.
pub fn remove_item(list: &mut Vec<String>, item: &str) -> (shrank: bool)
    ensures
        texts(final(list)@) == without_item(texts(old(list)@), item@),
        shrank == texts(old(list)@).contains(item@),
{
    let ghost before = texts(list@);
    let ghost keep = |other: Seq<char>| other != item@;
    let ghost done: int = 0;
    let mut shrank = false;
    let mut i: usize = 0;
    proof {
        reveal(Seq::filter);
        assert(before.take(0) =~= Seq::empty());
        assert(texts(list@) =~= before.take(0).filter(keep) + before.skip(0));
    }
    while i < list.len()
        invariant
            before == texts(old(list)@),
            keep == |other: Seq<char>| other != item@,
            0 <= done <= before.len(),
            i == before.take(done).filter(keep).len(),
            texts(list@) == before.take(done).filter(keep) + before.skip(done),
            shrank == before.take(done).contains(item@),
        decreases before.len() - done,
    {
        proof {
            reveal(Seq::filter);
            assert(before.take(done + 1).drop_last() =~= before.take(done));
            assert(texts(list@)[i as int] == before[done]);
            let shorter = before.take(done);
            let longer = before.take(done + 1);
            assert(longer.contains(item@) <==> shorter.contains(item@) || before[done]
                == item@) by {
                if shorter.contains(item@) {
                    let w = choose|w: int| 0 <= w < shorter.len() && shorter[w] == item@;
                    assert(longer[w] == item@);
                }
                if before[done] == item@ {
                    assert(longer[done] == item@);
                }
                if longer.contains(item@) {
                    let w = choose|w: int| 0 <= w < longer.len() && longer[w] == item@;
                    if w < done {
                        assert(shorter[w] == item@);
                    }
                }
            }
        }
        if str_eq(list[i].as_str(), item) {
            let ghost current = list@;
            list.remove(i);
            shrank = true;
            proof {
                assert(texts(list@) =~= texts(current).remove(i as int));
                assert(texts(list@) =~= before.take(done + 1).filter(keep) + before.skip(
                    done + 1,
                ));
            }
        } else {
            proof {
                assert(texts(list@) =~= before.take(done + 1).filter(keep) + before.skip(
                    done + 1,
                ));
            }
            i = i + 1;
        }
        proof {
            done = done + 1;
        }
    }
    proof {
        assert(before.take(done) =~= before);
        assert(texts(list@) =~= before.filter(keep));
    }
    shrank
}

} // verus!
