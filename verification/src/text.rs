//! Lists of texts: what they hold as sequences of characters, and the removal of
//! repeated entries.

use vstd::prelude::*;

verus! {

/// The texts of a list, each as its sequence of characters.
pub open spec fn texts(list: Seq<String>) -> Seq<Seq<char>> {
    list.map_values(|s: String| s@)
}

/// The texts of a list with one more entry are the texts of the list and the text of
/// the entry.
pub proof fn lemma_texts_push(list: Seq<String>, last: String)
    ensures
        texts(list.push(last)) == texts(list).push(last@),
{
    assert(texts(list.push(last)) =~= texts(list).push(last@));
}

/// The entries of `list` without repetitions: each text stays where it first occurs,
/// and its later occurrences are dropped.
pub open spec fn first_occurrences(list: Seq<Seq<char>>) -> Seq<Seq<char>>
    decreases list.len(),
{
    if list.len() == 0 {
        list
    } else {
        let before = first_occurrences(list.drop_last());
        if before.contains(list.last()) {
            before
        } else {
            before.push(list.last())
        }
    }
}

/// `first_occurrences` holds no text twice, and holds exactly the texts of the list.
pub proof fn lemma_first_occurrences(list: Seq<Seq<char>>)
    ensures
        first_occurrences(list).no_duplicates(),
        forall|t: Seq<char>| first_occurrences(list).contains(t) <==> list.contains(t),
        first_occurrences(list).len() <= list.len(),
    decreases list.len(),
{
    if list.len() > 0 {
        let front = list.drop_last();
        let last = list.last();
        let before = first_occurrences(front);
        let all = first_occurrences(list);
        lemma_first_occurrences(front);
        assert(all == if before.contains(last) {
            before
        } else {
            before.push(last)
        });
        assert forall|t: Seq<char>| all.contains(t) implies list.contains(t) by {
            let j = choose|j: int| 0 <= j < all.len() && all[j] == t;
            if j < before.len() {
                assert(before[j] == t);
                assert(before.contains(t));
                assert(front.contains(t));
                let i = choose|i: int| 0 <= i < front.len() && front[i] == t;
                assert(list[i] == t);
            } else {
                assert(list[list.len() - 1] == t);
            }
        }
        assert forall|t: Seq<char>| list.contains(t) implies all.contains(t) by {
            let i = choose|i: int| 0 <= i < list.len() && list[i] == t;
            if i < list.len() - 1 {
                assert(front[i] == t);
                assert(front.contains(t));
                assert(before.contains(t));
                let j = choose|j: int| 0 <= j < before.len() && before[j] == t;
                assert(all[j] == t);
            } else {
                assert(t == last);
                if !before.contains(last) {
                    assert(all[before.len() as int] == last);
                }
            }
        }
    }
}

/// A list without repetitions is its own `first_occurrences`.
pub proof fn lemma_first_occurrences_of_distinct(list: Seq<Seq<char>>)
    requires
        list.no_duplicates(),
    ensures
        first_occurrences(list) == list,
    decreases list.len(),
{
    if list.len() > 0 {
        let front = list.drop_last();
        lemma_first_occurrences_of_distinct(front);
        if front.contains(list.last()) {
            let i = choose|i: int| 0 <= i < front.len() && front[i] == list.last();
            assert(list[i] == list[list.len() - 1]);
        }
        assert(front.push(list.last()) =~= list);
    }
}

/// A second list with the same texts in the same order.
pub fn duplicate_texts(list: &Vec<String>) -> (r: Vec<String>)
    ensures
        r@ == list@,
{
    let mut out: Vec<String> = Vec::new();
    let mut i: usize = 0;
    while i < list.len()
        invariant
            i <= list.len(),
            out@ == list@.take(i as int),
        decreases list.len() - i,
    {
        out.push(list[i].clone());
        assert(out@ =~= list@.take(i as int + 1));
        i += 1;
    }
    assert(list@.take(list.len() as int) =~= list@);
    out
}

/// Whether `text` is an entry of `list`.
pub fn contains_text(list: &Vec<String>, text: &String) -> (r: bool)
    ensures
        r == texts(list@).contains(text@),
{
    let mut i: usize = 0;
    while i < list.len()
        invariant
            i <= list.len(),
            forall|j: int| 0 <= j < i ==> texts(list@)[j] != text@,
        decreases list.len() - i,
    {
        if list[i] == *text {
            assert(texts(list@)[i as int] == text@);
            return true;
        }
        i += 1;
    }
    false
}

/// The list without its repetitions: of texts that occur more than once, the first
/// occurrence stays.
pub fn dedup(list: Vec<String>) -> (r: Vec<String>)
    ensures
        texts(r@) == first_occurrences(texts(list@)),
        texts(r@).no_duplicates(),
        forall|t: Seq<char>| texts(r@).contains(t) <==> texts(list@).contains(t),
{
    let mut out: Vec<String> = Vec::new();
    let mut i: usize = 0;
    assert(texts(list@).take(0) =~= Seq::<Seq<char>>::empty());
    assert(texts(out@) =~= Seq::<Seq<char>>::empty());
    while i < list.len()
        invariant
            i <= list.len(),
            texts(out@) == first_occurrences(texts(list@).take(i as int)),
        decreases list.len() - i,
    {
        let ghost before = texts(out@);
        let ghost upto = texts(list@).take(i as int + 1);
        assert(upto.drop_last() =~= texts(list@).take(i as int));
        assert(upto.last() == list@[i as int]@);
        if !contains_text(&out, &list[i]) {
            out.push(list[i].clone());
            assert(texts(out@) =~= before.push(list@[i as int]@));
        }
        i += 1;
    }
    assert(texts(list@).take(list.len() as int) =~= texts(list@));
    proof {
        lemma_first_occurrences(texts(list@));
    }
    out
}

} // verus!
