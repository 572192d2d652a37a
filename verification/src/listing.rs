//! The entries of one directory: the names of its children and, where the
//! directory has a parent, the name `..`, all in listing order.

use vstd::prelude::*;
use vstd::string::StringExecFns;
use crate::order::{
    is_sorted, lemma_name_le_total, lemma_name_le_transitive, name_le, name_precedes,
};

verus! {

broadcast use vstd::seq_lib::group_to_multiset_ensures;

/// The name that stands for the parent directory: two full stops.
pub open spec fn sentinel() -> Seq<char> {
    seq!['.', '.']
}

/// The names that `names` holds, as text, in the same order.
pub open spec fn texts(names: Seq<String>) -> Seq<Seq<char>> {
    Seq::new(names.len(), |i: int| names[i]@)
}

/// What a listing has to show: the children, and `..` where there is a parent.
pub open spec fn listed_names(children: Seq<Seq<char>>, has_parent: bool) -> Seq<Seq<char>> {
    if has_parent {
        children.push(sentinel())
    } else {
        children
    }
}

/// `entries` is the listing of a directory with these children: it is in
/// listing order and holds each name of `listed_names` as often as that does.
pub open spec fn is_listing(
    entries: Seq<Seq<char>>,
    children: Seq<Seq<char>>,
    has_parent: bool,
) -> bool {
    &&& is_sorted(entries)
    &&& entries.to_multiset() == listed_names(children, has_parent).to_multiset()
}

/// The name `..` as a `String`.
pub fn sentinel_name() -> (name: String)
    ensures
        name@ == sentinel(),
{
    proof {
        reveal_strlit("..");
    }
    let name = String::from_str("..");
    assert(name@ =~= sentinel());
    name
}

/// The texts of a list with one more name are the texts of the list with one
/// more text.
proof fn lemma_texts_push(names: Seq<String>, name: String)
    ensures
        texts(names.push(name)) == texts(names).push(name@),
{
    assert(texts(names.push(name)) =~= texts(names).push(name@));
}

/// Every pair of positions in `names` is in listing order, the later name
/// first.
spec fn is_descending(names: Seq<Seq<char>>) -> bool {
    forall|i: int, j: int| 0 <= i < j < names.len() ==> name_le(names[j], names[i])
}

/// Every name of `low` is listed before every name of `high`, or equals it.
spec fn all_le(low: Seq<Seq<char>>, high: Seq<Seq<char>>) -> bool {
    forall|i: int, j: int|
        0 <= i < low.len() && 0 <= j < high.len() ==> name_le(#[trigger] low[i], #[trigger] high[j])
}

/// Taking the last name of the sorted `from` to the end of the descending
/// `back`, where it is no smaller than what `from` and `other` still hold,
/// keeps all of this so.
proof fn lemma_take_last(
    from: Seq<Seq<char>>,
    other: Seq<Seq<char>>,
    back: Seq<Seq<char>>,
)
    requires
        from.len() > 0,
        is_sorted(from),
        is_sorted(other),
        is_descending(back),
        all_le(from, back),
        all_le(other, back),
        other.len() > 0 ==> name_le(other.last(), from.last()),
    ensures
        is_sorted(from.drop_last()),
        is_descending(back.push(from.last())),
        all_le(from.drop_last(), back.push(from.last())),
        all_le(other, back.push(from.last())),
{
    let name = from.last();
    let rest = from.drop_last();
    let grown = back.push(name);
    assert forall|i: int, j: int| 0 <= i < j < rest.len() implies name_le(rest[i], rest[j]) by {
        assert(rest[i] == from[i] && rest[j] == from[j]);
    }
    assert forall|i: int, j: int| 0 <= i < j < grown.len() implies name_le(
        grown[j],
        grown[i],
    ) by {
        if j == back.len() {
            assert(name_le(from[from.len() - 1], back[i]));
        } else {
            assert(grown[i] == back[i] && grown[j] == back[j]);
        }
    }
    assert forall|i: int, j: int| 0 <= i < rest.len() && 0 <= j < grown.len() implies name_le(
        #[trigger] rest[i],
        #[trigger] grown[j],
    ) by {
        assert(rest[i] == from[i]);
        if j < back.len() {
            assert(name_le(from[i], back[j]));
        }
    }
    assert forall|i: int, j: int| 0 <= i < other.len() && 0 <= j < grown.len() implies name_le(
        #[trigger] other[i],
        #[trigger] grown[j],
    ) by {
        if j < back.len() {
            assert(name_le(other[i], back[j]));
        } else {
            if i < other.len() - 1 {
                assert(name_le(other[i], other[other.len() - 1]));
                lemma_name_le_transitive(other[i], other.last(), name);
            }
        }
    }
}

/// Taking the last name of the descending `back` to the end of the sorted
/// `front`, all of whose names come before those of `back`, keeps this so.
proof fn lemma_turn_last(front: Seq<Seq<char>>, back: Seq<Seq<char>>)
    requires
        back.len() > 0,
        is_sorted(front),
        is_descending(back),
        all_le(front, back),
    ensures
        is_sorted(front.push(back.last())),
        is_descending(back.drop_last()),
        all_le(front.push(back.last()), back.drop_last()),
{
    let name = back.last();
    let rest = back.drop_last();
    let grown = front.push(name);
    assert forall|i: int, j: int| 0 <= i < j < grown.len() implies name_le(
        grown[i],
        grown[j],
    ) by {
        if j == front.len() {
            assert(name_le(front[i], back[back.len() - 1]));
        } else {
            assert(grown[i] == front[i] && grown[j] == front[j]);
        }
    }
    assert forall|i: int, j: int| 0 <= i < j < rest.len() implies name_le(rest[j], rest[i]) by {
        assert(rest[i] == back[i] && rest[j] == back[j]);
    }
    assert forall|i: int, j: int| 0 <= i < grown.len() && 0 <= j < rest.len() implies name_le(
        #[trigger] grown[i],
        #[trigger] rest[j],
    ) by {
        assert(rest[j] == back[j]);
        if i < front.len() {
            assert(name_le(front[i], back[j]));
        } else {
            assert(name_le(back[back.len() - 1], back[j]));
        }
    }
}

/// Moves the last name of `from` to the end of `to`.
fn move_last(from: &mut Vec<String>, to: &mut Vec<String>)
    requires
        old(from).len() > 0,
    ensures
        final(from)@ == old(from)@.drop_last(),
        final(to)@ == old(to)@.push(old(from)@.last()),
        texts(final(from)@) == texts(old(from)@).drop_last(),
        texts(final(to)@) == texts(old(to)@).push(texts(old(from)@).last()),
        texts(final(from)@).to_multiset().add(texts(final(to)@).to_multiset()) == texts(
            old(from)@,
        ).to_multiset().add(texts(old(to)@).to_multiset()),
{
    let ghost source = from@;
    let ghost target = to@;
    let name = from.pop().unwrap();
    to.push(name);
    proof {
        assert(source =~= from@.push(name));
        lemma_texts_push(from@, name);
        lemma_texts_push(target, name);
        assert(texts(from@) =~= texts(source).drop_last());
        vstd::seq_lib::to_multiset_build(texts(from@), name@);
        vstd::seq_lib::to_multiset_build(texts(target), name@);
        assert(texts(from@).to_multiset().add(texts(to@).to_multiset()) =~= texts(
            source,
        ).to_multiset().add(texts(target).to_multiset()));
    }
}

/// Merges two sorted lists of names into one.
fn merge_names(left: Vec<String>, right: Vec<String>) -> (merged: Vec<String>)
    requires
        is_sorted(texts(left@)),
        is_sorted(texts(right@)),
    ensures
        is_sorted(texts(merged@)),
        texts(merged@).to_multiset() == texts(left@).to_multiset().add(
            texts(right@).to_multiset(),
        ),
{
    let ghost all = texts(left@).to_multiset().add(texts(right@).to_multiset());
    let mut left = left;
    let mut right = right;
    // The names from the last down: each time the later of the two last names.
    let mut back: Vec<String> = Vec::new();
    assert(texts(back@) =~= Seq::<Seq<char>>::empty());
    assert(all =~= all.add(texts(back@).to_multiset()));
    while left.len() > 0 || right.len() > 0
        invariant
            is_sorted(texts(left@)),
            is_sorted(texts(right@)),
            is_descending(texts(back@)),
            all_le(texts(left@), texts(back@)),
            all_le(texts(right@), texts(back@)),
            texts(left@).to_multiset().add(texts(right@).to_multiset()).add(
                texts(back@).to_multiset(),
            ) == all,
        decreases left.len() + right.len(),
    {
        let from_left = if right.len() == 0 {
            true
        } else if left.len() == 0 {
            false
        } else {
            name_precedes(right[right.len() - 1].as_str(), left[left.len() - 1].as_str())
        };
        let ghost l = texts(left@);
        let ghost r = texts(right@);
        let ghost b = texts(back@);
        if from_left {
            proof {
                lemma_take_last(l, r, b);
            }
            move_last(&mut left, &mut back);
            assert(texts(left@).to_multiset().add(r.to_multiset()).add(
                texts(back@).to_multiset(),
            ) =~= l.to_multiset().add(b.to_multiset()).add(r.to_multiset()));
        } else {
            proof {
                if l.len() > 0 {
                    lemma_name_le_total(l.last(), r.last());
                }
                lemma_take_last(r, l, b);
            }
            move_last(&mut right, &mut back);
            assert(l.to_multiset().add(texts(right@).to_multiset()).add(
                texts(back@).to_multiset(),
            ) =~= r.to_multiset().add(b.to_multiset()).add(l.to_multiset()));
        }
    }
    let mut merged: Vec<String> = Vec::new();
    proof {
        assert(texts(merged@) =~= Seq::<Seq<char>>::empty());
        assert(texts(left@) =~= Seq::<Seq<char>>::empty());
        assert(texts(right@) =~= Seq::<Seq<char>>::empty());
        assert(texts(back@).to_multiset().add(texts(merged@).to_multiset()) =~= all);
    }
    while back.len() > 0
        invariant
            is_sorted(texts(merged@)),
            is_descending(texts(back@)),
            all_le(texts(merged@), texts(back@)),
            texts(back@).to_multiset().add(texts(merged@).to_multiset()) == all,
        decreases back.len(),
    {
        proof {
            lemma_turn_last(texts(merged@), texts(back@));
        }
        move_last(&mut back, &mut merged);
    }
    proof {
        assert(texts(back@) =~= Seq::<Seq<char>>::empty());
        assert(texts(back@).to_multiset().add(texts(merged@).to_multiset()) =~= texts(
            merged@,
        ).to_multiset());
    }
    merged
}

/// Puts `names` in listing order. Names that are equal stay as many as they
/// were.
pub fn sort_names(names: Vec<String>) -> (sorted: Vec<String>)
    ensures
        is_sorted(texts(sorted@)),
        texts(sorted@).to_multiset() == texts(names@).to_multiset(),
    decreases names.len(),
{
    if names.len() <= 1 {
        return names;
    }
    let mut left = names;
    let right = left.split_off(left.len() / 2);
    proof {
        assert(texts(names@) =~= texts(left@) + texts(right@));
        vstd::seq_lib::lemma_multiset_commutative(texts(left@), texts(right@));
    }
    let left = sort_names(left);
    let right = sort_names(right);
    merge_names(left, right)
}

/// The entries of a directory with the children `children`: the children,
/// with `..` among them if the directory has a parent, in listing order.
pub fn listing_of(children: Vec<String>, has_parent: bool) -> (entries: Vec<String>)
    ensures
        is_listing(texts(entries@), texts(children@), has_parent),
{
    let mut names = children;
    if has_parent {
        let dots = sentinel_name();
        proof {
            lemma_texts_push(names@, dots);
        }
        names.push(dots);
    }
    sort_names(names)
}

/// The listing of a directory none of whose children is named `..`: it is in
/// listing order, it holds `..` exactly once if the directory has a parent,
/// and not at all if it has none.
pub proof fn lemma_listing_holds_sentinel_once(
    entries: Seq<Seq<char>>,
    children: Seq<Seq<char>>,
    has_parent: bool,
)
    requires
        is_listing(entries, children, has_parent),
        !children.contains(sentinel()),
    ensures
        is_sorted(entries),
        has_parent ==> entries.to_multiset().count(sentinel()) == 1,
        !has_parent ==> !entries.contains(sentinel()),
{
    vstd::seq_lib::to_multiset_contains(children, sentinel());
    vstd::seq_lib::to_multiset_contains(entries, sentinel());
    if has_parent {
        vstd::seq_lib::to_multiset_build(children, sentinel());
    }
}

/// Every name of a listing is a child's name or `..`, and every child is
/// listed: nothing is made up and nothing is lost.
pub proof fn lemma_listing_holds_the_children(
    entries: Seq<Seq<char>>,
    children: Seq<Seq<char>>,
    has_parent: bool,
)
    requires
        is_listing(entries, children, has_parent),
    ensures
        entries.len() == children.len() + if has_parent { 1int } else { 0int },
        forall|name: Seq<char>| #[trigger]
            entries.contains(name) <==> children.contains(name) || (has_parent && name
                == sentinel()),
{
    let listed = listed_names(children, has_parent);
    vstd::seq_lib::to_multiset_len(entries);
    vstd::seq_lib::to_multiset_len(listed);
    assert forall|name: Seq<char>| #[trigger]
        entries.contains(name) <==> children.contains(name) || (has_parent && name
            == sentinel()) by {
        vstd::seq_lib::to_multiset_contains(entries, name);
        vstd::seq_lib::to_multiset_contains(listed, name);
        if has_parent {
            if children.contains(name) {
                let i = choose|i: int| 0 <= i < children.len() && children[i] == name;
                assert(listed[i] == name);
            }
            if name == sentinel() {
                assert(listed[children.len() as int] == name);
            }
        }
    }
}

} // verus!
