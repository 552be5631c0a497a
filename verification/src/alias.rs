//! Aliases: the names by which commands and options are found, when a name
//! is well formed, and when a list of names repeats one.

use vstd::prelude::*;
use vstd::string::*;
use crate::text::{all_letters, is_alphabetic};

verus! {

/// The two names of a command or an option: the long one and, where it has
/// one, the short one.
pub struct Aliases {
    pub long: Seq<char>,
    pub short: Option<Seq<char>>,
}

impl Aliases {
    /// `alias` is one of the two names.
    pub open spec fn has(self, alias: Seq<char>) -> bool {
        self.long == alias || self.short == Some(alias)
    }

    /// The two have a name in common.
    pub open spec fn shares(self, other: Aliases) -> bool {
        self.has(other.long) || (other.short matches Some(short) && self.has(short))
    }

    /// Both names are well formed, each for its kind.
    pub open spec fn sound(self) -> bool {
        &&& well_formed((self.long, true))
        &&& self.short matches Some(short) ==> well_formed((short, false))
    }

    /// The names in order, each with its kind: `true` for the long one.
    pub open spec fn names(self) -> Seq<(Seq<char>, bool)> {
        match self.short {
            Some(short) => seq![(self.long, true), (short, false)],
            None => seq![(self.long, true)],
        }
    }
}

/// Something that is found by a long or a short alias.
pub trait Aliased {
    spec fn aliases(&self) -> Aliases;

    fn long_alias(&self) -> (alias: &String)
        ensures
            alias@ == self.aliases().long,
    ;

    fn short_alias(&self) -> (alias: &Option<String>)
        ensures
            alias.deep_view() == self.aliases().short,
    ;
}

/// The aliases of each item of a list.
pub open spec fn aliases_of<T: Aliased>(items: Seq<T>) -> Seq<Aliases> {
    Seq::new(items.len(), |i: int| items[i].aliases())
}

/// The first place at or after `from` where `marks` holds `true`.
pub open spec fn first_true(marks: Seq<bool>, from: int) -> Option<int>
    decreases marks.len() - from,
{
    if from < 0 || from >= marks.len() {
        None
    } else if marks[from] {
        Some(from)
    } else {
        first_true(marks, from + 1)
    }
}

/// What `first_true` finds is the least place that holds `true`, and it finds
/// nothing only where there is none.
pub proof fn lemma_first_true(marks: Seq<bool>, from: int)
    requires
        0 <= from,
    ensures
        match first_true(marks, from) {
            Some(k) => from <= k < marks.len() && marks[k] && forall|j: int|
                from <= j < k ==> !marks[j],
            None => forall|j: int| from <= j < marks.len() ==> !marks[j],
        },
    decreases marks.len() - from,
{
    if from < marks.len() && !marks[from] {
        lemma_first_true(marks, from + 1);
    }
}

/// For each item, whether it goes by `alias`.
pub open spec fn alias_marks(items: Seq<Aliases>, alias: Seq<char>) -> Seq<bool> {
    Seq::new(items.len(), |i: int| items[i].has(alias))
}

/// The first item that goes by `alias`.
pub open spec fn find_alias(items: Seq<Aliases>, alias: Seq<char>) -> Option<int> {
    first_true(alias_marks(items, alias), 0)
}

/// What `find_alias` finds goes by the alias and is the first that does.
pub proof fn lemma_find_alias(items: Seq<Aliases>, alias: Seq<char>)
    ensures
        match find_alias(items, alias) {
            Some(k) => 0 <= k < items.len() && items[k].has(alias) && forall|j: int|
                0 <= j < k ==> !(#[trigger] items[j]).has(alias),
            None => forall|j: int| 0 <= j < items.len() ==> !(#[trigger] items[j]).has(alias),
        },
{
    let marks = alias_marks(items, alias);
    lemma_first_true(marks, 0);
    match find_alias(items, alias) {
        Some(k) => {
            assert forall|j: int| 0 <= j < k implies !(#[trigger] items[j]).has(alias) by {
                assert(!marks[j]);
            }
        },
        None => {
            assert forall|j: int| 0 <= j < items.len() implies !(#[trigger] items[j]).has(
                alias,
            ) by {
                assert(!marks[j]);
            }
        },
    }
}

/// Finds the first item that goes by `alias`, long or short.
pub fn find<T: Aliased>(items: &Vec<T>, alias: &String) -> (found: Option<usize>)
    ensures
        match find_alias(aliases_of(items@), alias@) {
            Some(i) => found == Some(i as usize) && 0 <= i < items.len(),
            None => found is None,
        },
{
    let ghost marks = alias_marks(aliases_of(items@), alias@);
    let mut i: usize = 0;
    while i < items.len()
        invariant
            i <= items.len(),
            marks == alias_marks(aliases_of(items@), alias@),
            first_true(marks, 0) == first_true(marks, i as int),
        decreases items.len() - i,
    {
        let by_short = match items[i].short_alias() {
            Some(short) => *short == *alias,
            None => false,
        };
        if *items[i].long_alias() == *alias || by_short {
            return Some(i);
        }
        i += 1;
    }
    None
}

/// A long alias has more than one character, a short alias exactly one, and
/// every character is a letter.
pub open spec fn well_formed(name: (Seq<char>, bool)) -> bool {
    all_letters(name.0) && if name.1 {
        name.0.len() > 1
    } else {
        name.0.len() == 1
    }
}

/// The names of each item in turn, as one list.
pub open spec fn all_names(items: Seq<Aliases>) -> Seq<(Seq<char>, bool)>
    decreases items.len(),
{
    if items.len() == 0 {
        Seq::empty()
    } else {
        all_names(items.drop_last()) + items.last().names()
    }
}

/// The texts of a list of names.
pub open spec fn texts(names: Seq<(Seq<char>, bool)>) -> Seq<Seq<char>> {
    Seq::new(names.len(), |i: int| names[i].0)
}

/// For each name, whether it is malformed.
pub open spec fn malformed_marks(names: Seq<(Seq<char>, bool)>) -> Seq<bool> {
    Seq::new(names.len(), |i: int| !well_formed(names[i]))
}

/// The first malformed name of a list.
pub open spec fn first_malformed(names: Seq<(Seq<char>, bool)>) -> Option<int> {
    first_true(malformed_marks(names), 0)
}

/// The text at `j` stands at an earlier place too.
pub open spec fn repeats(list: Seq<Seq<char>>, j: int) -> bool {
    exists|i: int| 0 <= i < j && list[i] == list[j]
}

/// For each text, whether it repeats an earlier one.
pub open spec fn repeat_marks(list: Seq<Seq<char>>) -> Seq<bool> {
    Seq::new(list.len(), |j: int| repeats(list, j))
}

/// The first text at or after `from` that repeats an earlier one.
pub open spec fn first_repeat(list: Seq<Seq<char>>, from: int) -> Option<int> {
    first_true(repeat_marks(list), from)
}

/// Whether a name is well formed.
pub fn is_well_formed(text: &String, long: bool) -> (r: bool)
    ensures
        r == well_formed((text@, long)),
{
    let n = text.as_str().unicode_len();
    if long {
        n > 1 && is_alphabetic(text.as_str())
    } else {
        n == 1 && is_alphabetic(text.as_str())
    }
}

/// Finds the first malformed name of a list.
pub fn find_malformed(names: &Vec<(String, bool)>) -> (found: Option<usize>)
    ensures
        match first_malformed(names.deep_view()) {
            Some(i) => found == Some(i as usize) && 0 <= i < names.len(),
            None => found is None,
        },
{
    let ghost marks = malformed_marks(names.deep_view());
    let mut i: usize = 0;
    while i < names.len()
        invariant
            i <= names.len(),
            marks == malformed_marks(names.deep_view()),
            first_true(marks, 0) == first_true(marks, i as int),
        decreases names.len() - i,
    {
        if !is_well_formed(&names[i].0, names[i].1) {
            return Some(i);
        }
        i += 1;
    }
    None
}

/// Whether the text at `j` stands at an earlier place too.
pub fn is_repeat(list: &Vec<String>, j: usize) -> (r: bool)
    requires
        j < list.len(),
    ensures
        r == repeats(list.deep_view(), j as int),
{
    let mut i: usize = 0;
    while i < j
        invariant
            i <= j < list.len(),
            forall|k: int| 0 <= k < i ==> list.deep_view()[k] != list.deep_view()[j as int],
        decreases j - i,
    {
        if list[i] == list[j] {
            assert(list.deep_view()[i as int] == list.deep_view()[j as int]);
            return true;
        }
        i += 1;
    }
    false
}

/// Finds the first text at or after `from` that repeats an earlier one.
pub fn find_repeat(list: &Vec<String>, from: usize) -> (found: Option<usize>)
    ensures
        match first_repeat(list.deep_view(), from as int) {
            Some(j) => found == Some(j as usize) && from <= j < list.len(),
            None => found is None,
        },
{
    let ghost marks = repeat_marks(list.deep_view());
    let mut j: usize = from;
    while j < list.len()
        invariant
            from <= j,
            marks == repeat_marks(list.deep_view()),
            first_true(marks, from as int) == first_true(marks, j as int),
        decreases list.len() - j,
    {
        if is_repeat(list, j) {
            return Some(j);
        }
        j += 1;
    }
    None
}

/// No two items of a list have a name in common, and no item has the same
/// name twice.
pub open spec fn no_sharing(items: Seq<Aliases>) -> bool {
    &&& forall|i: int, j: int|
        0 <= i < items.len() && 0 <= j < items.len() && i != j ==> !(#[trigger] items[i]).shares(
            #[trigger] items[j],
        )
    &&& forall|i: int| 0 <= i < items.len() ==> (#[trigger] items[i]).short != Some(items[i].long)
}

/// No text of a list stands in it twice.
pub open spec fn distinct(list: Seq<Seq<char>>) -> bool {
    forall|i: int, j: int| 0 <= i < j < list.len() ==> list[i] != list[j]
}

/// The number of names that the items before the one at `i` have.
pub open spec fn names_before(items: Seq<Aliases>, i: int) -> int {
    all_names(items.take(i)).len() as int
}

/// `all_names` of a list with one more item.
pub proof fn lemma_all_names_push(items: Seq<Aliases>, item: Aliases)
    ensures
        all_names(items.push(item)) == all_names(items) + item.names(),
{
    assert(items.push(item).drop_last() =~= items);
}

/// `all_names` of two lists, one after the other.
pub proof fn lemma_all_names_add(a: Seq<Aliases>, b: Seq<Aliases>)
    ensures
        all_names(a + b) == all_names(a) + all_names(b),
    decreases b.len(),
{
    if b.len() == 0 {
        assert(a + b =~= a);
        assert(all_names(a) + all_names(b) =~= all_names(a));
    } else {
        lemma_all_names_add(a, b.drop_last());
        assert((a + b).drop_last() =~= a + b.drop_last());
        assert(all_names(a + b) =~= all_names(a) + all_names(b));
    }
}

/// Where the names of the item at `i` stand among all names.
pub proof fn lemma_names_at(items: Seq<Aliases>, i: int)
    requires
        0 <= i < items.len(),
    ensures
        0 <= names_before(items, i) < all_names(items).len(),
        all_names(items)[names_before(items, i)] == (items[i].long, true),
        items[i].short matches Some(short) ==> names_before(items, i) + 1 < all_names(
            items,
        ).len() && all_names(items)[names_before(items, i) + 1] == (short, false),
        names_before(items, i + 1) == names_before(items, i) + items[i].names().len(),
        names_before(items, i + 1) <= all_names(items).len(),
{
    lemma_all_names_add(items.take(i + 1), items.skip(i + 1));
    assert(items.take(i + 1) + items.skip(i + 1) =~= items);
    lemma_all_names_push(items.take(i), items[i]);
    assert(items.take(i).push(items[i]) =~= items.take(i + 1));
}

/// Later items have their names later.
pub proof fn lemma_names_before_grows(items: Seq<Aliases>, i: int, j: int)
    requires
        0 <= i <= j <= items.len(),
    ensures
        names_before(items, i) <= names_before(items, j),
    decreases j - i,
{
    if i < j {
        lemma_names_at(items, i);
        lemma_names_before_grows(items, i + 1, j);
    }
}

/// Every name belongs to an item: the one at a place among all names is the
/// long or the short name of some item.
pub proof fn lemma_name_owner(items: Seq<Aliases>, p: int) -> (i: int)
    requires
        0 <= p < all_names(items).len(),
    ensures
        0 <= i < items.len(),
        p == names_before(items, i) || (p == names_before(items, i) + 1 && items[i].short
            is Some),
    decreases items.len(),
{
    let front = items.drop_last();
    let last = items.len() - 1;
    assert(items.take(last) =~= front);
    if p < all_names(front).len() {
        let i = lemma_name_owner(front, p);
        assert(front.take(i) =~= items.take(i));
        i
    } else {
        lemma_names_at(items, last);
        last
    }
}

/// In a list of names without a repeated text no two items share a name.
pub proof fn lemma_distinct_no_sharing(items: Seq<Aliases>)
    requires
        distinct(texts(all_names(items))),
    ensures
        no_sharing(items),
{
    let list = texts(all_names(items));
    assert forall|i: int, j: int|
        0 <= i < items.len() && 0 <= j < items.len() && i != j implies !(#[trigger] items[i]).shares(
        #[trigger] items[j],
    ) by {
        lemma_names_at(items, i);
        lemma_names_at(items, j);
        if i < j {
            lemma_names_before_grows(items, i + 1, j);
        } else {
            lemma_names_before_grows(items, j + 1, i);
        }
        let p = names_before(items, i);
        let q = names_before(items, j);
        assert(list[p] == items[i].long);
        assert(list[q] == items[j].long);
        if items[i].short is Some {
            assert(list[p + 1] == items[i].short->0);
        }
        if items[j].short is Some {
            assert(list[q + 1] == items[j].short->0);
        }
    }
    assert forall|i: int| 0 <= i < items.len() implies (#[trigger] items[i]).short != Some(
        items[i].long,
    ) by {
        lemma_names_at(items, i);
        let p = names_before(items, i);
        if items[i].short is Some {
            assert(list[p] == items[i].long);
            assert(list[p + 1] == items[i].short->0);
        }
    }
}

/// In a list of items of which no two share a name, no text of a name is
/// repeated.
pub proof fn lemma_no_sharing_distinct(items: Seq<Aliases>)
    requires
        no_sharing(items),
    ensures
        distinct(texts(all_names(items))),
{
    let list = texts(all_names(items));
    assert forall|p: int, q: int| 0 <= p < q < list.len() implies list[p] != list[q] by {
        let i = lemma_name_owner(items, p);
        let j = lemma_name_owner(items, q);
        lemma_names_at(items, i);
        lemma_names_at(items, j);
        if i < j {
            lemma_names_before_grows(items, i + 1, j);
        } else if j < i {
            lemma_names_before_grows(items, j + 1, i);
        }
        if i != j {
            assert(!items[i].shares(items[j]));
        }
    }
}

/// A list has no repeated text just where `first_repeat` finds none.
pub proof fn lemma_first_repeat_none(list: Seq<Seq<char>>)
    ensures
        first_repeat(list, 0) is None <==> distinct(list),
{
    lemma_first_true(repeat_marks(list), 0);
    if distinct(list) {
        match first_repeat(list, 0) {
            Some(j) => {
                assert(repeats(list, j));
            },
            None => {},
        }
    }
    if first_repeat(list, 0) is None {
        assert forall|i: int, j: int| 0 <= i < j < list.len() implies list[i] != list[j] by {
            assert(!repeat_marks(list)[j]);
        }
    }
}

/// A list has only well-formed names just where `first_malformed` finds
/// none.
pub proof fn lemma_first_malformed_none(names: Seq<(Seq<char>, bool)>)
    ensures
        first_malformed(names) is None <==> forall|i: int|
            0 <= i < names.len() ==> well_formed(#[trigger] names[i]),
{
    lemma_first_true(malformed_marks(names), 0);
    if first_malformed(names) is None {
        assert forall|i: int| 0 <= i < names.len() implies well_formed(#[trigger] names[i]) by {
            assert(!malformed_marks(names)[i]);
        }
    }
}

/// In a list of well-formed names every item is sound, and the other way
/// round.
pub proof fn lemma_well_formed_sound(items: Seq<Aliases>)
    ensures
        (forall|p: int| 0 <= p < all_names(items).len() ==> well_formed(#[trigger] all_names(items)[p]))
            <==> (forall|i: int| 0 <= i < items.len() ==> (#[trigger] items[i]).sound()),
{
    let all = all_names(items);
    if forall|p: int| 0 <= p < all.len() ==> well_formed(#[trigger] all[p]) {
        assert forall|i: int| 0 <= i < items.len() implies (#[trigger] items[i]).sound() by {
            lemma_names_at(items, i);
            let p = names_before(items, i);
            assert(well_formed(all[p]));
            if items[i].short is Some {
                assert(well_formed(all[p + 1]));
            }
        }
    }
    if forall|i: int| 0 <= i < items.len() ==> (#[trigger] items[i]).sound() {
        assert forall|p: int| 0 <= p < all.len() implies well_formed(#[trigger] all[p]) by {
            let i = lemma_name_owner(items, p);
            lemma_names_at(items, i);
            assert(items[i].sound());
        }
    }
}

} // verus!
