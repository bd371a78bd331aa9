//! Footnote numbering.
//!
//! Each render pass owns one [`FootnoteNumbers`]: a map from footnote name
//! to number that assigns numbers lazily, in strict order of first
//! encounter — whether the first encounter is an inline reference or a
//! definition block — and keeps them stable for the rest of the pass. The
//! map is represented as the sequence of names in assignment order: the
//! number of a name is one plus its position.

use vstd::prelude::*;

verus! {

/// The number that `name` has, or would get, under the assignment order
/// `numbers`: one plus the position of its first occurrence, or one plus
/// the length when it has not been seen.
pub open spec fn fnote_num(numbers: Seq<Seq<char>>, name: Seq<char>) -> int
    decreases numbers.len(),
{
    if numbers.len() == 0 {
        1
    } else if numbers[0] == name {
        1
    } else {
        1 + fnote_num(numbers.drop_first(), name)
    }
}

/// The assignment order after encountering `name`: unchanged when `name`
/// was already seen, extended by `name` otherwise.
pub open spec fn fnote_insert(numbers: Seq<Seq<char>>, name: Seq<char>) -> Seq<Seq<char>> {
    if numbers.contains(name) {
        numbers
    } else {
        numbers.push(name)
    }
}

proof fn lemma_fnote_num_at(numbers: Seq<Seq<char>>, name: Seq<char>, i: int)
    requires
        0 <= i < numbers.len(),
        numbers[i] == name,
        forall|j: int| 0 <= j < i ==> numbers[j] != name,
    ensures
        fnote_num(numbers, name) == i + 1,
    decreases i,
{
    if i > 0 {
        lemma_fnote_num_at(numbers.drop_first(), name, i - 1);
    }
}

proof fn lemma_fnote_num_absent(numbers: Seq<Seq<char>>, name: Seq<char>)
    requires
        forall|j: int| 0 <= j < numbers.len() ==> numbers[j] != name,
    ensures
        fnote_num(numbers, name) == numbers.len() + 1,
        !numbers.contains(name),
    decreases numbers.len(),
{
    if numbers.len() > 0 {
        lemma_fnote_num_absent(numbers.drop_first(), name);
    }
}

proof fn lemma_fnote_num_push_seen(numbers: Seq<Seq<char>>, m: Seq<char>, name: Seq<char>)
    requires
        numbers.contains(name),
    ensures
        fnote_num(numbers.push(m), name) == fnote_num(numbers, name),
    decreases numbers.len(),
{
    if numbers[0] == name {
    } else {
        assert(numbers.drop_first().contains(name)) by {
            let i = choose|i: int| 0 <= i < numbers.len() && numbers[i] == name;
            assert(numbers.drop_first()[i - 1] == name);
        }
        lemma_fnote_num_push_seen(numbers.drop_first(), m, name);
        assert(numbers.push(m).drop_first() =~= numbers.drop_first().push(m));
    }
}

/// Law (stability): within one render pass, encountering any further name
/// never changes the number of a name that has already been assigned one.
pub proof fn lemma_fnote_num_stable(numbers: Seq<Seq<char>>, m: Seq<char>, name: Seq<char>)
    requires
        numbers.contains(name),
    ensures
        fnote_num(fnote_insert(numbers, m), name) == fnote_num(numbers, name),
        fnote_insert(numbers, m).contains(name),
{
    if !numbers.contains(m) {
        lemma_fnote_num_push_seen(numbers, m, name);
        let i = choose|i: int| 0 <= i < numbers.len() && numbers[i] == name;
        assert(numbers.push(m)[i] == name);
    }
}

/// Law (first-appearance order): a name first encountered when `n` names
/// have been assigned gets the number `n + 1`, both at that encounter and
/// at every later one.
pub proof fn lemma_fnote_num_fresh(numbers: Seq<Seq<char>>, name: Seq<char>)
    requires
        !numbers.contains(name),
    ensures
        fnote_num(numbers, name) == numbers.len() + 1,
        fnote_insert(numbers, name).contains(name),
        fnote_num(fnote_insert(numbers, name), name) == numbers.len() + 1,
{
    assert(forall|j: int| 0 <= j < numbers.len() ==> numbers[j] != name);
    lemma_fnote_num_absent(numbers, name);
    let pushed = numbers.push(name);
    assert(pushed[numbers.len() as int] == name);
    lemma_fnote_num_at(pushed, name, numbers.len() as int);
}

/// The per-render footnote name-to-number map.
pub struct FootnoteNumbers {
    names: Vec<String>,
}

impl View for FootnoteNumbers {
    type V = Seq<Seq<char>>;

    closed spec fn view(&self) -> Seq<Seq<char>> {
        self.names.deep_view()
    }
}

impl FootnoteNumbers {
    /// An empty map; no number assigned yet.
    pub fn new() -> (r: Self)
        ensures
            r@ == Seq::<Seq<char>>::empty(),
    {
        let r = FootnoteNumbers { names: Vec::new() };
        proof {
            assert(r@ =~= Seq::<Seq<char>>::empty());
        }
        r
    }

    /// How many names have a number.
    pub fn len(&self) -> (n: usize)
        ensures
            n == self@.len(),
    {
        self.names.len()
    }

    /// The number of `name`, assigning the next free number on first
    /// encounter.
    pub fn get_or_assign(&mut self, name: &String) -> (n: usize)
        requires
            old(self)@.len() < usize::MAX,
        ensures
            final(self)@ == fnote_insert(old(self)@, name@),
            n == fnote_num(old(self)@, name@),
            final(self)@.len() <= old(self)@.len() + 1,
    {
        let count = self.names.len();
        let mut i: usize = 0;
        while i < count
            invariant
                i <= count,
                self@ == old(self)@,
                self.names@ == old(self).names@,
                count == self.names@.len(),
                self@.len() == self.names@.len(),
                forall|j: int| 0 <= j < i ==> self@[j] != name@,
                forall|j: int| 0 <= j < self.names@.len() ==> self@[j] == self.names@[j]@,
            decreases count - i,
        {
            if self.names[i].eq(name) {
                proof {
                    assert(self@[i as int] == name@);
                    lemma_fnote_num_at(self@, name@, i as int);
                    assert(self@.contains(name@)) by {
                        assert(exists|j: int|
                            0 <= j < self@.len() && self@[j] == name@) by {
                            assert(self@[i as int] == name@);
                        }
                    }
                }
                return i + 1;
            }
            i += 1;
        }
        proof {
            lemma_fnote_num_absent(self@, name@);
        }
        self.names.push(name.clone());
        proof {
            assert(self@ =~= old(self)@.push(name@));
        }
        count + 1
    }
}

} // verus!
