//! Small facts about sequences and names that the planners share.
use vstd::prelude::*;

verus! {

/// The views of a vector of names.
pub open spec fn names_of(v: Seq<String>) -> Seq<Seq<char>> {
    v.map_values(|s: String| s@)
}

/// `i` is the first position of `x` in `s`, so `index_of_first` finds it.
pub proof fn lemma_first_at<A>(s: Seq<A>, x: A, i: int)
    requires
        0 <= i < s.len(),
        s[i] == x,
        forall|j: int| 0 <= j < i ==> s[j] != x,
    ensures
        s.index_of_first(x) == Some(i),
{
    s.index_of_first_ensures(x);
    let r = s.index_of_first(x).unwrap();
    if r < i {
        assert(s[r] == x);
    } else if r > i {
        assert(s[i] != x);
    }
}

/// `x` does not occur in `s`.
pub proof fn lemma_first_none<A>(s: Seq<A>, x: A)
    requires
        forall|j: int| 0 <= j < s.len() ==> s[j] != x,
    ensures
        s.index_of_first(x) == None::<int>,
{
    s.index_of_first_ensures(x);
}

/// Position of the first name equal to `n`.
pub fn find_name(names: &Vec<String>, n: &String) -> (r: Option<usize>)
    ensures
        match r {
            Some(i) => names_of(names@).index_of_first(n@) == Some(i as int),
            None => names_of(names@).index_of_first(n@) == None::<int>,
        },
{
    let ghost ns = names_of(names@);
    let mut i: usize = 0;
    while i < names.len()
        invariant
            i <= names.len(),
            ns == names_of(names@),
            forall|j: int| 0 <= j < i ==> ns[j] != n@,
        decreases names.len() - i,
    {
        if names[i] == *n {
            proof {
                lemma_first_at(ns, n@, i as int);
            }
            return Some(i);
        }
        i += 1;
    }
    proof {
        lemma_first_none(ns, n@);
    }
    None
}

/// Whether some name equals `n`.
pub fn has_name(names: &Vec<String>, n: &String) -> (r: bool)
    ensures
        r == names_of(names@).contains(n@),
{
    let f = find_name(names, n);
    proof {
        names_of(names@).index_of_first_ensures(n@);
    }
    f.is_some()
}

} // verus!
