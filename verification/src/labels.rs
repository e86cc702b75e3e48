use vstd::prelude::*;

verus! {

/// The view of a vector of `(key, value)` label pairs: the same pairs as
/// sequences of characters.
pub open spec fn labels_view(labels: Seq<(String, String)>) -> Seq<(Seq<char>, Seq<char>)> {
    labels.map_values(|p: (String, String)| (p.0@, p.1@))
}

/// The value that a sequence of label pairs associates with `key`: the value
/// of the first pair carrying that key, or `None` when no pair does.
pub open spec fn label_value(labels: Seq<(Seq<char>, Seq<char>)>, key: Seq<char>) -> Option<
    Seq<char>,
>
    decreases labels.len(),
{
    if labels.len() == 0 {
        None
    } else if labels[0].0 == key {
        Some(labels[0].1)
    } else {
        label_value(labels.skip(1), key)
    }
}

/// A selector matches a label set when every selector pair is present in the
/// label set with an equal value. Extra labels are ignored, and the empty
/// selector matches everything.
pub open spec fn selector_matches(
    selector: Seq<(Seq<char>, Seq<char>)>,
    labels: Seq<(Seq<char>, Seq<char>)>,
) -> bool {
    forall|i: int|
        0 <= i < selector.len() ==> #[trigger] label_value(labels, selector[i].0) == Some(
            selector[i].1,
        )
}

proof fn lemma_label_value_first_match(
    labels: Seq<(Seq<char>, Seq<char>)>,
    key: Seq<char>,
    i: int,
)
    requires
        0 <= i < labels.len(),
        labels[i].0 == key,
        forall|j: int| 0 <= j < i ==> labels[j].0 != key,
    ensures
        label_value(labels, key) == Some(labels[i].1),
    decreases i,
{
    if i > 0 {
        lemma_label_value_first_match(labels.skip(1), key, i - 1);
    }
}

proof fn lemma_label_value_absent(labels: Seq<(Seq<char>, Seq<char>)>, key: Seq<char>)
    requires
        forall|j: int| 0 <= j < labels.len() ==> labels[j].0 != key,
    ensures
        label_value(labels, key) is None,
    decreases labels.len(),
{
    if labels.len() > 0 {
        lemma_label_value_absent(labels.skip(1), key);
    }
}

/// Finds the value stored for `key` in a label vector, by first match.
pub fn lookup_label<'a>(labels: &'a Vec<(String, String)>, key: &String) -> (r: Option<&'a String>)
    ensures
        match r {
            Some(v) => label_value(labels_view(labels@), key@) == Some(v@),
            None => label_value(labels_view(labels@), key@) is None,
        },
{
    let ghost lv = labels_view(labels@);
    let n = labels.len();
    for i in 0..n
        invariant
            n == labels.len(),
            lv == labels_view(labels@),
            forall|j: int| 0 <= j < i ==> lv[j].0 != key@,
    {
        if labels[i].0 == *key {
            proof {
                lemma_label_value_first_match(lv, key@, i as int);
            }
            return Some(&labels[i].1);
        }
    }
    proof {
        lemma_label_value_absent(lv, key@);
    }
    None
}

/// Copies a label vector pair by pair.
pub fn clone_labels(labels: &Vec<(String, String)>) -> (r: Vec<(String, String)>)
    ensures
        r@ == labels@,
{
    let mut r: Vec<(String, String)> = Vec::new();
    let n = labels.len();
    for i in 0..n
        invariant
            n == labels.len(),
            r@ == labels@.take(i as int),
    {
        r.push((labels[i].0.clone(), labels[i].1.clone()));
        proof {
            assert(r@ =~= labels@.take(i as int + 1));
        }
    }
    proof {
        assert(labels@.take(n as int) =~= labels@);
    }
    r
}

} // verus!
