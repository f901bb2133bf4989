//! Choosing one of several items. Asking the operator is done elsewhere;
//! here is what is chosen without asking, and which item an answer
//! stands for.

use crate::text::{text_eq, texts};
use vstd::prelude::*;

verus! {

/// What is chosen where the operator cannot be asked: the only item
/// there is, and nothing where there are several or none.
pub fn select_unasked(items: &Vec<String>) -> (r: Option<String>)
    ensures
        match r {
            Some(item) => items@.len() == 1 && item@ == items@[0]@,
            None => items@.len() != 1,
        },
{
    if items.len() == 1 {
        Some(items[0].clone())
    } else {
        None
    }
}

/// The position of the first text from `from` on that equals `wanted`.
pub open spec fn first_equal(list: Seq<Seq<char>>, wanted: Seq<char>, from: nat) -> Option<int>
    decreases list.len() - from,
{
    if from >= list.len() {
        None
    } else if list[from as int] == wanted {
        Some(from as int)
    } else {
        first_equal(list, wanted, from + 1)
    }
}

/// The position of the item that was shown as `chosen`: the first one
/// that is shown so.
pub fn position_of(shown: &Vec<String>, chosen: &str) -> (r: Option<usize>)
    ensures
        match r {
            Some(k) => first_equal(texts(shown@), chosen@, 0) == Some(k as int) && k < shown@.len(),
            None => first_equal(texts(shown@), chosen@, 0) is None,
        },
{
    let mut i: usize = 0;
    while i < shown.len()
        invariant
            i <= shown.len(),
            first_equal(texts(shown@), chosen@, 0) == first_equal(texts(shown@), chosen@, i as nat),
        decreases shown.len() - i,
    {
        assert(texts(shown@)[i as int] == shown@[i as int]@);
        if text_eq(shown[i].as_str(), chosen) {
            return Some(i);
        }
        i = i + 1;
    }
    None
}

} // verus!
