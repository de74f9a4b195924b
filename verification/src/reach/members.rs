use vstd::prelude::*;
use crate::grammar::lexical::{lemma_trivia_end_bounds, trivia};
use crate::grammar::members::{params, spaced_type_list};
use crate::grammar::types::type_list;
use crate::reach::types::{lemma_type_expr_fail, lemma_type_list_reach};

verus! {

/// A parameter list that matched looked at nothing behind its closing
/// parenthesis.
pub proof fn lemma_params_reach(s: Seq<u8>, p: int)
    requires
        0 <= p <= s.len(),
        params(s, p).ok,
    ensures
        p + 2 <= params(s, p).end <= s.len(),
        params(s, p).seen <= params(s, p).end,
{
    reveal(params);
    reveal(spaced_type_list);
    reveal_with_fuel(type_list, 1);
    lemma_trivia_end_bounds(s, p + 1, false);
    let q = trivia(s, p + 1).end;
    let list = type_list(s, q);
    crate::nesting::types::lemma_type_list_nested(s, q);
    if list.ok {
        lemma_trivia_end_bounds(s, list.end, false);
        lemma_type_list_reach(s, q);
    } else {
        lemma_type_expr_fail(s, q);
    }
}

} // verus!
