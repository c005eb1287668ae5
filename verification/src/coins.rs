//! Lists of coins: adding a coin to a list merges it with the coin of the
//! same denomination.
use crate::error::Abort;
use crate::model::Duplicate;
use crate::state::{Coin, CoinModel};
use vstd::prelude::*;

verus! {

/// Index of the first coin of `denom` in `list`, if any.
pub open spec fn first_of_denom(list: Seq<CoinModel>, denom: Seq<char>) -> Option<int>
    decreases list.len(),
{
    if list.len() == 0 {
        None
    } else if list[0].denom == denom {
        Some(0)
    } else {
        match first_of_denom(list.drop_first(), denom) {
            Some(i) => Some(i + 1),
            None => None,
        }
    }
}

pub(crate) proof fn lemma_first_of_denom(list: Seq<CoinModel>, denom: Seq<char>)
    ensures
        match first_of_denom(list, denom) {
            Some(i) => 0 <= i < list.len() && list[i].denom == denom && forall|j: int| 0 <= j < i ==> list[j].denom != denom,
            None => forall|j: int| 0 <= j < list.len() ==> list[j].denom != denom,
        },
    decreases list.len(),
{
    if list.len() > 0 {
        lemma_first_of_denom(list.drop_first(), denom);
        assert forall|j: int| 0 < j < list.len() implies #[trigger] list[j] == list.drop_first()[j - 1] by {}
    }
}

/// `list` with `c` added: its amount is added to the first coin of the same
/// denomination, else the coin is appended; `None` if the amount overflows.
pub open spec fn spec_add_coin(list: Seq<CoinModel>, c: CoinModel) -> Option<Seq<CoinModel>> {
    match first_of_denom(list, c.denom) {
        Some(i) => if list[i].amount + c.amount > u128::MAX {
            None
        } else {
            Some(list.update(i, CoinModel { denom: c.denom, amount: (list[i].amount + c.amount) as u128 }))
        },
        None => Some(list.push(c)),
    }
}

/// Adds `c` to `list` (see [`spec_add_coin`]); on overflow the list is left
/// as it was.
pub fn add_coin(list: &mut Vec<Coin>, c: Coin) -> (r: Result<(), Abort>)
    ensures
        match spec_add_coin(old(list).deep_view(), c@) {
            Some(l) => r is Ok && final(list).deep_view() == l,
            None => r == Err::<(), Abort>(Abort::Overflow) && final(list).deep_view() == old(list).deep_view(),
        },
{
    proof {
        lemma_first_of_denom(list.deep_view(), c@.denom);
    }
    let mut i: usize = 0;
    while i < list.len()
        invariant
            i <= list.len(),
            list.deep_view() == old(list).deep_view(),
            forall|j: int| 0 <= j < i ==> list.deep_view()[j].denom != c@.denom,
        decreases list.len() - i,
    {
        if list[i].denom == c.denom {
            assert(list.deep_view()[i as int].denom == c@.denom);
            proof {
                lemma_first_of_denom(old(list).deep_view(), c@.denom);
            }
            let amount = match list[i].amount.checked_add(c.amount) {
                Some(a) => a,
                None => return Err(Abort::Overflow),
            };
            let ghost before = list.deep_view();
            list.set(i, Coin { denom: c.denom, amount });
            proof {
                assert(list.deep_view() =~= before.update(i as int, CoinModel { denom: c@.denom, amount }));
            }
            return Ok(());
        }
        i = i + 1;
    }
    proof {
        lemma_first_of_denom(old(list).deep_view(), c@.denom);
    }
    let ghost before = list.deep_view();
    let ghost cm = c@;
    list.push(c);
    proof {
        assert(list.deep_view() =~= before.push(cm));
    }
    Ok(())
}

} // verus!
