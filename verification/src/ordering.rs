//! What holds of every work list: it is determined by the pending units, not
//! by the order in which the directory listed them.

use vstd::prelude::*;
use crate::catalog::{
    ascending, discovered, is_arrangement_of, is_pending, is_work_list, name_texts,
    strictly_ascending, unit_of, with_token, Listing, UnitView,
};
use crate::token::{has_sql_suffix, version_token};

verus! {

/// No two migration files of the listing carry the same token.
pub open spec fn distinct_tokens(names: Seq<Seq<char>>) -> bool {
    forall|i: int, j: int|
        0 <= i < j < names.len() && has_sql_suffix(#[trigger] names[i]) && has_sql_suffix(
            #[trigger] names[j],
        ) && version_token(names[i]) is Ok ==> version_token(names[i]) != version_token(names[j])
}

/// Two listings hold the same names, in whatever order.
pub open spec fn same_names(a: Seq<Seq<char>>, b: Seq<Seq<char>>) -> bool {
    forall|name: Seq<char>| a.contains(name) <==> b.contains(name)
}

/// The units that `with_token` picks carry the token and come from the
/// sequence.
pub proof fn lemma_with_token_sound(units: Seq<UnitView>, token: u128, k: int)
    requires
        0 <= k < with_token(units, token).len(),
    ensures
        with_token(units, token)[k].token == token,
        units.contains(with_token(units, token)[k]),
    decreases units.len(),
{
    let init = units.drop_last();
    if !(units.last().token == token && k == with_token(units, token).len() - 1) {
        lemma_with_token_sound(init, token, k);
        let i = choose|i: int| 0 <= i < init.len() && init[i] == with_token(init, token)[k];
        assert(units[i] == init[i]);
    }
}

/// A unit of the sequence is picked by `with_token` for its own token.
pub proof fn lemma_with_token_hit(units: Seq<UnitView>, i: int)
    requires
        0 <= i < units.len(),
    ensures
        with_token(units, units[i].token).len() >= 1,
    decreases units.len(),
{
    if i < units.len() - 1 {
        lemma_with_token_hit(units.drop_last(), i);
    }
}

/// Two units of the sequence with one token are both picked by `with_token`.
pub proof fn lemma_with_token_two_hits(units: Seq<UnitView>, i: int, j: int)
    requires
        0 <= i < j < units.len(),
        units[i].token == units[j].token,
    ensures
        with_token(units, units[i].token).len() >= 2,
    decreases units.len(),
{
    if j < units.len() - 1 {
        lemma_with_token_two_hits(units.drop_last(), i, j);
    } else {
        lemma_with_token_hit(units.drop_last(), i);
    }
}

/// Where no unit carries the token, `with_token` picks nothing.
pub proof fn lemma_with_token_miss(units: Seq<UnitView>, token: u128)
    requires
        forall|i: int| 0 <= i < units.len() ==> (#[trigger] units[i]).token != token,
    ensures
        with_token(units, token) == Seq::<UnitView>::empty(),
    decreases units.len(),
{
    if units.len() > 0 {
        let init = units.drop_last();
        assert forall|i: int| 0 <= i < init.len() implies (#[trigger] init[i]).token != token by {
            assert(init[i] == units[i]);
        }
        lemma_with_token_miss(init, token);
    }
}

/// An ascending sequence is determined by what it holds for each token: two
/// ascending sequences that agree token by token are equal. So there is one
/// arrangement of the units that were found, and no more.
pub proof fn lemma_ascending_unique(x: Seq<UnitView>, y: Seq<UnitView>)
    requires
        ascending(x),
        ascending(y),
        forall|token: u128| #[trigger] with_token(x, token) == with_token(y, token),
    ensures
        x == y,
    decreases x.len(),
{
    if x.len() == 0 {
        if y.len() > 0 {
            lemma_with_token_hit(y, y.len() - 1);
            assert(with_token(x, y.last().token) == with_token(y, y.last().token));
        }
    } else {
        let a = x.last();
        let b = y.last();
        // Each of the two last units stands somewhere in the other sequence,
        // so neither token is the greater, and the two units are one.
        lemma_with_token_hit(x, x.len() - 1);
        lemma_with_token_sound(y, a.token, 0);
        lemma_with_token_hit(y, y.len() - 1);
        lemma_with_token_sound(x, b.token, 0);
        assert(a.token == b.token);
        assert(with_token(x, a.token).last() == a);
        assert(with_token(y, a.token).last() == b);
        // Without them the sequences still agree token by token.
        let x0 = x.drop_last();
        let y0 = y.drop_last();
        assert forall|token: u128| #[trigger] with_token(x0, token) == with_token(y0, token) by {
            assert(with_token(x, token) == with_token(y, token));
            if token == a.token {
                assert(with_token(x, token).drop_last() == with_token(x0, token));
                assert(with_token(y, token).drop_last() == with_token(y0, token));
            }
        }
        assert(ascending(x0)) by {
            assert forall|i: int, j: int| 0 <= i <= j < x0.len() implies x0[i].token
                <= x0[j].token by {
                assert(x[i].token <= x[j].token);
            }
        }
        assert(ascending(y0)) by {
            assert forall|i: int, j: int| 0 <= i <= j < y0.len() implies y0[i].token
                <= y0[j].token by {
                assert(y[i].token <= y[j].token);
            }
        }
        lemma_ascending_unique(x0, y0);
        assert(x =~= x0.push(a));
        assert(y =~= y0.push(b));
    }
}

/// The units that were found are arranged in one way only.
pub proof fn lemma_arrangement_unique(x: Seq<UnitView>, y: Seq<UnitView>, found: Seq<UnitView>)
    requires
        is_arrangement_of(x, found),
        is_arrangement_of(y, found),
    ensures
        x == y,
{
    assert forall|token: u128| #[trigger] with_token(x, token) == with_token(y, token) by {
        assert(with_token(x, token) == with_token(found, token));
    }
    lemma_ascending_unique(x, y);
}

/// A listing and a high-water mark have one work list.
pub proof fn lemma_work_list_unique(
    listing: Listing,
    high_water_mark: u128,
    x: Seq<UnitView>,
    y: Seq<UnitView>,
)
    requires
        is_work_list(x, listing, high_water_mark),
        is_work_list(y, listing, high_water_mark),
    ensures
        x == y,
{
    lemma_arrangement_unique(
        x,
        y,
        discovered(name_texts(listing->Entries_0@), high_water_mark),
    );
}

/// Where no pending name of the listing carries the token, no unit that was
/// found does.
pub proof fn lemma_token_unowned(names: Seq<Seq<char>>, high_water_mark: u128, token: u128)
    requires
        forall|i: int|
            0 <= i < names.len() && is_pending(#[trigger] names[i], high_water_mark)
                ==> version_token(names[i]).unwrap() != token,
    ensures
        with_token(discovered(names, high_water_mark), token) == Seq::<UnitView>::empty(),
    decreases names.len(),
{
    if names.len() > 0 {
        let init = names.drop_last();
        assert forall|i: int|
            0 <= i < init.len() && is_pending(
                #[trigger] init[i],
                high_water_mark,
            ) implies version_token(init[i]).unwrap() != token by {
            assert(init[i] == names[i]);
        }
        lemma_token_unowned(init, high_water_mark, token);
        if is_pending(names.last(), high_water_mark) {
            let found = discovered(names, high_water_mark);
            assert(found.drop_last() == discovered(init, high_water_mark));
        }
    }
}

/// Where tokens are distinct, the units found for the token of a pending
/// name are that name's unit and nothing else.
pub proof fn lemma_token_owner(names: Seq<Seq<char>>, high_water_mark: u128, i: int)
    requires
        distinct_tokens(names),
        0 <= i < names.len(),
        is_pending(names[i], high_water_mark),
    ensures
        with_token(discovered(names, high_water_mark), unit_of(names[i]).token) == seq![
            unit_of(names[i]),
        ],
    decreases names.len(),
{
    let token = unit_of(names[i]).token;
    let init = names.drop_last();
    let found = discovered(names, high_water_mark);
    let earlier = discovered(init, high_water_mark);
    if i == names.len() - 1 {
        // The name is the last one: no name in front of it has its token.
        assert forall|j: int|
            0 <= j < init.len() && is_pending(
                #[trigger] init[j],
                high_water_mark,
            ) implies version_token(init[j]).unwrap() != token by {
            assert(init[j] == names[j]);
            assert(version_token(names[j]) != version_token(names[i]));
        }
        lemma_token_unowned(init, high_water_mark, token);
        assert(found.drop_last() == earlier);
    } else {
        // The name stands in front of the last one, which has another token.
        assert(distinct_tokens(init)) by {
            assert forall|p: int, q: int|
                0 <= p < q < init.len() && has_sql_suffix(#[trigger] init[p]) && has_sql_suffix(
                    #[trigger] init[q],
                ) && version_token(init[p]) is Ok implies version_token(init[p])
                != version_token(init[q]) by {
                assert(init[p] == names[p] && init[q] == names[q]);
            }
        }
        assert(init[i] == names[i]);
        lemma_token_owner(init, high_water_mark, i);
        if is_pending(names.last(), high_water_mark) {
            assert(found.drop_last() == earlier);
            assert(version_token(names[i]) != version_token(names.last()));
        }
    }
}

/// Where tokens are distinct, the work list rises strictly.
pub proof fn lemma_distinct_tokens_rise(
    names: Seq<Seq<char>>,
    high_water_mark: u128,
    units: Seq<UnitView>,
)
    requires
        distinct_tokens(names),
        is_arrangement_of(units, discovered(names, high_water_mark)),
    ensures
        strictly_ascending(units),
{
    let found = discovered(names, high_water_mark);
    assert forall|p: int, q: int| 0 <= p < q < units.len() implies units[p].token
        < units[q].token by {
        assert(units[p].token <= units[q].token);
        if units[p].token == units[q].token {
            // Two units with one token would both be found for it.
            let token = units[p].token;
            lemma_with_token_two_hits(units, p, q);
            assert(with_token(units, token) == with_token(found, token));
            if exists|i: int|
                0 <= i < names.len() && is_pending(#[trigger] names[i], high_water_mark)
                    && version_token(names[i]).unwrap() == token {
                let i = choose|i: int|
                    0 <= i < names.len() && is_pending(#[trigger] names[i], high_water_mark)
                        && version_token(names[i]).unwrap() == token;
                lemma_token_owner(names, high_water_mark, i);
            } else {
                lemma_token_unowned(names, high_water_mark, token);
            }
        }
    }
}

/// Two listings of the same names, with distinct tokens, give the same work
/// list, and it rises strictly: the order in which a directory lists its
/// entries does not show in the order of the run.
pub proof fn lemma_listing_order_is_irrelevant(
    a: Listing,
    b: Listing,
    high_water_mark: u128,
    x: Seq<UnitView>,
    y: Seq<UnitView>,
)
    requires
        is_work_list(x, a, high_water_mark),
        is_work_list(y, b, high_water_mark),
        distinct_tokens(name_texts(a->Entries_0@)),
        distinct_tokens(name_texts(b->Entries_0@)),
        same_names(name_texts(a->Entries_0@), name_texts(b->Entries_0@)),
    ensures
        x == y,
        strictly_ascending(x),
{
    let na = name_texts(a->Entries_0@);
    let nb = name_texts(b->Entries_0@);
    let fa = discovered(na, high_water_mark);
    let fb = discovered(nb, high_water_mark);
    assert forall|token: u128| #[trigger] with_token(x, token) == with_token(y, token) by {
        assert(with_token(x, token) == with_token(fa, token));
        assert(with_token(y, token) == with_token(fb, token));
        if exists|i: int|
            0 <= i < na.len() && is_pending(#[trigger] na[i], high_water_mark) && version_token(
                na[i],
            ).unwrap() == token {
            let i = choose|i: int|
                0 <= i < na.len() && is_pending(#[trigger] na[i], high_water_mark)
                    && version_token(na[i]).unwrap() == token;
            // One name carries the token, and it stands in both listings.
            assert(na.contains(na[i]));
            let j = choose|j: int| 0 <= j < nb.len() && nb[j] == na[i];
            lemma_token_owner(na, high_water_mark, i);
            lemma_token_owner(nb, high_water_mark, j);
        } else {
            // No name carries the token, in either listing.
            assert forall|j: int|
                0 <= j < nb.len() && is_pending(
                    #[trigger] nb[j],
                    high_water_mark,
                ) implies version_token(nb[j]).unwrap() != token by {
                assert(nb.contains(nb[j]));
                let i = choose|i: int| 0 <= i < na.len() && na[i] == nb[j];
                assert(is_pending(na[i], high_water_mark));
            }
            lemma_token_unowned(na, high_water_mark, token);
            lemma_token_unowned(nb, high_water_mark, token);
        }
    }
    lemma_ascending_unique(x, y);
    lemma_distinct_tokens_rise(na, high_water_mark, x);
}

} // verus!
