//! Whose use a quota window shows.

use crate::store::usage::{
    costs_of, has_markers, is_model, is_of_window, is_total, model_costs_of, models_of, pieces,
    placed, ranked, ranks_before, repeats_model, repeats_window, the_most_used_model_goes_first,
    window_at, windows_of, CostView, ModelView, UsageRowView, WindowView,
};
use crate::text::text_le;
use vstd::prelude::*;

verus! {

proof fn windows_are_of_totals(rows: Seq<UsageRowView>, count: nat, at: int)
    requires
        count <= rows.len(),
    ensures
        0 <= at < count && rows[at].model_grouping == 1 && rows[at].currency_grouping == 1
            ==> windows_of(rows, count).contains(window_at(rows, at)),
        forall|w: int|
            0 <= w < windows_of(rows, count).len() ==> exists|i: int|
                0 <= i < count && (#[trigger] rows[i]).model_grouping == 1
                    && rows[i].currency_grouping == 1 && #[trigger] windows_of(rows, count)[w]
                    == window_at(rows, i),
    decreases count,
{
    if count > 0 {
        let n = (count - 1) as nat;
        windows_are_of_totals(rows, n, at);
        let before = windows_of(rows, n);
        let all = windows_of(rows, count);
        if before.contains(window_at(rows, at)) {
            let i = choose|i: int| 0 <= i < before.len() && before[i] == window_at(rows, at);
            assert(all[i] == window_at(rows, at));
        }
        if all.len() > before.len() {
            assert(all[all.len() - 1] == window_at(rows, count - 1));
        }
        assert forall|w: int| 0 <= w < all.len() implies exists|i: int|
            0 <= i < count && (#[trigger] rows[i]).model_grouping == 1 && rows[i].currency_grouping
                == 1 && #[trigger] all[w] == window_at(rows, i) by {
            if w < before.len() {
                assert(all[w] == before[w]);
                let i = choose|i: int|
                    0 <= i < n && (#[trigger] rows[i]).model_grouping == 1
                        && rows[i].currency_grouping == 1 && before[w] == window_at(rows, i);
                assert(rows[i].model_grouping == 1);
            } else {
                assert(rows[count - 1].model_grouping == 1);
            }
        }
    }
}

proof fn costs_are_filtered(rows: Seq<UsageRowView>, account_id: Seq<char>, key: Seq<char>)
    ensures
        costs_of(rows, account_id, key) == rows.filter(
            |row: UsageRowView|
                row.account_id == account_id && row.key == key && row.model_grouping == 1
                    && row.currency_grouping == 0 && row.cost_currency is Some,
        ).map_values(
            |row: UsageRowView| CostView { currency: row.cost_currency->0, amount: row.cost_amount },
        ),
    decreases rows.len(),
{
    reveal(Seq::filter);
    let wanted = |row: UsageRowView|
        row.account_id == account_id && row.key == key && row.model_grouping == 1
            && row.currency_grouping == 0 && row.cost_currency is Some;
    let cost = |row: UsageRowView|
        CostView { currency: row.cost_currency->0, amount: row.cost_amount };
    if rows.len() > 0 {
        costs_are_filtered(rows.drop_last(), account_id, key);
        let before = rows.drop_last().filter(wanted);
        if wanted(rows.last()) {
            assert(before.push(rows.last()).map_values(cost) =~= before.map_values(cost).push(
                cost(rows.last()),
            ));
        }
    } else {
        assert(rows.filter(wanted).map_values(cost) =~= Seq::empty());
    }
}

proof fn model_costs_are_filtered(
    rows: Seq<UsageRowView>,
    account_id: Seq<char>,
    key: Seq<char>,
    model: Seq<char>,
)
    ensures
        model_costs_of(rows, account_id, key, model) == rows.filter(
            |row: UsageRowView|
                row.account_id == account_id && row.key == key && row.model == Some(model)
                    && row.model_grouping == 0 && row.currency_grouping == 0
                    && row.cost_currency is Some,
        ).map_values(
            |row: UsageRowView| CostView { currency: row.cost_currency->0, amount: row.cost_amount },
        ),
    decreases rows.len(),
{
    reveal(Seq::filter);
    let wanted = |row: UsageRowView|
        row.account_id == account_id && row.key == key && row.model == Some(model)
            && row.model_grouping == 0 && row.currency_grouping == 0 && row.cost_currency is Some;
    let cost = |row: UsageRowView|
        CostView { currency: row.cost_currency->0, amount: row.cost_amount };
    if rows.len() > 0 {
        model_costs_are_filtered(rows.drop_last(), account_id, key, model);
        let before = rows.drop_last().filter(wanted);
        if wanted(rows.last()) {
            assert(before.push(rows.last()).map_values(cost) =~= before.map_values(cost).push(
                cost(rows.last()),
            ));
        }
    } else {
        assert(rows.filter(wanted).map_values(cost) =~= Seq::empty());
    }
}

proof fn a_model_has_its_row(
    rows: Seq<UsageRowView>,
    count: nat,
    account_id: Seq<char>,
    key: Seq<char>,
    m: int,
) -> (i: int)
    requires
        count <= rows.len(),
        0 <= m < models_of(rows, count, account_id, key).len(),
    ensures
        0 <= i < count,
        is_model_row(rows[i], account_id, key),
        rows[i].model == Some(models_of(rows, count, account_id, key)[m].model),
        rows[i].request_count == models_of(rows, count, account_id, key)[m].request_count,
    decreases count,
{
    let n = (count - 1) as nat;
    let before = models_of(rows, n, account_id, key);
    if m < before.len() {
        a_model_has_its_row(rows, n, account_id, key, m)
    } else {
        count - 1
    }
}

proof fn a_row_has_its_model(
    rows: Seq<UsageRowView>,
    count: nat,
    account_id: Seq<char>,
    key: Seq<char>,
    i: int,
) -> (m: int)
    requires
        0 <= i < count <= rows.len(),
        is_model_row(rows[i], account_id, key),
        forall|j: int|
            0 <= j < i && is_model_row(#[trigger] rows[j], account_id, key) ==> rows[j].model
                != rows[i].model,
    ensures
        0 <= m < models_of(rows, count, account_id, key).len(),
        Some(models_of(rows, count, account_id, key)[m].model) == rows[i].model,
        models_of(rows, count, account_id, key)[m].request_count == rows[i].request_count,
        models_of(rows, count, account_id, key)[m].costs == model_costs_of(
            rows,
            account_id,
            key,
            rows[i].model->0,
        ),
    decreases count,
{
    let n = (count - 1) as nat;
    let before = models_of(rows, n, account_id, key);
    if i < n {
        a_row_has_its_model(rows, n, account_id, key, i)
    } else {
        assert(!repeats_model(rows, i)) by {
            if repeats_model(rows, i) {
                let j = choose|j: int|
                    0 <= j < i && is_model(#[trigger] rows[j]) && is_of_window(
                        rows[j],
                        rows[i].account_id,
                        rows[i].key,
                    ) && rows[j].model == rows[i].model;
                assert(is_model_row(rows[j], account_id, key));
            }
        }
        before.len() as int
    }
}

proof fn ranking_keeps_every_model(models: Seq<ModelView>, model: ModelView)
    ensures
        ranked(models).contains(model) == models.contains(model),
    decreases models.len(),
{
    the_most_used_model_goes_first(models);
    if ranked(models).contains(model) {
        let i = choose|i: int| 0 <= i < ranked(models).len() && ranked(models)[i] == model;
        assert(models.contains(ranked(models)[i]));
    }
    if models.contains(model) {
        let fewer = models.drop_last();
        ranking_keeps_every_model(fewer, model);
        placing_loses_nothing(ranked(fewer), models.last(), model);
        let i = choose|i: int| 0 <= i < models.len() && models[i] == model;
        if i < fewer.len() {
            assert(fewer[i] == model);
        }
    }
}

proof fn placing_loses_nothing(models: Seq<ModelView>, added: ModelView, model: ModelView)
    ensures
        models.contains(model) || model == added ==> placed(
            models,
            added,
        ).contains(model),
    decreases models.len(),
{
    let all = placed(models, added);
    if models.len() == 0 {
        assert(all[0] == added);
    } else if !ranks_before(models[0], added) {
        assert(all[0] == added);
        if models.contains(model) {
            let i = choose|i: int| 0 <= i < models.len() && models[i] == model;
            assert(all[i + 1] == model);
        }
    } else {
        let rest = models.drop_first();
        placing_loses_nothing(rest, added, model);
        let inner = placed(rest, added);
        assert(all[0] == models[0]);
        if models.contains(model) || model == added {
            if model != models[0] {
                if models.contains(model) {
                    let i = choose|i: int| 0 <= i < models.len() && models[i] == model;
                    assert(rest[i - 1] == model);
                }
                let k = choose|k: int| 0 <= k < inner.len() && inner[k] == model;
                assert(all[k + 1] == model);
            }
        }
    }
}

/// Each total among the rows gives a window of its account and key with its number of
/// requests, and there are no other windows. The first window of an account and key
/// has the costs of the rows of that same account and key, in their order, and no
/// others; a later one has none.
pub proof fn a_window_has_the_costs_of_its_own_account_and_key(
    rows: Seq<UsageRowView>,
    windows: Seq<WindowView>,
    at: int,
)
    requires
        windows == windows_of(rows, rows.len()),
        0 <= at < rows.len(),
        rows[at].model_grouping == 1,
        rows[at].currency_grouping == 1,
    ensures
        exists|w: int|
            {
                &&& 0 <= w < windows.len()
                &&& (#[trigger] windows[w]).account_id == rows[at].account_id && windows[w].key
                    == rows[at].key
                &&& windows[w].request_count == rows[at].request_count
                &&& windows[w].costs == if exists|j: int|
                    0 <= j < at && (#[trigger] rows[j]).account_id == rows[at].account_id
                        && rows[j].key == rows[at].key && rows[j].model_grouping == 1
                        && rows[j].currency_grouping == 1 {
                    Seq::empty()
                } else {
                    rows.filter(
                        |row: UsageRowView|
                            row.account_id == rows[at].account_id && row.key == rows[at].key
                                && row.model_grouping == 1 && row.currency_grouping == 0
                                && row.cost_currency is Some,
                    ).map_values(
                        |row: UsageRowView|
                            CostView { currency: row.cost_currency->0, amount: row.cost_amount },
                    )
                }
            },
        forall|w: int|
            0 <= w < windows.len() ==> exists|i: int|
                0 <= i < rows.len() && (#[trigger] rows[i]).model_grouping == 1
                    && rows[i].currency_grouping == 1 && rows[i].account_id == (
                #[trigger] windows[w]).account_id && rows[i].key == windows[w].key
                    && rows[i].request_count == windows[w].request_count,
{
    windows_are_of_totals(rows, rows.len(), at);
    costs_are_filtered(rows, rows[at].account_id, rows[at].key);
    let w = choose|w: int| 0 <= w < windows.len() && windows[w] == window_at(rows, at);
    assert(windows[w].account_id == rows[at].account_id);
    assert forall|v: int| 0 <= v < windows.len() implies exists|i: int|
        0 <= i < rows.len() && (#[trigger] rows[i]).model_grouping == 1 && rows[i].currency_grouping
            == 1 && rows[i].account_id == (#[trigger] windows[v]).account_id && rows[i].key
            == windows[v].key && rows[i].request_count == windows[v].request_count by {
        assert(windows_of(rows, rows.len())[v] == windows[v]);
        let i = choose|i: int|
            0 <= i < rows.len() && (#[trigger] rows[i]).model_grouping == 1
                && rows[i].currency_grouping == 1 && windows[v] == window_at(rows, i);
        assert(rows[i].account_id == windows[v].account_id);
    }
}

/// A row of a model of a window.
pub open spec fn is_model_row(row: UsageRowView, account_id: Seq<char>, key: Seq<char>) -> bool {
    row.account_id == account_id && row.key == key && row.model_grouping == 0
        && row.currency_grouping == 1 && row.model is Some
}

/// The costs that rows give for a model of a window, in their order.
pub open spec fn costs_by_rows(
    rows: Seq<UsageRowView>,
    account_id: Seq<char>,
    key: Seq<char>,
    model: Seq<char>,
) -> Seq<CostView> {
    rows.filter(
        |row: UsageRowView|
            row.account_id == account_id && row.key == key && row.model == Some(model)
                && row.model_grouping == 0 && row.currency_grouping == 0
                && row.cost_currency is Some,
    ).map_values(
        |row: UsageRowView| CostView { currency: row.cost_currency->0, amount: row.cost_amount },
    )
}

/// Every model of the window is that of a row of its own account and key.
pub open spec fn models_have_rows(rows: Seq<UsageRowView>, window: WindowView) -> bool {
    forall|m: int|
        0 <= m < window.models.len() ==> exists|i: int|
            0 <= i < rows.len() && is_model_row(#[trigger] rows[i], window.account_id, window.key)
                && rows[i].model == Some((#[trigger] window.models[m]).model)
                && rows[i].request_count == window.models[m].request_count
}

/// No model is left out that a row of the window's own account and key names, and
/// each has the costs of the same account, key and model.
pub open spec fn rows_have_models(rows: Seq<UsageRowView>, window: WindowView) -> bool {
    forall|i: int|
        0 <= i < rows.len() && is_model_row(#[trigger] rows[i], window.account_id, window.key) && (
        forall|j: int|
            0 <= j < i && is_model_row(#[trigger] rows[j], window.account_id, window.key)
                ==> rows[j].model != rows[i].model) ==> exists|m: int|
            0 <= m < window.models.len() && Some((#[trigger] window.models[m]).model)
                == rows[i].model && window.models[m].request_count == rows[i].request_count
                && window.models[m].costs == costs_by_rows(
                rows,
                window.account_id,
                window.key,
                window.models[m].model,
            )
}

/// The most used model goes first, of equally used ones the name decides.
pub open spec fn models_are_ranked(window: WindowView) -> bool {
    forall|a: int, b: int|
        0 <= a < b < window.models.len() ==> (#[trigger] window.models[a]).request_count > (
        #[trigger] window.models[b]).request_count || (window.models[a].request_count
            == window.models[b].request_count && text_le(
            window.models[a].model,
            window.models[b].model,
        ))
}

proof fn ranked_models_have_rows(rows: Seq<UsageRowView>, window: WindowView)
    requires
        window.models == ranked(models_of(rows, rows.len(), window.account_id, window.key)),
    ensures
        models_have_rows(rows, window),
        models_are_ranked(window),
{
    let listed = models_of(rows, rows.len(), window.account_id, window.key);
    the_most_used_model_goes_first(listed);
    assert forall|m: int| 0 <= m < window.models.len() implies exists|i: int|
        0 <= i < rows.len() && is_model_row(#[trigger] rows[i], window.account_id, window.key)
            && rows[i].model == Some((#[trigger] window.models[m]).model) && rows[i].request_count
            == window.models[m].request_count by {
        assert(listed.contains(ranked(listed)[m]));
        let k = choose|k: int| 0 <= k < listed.len() && listed[k] == window.models[m];
        let i = a_model_has_its_row(rows, rows.len(), window.account_id, window.key, k);
        assert(is_model_row(rows[i], window.account_id, window.key));
    }
}

proof fn a_row_has_its_ranked_model(rows: Seq<UsageRowView>, window: WindowView, i: int) -> (m: int)
    requires
        window.models == ranked(models_of(rows, rows.len(), window.account_id, window.key)),
        0 <= i < rows.len(),
        is_model_row(rows[i], window.account_id, window.key),
        forall|j: int|
            0 <= j < i && is_model_row(#[trigger] rows[j], window.account_id, window.key)
                ==> rows[j].model != rows[i].model,
    ensures
        0 <= m < window.models.len(),
        Some(window.models[m].model) == rows[i].model,
        window.models[m].request_count == rows[i].request_count,
        window.models[m].costs == costs_by_rows(
            rows,
            window.account_id,
            window.key,
            window.models[m].model,
        ),
{
    let account_id = window.account_id;
    let key = window.key;
    let listed = models_of(rows, rows.len(), account_id, key);
    let k = a_row_has_its_model(rows, rows.len(), account_id, key, i);
    ranking_keeps_every_model(listed, listed[k]);
    assert(listed.contains(listed[k]));
    model_costs_are_filtered(rows, account_id, key, rows[i].model->0);
    choose|m: int| 0 <= m < ranked(listed).len() && ranked(listed)[m] == listed[k]
}

/// The first window of an account and key shows the models of the rows of that same
/// account and key.
pub proof fn a_window_has_the_models_of_its_own_account_and_key(
    rows: Seq<UsageRowView>,
    windows: Seq<WindowView>,
    at: int,
)
    requires
        windows == windows_of(rows, rows.len()),
        0 <= at < rows.len(),
        rows[at].model_grouping == 1,
        rows[at].currency_grouping == 1,
        forall|j: int|
            0 <= j < at ==> !((#[trigger] rows[j]).account_id == rows[at].account_id && rows[j].key
                == rows[at].key && rows[j].model_grouping == 1 && rows[j].currency_grouping == 1),
    ensures
        exists|w: int|
            0 <= w < windows.len() && (#[trigger] windows[w]).account_id == rows[at].account_id
                && windows[w].key == rows[at].key && windows[w].request_count
                == rows[at].request_count && models_have_rows(rows, windows[w])
                && rows_have_models(rows, windows[w]) && models_are_ranked(windows[w]),
{
    let window = window_at(rows, at);
    windows_are_of_totals(rows, rows.len(), at);
    ranked_models_have_rows(rows, window);
    assert forall|i: int|
        0 <= i < rows.len() && is_model_row(#[trigger] rows[i], window.account_id, window.key) && (
        forall|j: int|
            0 <= j < i && is_model_row(#[trigger] rows[j], window.account_id, window.key)
                ==> rows[j].model != rows[i].model) implies exists|m: int|
        0 <= m < window.models.len() && Some((#[trigger] window.models[m]).model) == rows[i].model
            && window.models[m].request_count == rows[i].request_count && window.models[m].costs
            == costs_by_rows(rows, window.account_id, window.key, window.models[m].model) by {
        let m = a_row_has_its_ranked_model(rows, window, i);
        assert(Some(window.models[m].model) == rows[i].model);
    }
    let w = choose|w: int| 0 <= w < windows.len() && windows[w] == window;
    assert(windows[w].account_id == rows[at].account_id);
}

/// The markers of a row are zeros and ones.
pub proof fn which_markers_a_row_may_have(row: UsageRowView)
    ensures
        has_markers(row) <==> ((row.model_grouping == 0 || row.model_grouping == 1) && (
        row.currency_grouping == 0 || row.currency_grouping == 1)),
{
}

/// The pieces of a list, put together, are the list; each has the size that was asked
/// for, but for the last, which may be smaller.
pub proof fn pieces_make_the_list(list: Seq<Seq<char>>, size: nat, i: int)
    requires
        size > 0,
    ensures
        pieces(list, size).flatten() == list,
        0 <= i < pieces(list, size).len() - 1 ==> pieces(list, size)[i].len() == size,
        0 <= i < pieces(list, size).len() ==> 0 < pieces(list, size)[i].len() <= size,
    decreases list.len(),
{
    let all = pieces(list, size);
    if list.len() == 0 {
        assert(all.flatten() =~= list);
    } else if list.len() <= size {
        all.lemma_flatten_one_element();
    } else {
        let first = list.take(size as int);
        let rest = list.skip(size as int);
        pieces_make_the_list(rest, size, i - 1);
        let others = pieces(rest, size);
        assert(all =~= seq![first] + others);
        assert(all.drop_first() =~= others);
        assert(all.first() == first);
        assert(all.flatten() == first + others.flatten());
        assert(first + rest =~= list);
    }
}

proof fn models_are_counted(
    rows: Seq<UsageRowView>,
    count: nat,
    account_id: Seq<char>,
    key: Seq<char>,
)
    requires
        count <= rows.len(),
    ensures
        models_of(rows, count, account_id, key).len() == rows.take(count as int).filter(
            |row: UsageRowView| is_model_row(row, account_id, key),
        ).len(),
    decreases count,
{
    reveal(Seq::filter);
    if count > 0 {
        let n = (count - 1) as nat;
        models_are_counted(rows, n, account_id, key);
        assert(rows.take(count as int).drop_last() =~= rows.take(n as int));
        assert(rows.take(count as int).last() == rows[n as int]);
    }
}

proof fn a_repeated_row_has_no_costs(
    rows: Seq<UsageRowView>,
    count: nat,
    account_id: Seq<char>,
    key: Seq<char>,
    i: int,
    j: int,
) -> (m: int)
    requires
        0 <= j < i < count <= rows.len(),
        is_model_row(rows[i], account_id, key),
        is_model_row(rows[j], account_id, key),
        rows[j].model == rows[i].model,
    ensures
        0 <= m < models_of(rows, count, account_id, key).len(),
        models_of(rows, count, account_id, key)[m] == (ModelView {
            model: rows[i].model->0,
            request_count: rows[i].request_count,
            costs: Seq::empty(),
        }),
    decreases count,
{
    let n = (count - 1) as nat;
    if i < n {
        a_repeated_row_has_no_costs(rows, n, account_id, key, i, j)
    } else {
        assert(is_model(rows[j]) && is_of_window(rows[j], rows[i].account_id, rows[i].key));
        assert(repeats_model(rows, i));
        models_of(rows, n, account_id, key).len() as int
    }
}

/// The first window of an account and key shows as many models as it has rows of
/// models. A row that names a model for the second time is shown without costs: they
/// stand with the first.
pub proof fn a_model_named_twice_has_its_costs_once(
    rows: Seq<UsageRowView>,
    windows: Seq<WindowView>,
    at: int,
    i: int,
    j: int,
) -> (w: int)
    requires
        windows == windows_of(rows, rows.len()),
        0 <= at < rows.len(),
        rows[at].model_grouping == 1,
        rows[at].currency_grouping == 1,
        forall|k: int|
            0 <= k < at ==> !((#[trigger] rows[k]).account_id == rows[at].account_id && rows[k].key
                == rows[at].key && rows[k].model_grouping == 1 && rows[k].currency_grouping == 1),
        0 <= j < i < rows.len(),
    ensures
        0 <= w < windows.len(),
        windows[w].account_id == rows[at].account_id && windows[w].key == rows[at].key,
        windows[w].models.len() == rows.filter(
            |row: UsageRowView| is_model_row(row, rows[at].account_id, rows[at].key),
        ).len(),
        is_model_row(rows[i], rows[at].account_id, rows[at].key) && is_model_row(
            rows[j],
            rows[at].account_id,
            rows[at].key,
        ) && rows[j].model == rows[i].model ==> windows[w].models.contains(
            ModelView {
                model: rows[i].model->0,
                request_count: rows[i].request_count,
                costs: Seq::empty(),
            },
        ),
{
    let account_id = rows[at].account_id;
    let key = rows[at].key;
    let listed = models_of(rows, rows.len(), account_id, key);
    windows_are_of_totals(rows, rows.len(), at);
    models_are_counted(rows, rows.len(), account_id, key);
    assert(rows.take(rows.len() as int) =~= rows);
    the_most_used_model_goes_first(listed);
    if is_model_row(rows[i], account_id, key) && is_model_row(rows[j], account_id, key)
        && rows[j].model == rows[i].model {
        let m = a_repeated_row_has_no_costs(rows, rows.len(), account_id, key, i, j);
        ranking_keeps_every_model(listed, listed[m]);
    }
    choose|w: int| 0 <= w < windows.len() && windows[w] == window_at(rows, at)
}

/// Where a window has two totals, the second is shown without costs and models.
pub proof fn a_window_with_two_totals_is_shown_once(
    rows: Seq<UsageRowView>,
    windows: Seq<WindowView>,
    at: int,
    earlier: int,
) -> (w: int)
    requires
        windows == windows_of(rows, rows.len()),
        0 <= earlier < at < rows.len(),
        rows[at].model_grouping == 1 && rows[at].currency_grouping == 1,
        rows[earlier].model_grouping == 1 && rows[earlier].currency_grouping == 1,
        rows[earlier].account_id == rows[at].account_id && rows[earlier].key == rows[at].key,
    ensures
        0 <= w < windows.len(),
        windows[w].account_id == rows[at].account_id && windows[w].key == rows[at].key,
        windows[w].request_count == rows[at].request_count,
        windows[w].costs.len() == 0 && windows[w].models.len() == 0,
{
    windows_are_of_totals(rows, rows.len(), at);
    assert(is_total(rows[earlier]) && is_of_window(
        rows[earlier],
        rows[at].account_id,
        rows[at].key,
    ));
    assert(repeats_window(rows, at));
    choose|w: int| 0 <= w < windows.len() && windows[w] == window_at(rows, at)
}

} // verus!
