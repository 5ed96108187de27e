//! The use that accounts made of their quota windows, put together from the rows
//! of one query: totals, costs, models, and costs of models.

use crate::store::error::{AdminStoreError, AdminStoreErrorKind};
use crate::text::{
    in_order, listings_sort_alike, optional_text, same_text, sorted_texts, text_le,
    text_le_is_total, text_le_is_transitive, text_not_after, texts,
};
use vstd::prelude::*;

verus! {

/// A row of the query. The two markers say what the row is summed over: a marker
/// of one means all models, or all currencies.
pub struct UsageRow {
    pub account_id: String,
    pub key: String,
    pub model_grouping: i32,
    pub currency_grouping: i32,
    pub model: Option<String>,
    pub cost_currency: Option<String>,
    pub cost_amount: String,
    pub request_count: u64,
}

pub struct UsageRowView {
    pub account_id: Seq<char>,
    pub key: Seq<char>,
    pub model_grouping: int,
    pub currency_grouping: int,
    pub model: Option<Seq<char>>,
    pub cost_currency: Option<Seq<char>>,
    pub cost_amount: Seq<char>,
    pub request_count: u64,
}

impl View for UsageRow {
    type V = UsageRowView;

    open spec fn view(&self) -> UsageRowView {
        UsageRowView {
            account_id: self.account_id@,
            key: self.key@,
            model_grouping: self.model_grouping as int,
            currency_grouping: self.currency_grouping as int,
            model: optional_text(self.model),
            cost_currency: optional_text(self.cost_currency),
            cost_amount: self.cost_amount@,
            request_count: self.request_count,
        }
    }
}

pub struct AccountCost {
    pub currency: String,
    pub amount: String,
}

pub struct CostView {
    pub currency: Seq<char>,
    pub amount: Seq<char>,
}

impl View for AccountCost {
    type V = CostView;

    open spec fn view(&self) -> CostView {
        CostView { currency: self.currency@, amount: self.amount@ }
    }
}

pub struct AccountModelUsage {
    pub model: String,
    pub request_count: u64,
    pub costs: Vec<AccountCost>,
}

pub struct ModelView {
    pub model: Seq<char>,
    pub request_count: u64,
    pub costs: Seq<CostView>,
}

pub open spec fn cost_views(costs: Seq<AccountCost>) -> Seq<CostView> {
    costs.map_values(|cost: AccountCost| cost@)
}

impl View for AccountModelUsage {
    type V = ModelView;

    open spec fn view(&self) -> ModelView {
        ModelView {
            model: self.model@,
            request_count: self.request_count,
            costs: cost_views(self.costs@),
        }
    }
}

/// What an account used of one of its windows.
pub struct AccountUsageWindowResult {
    pub account_id: String,
    pub key: String,
    pub request_count: u64,
    pub costs: Vec<AccountCost>,
    pub models: Vec<AccountModelUsage>,
}

pub struct WindowView {
    pub account_id: Seq<char>,
    pub key: Seq<char>,
    pub request_count: u64,
    pub costs: Seq<CostView>,
    pub models: Seq<ModelView>,
}

pub open spec fn model_views(models: Seq<AccountModelUsage>) -> Seq<ModelView> {
    models.map_values(|model: AccountModelUsage| model@)
}

impl View for AccountUsageWindowResult {
    type V = WindowView;

    open spec fn view(&self) -> WindowView {
        WindowView {
            account_id: self.account_id@,
            key: self.key@,
            request_count: self.request_count,
            costs: cost_views(self.costs@),
            models: model_views(self.models@),
        }
    }
}

pub open spec fn usage_views(rows: Seq<UsageRow>) -> Seq<UsageRowView> {
    rows.map_values(|row: UsageRow| row@)
}

pub open spec fn window_views(windows: Seq<AccountUsageWindowResult>) -> Seq<WindowView> {
    windows.map_values(|window: AccountUsageWindowResult| window@)
}

/// The markers of a row are such as the query can give.
pub open spec fn has_markers(row: UsageRowView) -> bool {
    0 <= row.model_grouping <= 1 && 0 <= row.currency_grouping <= 1
}

pub open spec fn is_total(row: UsageRowView) -> bool {
    row.model_grouping == 1 && row.currency_grouping == 1
}

pub open spec fn is_cost(row: UsageRowView) -> bool {
    row.model_grouping == 1 && row.currency_grouping == 0 && row.cost_currency is Some
}

pub open spec fn is_model(row: UsageRowView) -> bool {
    row.model_grouping == 0 && row.currency_grouping == 1 && row.model is Some
}

pub open spec fn is_model_cost(row: UsageRowView) -> bool {
    row.model_grouping == 0 && row.currency_grouping == 0 && row.model is Some
        && row.cost_currency is Some
}

pub open spec fn is_of_window(row: UsageRowView, account_id: Seq<char>, key: Seq<char>) -> bool {
    row.account_id == account_id && row.key == key
}

pub open spec fn cost_in(row: UsageRowView) -> CostView {
    CostView { currency: row.cost_currency->0, amount: row.cost_amount }
}

/// The costs of a window over all models, in the order of the rows.
pub open spec fn costs_of(rows: Seq<UsageRowView>, account_id: Seq<char>, key: Seq<char>) -> Seq<
    CostView,
>
    decreases rows.len(),
{
    if rows.len() == 0 {
        Seq::empty()
    } else {
        let before = costs_of(rows.drop_last(), account_id, key);
        if is_cost(rows.last()) && is_of_window(rows.last(), account_id, key) {
            before.push(cost_in(rows.last()))
        } else {
            before
        }
    }
}

/// The costs of one model in a window.
pub open spec fn model_costs_of(
    rows: Seq<UsageRowView>,
    account_id: Seq<char>,
    key: Seq<char>,
    model: Seq<char>,
) -> Seq<CostView>
    decreases rows.len(),
{
    if rows.len() == 0 {
        Seq::empty()
    } else {
        let before = model_costs_of(rows.drop_last(), account_id, key, model);
        if is_model_cost(rows.last()) && is_of_window(rows.last(), account_id, key)
            && rows.last().model == Some(model) {
            before.push(cost_in(rows.last()))
        } else {
            before
        }
    }
}

/// An earlier row than this one is for the same model of the same window.
pub open spec fn repeats_model(rows: Seq<UsageRowView>, at: int) -> bool {
    exists|j: int|
        0 <= j < at && is_model(#[trigger] rows[j]) && is_of_window(
            rows[j],
            rows[at].account_id,
            rows[at].key,
        ) && rows[j].model == rows[at].model
}

/// The models of a window among the first rows, in the order of the rows. The
/// costs of a model stand with the first row that names it.
pub open spec fn models_of(
    rows: Seq<UsageRowView>,
    count: nat,
    account_id: Seq<char>,
    key: Seq<char>,
) -> Seq<ModelView>
    decreases count,
{
    if count == 0 {
        Seq::empty()
    } else {
        let before = models_of(rows, (count - 1) as nat, account_id, key);
        let row = rows[count - 1];
        if is_model(row) && is_of_window(row, account_id, key) {
            before.push(
                ModelView {
                    model: row.model->0,
                    request_count: row.request_count,
                    costs: if repeats_model(rows, count - 1) {
                        Seq::empty()
                    } else {
                        model_costs_of(rows, account_id, key, row.model->0)
                    },
                },
            )
        } else {
            before
        }
    }
}

/// The model with more requests goes first, of equal ones the name decides.
pub open spec fn ranks_before(a: ModelView, b: ModelView) -> bool {
    a.request_count > b.request_count || (a.request_count == b.request_count && text_le(
        a.model,
        b.model,
    ))
}

pub open spec fn placed(models: Seq<ModelView>, model: ModelView) -> Seq<ModelView>
    decreases models.len(),
{
    if models.len() == 0 {
        seq![model]
    } else if !ranks_before(models[0], model) {
        seq![model] + models
    } else {
        seq![models[0]] + placed(models.drop_first(), model)
    }
}

/// The models with the most used first.
pub open spec fn ranked(models: Seq<ModelView>) -> Seq<ModelView>
    decreases models.len(),
{
    if models.len() == 0 {
        Seq::empty()
    } else {
        placed(ranked(models.drop_last()), models.last())
    }
}

/// An earlier row than this one is the total of the same window.
pub open spec fn repeats_window(rows: Seq<UsageRowView>, at: int) -> bool {
    exists|j: int|
        0 <= j < at && is_total(#[trigger] rows[j]) && is_of_window(
            rows[j],
            rows[at].account_id,
            rows[at].key,
        )
}

/// A window out of the row with its total. Where a window has two totals, the
/// costs and models stand with the first.
pub open spec fn window_at(rows: Seq<UsageRowView>, at: int) -> WindowView {
    let row = rows[at];
    WindowView {
        account_id: row.account_id,
        key: row.key,
        request_count: row.request_count,
        costs: if repeats_window(rows, at) {
            Seq::empty()
        } else {
            costs_of(rows, row.account_id, row.key)
        },
        models: if repeats_window(rows, at) {
            Seq::empty()
        } else {
            ranked(models_of(rows, rows.len(), row.account_id, row.key))
        },
    }
}

pub open spec fn windows_of(rows: Seq<UsageRowView>, count: nat) -> Seq<WindowView>
    decreases count,
{
    if count == 0 {
        Seq::empty()
    } else {
        let before = windows_of(rows, (count - 1) as nat);
        if is_total(rows[count - 1]) {
            before.push(window_at(rows, count - 1))
        } else {
            before
        }
    }
}

fn in_window(row: &UsageRow, account_id: &str, key: &str) -> (r: bool)
    ensures
        r == is_of_window(row@, account_id@, key@),
{
    same_text(row.account_id.as_str(), account_id) && same_text(row.key.as_str(), key)
}

fn names_model(row: &UsageRow, model: &str) -> (r: bool)
    ensures
        r == (row@.model == Some(model@)),
{
    match &row.model {
        Some(name) => same_text(name.as_str(), model),
        None => false,
    }
}

fn costs_for(rows: &Vec<UsageRow>, account_id: &str, key: &str) -> (r: Vec<AccountCost>)
    ensures
        cost_views(r@) == costs_of(usage_views(rows@), account_id@, key@),
{
    let ghost all = usage_views(rows@);
    let mut r: Vec<AccountCost> = Vec::new();
    let mut i: usize = 0;
    proof {
        assert(all.take(0) =~= Seq::empty());
        assert(cost_views(r@) =~= Seq::empty());
    }
    while i < rows.len()
        invariant
            i <= rows@.len(),
            all == usage_views(rows@),
            cost_views(r@) == costs_of(all.take(i as int), account_id@, key@),
        decreases rows@.len() - i,
    {
        let ghost before = cost_views(r@);
        let row = &rows[i];
        proof {
            assert(all.take(i + 1).drop_last() =~= all.take(i as int));
            assert(all.take(i + 1).last() == row@);
        }
        if row.model_grouping == 1 && row.currency_grouping == 0 && in_window(row, account_id, key) {
            if let Some(currency) = &row.cost_currency {
                let cost = AccountCost {
                    currency: currency.clone(),
                    amount: row.cost_amount.clone(),
                };
                let ghost added = cost@;
                r.push(cost);
                assert(cost_views(r@) =~= before.push(added));
            }
        }
        i += 1;
    }
    proof {
        assert(all.take(rows@.len() as int) =~= all);
    }
    r
}

fn model_costs_for(rows: &Vec<UsageRow>, account_id: &str, key: &str, model: &str) -> (r: Vec<
    AccountCost,
>)
    ensures
        cost_views(r@) == model_costs_of(usage_views(rows@), account_id@, key@, model@),
{
    let ghost all = usage_views(rows@);
    let mut r: Vec<AccountCost> = Vec::new();
    let mut i: usize = 0;
    proof {
        assert(all.take(0) =~= Seq::empty());
        assert(cost_views(r@) =~= Seq::empty());
    }
    while i < rows.len()
        invariant
            i <= rows@.len(),
            all == usage_views(rows@),
            cost_views(r@) == model_costs_of(all.take(i as int), account_id@, key@, model@),
        decreases rows@.len() - i,
    {
        let ghost before = cost_views(r@);
        let row = &rows[i];
        proof {
            assert(all.take(i + 1).drop_last() =~= all.take(i as int));
            assert(all.take(i + 1).last() == row@);
        }
        if row.model_grouping == 0 && row.currency_grouping == 0 && in_window(row, account_id, key)
            && names_model(row, model) {
            if let Some(currency) = &row.cost_currency {
                let cost = AccountCost {
                    currency: currency.clone(),
                    amount: row.cost_amount.clone(),
                };
                let ghost added = cost@;
                r.push(cost);
                assert(cost_views(r@) =~= before.push(added));
            }
        }
        i += 1;
    }
    proof {
        assert(all.take(rows@.len() as int) =~= all);
    }
    r
}

#[verifier::loop_isolation(false)]
fn model_is_repeated(rows: &Vec<UsageRow>, at: usize, model: &str) -> (r: bool)
    requires
        at < rows@.len(),
        usage_views(rows@)[at as int].model == Some(model@),
    ensures
        r == repeats_model(usage_views(rows@), at as int),
{
    let ghost all = usage_views(rows@);
    let mut j: usize = 0;
    while j < at
        invariant
            j <= at < rows@.len(),
            all == usage_views(rows@),
            forall|k: int|
                0 <= k < j ==> !(is_model(#[trigger] all[k]) && is_of_window(
                    all[k],
                    all[at as int].account_id,
                    all[at as int].key,
                ) && all[k].model == all[at as int].model),
        decreases at - j,
    {
        let row = &rows[j];
        assert(all[j as int] == row@);
        if row.model_grouping == 0 && row.currency_grouping == 1 && in_window(
            row,
            rows[at].account_id.as_str(),
            rows[at].key.as_str(),
        ) && names_model(row, model) {
            assert(is_model(all[j as int]));
            return true;
        }
        j += 1;
    }
    false
}

fn models_for(rows: &Vec<UsageRow>, account_id: &str, key: &str) -> (r: Vec<AccountModelUsage>)
    ensures
        model_views(r@) == models_of(usage_views(rows@), rows@.len(), account_id@, key@),
{
    let ghost all = usage_views(rows@);
    let mut r: Vec<AccountModelUsage> = Vec::new();
    let mut i: usize = 0;
    assert(model_views(r@) =~= Seq::empty());
    while i < rows.len()
        invariant
            i <= rows@.len(),
            all == usage_views(rows@),
            model_views(r@) == models_of(all, i as nat, account_id@, key@),
        decreases rows@.len() - i,
    {
        let ghost before = model_views(r@);
        let row = &rows[i];
        assert(all[i as int] == row@);
        if row.model_grouping == 0 && row.currency_grouping == 1 && in_window(row, account_id, key) {
            if let Some(model) = &row.model {
                let costs = if model_is_repeated(rows, i, model.as_str()) {
                    let none: Vec<AccountCost> = Vec::new();
                    assert(cost_views(none@) =~= Seq::empty());
                    none
                } else {
                    model_costs_for(rows, account_id, key, model.as_str())
                };
                let usage = AccountModelUsage {
                    model: model.clone(),
                    request_count: row.request_count,
                    costs,
                };
                let ghost added = usage@;
                r.push(usage);
                assert(model_views(r@) =~= before.push(added));
            }
        }
        i += 1;
    }
    r
}

proof fn placed_between(models: Seq<ModelView>, model: ModelView, at: int)
    requires
        0 <= at <= models.len(),
        forall|j: int| 0 <= j < at ==> ranks_before(#[trigger] models[j], model),
        at < models.len() ==> !ranks_before(models[at], model),
    ensures
        placed(models, model) == models.insert(at, model),
    decreases models.len(),
{
    if models.len() == 0 {
        assert(models.insert(at, model) =~= seq![model]);
    } else if at == 0 {
        assert(models.insert(at, model) =~= seq![model] + models);
    } else {
        let rest = models.drop_first();
        assert forall|j: int| 0 <= j < at - 1 implies ranks_before(#[trigger] rest[j], model) by {
            assert(rest[j] == models[j + 1]);
        }
        placed_between(rest, model, at - 1);
        assert(ranks_before(models[0], model));
        assert(models.insert(at, model) =~= seq![models[0]] + rest.insert(at - 1, model));
    }
}

fn goes_before(a: &AccountModelUsage, b: &AccountModelUsage) -> (r: bool)
    ensures
        r == ranks_before(a@, b@),
{
    a.request_count > b.request_count || (a.request_count == b.request_count && text_not_after(
        a.model.as_str(),
        b.model.as_str(),
    ))
}

fn rank_models(models: Vec<AccountModelUsage>) -> (r: Vec<AccountModelUsage>)
    ensures
        model_views(r@) == ranked(model_views(models@)),
{
    let ghost all = model_views(models@);
    let mut rest = models;
    let mut queue: Vec<AccountModelUsage> = Vec::new();
    while rest.len() > 0
        invariant
            model_views(rest@) + model_views(queue@).reverse() == all,
        decreases rest@.len(),
    {
        let ghost before = rest@;
        let ghost before_queue = queue@;
        match rest.pop() {
            Some(last) => {
                let ghost taken = last;
                queue.push(last);
                proof {
                    assert(model_views(rest@) =~= model_views(before).drop_last());
                    assert(model_views(queue@) =~= model_views(before_queue).push(taken@));
                    assert(model_views(before).last() == taken@);
                    assert(model_views(rest@) + model_views(queue@).reverse() =~= model_views(
                        before,
                    ) + model_views(before_queue).reverse());
                }
            },
            None => {},
        }
    }
    assert(model_views(queue@).reverse() =~= all);
    let mut r: Vec<AccountModelUsage> = Vec::new();
    let ghost mut done: int = 0;
    proof {
        assert(all.take(0) =~= Seq::empty());
        assert(model_views(r@) =~= Seq::empty());
    }
    while queue.len() > 0
        invariant
            0 <= done <= all.len(),
            queue@.len() == all.len() - done,
            model_views(queue@).reverse() == all.skip(done),
            model_views(r@) == ranked(all.take(done)),
        decreases queue@.len(),
    {
        let ghost before = queue@;
        match queue.pop() {
            Some(next) => {
                let ghost taken = next@;
                let ghost so_far = model_views(r@);
                proof {
                    assert(model_views(before).reverse()[0] == taken);
                    assert(all.skip(done)[0] == all[done]);
                    assert(model_views(queue@) =~= model_views(before).drop_last());
                    assert(model_views(queue@).reverse() =~= all.skip(done + 1)) by {
                        assert forall|k: int|
                            0 <= k < model_views(queue@).len() implies model_views(
                            queue@,
                        ).reverse()[k] == all.skip(done + 1)[k] by {
                            assert(model_views(before).reverse()[k + 1] == all.skip(done)[k + 1]);
                        }
                    }
                    assert(all.take(done + 1).drop_last() =~= all.take(done));
                    assert(all.take(done + 1).last() == taken);
                }
                let mut at: usize = 0;
                while at < r.len() && goes_before(&r[at], &next)
                    invariant
                        at <= r@.len(),
                        so_far == model_views(r@),
                        next@ == taken,
                        forall|j: int| 0 <= j < at ==> ranks_before(#[trigger] so_far[j], taken),
                    decreases r@.len() - at,
                {
                    assert(so_far[at as int] == r@[at as int]@);
                    at += 1;
                }
                proof {
                    if at < r@.len() {
                        assert(so_far[at as int] == r@[at as int]@);
                    }
                    placed_between(so_far, taken, at as int);
                }
                r.insert(at, next);
                proof {
                    assert(model_views(r@) =~= so_far.insert(at as int, taken));
                    done = done + 1;
                }
            },
            None => {},
        }
    }
    proof {
        assert(all.take(done) =~= all);
    }
    r
}

#[verifier::loop_isolation(false)]
fn window_is_repeated(rows: &Vec<UsageRow>, at: usize) -> (r: bool)
    requires
        at < rows@.len(),
    ensures
        r == repeats_window(usage_views(rows@), at as int),
{
    let ghost all = usage_views(rows@);
    let mut j: usize = 0;
    while j < at
        invariant
            j <= at < rows@.len(),
            all == usage_views(rows@),
            forall|k: int|
                0 <= k < j ==> !(is_total(#[trigger] all[k]) && is_of_window(
                    all[k],
                    all[at as int].account_id,
                    all[at as int].key,
                )),
        decreases at - j,
    {
        let row = &rows[j];
        assert(all[j as int] == row@);
        if row.model_grouping == 1 && row.currency_grouping == 1 && in_window(
            row,
            rows[at].account_id.as_str(),
            rows[at].key.as_str(),
        ) {
            assert(is_total(all[j as int]));
            return true;
        }
        j += 1;
    }
    false
}

fn window_for(rows: &Vec<UsageRow>, at: usize) -> (r: AccountUsageWindowResult)
    requires
        at < rows@.len(),
    ensures
        r@ == window_at(usage_views(rows@), at as int),
{
    let row = &rows[at];
    assert(usage_views(rows@)[at as int] == row@);
    let (costs, models) = if window_is_repeated(rows, at) {
        let costs: Vec<AccountCost> = Vec::new();
        let models: Vec<AccountModelUsage> = Vec::new();
        proof {
            assert(cost_views(costs@) =~= Seq::empty());
            assert(model_views(models@) =~= Seq::empty());
        }
        (costs, models)
    } else {
        (
            costs_for(rows, row.account_id.as_str(), row.key.as_str()),
            rank_models(models_for(rows, row.account_id.as_str(), row.key.as_str())),
        )
    };
    AccountUsageWindowResult {
        account_id: row.account_id.clone(),
        key: row.key.clone(),
        request_count: row.request_count,
        costs,
        models,
    }
}

fn has_listed(list: &Vec<String>, text: &str) -> (r: bool)
    ensures
        r == texts(list@).contains(text@),
{
    let mut i: usize = 0;
    while i < list.len()
        invariant
            i <= list@.len(),
            forall|j: int| 0 <= j < i ==> (#[trigger] texts(list@)[j]) != text@,
        decreases list@.len() - i,
    {
        assert(texts(list@)[i as int] == list@[i as int]@);
        if same_text(list[i].as_str(), text) {
            return true;
        }
        i += 1;
    }
    false
}

/// A list in pieces of so many, the last one with what is left.
pub open spec fn pieces(list: Seq<Seq<char>>, size: nat) -> Seq<Seq<Seq<char>>>
    decreases list.len(),
{
    if list.len() == 0 || size == 0 {
        Seq::empty()
    } else if list.len() <= size {
        seq![list]
    } else {
        seq![list.take(size as int)] + pieces(list.skip(size as int), size)
    }
}

pub open spec fn piece_views(list: Seq<Vec<String>>) -> Seq<Seq<Seq<char>>> {
    list.map_values(|piece: Vec<String>| texts(piece@))
}

/// The accounts of a query, in pieces that can be asked for at once.
pub fn account_pieces(account_ids: &Vec<String>, size: usize) -> (r: Vec<Vec<String>>)
    requires
        size > 0,
    ensures
        piece_views(r@) == pieces(texts(account_ids@), size as nat),
{
    let ghost all = texts(account_ids@);
    let total: usize = account_ids.len();
    let mut r: Vec<Vec<String>> = Vec::new();
    let mut at: usize = 0;
    proof {
        assert(all.skip(0) =~= all);
        assert(piece_views(r@) + pieces(all, size as nat) =~= pieces(all, size as nat));
    }
    while at < total
        invariant
            at <= total,
            total == account_ids@.len(),
            size > 0,
            all == texts(account_ids@),
            piece_views(r@) + pieces(all.skip(at as int), size as nat) == pieces(all, size as nat),
        decreases total - at,
    {
        let end: usize = if total - at <= size {
            total
        } else {
            at + size
        };
        let ghost done = piece_views(r@);
        let ghost rest = all.skip(at as int);
        let mut piece: Vec<String> = Vec::new();
        let mut i: usize = at;
        while i < end
            invariant
                at <= i <= end,
                end <= total,
                total == account_ids@.len(),
                piece@.len() == i - at,
                forall|j: int| 0 <= j < piece@.len() ==> (#[trigger] piece@[j])@ == account_ids@[at
                    + j]@,
            decreases end - i,
        {
            piece.push(account_ids[i].clone());
            i += 1;
        }
        let ghost last = texts(piece@);
        r.push(piece);
        proof {
            assert(piece_views(r@) =~= done.push(last));
            assert(last =~= rest.take(end - at));
            assert(all.skip(end as int) =~= rest.skip(end - at));
            if end == total {
                assert(last =~= rest);
                assert(pieces(all.skip(end as int), size as nat) =~= Seq::empty());
            }
            assert(done + pieces(rest, size as nat) =~= done.push(last) + pieces(
                all.skip(end as int),
                size as nat,
            ));
        }
        at = end;
    }
    proof {
        assert(pieces(all.skip(at as int), size as nat) =~= Seq::empty());
        assert(piece_views(r@) + Seq::empty() =~= piece_views(r@));
    }
    r
}

/// The accounts that a query asks for, each once, in order.
pub fn distinct_accounts(account_ids: &Vec<String>) -> (r: Vec<String>)
    ensures
        texts(r@) == in_order(texts(account_ids@).to_set()),
{
    let ghost all = texts(account_ids@);
    let mut r: Vec<String> = Vec::new();
    let mut i: usize = 0;
    proof {
        assert(texts(r@).to_set() =~= all.take(0).to_set());
    }
    while i < account_ids.len()
        invariant
            i <= account_ids@.len(),
            all == texts(account_ids@),
            texts(r@).no_duplicates(),
            texts(r@).to_set() == all.take(i as int).to_set(),
        decreases account_ids@.len() - i,
    {
        let ghost before = texts(r@);
        let id = account_ids[i].as_str();
        let known = has_listed(&r, id);
        if !known {
            r.push(account_ids[i].clone());
        }
        proof {
            assert(id@ == all[i as int]);
            let after = texts(r@);
            if !known {
                assert(after =~= before.push(id@));
            }
            assert(all.take(i + 1) =~= all.take(i as int).push(id@));
            assert forall|s: Seq<char>| #[trigger]
                after.to_set().contains(s) == all.take(i + 1).to_set().contains(s) by {
                assert(before.to_set().contains(s) == all.take(i as int).to_set().contains(s));
                lists_one_more(all.take(i as int), id@, s);
                lists_one_more(before, id@, s);
            }
            assert(after.to_set() =~= all.take(i + 1).to_set());
        }
        i += 1;
    }
    proof {
        assert(all.take(account_ids@.len() as int) =~= all);
        listings_sort_alike(all.to_set(), texts(r@));
    }
    sorted_texts(r)
}

proof fn lists_one_more(list: Seq<Seq<char>>, text: Seq<char>, s: Seq<char>)
    ensures
        list.push(text).contains(s) == (list.contains(s) || s == text),
{
    if list.contains(s) {
        let i = choose|i: int| 0 <= i < list.len() && list[i] == s;
        assert(list.push(text)[i] == s);
    }
    if s == text {
        assert(list.push(text)[list.len() as int] == s);
    }
    if list.push(text).contains(s) {
        let i = choose|i: int| 0 <= i < list.push(text).len() && list.push(text)[i] == s;
        if i < list.len() {
            assert(list[i] == s);
        }
    }
}

/// Puts the rows of the query together, one result for each total, in the order
/// of the rows.
#[verifier::loop_isolation(false)]
pub fn usage_by_windows(rows: &Vec<UsageRow>) -> (r: Result<
    Vec<AccountUsageWindowResult>,
    AdminStoreError,
>)
    ensures
        match r {
            Ok(windows) => {
                &&& forall|i: int|
                    0 <= i < rows@.len() ==> has_markers(#[trigger] usage_views(rows@)[i])
                &&& window_views(windows@) == windows_of(usage_views(rows@), rows@.len())
            },
            Err(error) => {
                &&& exists|i: int|
                    0 <= i < rows@.len() && !has_markers(#[trigger] usage_views(rows@)[i])
                &&& error.is(
                    AdminStoreErrorKind::Unavailable,
                    "account usage window query returned an invalid grouping marker"@,
                )
            },
        },
{
    let ghost all = usage_views(rows@);
    let mut r: Vec<AccountUsageWindowResult> = Vec::new();
    let mut i: usize = 0;
    assert(window_views(r@) =~= Seq::empty());
    while i < rows.len()
        invariant
            i <= rows@.len(),
            all == usage_views(rows@),
            forall|j: int| 0 <= j < i ==> has_markers(#[trigger] all[j]),
            window_views(r@) == windows_of(all, i as nat),
        decreases rows@.len() - i,
    {
        let ghost before = window_views(r@);
        let row = &rows[i];
        assert(all[i as int] == row@);
        if row.model_grouping < 0 || row.model_grouping > 1 || row.currency_grouping < 0
            || row.currency_grouping > 1 {
            assert(!has_markers(all[i as int]));
            return Err(
                AdminStoreError::new(
                    AdminStoreErrorKind::Unavailable,
                    "account usage window query returned an invalid grouping marker",
                ),
            );
        }
        if row.model_grouping == 1 && row.currency_grouping == 1 {
            let window = window_for(rows, i);
            let ghost added = window@;
            r.push(window);
            assert(window_views(r@) =~= before.push(added));
        }
        i += 1;
    }
    Ok(r)
}

proof fn placing_keeps_rank(models: Seq<ModelView>, model: ModelView)
    requires
        forall|i: int, j: int|
            0 <= i < j < models.len() ==> ranks_before(#[trigger] models[i], #[trigger] models[j]),
    ensures
        placed(models, model).len() == models.len() + 1,
        forall|i: int, j: int|
            0 <= i < j < placed(models, model).len() ==> ranks_before(
                #[trigger] placed(models, model)[i],
                #[trigger] placed(models, model)[j],
            ),
        forall|i: int|
            0 <= i < placed(models, model).len() ==> #[trigger] placed(models, model)[i] == model
                || models.contains(placed(models, model)[i]),
    decreases models.len(),
{
    let all = placed(models, model);
    if models.len() == 0 {
    } else if !ranks_before(models[0], model) {
        text_le_is_total(models[0].model, model.model);
        assert forall|i: int, j: int| 0 <= i < j < all.len() implies ranks_before(
            #[trigger] all[i],
            #[trigger] all[j],
        ) by {
            assert(all[j] == models[j - 1]);
            if i == 0 {
                if j > 1 {
                    assert(ranks_before(models[0], models[j - 1]));
                    if text_le(model.model, models[0].model) && text_le(
                        models[0].model,
                        models[j - 1].model,
                    ) {
                        text_le_is_transitive(model.model, models[0].model, models[j - 1].model);
                    }
                }
            } else {
                assert(all[i] == models[i - 1]);
            }
        }
        assert forall|i: int| 0 <= i < all.len() implies #[trigger] all[i] == model
            || models.contains(all[i]) by {
            if i > 0 {
                assert(all[i] == models[i - 1]);
            }
        }
    } else {
        let rest = models.drop_first();
        assert forall|i: int, j: int| 0 <= i < j < rest.len() implies ranks_before(
            #[trigger] rest[i],
            #[trigger] rest[j],
        ) by {
            assert(rest[i] == models[i + 1] && rest[j] == models[j + 1]);
        }
        placing_keeps_rank(rest, model);
        let inner = placed(rest, model);
        assert forall|i: int, j: int| 0 <= i < j < all.len() implies ranks_before(
            #[trigger] all[i],
            #[trigger] all[j],
        ) by {
            assert(all[j] == inner[j - 1]);
            if i == 0 {
                if inner[j - 1] != model {
                    let m = choose|m: int| 0 <= m < rest.len() && rest[m] == inner[j - 1];
                    assert(models[m + 1] == inner[j - 1]);
                }
            } else {
                assert(all[i] == inner[i - 1]);
            }
        }
        assert forall|i: int| 0 <= i < all.len() implies #[trigger] all[i] == model
            || models.contains(all[i]) by {
            if i == 0 {
                assert(models[0] == all[0]);
            } else {
                assert(all[i] == inner[i - 1]);
                if inner[i - 1] != model {
                    let m = choose|m: int| 0 <= m < rest.len() && rest[m] == inner[i - 1];
                    assert(models[m + 1] == inner[i - 1]);
                }
            }
        }
    }
}

/// The models of a window come with the most used first, of equally used ones by
/// name, and none is lost.
pub proof fn the_most_used_model_goes_first(models: Seq<ModelView>)
    ensures
        ranked(models).len() == models.len(),
        forall|i: int, j: int|
            0 <= i < j < ranked(models).len() ==> ranks_before(
                #[trigger] ranked(models)[i],
                #[trigger] ranked(models)[j],
            ),
        forall|i: int|
            0 <= i < ranked(models).len() ==> models.contains(#[trigger] ranked(models)[i]),
    decreases models.len(),
{
    if models.len() > 0 {
        the_most_used_model_goes_first(models.drop_last());
        placing_keeps_rank(ranked(models.drop_last()), models.last());
        assert forall|i: int| 0 <= i < ranked(models).len() implies models.contains(
            #[trigger] ranked(models)[i],
        ) by {
            let model = ranked(models)[i];
            if model == models.last() {
                assert(models[models.len() - 1] == model);
            } else {
                let before = ranked(models.drop_last());
                let m = choose|m: int| 0 <= m < before.len() && before[m] == model;
                assert(models.drop_last().contains(before[m]));
                let n = choose|n: int|
                    0 <= n < models.drop_last().len() && models.drop_last()[n] == model;
                assert(models[n] == model);
            }
        }
    }
}

} // verus!
