//! The mathematical model of the store: a sequence of group models, the
//! transitions that the operations make on it, and what it means for the
//! identifiers in it to be fresh.

use vstd::prelude::*;
use crate::states::{ExpenseView, GroupView, PaymentView};

verus! {

/// `i` is the first position of `ids` that holds `id`.
pub open spec fn is_first_at(ids: Seq<u32>, id: u32, i: int) -> bool {
    &&& 0 <= i < ids.len()
    &&& ids[i] == id
    &&& forall|j: int| 0 <= j < i ==> ids[j] != id
}

/// The first position of `ids` that holds `id`, if there is one.
pub open spec fn first_index(ids: Seq<u32>, id: u32) -> Option<int> {
    if exists|i: int| is_first_at(ids, id, i) {
        Some(choose|i: int| is_first_at(ids, id, i))
    } else {
        None
    }
}

/// A position that is the first to hold `id` is the one that `first_index`
/// names.
pub proof fn lemma_first_index_is(ids: Seq<u32>, id: u32, i: int)
    requires
        is_first_at(ids, id, i),
    ensures
        first_index(ids, id) == Some(i),
{
    let c = choose|k: int| is_first_at(ids, id, k);
    assert(is_first_at(ids, id, c));
    if c < i {
        assert(ids[c] != id);
    }
    if i < c {
        assert(ids[i] != id);
    }
}

/// Some position at or before `k` is the first to hold `id`, where `k`
/// holds it.
pub proof fn lemma_first_exists(ids: Seq<u32>, id: u32, k: int)
    requires
        0 <= k < ids.len(),
        ids[k] == id,
    ensures
        exists|i: int| is_first_at(ids, id, i),
    decreases k,
{
    if forall|j: int| 0 <= j < k ==> ids[j] != id {
        assert(is_first_at(ids, id, k));
    } else {
        let j = choose|j: int| 0 <= j < k && ids[j] == id;
        lemma_first_exists(ids, id, j);
    }
}

/// `first_index` names the first position that holds `id`, and names none
/// exactly when `id` does not occur.
pub proof fn lemma_first_index(ids: Seq<u32>, id: u32)
    ensures
        match first_index(ids, id) {
            Some(i) => is_first_at(ids, id, i),
            None => !ids.contains(id),
        },
        first_index(ids, id).is_some() <==> ids.contains(id),
{
    if ids.contains(id) {
        let k = choose|k: int| 0 <= k < ids.len() && ids[k] == id;
        lemma_first_exists(ids, id, k);
    }
    if let Some(i) = first_index(ids, id) {
        assert(is_first_at(ids, id, i));
        assert(ids[i] == id);
    }
}

/// The identifiers of the groups, in order.
pub open spec fn group_ids(groups: Seq<GroupView>) -> Seq<u32> {
    groups.map_values(|g: GroupView| g.id)
}

/// The identifiers of the expenses, in order.
pub open spec fn expense_ids(expenses: Seq<ExpenseView>) -> Seq<u32> {
    expenses.map_values(|e: ExpenseView| e.id)
}

/// Whether a group with this identifier is in the store.
pub open spec fn has_group(groups: Seq<GroupView>, id: u32) -> bool {
    group_ids(groups).contains(id)
}

/// The position of the first group with this identifier: the one that every
/// operation on a group identifier addresses.
pub open spec fn group_position(groups: Seq<GroupView>, id: u32) -> Option<int> {
    first_index(group_ids(groups), id)
}

/// A group that has just been created: its creator is its only member.
pub open spec fn new_group(id: u32, name: Seq<char>, creator: Seq<u8>) -> GroupView {
    GroupView {
        id,
        name,
        members: seq![creator],
        expenses: Seq::empty(),
        payments: Seq::empty(),
    }
}

/// The store after a group was created.
pub open spec fn with_group(
    groups: Seq<GroupView>,
    id: u32,
    name: Seq<char>,
    creator: Seq<u8>,
) -> Seq<GroupView> {
    groups.push(new_group(id, name, creator))
}

/// The store after `user` was appended to the members of the group `id`;
/// unchanged where there is no such group.
pub open spec fn with_member(groups: Seq<GroupView>, id: u32, user: Seq<u8>) -> Seq<GroupView> {
    match group_position(groups, id) {
        Some(i) => groups.update(
            i,
            GroupView { members: groups[i].members.push(user), ..groups[i] },
        ),
        None => groups,
    }
}

/// The store after `expense` was appended to the group `id`; unchanged where
/// there is no such group.
pub open spec fn with_expense(groups: Seq<GroupView>, id: u32, expense: ExpenseView) -> Seq<
    GroupView,
> {
    match group_position(groups, id) {
        Some(i) => groups.update(
            i,
            GroupView { expenses: groups[i].expenses.push(expense), ..groups[i] },
        ),
        None => groups,
    }
}

/// The store after `payment` was appended to the group `id`; unchanged where
/// there is no such group.
pub open spec fn with_payment(groups: Seq<GroupView>, id: u32, payment: PaymentView) -> Seq<
    GroupView,
> {
    match group_position(groups, id) {
        Some(i) => groups.update(
            i,
            GroupView { payments: groups[i].payments.push(payment), ..groups[i] },
        ),
        None => groups,
    }
}

/// The expenses after the first one with the identifier `expense_id` was
/// replaced by `expense`; unchanged where there is none.
pub open spec fn replace_expense(
    expenses: Seq<ExpenseView>,
    expense_id: u32,
    expense: ExpenseView,
) -> Seq<ExpenseView> {
    match first_index(expense_ids(expenses), expense_id) {
        Some(k) => expenses.update(k, expense),
        None => expenses,
    }
}

/// The store after the first expense `expense_id` of the group `id` was
/// replaced by `expense`; unchanged where the group or the expense is
/// missing.
pub open spec fn with_expense_edited(
    groups: Seq<GroupView>,
    id: u32,
    expense_id: u32,
    expense: ExpenseView,
) -> Seq<GroupView> {
    match group_position(groups, id) {
        Some(i) => groups.update(
            i,
            GroupView {
                expenses: replace_expense(groups[i].expenses, expense_id, expense),
                ..groups[i]
            },
        ),
        None => groups,
    }
}

/// The expenses without those that have the identifier `expense_id`, the
/// others in their order.
pub open spec fn remove_expenses(expenses: Seq<ExpenseView>, expense_id: u32) -> Seq<ExpenseView> {
    expenses.filter(|e: ExpenseView| e.id != expense_id)
}

/// The store after every expense `expense_id` of the group `id` was removed;
/// unchanged where there is no such group.
pub open spec fn with_expense_deleted(groups: Seq<GroupView>, id: u32, expense_id: u32) -> Seq<
    GroupView,
> {
    match group_position(groups, id) {
        Some(i) => groups.update(
            i,
            GroupView { expenses: remove_expenses(groups[i].expenses, expense_id), ..groups[i] },
        ),
        None => groups,
    }
}

/// The groups that `who` is a member of, in the order of the store.
pub open spec fn groups_of(groups: Seq<GroupView>, who: Seq<u8>) -> Seq<GroupView> {
    groups.filter(|g: GroupView| g.members.contains(who))
}

/// The members of the group `id`, as a query hands them out.
pub open spec fn members_of(groups: Seq<GroupView>, id: u32) -> Option<Seq<Seq<u8>>> {
    match group_position(groups, id) {
        Some(i) => Some(groups[i].members),
        None => None,
    }
}

/// The expenses of the group `id`, as a query hands them out.
pub open spec fn expenses_of(groups: Seq<GroupView>, id: u32) -> Option<Seq<ExpenseView>> {
    match group_position(groups, id) {
        Some(i) => Some(groups[i].expenses),
        None => None,
    }
}

/// A group is found by its identifier exactly when one with that identifier
/// is in the store, and the position found is the first such.
pub proof fn lemma_group_position(groups: Seq<GroupView>, id: u32)
    ensures
        group_position(groups, id).is_some() <==> has_group(groups, id),
        match group_position(groups, id) {
            Some(i) => 0 <= i < groups.len() && groups[i].id == id && forall|j: int|
                0 <= j < i ==> groups[j].id != id,
            None => forall|j: int| 0 <= j < groups.len() ==> groups[j].id != id,
        },
{
    let ids = group_ids(groups);
    lemma_first_index(ids, id);
    match group_position(groups, id) {
        Some(i) => {
            assert forall|j: int| 0 <= j < i implies groups[j].id != id by {
                assert(ids[j] != id);
            }
        },
        None => {
            assert forall|j: int| 0 <= j < groups.len() implies groups[j].id != id by {
                assert(ids[j] == groups[j].id);
            }
        },
    }
}

/// A change that keeps every group's identifier keeps every group's
/// position.
pub proof fn lemma_same_ids_same_position(before: Seq<GroupView>, after: Seq<GroupView>, id: u32)
    requires
        before.len() == after.len(),
        forall|j: int| 0 <= j < before.len() ==> before[j].id == after[j].id,
    ensures
        group_position(after, id) == group_position(before, id),
{
    assert(group_ids(after) =~= group_ids(before));
}

/// A reference to one entity of the store: a group, or an expense or a
/// payment of a group, by position.
pub enum EntityRef {
    Group { group: int },
    Expense { group: int, index: int },
    Payment { group: int, index: int },
}

/// Whether `r` refers to an entity that the store holds.
pub open spec fn has_entity(groups: Seq<GroupView>, r: EntityRef) -> bool {
    match r {
        EntityRef::Group { group } => 0 <= group < groups.len(),
        EntityRef::Expense { group, index } => 0 <= group < groups.len() && 0 <= index
            < groups[group].expenses.len(),
        EntityRef::Payment { group, index } => 0 <= group < groups.len() && 0 <= index
            < groups[group].payments.len(),
    }
}

/// The identifier of the entity that `r` refers to.
pub open spec fn entity_id(groups: Seq<GroupView>, r: EntityRef) -> u32 {
    match r {
        EntityRef::Group { group } => groups[group].id,
        EntityRef::Expense { group, index } => groups[group].expenses[index].id,
        EntityRef::Payment { group, index } => groups[group].payments[index].id,
    }
}

/// No two entities of the store, of whatever kind, share an identifier.
pub open spec fn ids_distinct(groups: Seq<GroupView>) -> bool {
    forall|a: EntityRef, b: EntityRef|
        #![trigger has_entity(groups, a), has_entity(groups, b)]
        has_entity(groups, a) && has_entity(groups, b) && a != b ==> entity_id(groups, a)
            != entity_id(groups, b)
}

/// Every identifier in the store is one that a generator standing at
/// `counter` has handed out without wrapping.
pub open spec fn ids_issued(groups: Seq<GroupView>, counter: u32) -> bool {
    forall|a: EntityRef| #[trigger] has_entity(groups, a) ==> 1 <= entity_id(groups, a) <= counter
}

/// The identifiers of the store are distinct and were all handed out by the
/// generator that now stands at `counter`.
pub open spec fn ids_fresh(groups: Seq<GroupView>, counter: u32) -> bool {
    ids_distinct(groups) && ids_issued(groups, counter)
}

/// An empty store has fresh identifiers.
pub proof fn lemma_fresh_empty()
    ensures
        ids_fresh(Seq::<GroupView>::empty(), 0),
{
}

/// Creating a group under the next identifier keeps the identifiers fresh,
/// as long as the generator does not wrap.
pub proof fn lemma_fresh_with_group(
    groups: Seq<GroupView>,
    counter: u32,
    name: Seq<char>,
    creator: Seq<u8>,
)
    requires
        ids_fresh(groups, counter),
        counter < u32::MAX,
    ensures
        ids_fresh(with_group(groups, (counter + 1) as u32, name, creator), (counter + 1) as u32),
{
    let id = (counter + 1) as u32;
    let after = with_group(groups, id, name, creator);
    let added = EntityRef::Group { group: groups.len() as int };
    assert forall|a: EntityRef| #[trigger] has_entity(after, a) implies a == added || (has_entity(
        groups,
        a,
    ) && entity_id(after, a) == entity_id(groups, a)) by {}
    assert(entity_id(after, added) == id);
}

/// A new member changes no identifier.
pub proof fn lemma_fresh_with_member(groups: Seq<GroupView>, counter: u32, id: u32, user: Seq<u8>)
    requires
        ids_fresh(groups, counter),
    ensures
        ids_fresh(with_member(groups, id, user), counter),
{
    let after = with_member(groups, id, user);
    lemma_group_position(groups, id);
    assert forall|a: EntityRef| #[trigger] has_entity(after, a) implies has_entity(groups, a)
        && entity_id(after, a) == entity_id(groups, a) by {}
}

/// Appending an expense under the next identifier keeps the identifiers
/// fresh, as long as the generator does not wrap.
pub proof fn lemma_fresh_with_expense(
    groups: Seq<GroupView>,
    counter: u32,
    id: u32,
    expense: ExpenseView,
)
    requires
        ids_fresh(groups, counter),
        counter < u32::MAX,
        expense.id == counter + 1,
    ensures
        ids_fresh(with_expense(groups, id, expense), (counter + 1) as u32),
{
    let after = with_expense(groups, id, expense);
    lemma_group_position(groups, id);
    match group_position(groups, id) {
        Some(i) => {
            let added = EntityRef::Expense { group: i, index: groups[i].expenses.len() as int };
            assert forall|a: EntityRef| #[trigger] has_entity(after, a) implies a == added || (
            has_entity(groups, a) && entity_id(after, a) == entity_id(groups, a)) by {}
            assert(entity_id(after, added) == expense.id);
        },
        None => {},
    }
}

/// Appending a payment under the next identifier keeps the identifiers
/// fresh, as long as the generator does not wrap.
pub proof fn lemma_fresh_with_payment(
    groups: Seq<GroupView>,
    counter: u32,
    id: u32,
    payment: PaymentView,
)
    requires
        ids_fresh(groups, counter),
        counter < u32::MAX,
        payment.id == counter + 1,
    ensures
        ids_fresh(with_payment(groups, id, payment), (counter + 1) as u32),
{
    let after = with_payment(groups, id, payment);
    lemma_group_position(groups, id);
    match group_position(groups, id) {
        Some(i) => {
            let added = EntityRef::Payment { group: i, index: groups[i].payments.len() as int };
            assert forall|a: EntityRef| #[trigger] has_entity(after, a) implies a == added || (
            has_entity(groups, a) && entity_id(after, a) == entity_id(groups, a)) by {}
            assert(entity_id(after, added) == payment.id);
        },
        None => {},
    }
}

/// After an expense was appended to a group that is in the store, the
/// group's expenses are those it had, followed by the new one: one more.
pub proof fn lemma_expense_appended(groups: Seq<GroupView>, id: u32, expense: ExpenseView)
    requires
        has_group(groups, id),
    ensures
        expenses_of(groups, id).is_some(),
        expenses_of(with_expense(groups, id, expense), id) == Some(
            expenses_of(groups, id).unwrap().push(expense),
        ),
        expenses_of(with_expense(groups, id, expense), id).unwrap().len() == expenses_of(
            groups,
            id,
        ).unwrap().len() + 1,
{
    lemma_group_position(groups, id);
    lemma_same_ids_same_position(groups, with_expense(groups, id, expense), id);
}

/// The expenses of a group are not touched by what happens to a group with
/// another identifier: a new member, expense or payment there, or an expense
/// edited or deleted there.
pub proof fn lemma_expenses_of_other_group_kept(
    groups: Seq<GroupView>,
    id: u32,
    other: u32,
    user: Seq<u8>,
    expense: ExpenseView,
    payment: PaymentView,
    expense_id: u32,
)
    requires
        other != id,
    ensures
        expenses_of(with_member(groups, other, user), id) == expenses_of(groups, id),
        expenses_of(with_expense(groups, other, expense), id) == expenses_of(groups, id),
        expenses_of(with_payment(groups, other, payment), id) == expenses_of(groups, id),
        expenses_of(with_expense_edited(groups, other, expense_id, expense), id) == expenses_of(
            groups,
            id,
        ),
        expenses_of(with_expense_deleted(groups, other, expense_id), id) == expenses_of(groups, id),
{
    lemma_group_position(groups, id);
    lemma_group_position(groups, other);
    lemma_same_ids_same_position(groups, with_member(groups, other, user), id);
    lemma_same_ids_same_position(groups, with_expense(groups, other, expense), id);
    lemma_same_ids_same_position(groups, with_payment(groups, other, payment), id);
    lemma_same_ids_same_position(
        groups,
        with_expense_edited(groups, other, expense_id, expense),
        id,
    );
    lemma_same_ids_same_position(groups, with_expense_deleted(groups, other, expense_id), id);
}

/// The expenses of a group are not touched by the creation of a group: not
/// where the new group has another identifier, and not where the group is in
/// the store already, since the first group with an identifier is the one
/// that is addressed.
pub proof fn lemma_expenses_kept_by_new_group(
    groups: Seq<GroupView>,
    id: u32,
    new_id: u32,
    name: Seq<char>,
    creator: Seq<u8>,
)
    requires
        new_id != id || has_group(groups, id),
    ensures
        expenses_of(with_group(groups, new_id, name, creator), id) == expenses_of(groups, id),
{
    let after = with_group(groups, new_id, name, creator);
    lemma_group_position(groups, id);
    lemma_group_position(after, id);
    match group_position(groups, id) {
        Some(i) => {
            assert(after[i] == groups[i]);
            assert(is_first_at(group_ids(after), id, i)) by {
                assert forall|j: int| 0 <= j < i implies group_ids(after)[j] != id by {
                    assert(after[j] == groups[j]);
                }
            }
            lemma_first_index_is(group_ids(after), id, i);
        },
        None => {
            assert forall|j: int| 0 <= j < after.len() implies after[j].id != id by {
                if j < groups.len() {
                    assert(after[j] == groups[j]);
                }
            }
            if let Some(k) = group_position(after, id) {
                assert(after[k].id == id);
            }
        },
    }
}

/// A group that was just created holds its creator as its only member, and
/// neither expenses nor payments.
pub proof fn lemma_created_group(groups: Seq<GroupView>, id: u32, name: Seq<char>, creator: Seq<u8>)
    ensures
        with_group(groups, id, name, creator).len() == groups.len() + 1,
        with_group(groups, id, name, creator).last().id == id,
        with_group(groups, id, name, creator).last().members == seq![creator],
        with_group(groups, id, name, creator).last().expenses.len() == 0,
        with_group(groups, id, name, creator).last().payments.len() == 0,
        with_group(groups, id, name, creator).drop_last() == groups,
{
    assert(with_group(groups, id, name, creator).drop_last() =~= groups);
}

} // verus!
