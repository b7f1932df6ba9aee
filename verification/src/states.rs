//! The state store: the registry of all groups with their members, expenses
//! and payments, its mathematical model, and the operations that change it.

use vstd::prelude::*;
use crate::identity::{ActorId, actor_views, copy_actors};
use crate::model::{
    expense_ids, first_index, group_ids, group_position, is_first_at, lemma_first_index_is,
    remove_expenses, replace_expense, with_expense, with_expense_deleted, with_expense_edited,
    with_group, with_member, with_payment,
};

verus! {

/// A recorded transfer of an amount from one actor to another.
#[derive(Debug, PartialEq)]
pub struct Payment {
    pub id: u32,
    pub from: ActorId,
    pub to: ActorId,
    pub amount: u32,
}

/// A recorded cost, attributed to the actor who recorded it.
#[derive(Debug, PartialEq)]
pub struct Expense {
    pub id: u32,
    pub description: String,
    pub amount: u128,
    pub currency: String,
    pub actor_id: ActorId,
}

/// What a caller supplies of a new expense.
#[derive(Debug, PartialEq)]
pub struct ExpenseDTO {
    pub description: String,
    pub amount: u128,
    pub currency: String,
}

/// A named collection of members who share expenses and payments.
#[derive(Debug, PartialEq)]
pub struct Group {
    pub id: u32,
    pub name: String,
    pub members: Vec<ActorId>,
    pub expenses: Vec<Expense>,
    pub payments: Vec<Payment>,
}

/// What a caller supplies of a group.
#[derive(Debug, PartialEq)]
pub struct GroupDTO {
    pub name: String,
    pub members: Vec<u32>,
    pub expenses: Vec<ExpenseDTO>,
}

/// The root of the ledger: all groups, in the order of their creation.
#[derive(Debug, PartialEq)]
pub struct State {
    pub groups: Vec<Group>,
}

/// The whole state as it is handed to a reader.
#[derive(Debug, PartialEq)]
pub struct IoState {
    pub groups: Vec<Group>,
}

/// The model of a [`Payment`].
pub struct PaymentView {
    pub id: u32,
    pub from: Seq<u8>,
    pub to: Seq<u8>,
    pub amount: u32,
}

/// The model of an [`Expense`].
pub struct ExpenseView {
    pub id: u32,
    pub description: Seq<char>,
    pub amount: u128,
    pub currency: Seq<char>,
    pub actor_id: Seq<u8>,
}

/// The model of an [`ExpenseDTO`].
pub struct ExpenseDTOView {
    pub description: Seq<char>,
    pub amount: u128,
    pub currency: Seq<char>,
}

/// The model of a [`Group`].
pub struct GroupView {
    pub id: u32,
    pub name: Seq<char>,
    pub members: Seq<Seq<u8>>,
    pub expenses: Seq<ExpenseView>,
    pub payments: Seq<PaymentView>,
}

/// The model of a [`GroupDTO`].
pub struct GroupDTOView {
    pub name: Seq<char>,
    pub members: Seq<u32>,
    pub expenses: Seq<ExpenseDTOView>,
}

impl View for Payment {
    type V = PaymentView;

    open spec fn view(&self) -> PaymentView {
        PaymentView { id: self.id, from: self.from@, to: self.to@, amount: self.amount }
    }
}

impl View for Expense {
    type V = ExpenseView;

    open spec fn view(&self) -> ExpenseView {
        ExpenseView {
            id: self.id,
            description: self.description@,
            amount: self.amount,
            currency: self.currency@,
            actor_id: self.actor_id@,
        }
    }
}

impl View for ExpenseDTO {
    type V = ExpenseDTOView;

    open spec fn view(&self) -> ExpenseDTOView {
        ExpenseDTOView {
            description: self.description@,
            amount: self.amount,
            currency: self.currency@,
        }
    }
}

/// The models of a list of payments, in order.
pub open spec fn payment_views(payments: Seq<Payment>) -> Seq<PaymentView> {
    payments.map_values(|p: Payment| p@)
}

/// The models of a list of expenses, in order.
pub open spec fn expense_views(expenses: Seq<Expense>) -> Seq<ExpenseView> {
    expenses.map_values(|e: Expense| e@)
}

/// The models of a list of expense inputs, in order.
pub open spec fn expense_dto_views(expenses: Seq<ExpenseDTO>) -> Seq<ExpenseDTOView> {
    expenses.map_values(|e: ExpenseDTO| e@)
}

impl View for Group {
    type V = GroupView;

    open spec fn view(&self) -> GroupView {
        GroupView {
            id: self.id,
            name: self.name@,
            members: actor_views(self.members@),
            expenses: expense_views(self.expenses@),
            payments: payment_views(self.payments@),
        }
    }
}

impl View for GroupDTO {
    type V = GroupDTOView;

    open spec fn view(&self) -> GroupDTOView {
        GroupDTOView {
            name: self.name@,
            members: self.members@,
            expenses: expense_dto_views(self.expenses@),
        }
    }
}

/// The models of a list of groups, in order.
pub open spec fn group_views(groups: Seq<Group>) -> Seq<GroupView> {
    groups.map_values(|g: Group| g@)
}

impl View for State {
    type V = Seq<GroupView>;

    open spec fn view(&self) -> Seq<GroupView> {
        group_views(self.groups@)
    }
}

impl View for IoState {
    type V = Seq<GroupView>;

    open spec fn view(&self) -> Seq<GroupView> {
        group_views(self.groups@)
    }
}

impl Clone for Payment {
    fn clone(&self) -> (r: Self)
        ensures
            r@ == self@,
    {
        Payment { id: self.id, from: self.from, to: self.to, amount: self.amount }
    }
}

impl Clone for Expense {
    fn clone(&self) -> (r: Self)
        ensures
            r@ == self@,
    {
        Expense {
            id: self.id,
            description: self.description.clone(),
            amount: self.amount,
            currency: self.currency.clone(),
            actor_id: self.actor_id,
        }
    }
}

impl Clone for ExpenseDTO {
    fn clone(&self) -> (r: Self)
        ensures
            r@ == self@,
    {
        ExpenseDTO {
            description: self.description.clone(),
            amount: self.amount,
            currency: self.currency.clone(),
        }
    }
}

/// A copy of a list of payments.
pub fn copy_payments(payments: &Vec<Payment>) -> (r: Vec<Payment>)
    ensures
        payment_views(r@) == payment_views(payments@),
{
    let mut out: Vec<Payment> = Vec::new();
    let mut i: usize = 0;
    while i < payments.len()
        invariant
            i <= payments.len(),
            out@.len() == i,
            forall|j: int| 0 <= j < i ==> (#[trigger] out@[j])@ == payments@[j]@,
        decreases payments.len() - i,
    {
        out.push(payments[i].clone());
        i += 1;
    }
    assert(payment_views(out@) =~= payment_views(payments@));
    out
}

/// A copy of a list of expenses.
pub fn copy_expenses(expenses: &Vec<Expense>) -> (r: Vec<Expense>)
    ensures
        expense_views(r@) == expense_views(expenses@),
{
    let mut out: Vec<Expense> = Vec::new();
    let mut i: usize = 0;
    while i < expenses.len()
        invariant
            i <= expenses.len(),
            out@.len() == i,
            forall|j: int| 0 <= j < i ==> (#[trigger] out@[j])@ == expenses@[j]@,
        decreases expenses.len() - i,
    {
        out.push(expenses[i].clone());
        i += 1;
    }
    assert(expense_views(out@) =~= expense_views(expenses@));
    out
}

impl Clone for Group {
    fn clone(&self) -> (r: Self)
        ensures
            r@ == self@,
    {
        Group {
            id: self.id,
            name: self.name.clone(),
            members: copy_actors(&self.members),
            expenses: copy_expenses(&self.expenses),
            payments: copy_payments(&self.payments),
        }
    }
}

/// A copy of a list of groups.
pub fn copy_groups(groups: &Vec<Group>) -> (r: Vec<Group>)
    ensures
        group_views(r@) == group_views(groups@),
{
    let mut out: Vec<Group> = Vec::new();
    let mut i: usize = 0;
    while i < groups.len()
        invariant
            i <= groups.len(),
            out@.len() == i,
            forall|j: int| 0 <= j < i ==> (#[trigger] out@[j])@ == groups@[j]@,
        decreases groups.len() - i,
    {
        out.push(groups[i].clone());
        i += 1;
    }
    assert(group_views(out@) =~= group_views(groups@));
    out
}

impl Clone for State {
    fn clone(&self) -> (r: Self)
        ensures
            r@ == self@,
    {
        State { groups: copy_groups(&self.groups) }
    }
}

impl Payment {
    /// A payment of `amount` from `from` to `to`.
    pub fn new(id: u32, from: ActorId, to: ActorId, amount: u32) -> (r: Self)
        ensures
            r@ == (PaymentView { id, from: from@, to: to@, amount }),
    {
        Payment { id, from, to, amount }
    }
}

impl Expense {
    /// An expense recorded by `actor_id`.
    pub fn new(
        id: u32,
        description: String,
        amount: u128,
        currency: String,
        actor_id: ActorId,
    ) -> (r: Self)
        ensures
            r@ == (ExpenseView {
                id,
                description: description@,
                amount,
                currency: currency@,
                actor_id: actor_id@,
            }),
    {
        Expense { id, description, amount, currency, actor_id }
    }
}

impl State {
    /// A store without groups.
    pub fn new() -> (r: Self)
        ensures
            r@ == Seq::<GroupView>::empty(),
    {
        let r = State { groups: Vec::new() };
        assert(r@ =~= Seq::<GroupView>::empty());
        r
    }

    /// The position of the first group with the identifier `group_id`.
    pub fn find_group(&self, group_id: u32) -> (r: Option<usize>)
        ensures
            match r {
                Some(i) => group_position(self@, group_id) == Some(i as int) && i < self.groups.len(),
                None => group_position(self@, group_id).is_none(),
            },
    {
        let mut i: usize = 0;
        while i < self.groups.len()
            invariant
                i <= self.groups.len(),
                forall|j: int| 0 <= j < i ==> group_ids(self@)[j] != group_id,
            decreases self.groups.len() - i,
        {
            if self.groups[i].id == group_id {
                proof {
                    assert(group_ids(self@)[i as int] == group_id);
                    lemma_first_index_is(group_ids(self@), group_id, i as int);
                }
                return Some(i);
            }
            i += 1;
        }
        assert forall|k: int| !is_first_at(group_ids(self@), group_id, k) by {
            if 0 <= k < group_ids(self@).len() {
                assert(group_ids(self@)[k] != group_id);
            }
        }
        None
    }

    /// Appends a new group whose only member is `wallet`. Whether the
    /// identifier is already in use is not looked at.
    pub fn create_group(&mut self, group_id: u32, name: String, wallet: ActorId)
        ensures
            final(self)@ == with_group(old(self)@, group_id, name@, wallet@),
    {
        let mut members: Vec<ActorId> = Vec::new();
        members.push(wallet);
        let group = Group {
            id: group_id,
            name,
            members,
            expenses: Vec::new(),
            payments: Vec::new(),
        };
        proof {
            assert(group@.members =~= seq![wallet@]);
            assert(group@.expenses =~= Seq::<ExpenseView>::empty());
            assert(group@.payments =~= Seq::<PaymentView>::empty());
        }
        self.groups.push(group);
        assert(self@ =~= with_group(old(self)@, group_id, name@, wallet@));
    }

    /// Appends `user_id` to the members of the group `group_id`; does nothing
    /// where there is no such group. Whether the user is a member already is
    /// not looked at.
    pub fn join_group(&mut self, group_id: u32, user_id: ActorId)
        ensures
            final(self)@ == with_member(old(self)@, group_id, user_id@),
    {
        if let Some(i) = self.find_group(group_id) {
            self.groups[i].members.push(user_id);
            proof {
                assert(self.groups@[i as int]@.members =~= old(self)@[i as int].members.push(user_id@));
                assert(self@ =~= with_member(old(self)@, group_id, user_id@));
            }
        }
    }

    /// Appends `expense` to the group `group_id`; does nothing where there is
    /// no such group.
    pub fn add_expense(&mut self, group_id: u32, expense: Expense)
        ensures
            final(self)@ == with_expense(old(self)@, group_id, expense@),
    {
        if let Some(i) = self.find_group(group_id) {
            self.groups[i].expenses.push(expense);
            proof {
                assert(self.groups@[i as int]@.expenses =~= old(self)@[i as int].expenses.push(
                    expense@,
                ));
                assert(self@ =~= with_expense(old(self)@, group_id, expense@));
            }
        }
    }

    /// Appends `payment` to the group `group_id`; does nothing where there is
    /// no such group.
    pub fn add_payment(&mut self, group_id: u32, payment: Payment)
        ensures
            final(self)@ == with_payment(old(self)@, group_id, payment@),
    {
        if let Some(i) = self.find_group(group_id) {
            self.groups[i].payments.push(payment);
            proof {
                assert(self.groups@[i as int]@.payments =~= old(self)@[i as int].payments.push(
                    payment@,
                ));
                assert(self@ =~= with_payment(old(self)@, group_id, payment@));
            }
        }
    }

    /// Replaces the first expense `expense_id` of the group `group_id` by
    /// `new_expense`; does nothing where the group or the expense is missing.
    pub fn edit_expense(&mut self, group_id: u32, expense_id: u32, new_expense: Expense)
        ensures
            final(self)@ == with_expense_edited(old(self)@, group_id, expense_id, new_expense@),
    {
        if let Some(i) = self.find_group(group_id) {
            let found = find_expense(&self.groups[i].expenses, expense_id);
            if let Some(k) = found {
                self.groups[i].expenses[k] = new_expense;
                proof {
                    assert(self.groups@[i as int]@.expenses =~= replace_expense(
                        old(self)@[i as int].expenses,
                        expense_id,
                        new_expense@,
                    ));
                }
            }
            assert(self@ =~= with_expense_edited(old(self)@, group_id, expense_id, new_expense@));
        }
    }

    /// Removes every expense `expense_id` from the group `group_id`; does
    /// nothing where there is no such group.
    pub fn delete_expense(&mut self, group_id: u32, expense_id: u32)
        ensures
            final(self)@ == with_expense_deleted(old(self)@, group_id, expense_id),
    {
        if let Some(i) = self.find_group(group_id) {
            let kept = expenses_without(&self.groups[i].expenses, expense_id);
            self.groups[i].expenses = kept;
            assert(self@ =~= with_expense_deleted(old(self)@, group_id, expense_id));
        }
    }
}

/// The position of the first expense with the identifier `expense_id`.
pub fn find_expense(expenses: &Vec<Expense>, expense_id: u32) -> (r: Option<usize>)
    ensures
        match r {
            Some(k) => first_index(expense_ids(expense_views(expenses@)), expense_id) == Some(
                k as int,
            ) && k < expenses.len(),
            None => first_index(expense_ids(expense_views(expenses@)), expense_id).is_none(),
        },
{
    let ghost ids = expense_ids(expense_views(expenses@));
    let mut k: usize = 0;
    while k < expenses.len()
        invariant
            k <= expenses.len(),
            ids == expense_ids(expense_views(expenses@)),
            forall|j: int| 0 <= j < k ==> ids[j] != expense_id,
        decreases expenses.len() - k,
    {
        if expenses[k].id == expense_id {
            proof {
                assert(ids[k as int] == expense_id);
                lemma_first_index_is(ids, expense_id, k as int);
            }
            return Some(k);
        }
        k += 1;
    }
    assert forall|j: int| !is_first_at(ids, expense_id, j) by {
        if 0 <= j < ids.len() {
            assert(ids[j] != expense_id);
        }
    }
    None
}

/// The expenses that do not have the identifier `expense_id`, in order.
pub fn expenses_without(expenses: &Vec<Expense>, expense_id: u32) -> (r: Vec<Expense>)
    ensures
        expense_views(r@) == remove_expenses(expense_views(expenses@), expense_id),
{
    let ghost all = expense_views(expenses@);
    let ghost keep = |e: ExpenseView| e.id != expense_id;
    let mut out: Vec<Expense> = Vec::new();
    let mut k: usize = 0;
    assert(all.take(0) =~= Seq::<ExpenseView>::empty());
    assert(expense_views(out@) =~= Seq::<ExpenseView>::empty());
    proof {
        Seq::<ExpenseView>::empty().lemma_filter_len(keep);
    }
    while k < expenses.len()
        invariant
            k <= expenses.len(),
            all == expense_views(expenses@),
            keep == (|e: ExpenseView| e.id != expense_id),
            expense_views(out@) == all.take(k as int).filter(keep),
        decreases expenses.len() - k,
    {
        proof {
            assert(all.take(k as int + 1) =~= all.take(k as int).push(all[k as int]));
            all.take(k as int).lemma_filter_push(all[k as int], keep);
        }
        if expenses[k].id != expense_id {
            let ghost before = out@;
            out.push(expenses[k].clone());
            assert(expense_views(out@) =~= expense_views(before).push(all[k as int]));
        }
        k += 1;
    }
    assert(all.take(expenses.len() as int) =~= all);
    out
}

impl Default for State {
    fn default() -> (r: Self)
        ensures
            r@ == Seq::<GroupView>::empty(),
    {
        State::new()
    }
}

impl From<State> for IoState {
    /// The same groups, packed for a reader.
    fn from(value: State) -> (r: Self) {
        IoState { groups: value.groups }
    }
}

impl vstd::std_specs::convert::FromSpecImpl<State> for IoState {
    open spec fn obeys_from_spec() -> bool {
        true
    }

    open spec fn from_spec(value: State) -> Self {
        IoState { groups: value.groups }
    }
}

impl Default for Payment {
    fn default() -> (r: Self)
        ensures
            r@ == (PaymentView {
                id: 0,
                from: ActorId::zero_view(),
                to: ActorId::zero_view(),
                amount: 0,
            }),
    {
        Payment { id: 0, from: ActorId::zero(), to: ActorId::zero(), amount: 0 }
    }
}

impl Default for Expense {
    fn default() -> (r: Self)
        ensures
            r@ == (ExpenseView {
                id: 0,
                description: Seq::<char>::empty(),
                amount: 0,
                currency: Seq::<char>::empty(),
                actor_id: ActorId::zero_view(),
            }),
    {
        Expense {
            id: 0,
            description: String::new(),
            amount: 0,
            currency: String::new(),
            actor_id: ActorId::zero(),
        }
    }
}

impl Default for ExpenseDTO {
    fn default() -> (r: Self)
        ensures
            r@ == (ExpenseDTOView {
                description: Seq::<char>::empty(),
                amount: 0,
                currency: Seq::<char>::empty(),
            }),
    {
        ExpenseDTO { description: String::new(), amount: 0, currency: String::new() }
    }
}

impl Default for Group {
    fn default() -> (r: Self)
        ensures
            r@ == (GroupView {
                id: 0,
                name: Seq::<char>::empty(),
                members: Seq::<Seq<u8>>::empty(),
                expenses: Seq::<ExpenseView>::empty(),
                payments: Seq::<PaymentView>::empty(),
            }),
    {
        let r = Group {
            id: 0,
            name: String::new(),
            members: Vec::new(),
            expenses: Vec::new(),
            payments: Vec::new(),
        };
        proof {
            assert(r@.members =~= Seq::<Seq<u8>>::empty());
            assert(r@.expenses =~= Seq::<ExpenseView>::empty());
            assert(r@.payments =~= Seq::<PaymentView>::empty());
        }
        r
    }
}

impl Default for GroupDTO {
    fn default() -> (r: Self)
        ensures
            r@ == (GroupDTOView {
                name: Seq::<char>::empty(),
                members: Seq::<u32>::empty(),
                expenses: Seq::<ExpenseDTOView>::empty(),
            }),
    {
        let r = GroupDTO { name: String::new(), members: Vec::new(), expenses: Vec::new() };
        proof {
            assert(r@.expenses =~= Seq::<ExpenseDTOView>::empty());
        }
        r
    }
}

impl Clone for GroupDTO {
    fn clone(&self) -> (r: Self)
        ensures
            r@ == self@,
    {
        let mut members: Vec<u32> = Vec::new();
        let mut i: usize = 0;
        while i < self.members.len()
            invariant
                i <= self.members.len(),
                members@ == self.members@.take(i as int),
            decreases self.members.len() - i,
        {
            members.push(self.members[i]);
            assert(members@ =~= self.members@.take(i as int + 1));
            i += 1;
        }
        assert(self.members@.take(self.members.len() as int) =~= self.members@);
        let mut expenses: Vec<ExpenseDTO> = Vec::new();
        let mut k: usize = 0;
        while k < self.expenses.len()
            invariant
                k <= self.expenses.len(),
                expenses@.len() == k,
                forall|j: int| 0 <= j < k ==> (#[trigger] expenses@[j])@ == self.expenses@[j]@,
            decreases self.expenses.len() - k,
        {
            expenses.push(self.expenses[k].clone());
            k += 1;
        }
        assert(expense_dto_views(expenses@) =~= expense_dto_views(self.expenses@));
        GroupDTO { name: self.name.clone(), members, expenses }
    }
}

} // verus!
