//! The service layer: the operations that actors invoke on the ledger.
//!
//! Every operation takes the identity of the calling actor, checks the store,
//! changes it, and answers with an event or with the data asked for.

use vstd::prelude::*;
use crate::identity::{ActorId, actor_views, contains_actor, copy_actors};
use crate::model::{
    expenses_of, group_position, groups_of, has_group, ids_fresh, lemma_expense_appended,
    lemma_expenses_kept_by_new_group, lemma_expenses_of_other_group_kept, lemma_fresh_empty, lemma_fresh_with_expense, lemma_fresh_with_group, lemma_fresh_with_member,
    lemma_fresh_with_payment, lemma_group_position, lemma_same_ids_same_position, members_of,
    with_expense, with_group, with_member, with_payment,
};
use crate::states::{
    copy_expenses, expense_views, group_views, Expense, ExpenseDTO, ExpenseDTOView, ExpenseView,
    Group, GroupView, IoState, Payment, PaymentView, State,
};
use crate::utils::{next_id, Utils};

verus! {

/// What an operation answers.
#[derive(Debug, PartialEq)]
pub enum Events {
    GroupCreated(u32),
    UserJoined(ActorId, u32),
    ExpenseAdded(u32, u32),
    PaymentAdded(u32, u32),
    Error(String),
}

/// The model of an [`Events`] value.
pub enum EventsView {
    GroupCreated(u32),
    UserJoined(Seq<u8>, u32),
    ExpenseAdded(u32, u32),
    PaymentAdded(u32, u32),
    Error(Seq<char>),
}

impl View for Events {
    type V = EventsView;

    open spec fn view(&self) -> EventsView {
        match *self {
            Events::GroupCreated(id) => EventsView::GroupCreated(id),
            Events::UserJoined(who, id) => EventsView::UserJoined(who@, id),
            Events::ExpenseAdded(group, id) => EventsView::ExpenseAdded(group, id),
            Events::PaymentAdded(group, amount) => EventsView::PaymentAdded(group, amount),
            Events::Error(message) => EventsView::Error(message@),
        }
    }
}

/// The answer to an operation on a group that is not in the store.
pub open spec fn group_not_found() -> EventsView {
    EventsView::Error("Group not found"@)
}

/// The answer to a member who joins again.
pub open spec fn already_in_group() -> EventsView {
    EventsView::Error("User already in group"@)
}

/// What `join_group` answers to `caller` on the store `groups`.
pub open spec fn join_event(groups: Seq<GroupView>, group_id: u32, caller: Seq<u8>) -> EventsView {
    match group_position(groups, group_id) {
        Some(i) => if groups[i].members.contains(caller) {
            already_in_group()
        } else {
            EventsView::UserJoined(caller, group_id)
        },
        None => group_not_found(),
    }
}

/// The store after `join_group` by `caller`: the caller is appended to the
/// group's members where the group exists and does not hold the caller yet.
pub open spec fn after_join(groups: Seq<GroupView>, group_id: u32, caller: Seq<u8>) -> Seq<
    GroupView,
> {
    match group_position(groups, group_id) {
        Some(i) => if groups[i].members.contains(caller) {
            groups
        } else {
            with_member(groups, group_id, caller)
        },
        None => groups,
    }
}

/// The expense that `caller` records from `input` under the identifier `id`.
pub open spec fn expense_from(id: u32, input: ExpenseDTOView, caller: Seq<u8>) -> ExpenseView {
    ExpenseView {
        id,
        description: input.description,
        amount: input.amount,
        currency: input.currency,
        actor_id: caller,
    }
}

/// The payment of `amount` from `caller` to `to` under the identifier `id`.
pub open spec fn payment_from(id: u32, caller: Seq<u8>, to: Seq<u8>, amount: u32) -> PaymentView {
    PaymentView { id, from: caller, to, amount }
}

/// The ledger: the store of groups and the generator of identifiers.
#[derive(Debug)]
pub struct Service {
    pub state: State,
    pub ids: Utils,
}

/// The model of a [`Service`]: the model of its store, and where its
/// generator stands.
pub struct ServiceView {
    pub groups: Seq<GroupView>,
    pub counter: u32,
}

impl View for Service {
    type V = ServiceView;

    open spec fn view(&self) -> ServiceView {
        ServiceView { groups: self.state@, counter: self.ids.counter }
    }
}

/// One call of an operation that changes the ledger, with its caller first.
pub enum Operation {
    /// `create_group` by a caller, with the group's name.
    CreateGroup(Seq<u8>, Seq<char>),
    /// `join_group` by a caller, with the group's identifier.
    JoinGroup(Seq<u8>, u32),
    /// `add_expense` by a caller, with the group's identifier and the input.
    AddExpense(Seq<u8>, u32, ExpenseDTOView),
    /// `add_payment` by a caller, with the group's identifier, the amount
    /// and the payee.
    AddPayment(Seq<u8>, u32, u32, Seq<u8>),
}

/// Whether the call names the group `group_id`. A call that creates a group
/// names none.
pub open spec fn addresses(op: Operation, group_id: u32) -> bool {
    match op {
        Operation::CreateGroup(_, _) => false,
        Operation::JoinGroup(_, id) => id == group_id,
        Operation::AddExpense(_, id, _) => id == group_id,
        Operation::AddPayment(_, id, _, _) => id == group_id,
    }
}

/// The ledger after one call.
pub open spec fn after(ledger: ServiceView, op: Operation) -> ServiceView {
    let id = next_id(ledger.counter);
    match op {
        Operation::CreateGroup(caller, name) => ServiceView {
            groups: with_group(ledger.groups, id, name, caller),
            counter: id,
        },
        Operation::JoinGroup(caller, group_id) => ServiceView {
            groups: after_join(ledger.groups, group_id, caller),
            counter: ledger.counter,
        },
        Operation::AddExpense(caller, group_id, input) => if has_group(ledger.groups, group_id) {
            ServiceView {
                groups: with_expense(ledger.groups, group_id, expense_from(id, input, caller)),
                counter: id,
            }
        } else {
            ledger
        },
        Operation::AddPayment(caller, group_id, amount, to) => if has_group(
            ledger.groups,
            group_id,
        ) {
            ServiceView {
                groups: with_payment(ledger.groups, group_id, payment_from(id, caller, to, amount)),
                counter: id,
            }
        } else {
            ledger
        },
    }
}

/// What one call is answered with.
pub open spec fn answer(ledger: ServiceView, op: Operation) -> EventsView {
    let id = next_id(ledger.counter);
    match op {
        Operation::CreateGroup(_, _) => EventsView::GroupCreated(id),
        Operation::JoinGroup(caller, group_id) => join_event(ledger.groups, group_id, caller),
        Operation::AddExpense(_, group_id, _) => if has_group(ledger.groups, group_id) {
            EventsView::ExpenseAdded(group_id, id)
        } else {
            group_not_found()
        },
        Operation::AddPayment(_, group_id, amount, _) => if has_group(ledger.groups, group_id) {
            EventsView::PaymentAdded(group_id, amount)
        } else {
            group_not_found()
        },
    }
}

/// The ledger after a series of calls, the first of `ops` made first.
pub open spec fn after_all(ledger: ServiceView, ops: Seq<Operation>) -> ServiceView
    decreases ops.len(),
{
    if ops.len() == 0 {
        ledger
    } else {
        after(after_all(ledger, ops.drop_last()), ops.last())
    }
}

impl Service {
    /// Whether no two entities of the ledger share an identifier and all
    /// identifiers came from the ledger's generator.
    pub open spec fn fresh(&self) -> bool {
        ids_fresh(self.state@, self.ids.counter)
    }

    /// The ledger as it is before any operation: no group, and a generator
    /// that has handed out nothing.
    pub fn seed() -> (r: Self)
        ensures
            r.state@ == Seq::<GroupView>::empty(),
            r.ids.counter == 0,
            r.fresh(),
    {
        proof {
            lemma_fresh_empty();
        }
        Service { state: State::new(), ids: Utils::new() }
    }

    /// A ledger over a given store and generator.
    pub fn new(state: State, ids: Utils) -> (r: Self)
        ensures
            r.state == state,
            r.ids == ids,
    {
        Service { state, ids }
    }

    /// Creates a group named `group_name` under a new identifier, with the
    /// caller as its only member.
    pub fn create_group(&mut self, caller: ActorId, group_name: String) -> (r: Events)
        ensures
            final(self)@ == after(old(self)@, Operation::CreateGroup(caller@, group_name@)),
            r@ == answer(old(self)@, Operation::CreateGroup(caller@, group_name@)),
            r@ == EventsView::GroupCreated(next_id(old(self).ids.counter)),
            final(self).ids.counter == next_id(old(self).ids.counter),
            final(self).state@ == with_group(
                old(self).state@,
                next_id(old(self).ids.counter),
                group_name@,
                caller@,
            ),
            final(self).state@.last().members == seq![caller@],
            old(self).fresh() && old(self).ids.counter < u32::MAX ==> final(self).fresh(),
    {
        let new_group_id = self.ids.generate_group_id();
        proof {
            if old(self).fresh() && old(self).ids.counter < u32::MAX {
                lemma_fresh_with_group(
                    old(self).state@,
                    old(self).ids.counter,
                    group_name@,
                    caller@,
                );
            }
        }
        self.state.create_group(new_group_id, group_name, caller);
        Events::GroupCreated(new_group_id)
    }

    /// Lets the caller join the group `group_id`, unless the group is missing
    /// or holds the caller already.
    pub fn join_group(&mut self, caller: ActorId, group_id: u32) -> (r: Events)
        ensures
            final(self)@ == after(old(self)@, Operation::JoinGroup(caller@, group_id)),
            r@ == answer(old(self)@, Operation::JoinGroup(caller@, group_id)),
            r@ == join_event(old(self).state@, group_id, caller@),
            final(self).state@ == after_join(old(self).state@, group_id, caller@),
            final(self).ids == old(self).ids,
            !has_group(old(self).state@, group_id) ==> r@ == group_not_found(),
            !has_group(old(self).state@, group_id) ==> final(self).state@ == old(self).state@,
            old(self).fresh() ==> final(self).fresh(),
    {
        proof {
            lemma_group_position(self.state@, group_id);
            if self.fresh() {
                lemma_fresh_with_member(self.state@, self.ids.counter, group_id, caller@);
            }
        }
        match self.state.find_group(group_id) {
            Some(i) => {
                if !contains_actor(&self.state.groups[i].members, &caller) {
                    self.state.join_group(group_id, caller);
                    Events::UserJoined(caller, group_id)
                } else {
                    Events::Error("User already in group".to_owned())
                }
            },
            None => Events::Error("Group not found".to_owned()),
        }
    }

    /// Records an expense of the caller in the group `group_id`. A new
    /// identifier is taken from the generator only where the group exists.
    pub fn add_expense(&mut self, caller: ActorId, group_id: u32, expense_dto: ExpenseDTO) -> (r:
        Events)
        ensures
            final(self)@ == after(
                old(self)@,
                Operation::AddExpense(caller@, group_id, expense_dto@),
            ),
            r@ == answer(old(self)@, Operation::AddExpense(caller@, group_id, expense_dto@)),
            has_group(old(self).state@, group_id) ==> final(self).ids.counter == next_id(
                old(self).ids.counter,
            ),
            !has_group(old(self).state@, group_id) ==> final(self).ids == old(self).ids,
            r@ == if has_group(old(self).state@, group_id) {
                EventsView::ExpenseAdded(group_id, next_id(old(self).ids.counter))
            } else {
                group_not_found()
            },
            final(self).state@ == with_expense(
                old(self).state@,
                group_id,
                expense_from(next_id(old(self).ids.counter), expense_dto@, caller@),
            ),
            !has_group(old(self).state@, group_id) ==> final(self).state@ == old(self).state@,
            has_group(old(self).state@, group_id) ==> expenses_of(final(self).state@, group_id)
                == Some(
                expenses_of(old(self).state@, group_id).unwrap().push(
                    expense_from(next_id(old(self).ids.counter), expense_dto@, caller@),
                ),
            ),
            old(self).fresh() && old(self).ids.counter < u32::MAX ==> final(self).fresh(),
    {
        proof {
            lemma_group_position(self.state@, group_id);
        }
        if self.state.find_group(group_id).is_some() {
            let id = self.ids.generate_group_id();
            let expense = Expense::new(
                id,
                expense_dto.description,
                expense_dto.amount,
                expense_dto.currency,
                caller,
            );
            proof {
                lemma_expense_appended(self.state@, group_id, expense@);
                if old(self).fresh() && old(self).ids.counter < u32::MAX {
                    lemma_fresh_with_expense(
                        old(self).state@,
                        old(self).ids.counter,
                        group_id,
                        expense@,
                    );
                }
            }
            self.state.add_expense(group_id, expense);
            Events::ExpenseAdded(group_id, id)
        } else {
            Events::Error("Group not found".to_owned())
        }
    }

    /// Records a payment of `amount` from the caller to `to` in the group
    /// `group_id`. A new identifier is taken from the generator only where
    /// the group exists.
    pub fn add_payment(&mut self, caller: ActorId, group_id: u32, amount: u32, to: ActorId) -> (r:
        Events)
        ensures
            final(self)@ == after(
                old(self)@,
                Operation::AddPayment(caller@, group_id, amount, to@),
            ),
            r@ == answer(old(self)@, Operation::AddPayment(caller@, group_id, amount, to@)),
            r@ == if has_group(old(self).state@, group_id) {
                EventsView::PaymentAdded(group_id, amount)
            } else {
                group_not_found()
            },
            has_group(old(self).state@, group_id) ==> final(self).ids.counter == next_id(
                old(self).ids.counter,
            ),
            has_group(old(self).state@, group_id) ==> final(self).state@ == with_payment(
                old(self).state@,
                group_id,
                payment_from(next_id(old(self).ids.counter), caller@, to@, amount),
            ),
            !has_group(old(self).state@, group_id) ==> final(self).state@ == old(self).state@,
            !has_group(old(self).state@, group_id) ==> final(self).ids == old(self).ids,
            old(self).fresh() && old(self).ids.counter < u32::MAX ==> final(self).fresh(),
    {
        proof {
            lemma_group_position(self.state@, group_id);
        }
        if self.state.find_group(group_id).is_some() {
            let id = self.ids.generate_group_id();
            let payment = Payment::new(id, caller, to, amount);
            proof {
                if old(self).fresh() && old(self).ids.counter < u32::MAX {
                    lemma_fresh_with_payment(
                        old(self).state@,
                        old(self).ids.counter,
                        group_id,
                        payment@,
                    );
                }
            }
            self.state.add_payment(group_id, payment);
            Events::PaymentAdded(group_id, amount)
        } else {
            Events::Error("Group not found".to_owned())
        }
    }

    /// A copy of the group `group_id`, which must be in the store.
    pub fn query_group(&self, group_id: u32) -> (r: Group)
        requires
            has_group(self.state@, group_id),
        ensures
            group_position(self.state@, group_id).is_some(),
            r@ == self.state@[group_position(self.state@, group_id).unwrap()],
            r@.id == group_id,
    {
        proof {
            lemma_group_position(self.state@, group_id);
        }
        let found = self.state.find_group(group_id);
        let i = found.unwrap();
        self.state.groups[i].clone()
    }

    /// Copies of the groups that the caller is a member of, in the order of
    /// the store.
    pub fn query_actor_groups(&self, caller: ActorId) -> (r: Vec<Group>)
        ensures
            group_views(r@) == groups_of(self.state@, caller@),
    {
        let ghost all = self.state@;
        let ghost keep = |g: GroupView| g.members.contains(caller@);
        let mut out: Vec<Group> = Vec::new();
        let mut k: usize = 0;
        assert(all.take(0) =~= Seq::<GroupView>::empty());
        assert(group_views(out@) =~= Seq::<GroupView>::empty());
        proof {
            Seq::<GroupView>::empty().lemma_filter_len(keep);
        }
        while k < self.state.groups.len()
            invariant
                k <= self.state.groups.len(),
                all == self.state@,
                keep == (|g: GroupView| g.members.contains(caller@)),
                group_views(out@) == all.take(k as int).filter(keep),
            decreases self.state.groups.len() - k,
        {
            proof {
                assert(all.take(k as int + 1) =~= all.take(k as int).push(all[k as int]));
                all.take(k as int).lemma_filter_push(all[k as int], keep);
            }
            if contains_actor(&self.state.groups[k].members, &caller) {
                let ghost before = out@;
                out.push(self.state.groups[k].clone());
                assert(group_views(out@) =~= group_views(before).push(all[k as int]));
            }
            k += 1;
        }
        assert(all.take(self.state.groups.len() as int) =~= all);
        out
    }

    /// The members of the group `group_id`, in the order in which they
    /// joined; nothing where there is no such group.
    pub fn query_group_members(&self, group_id: u32) -> (r: Option<Vec<ActorId>>)
        ensures
            match r {
                Some(members) => members_of(self.state@, group_id) == Some(
                    actor_views(members@),
                ),
                None => members_of(self.state@, group_id).is_none(),
            },
            r.is_some() <==> has_group(self.state@, group_id),
    {
        proof {
            lemma_group_position(self.state@, group_id);
        }
        match self.state.find_group(group_id) {
            Some(i) => Some(copy_actors(&self.state.groups[i].members)),
            None => None,
        }
    }

    /// The expenses of the group `group_id`, in the order in which they were
    /// recorded; nothing where there is no such group.
    pub fn query_expenses(&self, group_id: u32) -> (r: Option<Vec<Expense>>)
        ensures
            match r {
                Some(expenses) => expenses_of(self.state@, group_id) == Some(
                    expense_views(expenses@),
                ),
                None => expenses_of(self.state@, group_id).is_none(),
            },
            r.is_some() <==> has_group(self.state@, group_id),
    {
        proof {
            lemma_group_position(self.state@, group_id);
        }
        match self.state.find_group(group_id) {
            Some(i) => Some(copy_expenses(&self.state.groups[i].expenses)),
            None => None,
        }
    }

    /// A copy of the whole store, packed for a reader.
    pub fn query(&self) -> (r: IoState)
        ensures
            r@ == self.state@,
    {
        IoState::from(self.state.clone())
    }
}

impl Default for Service {
    fn default() -> (r: Self)
        ensures
            r.state@ == Seq::<GroupView>::empty(),
            r.ids.counter == 0,
    {
        Service::seed()
    }
}

/// A second attempt to join is refused as a repetition, and changes nothing:
/// the members of the group are what they were after the first attempt.
pub proof fn lemma_second_join_refused(groups: Seq<GroupView>, group_id: u32, caller: Seq<u8>)
    requires
        has_group(groups, group_id),
    ensures
        join_event(after_join(groups, group_id, caller), group_id, caller) == already_in_group(),
        after_join(after_join(groups, group_id, caller), group_id, caller) == after_join(
            groups,
            group_id,
            caller,
        ),
        members_of(after_join(groups, group_id, caller), group_id).is_some(),
        !members_of(groups, group_id).unwrap().contains(caller) ==> members_of(
            after_join(groups, group_id, caller),
            group_id,
        ).unwrap() == members_of(groups, group_id).unwrap().push(caller),
{
    lemma_group_position(groups, group_id);
    let once = after_join(groups, group_id, caller);
    let i = group_position(groups, group_id).unwrap();
    lemma_same_ids_same_position(groups, once, group_id);
    if !groups[i].members.contains(caller) {
        let members = groups[i].members.push(caller);
        assert(members[members.len() - 1] == caller);
        assert(once[i].members.contains(caller));
    }
}

/// On a group that is not in the store, joining, recording an expense and
/// recording a payment all leave the store as it is.
pub proof fn lemma_missing_group_unchanged(
    groups: Seq<GroupView>,
    group_id: u32,
    caller: Seq<u8>,
    expense: ExpenseView,
    payment: PaymentView,
)
    requires
        !has_group(groups, group_id),
    ensures
        join_event(groups, group_id, caller) == group_not_found(),
        after_join(groups, group_id, caller) == groups,
        with_member(groups, group_id, caller) == groups,
        with_expense(groups, group_id, expense) == groups,
        with_payment(groups, group_id, payment) == groups,
{
    lemma_group_position(groups, group_id);
}

/// One call that does not name the group `group_id` leaves the group in the
/// store and its expenses as they were.
pub proof fn lemma_other_call_keeps_expenses(ledger: ServiceView, group_id: u32, op: Operation)
    requires
        has_group(ledger.groups, group_id),
        !addresses(op, group_id),
    ensures
        has_group(after(ledger, op).groups, group_id),
        expenses_of(after(ledger, op).groups, group_id) == expenses_of(ledger.groups, group_id),
{
    let id = next_id(ledger.counter);
    lemma_group_position(ledger.groups, group_id);
    match op {
        Operation::CreateGroup(caller, name) => {
            lemma_expenses_kept_by_new_group(ledger.groups, group_id, id, name, caller);
        },
        Operation::JoinGroup(caller, other) => {
            lemma_expenses_of_other_group_kept(
                ledger.groups,
                group_id,
                other,
                caller,
                expense_from(id, arbitrary(), caller),
                payment_from(id, caller, caller, 0),
                0,
            );
        },
        Operation::AddExpense(caller, other, input) => {
            lemma_expenses_of_other_group_kept(
                ledger.groups,
                group_id,
                other,
                caller,
                expense_from(id, input, caller),
                payment_from(id, caller, caller, 0),
                0,
            );
        },
        Operation::AddPayment(caller, other, amount, to) => {
            lemma_expenses_of_other_group_kept(
                ledger.groups,
                group_id,
                other,
                caller,
                expense_from(id, arbitrary(), caller),
                payment_from(id, caller, to, amount),
                0,
            );
        },
    }
    lemma_group_position(after(ledger, op).groups, group_id);
}

/// Any number of calls, none of which names the group `group_id`, leave the
/// group in the store and its expenses as they were.
pub proof fn lemma_other_calls_keep_expenses(
    ledger: ServiceView,
    group_id: u32,
    ops: Seq<Operation>,
)
    requires
        has_group(ledger.groups, group_id),
        forall|k: int| 0 <= k < ops.len() ==> !addresses(#[trigger] ops[k], group_id),
    ensures
        has_group(after_all(ledger, ops).groups, group_id),
        expenses_of(after_all(ledger, ops).groups, group_id) == expenses_of(
            ledger.groups,
            group_id,
        ),
    decreases ops.len(),
{
    if ops.len() > 0 {
        let earlier = ops.drop_last();
        assert forall|k: int| 0 <= k < earlier.len() implies !addresses(
            #[trigger] earlier[k],
            group_id,
        ) by {
            assert(earlier[k] == ops[k]);
        }
        lemma_other_calls_keep_expenses(ledger, group_id, earlier);
        assert(!addresses(ops[ops.len() - 1], group_id));
        lemma_other_call_keeps_expenses(after_all(ledger, earlier), group_id, ops.last());
    }
}

/// An expense that was recorded in a group stays its last expense, and the
/// group has exactly one expense more than before, after any number of later
/// calls that create groups or name other groups. The expense carries the
/// identifier that the call was answered with, the caller, and the
/// description, amount and currency that were handed in.
pub proof fn lemma_recorded_expense_stays(
    ledger: ServiceView,
    group_id: u32,
    caller: Seq<u8>,
    input: ExpenseDTOView,
    later: Seq<Operation>,
)
    requires
        has_group(ledger.groups, group_id),
        forall|k: int| 0 <= k < later.len() ==> !addresses(#[trigger] later[k], group_id),
    ensures
        ({
            let call = Operation::AddExpense(caller, group_id, input);
            let id = next_id(ledger.counter);
            let before = expenses_of(ledger.groups, group_id);
            let at_end = expenses_of(after_all(after(ledger, call), later).groups, group_id);
            &&& answer(ledger, call) == EventsView::ExpenseAdded(group_id, id)
            &&& before.is_some()
            &&& at_end == Some(before.unwrap().push(expense_from(id, input, caller)))
            &&& at_end.unwrap().len() == before.unwrap().len() + 1
            &&& at_end.unwrap().last().id == id
            &&& at_end.unwrap().last().actor_id == caller
            &&& at_end.unwrap().last().description == input.description
            &&& at_end.unwrap().last().amount == input.amount
            &&& at_end.unwrap().last().currency == input.currency
        }),
{
    let call = Operation::AddExpense(caller, group_id, input);
    let recorded = after(ledger, call);
    lemma_expense_appended(
        ledger.groups,
        group_id,
        expense_from(next_id(ledger.counter), input, caller),
    );
    lemma_group_position(recorded.groups, group_id);
    lemma_other_calls_keep_expenses(recorded, group_id, later);
}

} // verus!