use expense_ledger::identity::{contains_actor, copy_actors, ActorId};
use expense_ledger::services::{Events, Service};
use expense_ledger::states::{Expense, ExpenseDTO, Group, GroupDTO, IoState, Payment, State};
use expense_ledger::utils::Utils;

fn actor(tag: u8) -> ActorId {
    ActorId::new([tag; 32])
}

fn dinner() -> ExpenseDTO {
    ExpenseDTO { description: "Dinner".to_owned(), amount: 5000, currency: "USD".to_owned() }
}

fn trip() -> Service {
    let mut ledger = Service::seed();
    ledger.create_group(actor(1), "Trip".to_owned());
    ledger
}

fn all_ids(state: &State) -> Vec<u32> {
    let mut ids = Vec::new();
    for g in &state.groups {
        ids.push(g.id);
        for e in &g.expenses {
            ids.push(e.id);
        }
        for p in &g.payments {
            ids.push(p.id);
        }
    }
    ids
}

#[test]
fn actor_equality_is_by_bytes() {
    let mut bytes = [7u8; 32];
    let a = ActorId::new(bytes);
    assert_eq!(a, ActorId::new([7u8; 32]));
    bytes[31] = 8;
    assert_ne!(a, ActorId::new(bytes));
    assert_eq!(ActorId::new(bytes).into_bytes(), bytes);
    assert_eq!(ActorId::zero().into_bytes(), [0u8; 32]);
    assert_eq!(ActorId::default(), ActorId::zero());
}

#[test]
fn contains_actor_finds_members_only() {
    let members = vec![actor(1), actor(2)];
    assert!(contains_actor(&members, &actor(2)));
    assert!(!contains_actor(&members, &actor(3)));
    assert!(!contains_actor(&Vec::new(), &actor(1)));
    assert_eq!(copy_actors(&members), members);
}

#[test]
fn generator_counts_from_one() {
    let mut ids = Utils::new();
    assert_eq!(ids.generate_group_id(), 1);
    assert_eq!(ids.generate_group_id(), 2);
    assert_eq!(ids.generate_group_id(), 3);
    assert_eq!(ids.counter, 3);
}

#[test]
fn generator_wraps_to_zero() {
    let mut ids = Utils { counter: u32::MAX - 1 };
    assert_eq!(ids.generate_group_id(), u32::MAX);
    assert_eq!(ids.generate_group_id(), 0);
    assert_eq!(ids.generate_group_id(), 1);
}

#[test]
fn seed_is_empty() {
    let ledger = Service::seed();
    assert!(ledger.state.groups.is_empty());
    assert_eq!(ledger.ids.counter, 0);
    assert_eq!(ledger.query(), IoState { groups: Vec::new() });
    assert_eq!(State::new(), State::default());
}

#[test]
fn create_group_returns_first_id_and_holds_creator() {
    let mut ledger = Service::seed();
    let x = actor(1);
    assert_eq!(ledger.create_group(x, "Trip".to_owned()), Events::GroupCreated(1));
    let group = ledger.query_group(1);
    assert_eq!(group.members, vec![x]);
    assert_eq!(group.name, "Trip");
    assert_eq!(group.id, 1);
    assert!(group.expenses.is_empty());
    assert!(group.payments.is_empty());
}

#[test]
fn every_new_group_holds_exactly_its_creator() {
    let mut ledger = Service::seed();
    for tag in 1..6u8 {
        let event = ledger.create_group(actor(tag), format!("g{}", tag));
        assert_eq!(event, Events::GroupCreated(tag as u32));
        assert_eq!(ledger.state.groups.last().unwrap().members, vec![actor(tag)]);
    }
    assert_eq!(ledger.state.groups.len(), 5);
}

#[test]
fn second_join_is_refused() {
    let mut ledger = trip();
    let y = actor(2);
    assert_eq!(ledger.join_group(y, 1), Events::UserJoined(y, 1));
    assert_eq!(ledger.query_group_members(1), Some(vec![actor(1), y]));
    assert_eq!(ledger.join_group(y, 1), Events::Error("User already in group".to_owned()));
    assert_eq!(ledger.query_group_members(1), Some(vec![actor(1), y]));
}

#[test]
fn creator_cannot_join_again() {
    let mut ledger = trip();
    assert_eq!(
        ledger.join_group(actor(1), 1),
        Events::Error("User already in group".to_owned())
    );
    assert_eq!(ledger.query_group(1).members.len(), 1);
}

#[test]
fn add_expense_records_the_caller() {
    let mut ledger = trip();
    let x = actor(1);
    assert_eq!(ledger.add_expense(x, 1, dinner()), Events::ExpenseAdded(1, 2));
    let expenses = ledger.query_expenses(1).unwrap();
    assert_eq!(expenses.len(), 1);
    assert_eq!(expenses[0].actor_id, x);
    assert_eq!(
        expenses[0],
        Expense::new(2, "Dinner".to_owned(), 5000, "USD".to_owned(), x)
    );
}

#[test]
fn add_payment_answers_with_group_and_amount() {
    let mut ledger = trip();
    let x = actor(1);
    let y = actor(2);
    assert_eq!(ledger.add_payment(x, 1, 2000, y), Events::PaymentAdded(1, 2000));
    let group = ledger.query_group(1);
    assert_eq!(group.payments, vec![Payment::new(2, x, y, 2000)]);
    assert_eq!(group.payments[0].from, x);
    assert_eq!(group.payments[0].to, y);
}

#[test]
fn missing_group_is_absent_from_every_lookup() {
    let ledger = Service::seed();
    assert_eq!(ledger.state.find_group(99), None);
    assert_eq!(ledger.query_group_members(99), None);
    assert_eq!(ledger.query_expenses(99), None);
    assert!(ledger.query_actor_groups(actor(1)).is_empty());
}

#[test]
fn missing_group_errors_leave_the_store_unchanged() {
    let mut ledger = trip();
    let before = ledger.state.clone();
    let not_found = Events::Error("Group not found".to_owned());
    assert_eq!(ledger.join_group(actor(2), 99), not_found);
    assert_eq!(ledger.state, before);
    assert_eq!(ledger.add_expense(actor(1), 99, dinner()), not_found);
    assert_eq!(ledger.state, before);
    assert_eq!(ledger.add_payment(actor(1), 99, 10, actor(2)), not_found);
    assert_eq!(ledger.state, before);
}

#[test]
fn rejected_calls_take_no_id() {
    let mut ledger = trip();
    assert_eq!(ledger.ids.counter, 1);
    ledger.add_payment(actor(1), 99, 10, actor(2));
    assert_eq!(ledger.ids.counter, 1);
    ledger.add_expense(actor(1), 99, dinner());
    assert_eq!(ledger.ids.counter, 1);
    ledger.join_group(actor(2), 99);
    assert_eq!(ledger.ids.counter, 1);
    assert_eq!(ledger.add_expense(actor(1), 1, dinner()), Events::ExpenseAdded(1, 2));
    assert_eq!(ledger.ids.counter, 2);
}

#[test]
fn expenses_grow_by_one_and_ignore_other_groups() {
    let mut ledger = trip();
    ledger.create_group(actor(2), "Flat".to_owned());
    assert_eq!(ledger.query_expenses(1).unwrap().len(), 0);
    ledger.add_expense(actor(1), 1, dinner());
    assert_eq!(ledger.query_expenses(1).unwrap().len(), 1);
    let before = ledger.query_expenses(1).unwrap();
    ledger.add_expense(actor(2), 2, dinner());
    ledger.add_payment(actor(2), 2, 5, actor(1));
    ledger.join_group(actor(3), 2);
    ledger.create_group(actor(3), "Club".to_owned());
    assert_eq!(ledger.query_expenses(1).unwrap(), before);
    assert_eq!(ledger.query_expenses(2).unwrap().len(), 1);
    ledger.add_expense(actor(1), 1, dinner());
    assert_eq!(ledger.query_expenses(1).unwrap().len(), 2);
}

#[test]
fn ids_are_distinct_across_kinds() {
    let mut ledger = trip();
    ledger.add_expense(actor(1), 1, dinner());
    ledger.add_payment(actor(1), 1, 7, actor(2));
    ledger.create_group(actor(2), "Flat".to_owned());
    ledger.add_expense(actor(2), 4, dinner());
    ledger.add_payment(actor(2), 4, 9, actor(1));
    let ids = all_ids(&ledger.state);
    assert_eq!(ids, vec![1, 2, 3, 4, 5, 6]);
}

#[test]
fn query_actor_groups_keeps_store_order() {
    let mut ledger = trip();
    ledger.create_group(actor(2), "Flat".to_owned());
    ledger.create_group(actor(1), "Club".to_owned());
    ledger.join_group(actor(1), 2);
    let mine: Vec<u32> = ledger.query_actor_groups(actor(1)).iter().map(|g| g.id).collect();
    assert_eq!(mine, vec![1, 2, 3]);
    let theirs: Vec<u32> = ledger.query_actor_groups(actor(2)).iter().map(|g| g.id).collect();
    assert_eq!(theirs, vec![2]);
    assert!(ledger.query_actor_groups(actor(9)).is_empty());
}

#[test]
fn query_returns_the_whole_store() {
    let mut ledger = trip();
    ledger.add_expense(actor(1), 1, dinner());
    let snapshot = ledger.query();
    assert_eq!(snapshot.groups, ledger.state.groups);
    assert_eq!(IoState::from(ledger.state.clone()).groups, ledger.state.groups);
}

#[test]
fn store_create_group_accepts_a_repeated_id() {
    let mut state = State::new();
    state.create_group(5, "a".to_owned(), actor(1));
    state.create_group(5, "b".to_owned(), actor(2));
    assert_eq!(state.groups.len(), 2);
    assert_eq!(state.find_group(5), Some(0));
    state.join_group(5, actor(3));
    assert_eq!(state.groups[0].members, vec![actor(1), actor(3)]);
    assert_eq!(state.groups[1].members, vec![actor(2)]);
}

#[test]
fn store_mutators_ignore_a_missing_group() {
    let mut state = State::new();
    state.create_group(1, "a".to_owned(), actor(1));
    let before = state.clone();
    state.join_group(2, actor(2));
    state.add_expense(2, Expense::new(9, "x".to_owned(), 1, "EUR".to_owned(), actor(1)));
    state.add_payment(2, Payment::new(10, actor(1), actor(2), 3));
    state.edit_expense(2, 9, Expense::new(9, "y".to_owned(), 2, "EUR".to_owned(), actor(1)));
    state.delete_expense(2, 9);
    assert_eq!(state, before);
}

#[test]
fn store_join_does_not_check_membership() {
    let mut state = State::new();
    state.create_group(1, "a".to_owned(), actor(1));
    state.join_group(1, actor(1));
    assert_eq!(state.groups[0].members, vec![actor(1), actor(1)]);
}

#[test]
fn edit_expense_replaces_the_first_match() {
    let mut state = State::new();
    state.create_group(1, "a".to_owned(), actor(1));
    state.add_expense(1, Expense::new(7, "x".to_owned(), 1, "EUR".to_owned(), actor(1)));
    state.add_expense(1, Expense::new(8, "y".to_owned(), 2, "EUR".to_owned(), actor(1)));
    state.add_expense(1, Expense::new(7, "z".to_owned(), 3, "EUR".to_owned(), actor(1)));
    let new = Expense::new(20, "w".to_owned(), 4, "USD".to_owned(), actor(2));
    state.edit_expense(1, 7, new.clone());
    let ids: Vec<u32> = state.groups[0].expenses.iter().map(|e| e.id).collect();
    assert_eq!(ids, vec![20, 8, 7]);
    assert_eq!(state.groups[0].expenses[0], new);
    let before = state.clone();
    state.edit_expense(1, 99, new);
    assert_eq!(state, before);
}

#[test]
fn delete_expense_removes_every_match() {
    let mut state = State::new();
    state.create_group(1, "a".to_owned(), actor(1));
    state.add_expense(1, Expense::new(7, "x".to_owned(), 1, "EUR".to_owned(), actor(1)));
    state.add_expense(1, Expense::new(8, "y".to_owned(), 2, "EUR".to_owned(), actor(1)));
    state.add_expense(1, Expense::new(7, "z".to_owned(), 3, "EUR".to_owned(), actor(1)));
    state.add_expense(1, Expense::new(9, "v".to_owned(), 4, "EUR".to_owned(), actor(1)));
    state.delete_expense(1, 7);
    let ids: Vec<u32> = state.groups[0].expenses.iter().map(|e| e.id).collect();
    assert_eq!(ids, vec![8, 9]);
    state.delete_expense(1, 7);
    assert_eq!(state.groups[0].expenses.len(), 2);
}

#[test]
fn clones_are_equal_to_what_they_copy() {
    let mut ledger = trip();
    ledger.add_expense(actor(1), 1, dinner());
    ledger.add_payment(actor(1), 1, 7, actor(2));
    let group: Group = ledger.query_group(1);
    assert_eq!(group, ledger.state.groups[0]);
    assert_eq!(group.clone(), group);
    assert_eq!(dinner().clone(), dinner());
}

#[test]
fn service_over_a_given_store() {
    let mut state = State::new();
    state.create_group(40, "a".to_owned(), actor(1));
    let mut ledger = Service::new(state, Utils { counter: 40 });
    assert_eq!(ledger.create_group(actor(2), "b".to_owned()), Events::GroupCreated(41));
    assert_eq!(ledger.join_group(actor(2), 40), Events::UserJoined(actor(2), 40));
}

#[test]
fn defaults_are_empty() {
    let group = Group::default();
    assert_eq!(group.id, 0);
    assert_eq!(group.name, "");
    assert!(group.members.is_empty() && group.expenses.is_empty() && group.payments.is_empty());
    assert_eq!(Expense::default(), Expense::new(0, String::new(), 0, String::new(), ActorId::zero()));
    assert_eq!(Payment::default(), Payment::new(0, ActorId::zero(), ActorId::zero(), 0));
    assert_eq!(
        ExpenseDTO::default(),
        ExpenseDTO { description: String::new(), amount: 0, currency: String::new() }
    );
    assert_eq!(Service::default().state, State::new());
    assert_eq!(Utils::default().counter, 0);
}

#[test]
fn group_input_clones_whole() {
    let input = GroupDTO {
        name: "Trip".to_owned(),
        members: vec![3, 1, 2],
        expenses: vec![dinner(), ExpenseDTO::default()],
    };
    assert_eq!(input.clone(), input);
    assert_eq!(GroupDTO::default().members, Vec::<u32>::new());
}

#[test]
fn ids_repeat_after_the_generator_wraps() {
    let mut ledger = Service::new(State::new(), Utils { counter: u32::MAX - 1 });
    assert_eq!(ledger.create_group(actor(1), "a".to_owned()), Events::GroupCreated(u32::MAX));
    assert_eq!(ledger.create_group(actor(1), "b".to_owned()), Events::GroupCreated(0));
    assert_eq!(ledger.create_group(actor(1), "c".to_owned()), Events::GroupCreated(1));
}

#[test]
fn recorded_expense_stays_last_through_calls_on_other_groups() {
    let mut ledger = trip();
    ledger.create_group(actor(2), "Flat".to_owned());
    ledger.add_expense(actor(2), 1, dinner());
    let n = ledger.query_expenses(1).unwrap().len();
    let input = ExpenseDTO { description: "Taxi".to_owned(), amount: 1200, currency: "EUR".to_owned() };
    assert_eq!(ledger.add_expense(actor(1), 1, input), Events::ExpenseAdded(1, 4));
    ledger.create_group(actor(3), "Club".to_owned());
    ledger.join_group(actor(1), 2);
    ledger.add_expense(actor(2), 2, dinner());
    ledger.add_payment(actor(2), 5, 30, actor(1));
    ledger.add_expense(actor(1), 99, dinner());
    let expenses = ledger.query_expenses(1).unwrap();
    assert_eq!(expenses.len(), n + 1);
    assert_eq!(
        expenses.last().unwrap(),
        &Expense::new(4, "Taxi".to_owned(), 1200, "EUR".to_owned(), actor(1))
    );
}
