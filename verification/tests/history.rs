use pixel_punch::history::{DurativeStack, TimeTaggedStack};

fn values_of(stack: &TimeTaggedStack<u32>) -> Vec<(u32, u64)> {
    stack.stack.iter().map(|e| (e.value, e.duration)).collect()
}

fn durative_values_of(stack: &DurativeStack<u32>) -> Vec<(u32, u64)> {
    stack.stack.iter().map(|e| (e.value, e.duration)).collect()
}

#[test]
fn new_history_is_empty() {
    let stack: TimeTaggedStack<u32> = TimeTaggedStack::new(3);
    assert_eq!(stack.stack.len(), 0);
    assert_eq!(stack.max_size, 3);
    let durative: DurativeStack<u32> = DurativeStack::new(4, 500);
    assert_eq!(durative.stack.len(), 0);
    assert_eq!(durative.max_size, 4);
    assert_eq!(durative.max_duration, 500);
}

#[test]
fn push_beyond_capacity_evicts_the_oldest() {
    let mut stack: TimeTaggedStack<u32> = TimeTaggedStack::new(3);
    for value in [1, 2, 3, 4] {
        stack.push(value);
    }
    assert_eq!(values_of(&stack), vec![(2, 0), (3, 0), (4, 0)]);
}

#[test]
fn durative_push_beyond_capacity_evicts_the_oldest() {
    let mut stack: DurativeStack<u32> = DurativeStack::new(2, 1000);
    stack.push(7);
    stack.push(8);
    stack.push(9);
    assert_eq!(durative_values_of(&stack), vec![(8, 0), (9, 0)]);
}

#[test]
fn push_into_capacity_one_keeps_the_newest() {
    let mut stack: TimeTaggedStack<u32> = TimeTaggedStack::new(1);
    stack.push(1);
    stack.push(2);
    assert_eq!(values_of(&stack), vec![(2, 0)]);
}

#[test]
fn pop_takes_the_newest() {
    let mut stack: TimeTaggedStack<u32> = TimeTaggedStack::new(3);
    stack.push(1);
    stack.update(5);
    stack.push(2);
    let popped = stack.pop().unwrap();
    assert_eq!((popped.value, popped.duration), (2, 0));
    let popped = stack.pop().unwrap();
    assert_eq!((popped.value, popped.duration), (1, 5));
    assert!(stack.pop().is_none());
    assert_eq!(stack.stack.len(), 0);
}

#[test]
fn durative_pop_takes_the_newest() {
    let mut stack: DurativeStack<u32> = DurativeStack::new(3, 100);
    assert!(stack.pop().is_none());
    stack.push(1);
    stack.push(2);
    let popped = stack.pop().unwrap();
    assert_eq!((popped.value, popped.duration), (2, 0));
    assert_eq!(durative_values_of(&stack), vec![(1, 0)]);
}

#[test]
fn update_ages_every_entry() {
    let mut stack: TimeTaggedStack<u32> = TimeTaggedStack::new(3);
    stack.push(1);
    stack.update(10);
    stack.push(2);
    stack.update(7);
    assert_eq!(values_of(&stack), vec![(1, 17), (2, 7)]);
}

#[test]
fn an_age_stops_at_the_largest_number() {
    let mut stack: TimeTaggedStack<u32> = TimeTaggedStack::new(3);
    stack.push(1);
    stack.update(u64::MAX - 1);
    stack.update(5);
    assert_eq!(values_of(&stack), vec![(1, u64::MAX)]);
}

#[test]
fn durative_update_evicts_what_is_too_old() {
    let mut stack: DurativeStack<u32> = DurativeStack::new(10, 500);
    stack.push(1);
    stack.update(300);
    stack.push(2);
    stack.update(200);
    assert_eq!(durative_values_of(&stack), vec![(1, 500), (2, 200)]);
    stack.update(1);
    assert_eq!(durative_values_of(&stack), vec![(2, 201)]);
    stack.update(300);
    assert_eq!(durative_values_of(&stack), vec![]);
}

#[test]
fn durative_update_evicts_up_to_the_newest_old_entry() {
    let mut stack: DurativeStack<u32> = DurativeStack::new(10, 100);
    stack.push(1);
    stack.push(2);
    stack.push(3);
    stack.stack[1].duration = 150;
    stack.update(10);
    assert_eq!(durative_values_of(&stack), vec![(3, 10)]);
}

#[test]
fn durative_update_of_an_empty_history() {
    let mut stack: DurativeStack<u32> = DurativeStack::new(10, 100);
    stack.update(1000);
    assert_eq!(stack.stack.len(), 0);
}
