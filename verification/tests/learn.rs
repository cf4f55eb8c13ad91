use ws::learn::coins::{inc_money, Coin, UsState};
use ws::learn::questions::{add_question, get_question, menu_choice, parse_natural_number, MenuChoice};
use ws::learn::registry::{Employee, Registry};
use ws::learn::sorts::{get_pivot, sort_quick};
use ws::learn::stat::mode;
use ws::learn::text_conversion::to_pig_latin;

#[test]
fn test_registry_new() {
    let registry: Registry = Registry::new();
    assert!(registry.entries().is_empty(), "New registry should be empty");
}

#[test]
fn test_registry_add() {
    let mut registry = Registry::new();
    let employee = Employee::new("Alice".to_string(), "Engineering".to_string());

    registry.add(&employee);

    assert_eq!(registry.entries().len(), 1, "Registry should contain one entry");
    assert_eq!(registry.entries()[0], employee, "The added employee should match the expected employee");
}

#[test]
fn test_registry_list() {
    let mut registry = Registry::new();
    let employee1 = Employee::new("Alice".to_string(), "Engineering".to_string());
    let employee2 = Employee::new("Bob".to_string(), "Marketing".to_string());

    registry.add(&employee2);
    registry.add(&employee1);

    let all_employees = registry.list(None);
    assert_eq!(all_employees.len(), 2, "Should list all employees");
    assert_eq!(all_employees[0], &employee1, "First employee should match");
    assert_eq!(all_employees[1], &employee2, "Second employee should match");

    let engineering_employees = registry.list(Some("Engineering"));
    assert_eq!(engineering_employees.len(), 1, "Should list one engineering employee");
    assert_eq!(engineering_employees[0], &employee1, "Engineering employee should match");

    let marketing_employees = registry.list(Some("Marketing"));
    assert_eq!(marketing_employees.len(), 1, "Should list one marketing employee");
    assert_eq!(marketing_employees[0], &employee2, "Marketing employee should match");
}

#[test]
fn registry_list_keeps_order_of_equal_names() {
    let mut registry = Registry::new();
    let b1 = Employee::new("Bea".to_string(), "Sales".to_string());
    let a = Employee::new("Al".to_string(), "Sales".to_string());
    let b2 = Employee::new("Bea".to_string(), "Ops".to_string());
    registry.add(&b1);
    registry.add(&a);
    registry.add(&b2);
    let all = registry.list(None);
    assert_eq!(all, vec![&a, &b1, &b2]);
    let ops = registry.list(Some("Ops"));
    assert_eq!(ops, vec![&b2]);
    assert_eq!(registry.list(Some("Sales")), vec![&a, &b1]);
    assert!(registry.list(Some("None")).is_empty());
}

#[test]
fn registry_added_employee_is_listed() {
    let mut registry = Registry::new();
    let e = Employee::new("Zoe".to_string(), "Lab".to_string());
    registry.add(&Employee::new("Ann".to_string(), "Lab".to_string()));
    registry.add(&e);
    assert!(registry.list(None).contains(&&e));
    assert!(registry.list(Some("Lab")).contains(&&e));
}

fn test_mode_tl(vec: &Vec<i32>, expected: Option<i32>) {
    let result = mode(vec);
    assert_eq!(result, expected, "Expected mode of {:?} to be {:?}, but got {:?}", vec, expected, result);
}

#[test]
fn test_mode() {
    test_mode_tl(&vec![1, 2, 2, 3, 4, 4], Some(4));
    test_mode_tl(&vec![1, 1, 2, 3, 4], Some(1));
    test_mode_tl(&vec![5, 3, 1, 4, 2], Some(2));
    test_mode_tl(&vec![1], Some(1));
    test_mode_tl(&vec![], None);
}

#[test]
fn mode_is_unique_on_ties() {
    assert_eq!(mode(&vec![7, 8, 8, 7]), Some(8));
    assert_eq!(mode(&vec![-3, -3, 9]), Some(-3));
}

fn test_to_pig_latin_case(input: &str, expected: &str) {
    let result = to_pig_latin(input);
    assert_eq!(result, expected, "Inpit: '{}', Expected: '{}', Got: '{}'", input, expected, result);
}

#[test]
fn test_to_pig_latin() {
    test_to_pig_latin_case("first", "irst-fay");
    test_to_pig_latin_case("apple", "apple-ay");
    test_to_pig_latin_case("honest", "honest-ay");
    test_to_pig_latin_case("cherry4", "erry-chay4");

    test_to_pig_latin_case("banana, the best!", "anana-bay, e-thay est-bay!");
    test_to_pig_latin_case("4chan", "4an-chay");
    test_to_pig_latin_case("12345", "12345");
    test_to_pig_latin_case("", "");
}

#[test]
fn pig_latin_keeps_text_without_letters() {
    for t in ["1, 2!", "  ", "42-7 ?", ""] {
        assert_eq!(to_pig_latin(t), t);
    }
}

#[test]
fn parse_natural_number_trims_and_checks() {
    assert_eq!(parse_natural_number(" 42 \n"), Ok(42));
    assert_eq!(parse_natural_number("+7"), Ok(7));
    assert_eq!(parse_natural_number("0"), Ok(0));
    assert_eq!(parse_natural_number(""), Err("Expected number"));
    assert_eq!(parse_natural_number("-1"), Err("Expected number"));
    assert_eq!(parse_natural_number("4 2"), Err("Expected number"));
    assert_eq!(parse_natural_number("99999999999999999999999"), Err("Expected number"));
}

#[test]
fn questionnaire_menu() {
    let mut q = vec![("life, the universe and everything".to_string(), "42".to_string())];
    assert_eq!(menu_choice(0, q.len()), MenuChoice::Stop);
    assert_eq!(menu_choice(1, q.len()), MenuChoice::Ask(1));
    assert_eq!(menu_choice(2, q.len()), MenuChoice::AddOwn);
    assert_eq!(menu_choice(3, q.len()), MenuChoice::Unexpected);
    let (question, answer) = get_question(&q, 1);
    assert_eq!(question, "life, the universe and everything");
    assert_eq!(answer, "42");
    add_question(&mut q, "why".to_string(), "because".to_string());
    let (question, answer) = get_question(&q, 2);
    assert_eq!((question.as_str(), answer.as_str()), ("why", "because"));
}

#[test]
fn coins_add_cents() {
    assert_eq!(inc_money(None), None);
    assert_eq!(inc_money(Some(Coin::Penny)), Some(1));
    assert_eq!(inc_money(Some(Coin::Dime)), Some(1));
    assert_eq!(inc_money(Some(Coin::Quarter(UsState::Alabama))), Some(2));
    assert_eq!(inc_money(Some(Coin::Quarter(UsState::Alaska))), Some(5));
}

fn test_get_pivot_tl(vec: &mut Vec<i32>, expected_pivot: Option<usize>, expected_values: &[i32]) {
    let pivot = get_pivot(vec);
    assert_eq!(vec.as_slice(), expected_values, "Expected sorted values to be {:?}, but got {:?}", expected_values, vec);
    if vec.len() < 2 {
        assert!(pivot.is_none(), "Expected no pivot for a vector with length < 2, but got {:?}", pivot);
        return;
    }
    match expected_pivot {
        Some(index) => {
            assert!(pivot.is_some(), "Expected a pivot to be found, but got None");
            let pivot_index = pivot.unwrap();
            assert_eq!(pivot_index, index, "Expected pivot index to be {}, but got {}", index, pivot_index);
        }
        None => assert!(pivot.is_none(), "Expected no pivot, but got {:?}", pivot),
    }
}

#[test]
fn test_get_pivot() {
    test_get_pivot_tl(&mut vec![1], None, &vec![1]);
    test_get_pivot_tl(&mut vec![1, 2], None, &vec![1, 2]);
    test_get_pivot_tl(&mut vec![2, 1], None, &vec![1, 2]);
    test_get_pivot_tl(&mut vec![3, 2, 1], Some(1), &vec![1, 2, 3]);
    test_get_pivot_tl(&mut vec![1, 2, 3], Some(0), &vec![1, 2, 3]);
    test_get_pivot_tl(&mut vec![5, 3, 1, 4, 2], Some(2), &vec![2, 1, 3, 4, 5]);
}

fn test_sort_quick_tl(vec: &mut Vec<i32>, expected_values: &[i32]) {
    sort_quick(vec);
    assert_eq!(vec.as_slice(), expected_values, "Expected sorted values to be {:?}, but got {:?}", expected_values, vec);
}

#[test]
fn test_sort_quick() {
    test_sort_quick_tl(&mut vec![5, 3, 1, 4, 2], &vec![1, 2, 3, 4, 5]);
    test_sort_quick_tl(&mut vec![3, 3, 9, 4, 2, 6], &vec![2, 3, 3, 4, 6, 9]);
}

#[test]
fn sort_quick_edge_cases() {
    test_sort_quick_tl(&mut vec![], &[]);
    test_sort_quick_tl(&mut vec![1], &[1]);
    test_sort_quick_tl(&mut vec![2, 1], &[1, 2]);
    test_sort_quick_tl(&mut vec![1, 5, 0, 3], &[0, 1, 3, 5]);
    test_sort_quick_tl(&mut vec![-1, i32::MIN, i32::MAX, 0, -1], &[i32::MIN, -1, -1, 0, i32::MAX]);
    let mut empty: Vec<i32> = vec![];
    assert!(get_pivot(&mut empty).is_none());
}

#[test]
fn pig_latin_splits_after_separator() {
    for (a, b) in [("first ", "apple"), ("Hello, ", "world!"), ("x-", "y"), ("  ", "three words here")] {
        assert_eq!(to_pig_latin(&format!("{}{}", a, b)), to_pig_latin(a) + &to_pig_latin(b));
    }
}

#[test]
fn get_pivot_does_not_always_partition() {
    test_get_pivot_tl(&mut vec![1, 5, 0, 3], Some(2), &vec![0, 1, 5, 3]);
}
