use iter_closures::closures::using_fn_with_closure_input;
use std::cell::RefCell;

#[test]
fn closure_receives_injected_message() {
    let seen: RefCell<Vec<String>> = RefCell::new(Vec::new());
    using_fn_with_closure_input(|s| seen.borrow_mut().push(s));
    assert_eq!(seen.into_inner(), vec!["I am injected into the closure!".to_string()]);
}

#[test]
fn closure_owning_its_capture_is_accepted() {
    let prefix = String::from("got: ");
    let out: RefCell<String> = RefCell::new(String::new());
    let out_ref = &out;
    using_fn_with_closure_input(move |s| out_ref.borrow_mut().push_str(&format!("{}{}", prefix, s)));
    assert_eq!(out.into_inner(), "got: I am injected into the closure!");
}
