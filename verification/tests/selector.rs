use wav_files_vad_api::selector::{EndpointSelector, NoEndpoints};

fn endpoints(names: &[&str]) -> Vec<String> {
    names.iter().map(|name| name.to_string()).collect()
}

fn counts(selector: &mut EndpointSelector, names: &[&str], calls: usize) -> Vec<usize> {
    let mut counts = vec![0usize; names.len()];
    for _ in 0..calls {
        let picked = selector.next();
        let slot = names.iter().position(|name| *name == picked).unwrap();
        counts[slot] += 1;
    }
    counts
}

#[test]
fn empty_list_is_refused() {
    assert!(matches!(EndpointSelector::new(Vec::new()), Err(NoEndpoints)));
}

#[test]
fn nonempty_list_is_accepted() {
    assert!(EndpointSelector::new(endpoints(&["http://a"])).is_ok());
}

#[test]
fn len_is_the_number_of_endpoints() {
    assert_eq!(EndpointSelector::new(endpoints(&["a"])).unwrap().len(), 1);
    assert_eq!(EndpointSelector::new(endpoints(&["a", "b", "c"])).unwrap().len(), 3);
}

#[test]
fn next_walks_the_list_in_order_and_wraps() {
    let mut selector = EndpointSelector::new(endpoints(&["A", "B", "C"])).unwrap();
    let picked: Vec<String> = (0..7).map(|_| selector.next()).collect();
    assert_eq!(picked, vec!["A", "B", "C", "A", "B", "C", "A"]);
}

#[test]
fn single_endpoint_is_handed_out_every_time() {
    let mut selector = EndpointSelector::new(endpoints(&["only"])).unwrap();
    for _ in 0..5 {
        assert_eq!(selector.next(), "only");
    }
}

#[test]
fn len_does_not_change_with_calls() {
    let mut selector = EndpointSelector::new(endpoints(&["A", "B"])).unwrap();
    selector.next();
    selector.next();
    selector.next();
    assert_eq!(selector.len(), 2);
}

#[test]
fn shares_are_floor_or_ceiling() {
    let names = ["A", "B", "C"];
    for calls in 0..40usize {
        let mut selector = EndpointSelector::new(endpoints(&names)).unwrap();
        let counts = counts(&mut selector, &names, calls);
        for count in counts {
            assert!(count == calls / 3 || count == (calls + 2) / 3);
        }
    }
}

#[test]
fn shares_of_ten_calls_over_three_endpoints() {
    let names = ["A", "B", "C"];
    let mut selector = EndpointSelector::new(endpoints(&names)).unwrap();
    assert_eq!(counts(&mut selector, &names, 10), vec![4, 3, 3]);
}

#[test]
fn shares_are_equal_over_full_rounds() {
    let names = ["A", "B", "C"];
    let mut selector = EndpointSelector::new(endpoints(&names)).unwrap();
    assert_eq!(counts(&mut selector, &names, 3000), vec![1000, 1000, 1000]);
}

#[test]
fn shares_are_fair_from_any_cursor_position() {
    let names = ["A", "B", "C", "D"];
    let mut selector = EndpointSelector::new(endpoints(&names)).unwrap();
    selector.next();
    selector.next();
    // The cursor stands at C now.
    assert_eq!(counts(&mut selector, &names, 6), vec![1, 1, 2, 2]);
}
