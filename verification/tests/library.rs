use concurrency_basics::config::MyConfiguration;
use concurrency_basics::counter::{AppData, ThreadSafeInt};
use concurrency_basics::foo::{get_bar, Bar};
use concurrency_basics::ownership::{as_num_ref, demo1, AddOne, NumRef, Number, ToDrop};
use concurrency_basics::sums::{
    even_sum_squares, first_divisor, fold_steps, offset_sum, parallel_sum_of_squares, range_sum,
    sum_of_doubles, sum_of_squares, EVEN_SQUARES_TAKEN,
};
use concurrency_basics::tensor::{TensorId, TensorIdSource, FIRST_TENSOR_ID};
use concurrency_basics::text::{header_banner, input_message};
use concurrency_basics::timing::pick_sleep_time_ms;
use concurrency_basics::trees::{
    recognise_tree, util_as_bar, util_as_baz, util_as_foo, util_default, TreeToken,
};
use std::ops::ControlFlow;

#[test]
fn bar_keeps_both_parts() {
    let bar = Bar::new("foo".to_string(), "bar".to_string());
    let bar2 = Bar::new("foo".to_string(), "baz".to_string());
    assert_eq!(bar.foo, "foo");
    assert_eq!(get_bar(&bar), "bar");
    assert_eq!(get_bar(&bar2), "baz");
}

#[test]
fn tensor_ids_start_at_hundred_and_count_up() {
    let mut source = TensorIdSource::new();
    let first = TensorId::new(&mut source);
    let second = TensorId::new(&mut source);
    let third = TensorId::new(&mut source);
    assert_eq!(FIRST_TENSOR_ID, 100);
    assert_eq!(format!("{:?}", first), "TensorId(100)");
    assert_eq!(format!("{:?}", second), "TensorId(101)");
    assert_eq!(format!("{:?}", third), "TensorId(102)");
}

#[test]
fn tensor_ids_are_distinct() {
    let mut source = TensorIdSource::new();
    let mut ids: Vec<TensorId> = Vec::new();
    for _ in 0..10 {
        ids.push(TensorId::new(&mut source));
    }
    for i in 0..ids.len() {
        for j in 0..ids.len() {
            assert_eq!(i == j, ids[i] == ids[j]);
        }
    }
}

#[test]
fn thread_safe_int_adds() {
    let mut v = ThreadSafeInt::new(7);
    assert_eq!(v.add_with_extras(7), (7, 14));
    assert_eq!(v.value(), 14);
    v.add(5);
    assert_eq!(v.value(), 19);
    v.add(-20);
    assert_eq!(v.value(), -1);
}

#[test]
fn counter_order_of_adds_does_not_matter() {
    let deltas = [3, -1, 10, 7, -4];
    let mut forward = ThreadSafeInt::new(0);
    for d in deltas.iter() {
        forward.add(*d);
    }
    let mut backward = ThreadSafeInt::new(0);
    for d in deltas.iter().rev() {
        backward.add(*d);
    }
    assert_eq!(forward.value(), backward.value());
    assert_eq!(forward.value(), 15);
}

#[test]
fn counter_counts_increments() {
    let mut counter = ThreadSafeInt::new(0);
    for _ in 0..10 {
        counter.add(1);
    }
    assert_eq!(counter.value(), 10);
}

#[test]
fn app_data_bumps() {
    let mut data = AppData { count: 0 };
    data.bump_count();
    data.bump_count();
    data.bump_count();
    assert_eq!(data.count, 3);
}

#[test]
fn number_adds_one() {
    let num = Number { value: 4 };
    assert_eq!(num.value(), 4);
    assert_eq!(num.add_one(), 5);
}

#[test]
fn num_refs_point_at_their_value() {
    let x: i32 = 99;
    let r = as_num_ref(&x);
    assert_eq!(*r.x, 99);
    let r2 = NumRef { x: &x };
    assert_eq!(*r2.as_i32_ref(), 99);
}

#[test]
fn to_drop_keeps_index() {
    let t = ToDrop::new(42);
    assert_eq!(t.idx, 42);
    demo1();
}

#[test]
fn sums_of_squares() {
    assert_eq!(sum_of_squares(&[1, 2, 3]), 14);
    assert_eq!(sum_of_squares(&[]), 0);
    assert_eq!(parallel_sum_of_squares(&[3]), 9);
    assert_eq!(parallel_sum_of_squares(&[1, 2, 3]), 14);
}

#[test]
fn sequential_and_parallel_sums_agree() {
    let numbers: Vec<u128> = (1..10_000).collect();
    let sequential = sum_of_squares(&numbers);
    assert_eq!(sequential, parallel_sum_of_squares(&numbers));
    assert_eq!(sequential, 333_283_335_000);
}

#[test]
fn square_sums_split() {
    let a: Vec<u128> = vec![1, 2, 3];
    let b: Vec<u128> = vec![4, 5];
    let mut ab = a.clone();
    ab.extend(b.iter());
    assert_eq!(sum_of_squares(&ab), sum_of_squares(&a) + sum_of_squares(&b));
}

#[test]
fn range_sums() {
    assert_eq!(range_sum(1, 11), 55);
    assert_eq!(range_sum(5, 5), 0);
    assert_eq!(range_sum(7, 3), 0);
    assert_eq!(range_sum(-3, 4), 0);
    assert_eq!(range_sum(-3, 5), 4);
}

#[test]
fn range_sum_closed_form() {
    for n in 0..50 {
        assert_eq!(2 * range_sum(1, n + 1), n * (n + 1));
    }
}

#[test]
fn fold_steps_trace_the_fold() {
    let steps = fold_steps(1, 11);
    assert_eq!(steps.len(), 10);
    assert_eq!(steps[0], (0, 1, 1));
    assert_eq!(steps[1], (1, 2, 3));
    assert_eq!(steps[9], (45, 10, 55));
    assert_eq!(steps[9].2, range_sum(1, 11));
    assert!(fold_steps(3, 3).is_empty());
}

#[test]
fn offset_sums() {
    assert_eq!(offset_sum(&[1, 2, 3, 4, 5, 6, 7, 8], 3), 60);
    assert_eq!(offset_sum(&[], 3), 0);
}

#[test]
fn doubles_sum_or_overflow() {
    assert_eq!(sum_of_doubles(&[1, 2, 3, 4, 5, 6, 7, 8, 9, 10]), Ok(110));
    assert_eq!(sum_of_doubles(&[1]), Ok(2));
    assert_eq!(sum_of_doubles(&[]), Ok(0));
    assert_eq!(sum_of_doubles(&[1, i32::MAX]), Err("overflow"));
    assert_eq!(sum_of_doubles(&[i32::MIN]), Err("overflow"));
}

#[test]
fn even_squares() {
    assert_eq!(EVEN_SQUARES_TAKEN, 5);
    assert_eq!(even_sum_squares(&[1, 1, 2, 3, 5]), 4);
    assert_eq!(even_sum_squares(&[2, 4, 6, 8, 10, 12]), 220);
    assert_eq!(even_sum_squares(&[1, 3, 5]), 0);
    assert_eq!(even_sum_squares(&[]), 0);
}

#[test]
fn first_divisors() {
    assert_eq!(first_divisor(403, 2, 100), ControlFlow::Break(13));
    assert_eq!(first_divisor(97, 2, 97), ControlFlow::Continue(()));
    assert_eq!(first_divisor(12, 5, 5), ControlFlow::Continue(()));
    assert_eq!(first_divisor(12, 0, 0), ControlFlow::Continue(()));
    assert_eq!(first_divisor(12, 1, 10), ControlFlow::Break(1));
}

#[test]
fn banners() {
    assert_eq!(header_banner("Hi"), "\n******\n* Hi *\n******\n");
    assert_eq!(header_banner(""), "\n****\n*  *\n****\n");
    assert_eq!(header_banner("é"), "\n******\n* é *\n******\n");
}

#[test]
fn input_messages() {
    assert_eq!(input_message(Some("Foo".to_string())), "Some: Foo");
    assert_eq!(input_message(None), "Nothing, nodda");
}

#[test]
fn trees_and_utilities() {
    assert_eq!(recognise_tree(TreeToken::Larch), "#1, the Larch.");
    assert_eq!(recognise_tree(TreeToken::Redwood), "#2, the Mighty Redwood.");
    assert_eq!(recognise_tree(TreeToken::Fir), "#3, the Fir.");
    assert_eq!(recognise_tree(TreeToken::Chestnut), "#4, the Horse Chestnut.");
    assert_eq!(recognise_tree(TreeToken::Pine), "#5, the Scots Pine.");
    assert_eq!(recognise_tree(TreeToken::ExpandToLarch), "Expand To Larch!");
    assert_eq!(recognise_tree(TreeToken::Nothing), "Nothing Found!");
    assert_eq!(util_as_foo(222), 227);
    assert_eq!(util_as_bar(222), 232);
    assert_eq!(util_as_baz(), 0);
    assert_eq!(util_default(), "Okay default applied");
}

#[test]
fn sleep_times_stay_below_bound() {
    assert_eq!(pick_sleep_time_ms(1), 0);
    for _ in 0..100 {
        assert!(pick_sleep_time_ms(150) < 150);
    }
}

#[test]
fn configuration_defaults() {
    let mut conf = MyConfiguration::default();
    assert_eq!(conf.output, None);
    assert!(conf.search_path.is_empty());
    assert_eq!(conf.timeout_secs, 0);
    assert_eq!(conf.timeout_subsec_nanos, 0);
    assert!(!conf.check);
    conf.check = true;
    assert!(conf.check);
    assert_ne!(conf, MyConfiguration::default());
}
