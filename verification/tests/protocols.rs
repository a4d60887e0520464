use task_dispatch::ordering::{Attempt, FizzBuzz, Foo, FooBar, FooBarStep, ZeroEvenOdd};
use task_dispatch::resource_pool::{PullKind, ResourcePool};
use task_dispatch::word_filter::{contains_p, sequential};
use task_dispatch::round_robin::{make_task, worker_for, TaskKind};
use task_dispatch::pipeline::{downloaded, process_message, resized, upload_message, Message};
use std::time::Duration;

#[test]
fn zero_even_odd_prints_in_order() {
    let mut z = ZeroEvenOdd::new(5);
    let mut out = String::new();
    let (mut zeros, mut odds, mut evens) = (5, 3, 2);
    while zeros + odds + evens > 0 {
        let mut moved = false;
        if zeros > 0 {
            if let Some(v) = z.zero() {
                out.push_str(&v.to_string());
                zeros -= 1;
                moved = true;
            }
        }
        if odds > 0 {
            if let Some(v) = z.odd() {
                out.push_str(&v.to_string());
                odds -= 1;
                moved = true;
            }
        }
        if evens > 0 {
            if let Some(v) = z.even() {
                out.push_str(&v.to_string());
                evens -= 1;
                moved = true;
            }
        }
        assert!(moved);
    }
    assert_eq!(out, "0102030405");
}

#[test]
fn zero_even_odd_only_one_may_go() {
    let mut z = ZeroEvenOdd::new(2);
    assert_eq!(z.odd(), None);
    assert_eq!(z.even(), None);
    assert_eq!(z.zero(), Some(0));
    assert_eq!(z.zero(), None);
    assert_eq!(z.even(), None);
    assert_eq!(z.odd(), Some(1));
}

#[test]
fn fizzbuzz_threads_print_each_number_once() {
    let mut f = FizzBuzz::new(15);
    let mut out: Vec<String> = Vec::new();
    loop {
        let a = f.fizz();
        if let Attempt::Printed(_) = a {
            out.push("fizz".to_string());
        }
        let b = f.buzz();
        if let Attempt::Printed(_) = b {
            out.push("buzz".to_string());
        }
        let c = f.fizzbuzz();
        if let Attempt::Printed(_) = c {
            out.push("fizzbuzz".to_string());
        }
        let d = f.number();
        if let Attempt::Printed(x) = d {
            out.push(x.to_string());
        }
        if a == Attempt::Done && b == Attempt::Done && c == Attempt::Done && d == Attempt::Done {
            break;
        }
    }
    assert_eq!(
        out.join(" "),
        "1 2 fizz 4 buzz fizz 7 8 fizz buzz 11 fizz 13 14 fizzbuzz"
    );
}

#[test]
fn fizz_waits_on_other_numbers() {
    let mut f = FizzBuzz::new(3);
    assert_eq!(f.fizz(), Attempt::Wait);
    assert_eq!(f.number(), Attempt::Printed(1));
    assert_eq!(f.number(), Attempt::Printed(2));
    assert_eq!(f.number(), Attempt::Wait);
    assert_eq!(f.fizz(), Attempt::Printed(3));
    assert_eq!(f.buzz(), Attempt::Done);
}

#[test]
fn foobar_alternates() {
    let mut f = FooBar::new(2);
    assert_eq!(f.bar(), FooBarStep::Wait);
    assert_eq!(f.foo(), FooBarStep::Printed);
    assert_eq!(f.foo(), FooBarStep::Wait);
    assert_eq!(f.bar(), FooBarStep::Printed);
    assert_eq!(f.foo(), FooBarStep::Printed);
    assert_eq!(f.bar(), FooBarStep::Printed);
    assert_eq!((f.foos, f.bars), (2, 2));
    assert_eq!(f.foo(), FooBarStep::Done);
    assert_eq!(f.bar(), FooBarStep::Done);
}

#[test]
fn foobar_with_zero_rounds_is_done_at_once() {
    let mut f = FooBar::new(0);
    assert_eq!(f.bar(), FooBarStep::Done);
    assert_eq!(f.foo(), FooBarStep::Done);
}

#[test]
fn print_in_order_waits_for_predecessor() {
    let mut f = Foo::new();
    assert!(!f.third());
    assert!(!f.second());
    f.first();
    assert!(!f.third());
    assert!(f.second());
    assert!(f.third());
}

#[test]
fn resource_pool_seventy_thirty() {
    let mut pool = ResourcePool { red: 70, green: 30 };
    let run = pool.apply_strategy();
    // 14 pulls, then an attempt that finds nothing to pull
    assert_eq!(run.pulls, 15);
    assert!(run.stuck);
    assert_eq!(run.log.len(), 14);
    assert_eq!(run.log[0].kind, PullKind::EightRed);
    assert_eq!((run.log[0].red_left, run.log[0].green_left), (62, 30));
    assert_eq!(run.log[1].kind, PullKind::FiveRedOneGreen);
    assert_eq!(run.log[13].kind, PullKind::TwoRedTwoGreen);
    assert_eq!((pool.red, pool.green), (0, 16));
}

#[test]
fn resource_pool_empties_cleanly() {
    let mut pool = ResourcePool { red: 16, green: 0 };
    let run = pool.apply_strategy();
    assert_eq!(run.pulls, 2);
    assert!(!run.stuck);
    assert_eq!((pool.red, pool.green), (0, 0));
    let mut empty = ResourcePool { red: 0, green: 0 };
    assert_eq!(empty.apply_strategy().pulls, 0);
}

#[test]
fn words_with_p() {
    assert!(contains_p("Parallel"));
    assert!(contains_p("pipeline"));
    assert!(contains_p("computing"));
    assert!(!contains_p("is"));
    assert!(!contains_p(""));
    let words = ["Parallel", "computing", "is", "a", "type", "of", "Pipeline"];
    assert_eq!(sequential(&words), vec!["Parallel", "computing", "type", "Pipeline"]);
}

#[test]
fn round_robin_assignment() {
    let t = make_task(3, Duration::from_millis(100));
    assert_eq!((t.id, t.kind), (3, TaskKind::Io));
    assert_eq!(t.duration, Duration::from_millis(100));
    assert_eq!(make_task(4, Duration::from_millis(100)).kind, TaskKind::Cpu);
    let assigned: Vec<usize> = (0..6).map(|i| worker_for(i, 4)).collect();
    assert_eq!(assigned, vec![0, 1, 2, 3, 0, 1]);
}

#[test]
fn pipeline_stages() {
    assert_eq!(downloaded("file1.txt"), "file1.txt downloaded");
    assert_eq!(resized("image1.jpg"), "image1.jpg resized");
    let (out, stop) = process_message(Message::Download("f downloaded".to_string()));
    assert!(!stop);
    match out {
        Some(Message::Process(s)) => assert_eq!(s, "f downloaded processed"),
        _ => panic!("expected a processed file"),
    }
    let (out, stop) = process_message(Message::Exit);
    assert!(stop && matches!(out, Some(Message::Exit)));
    let (out, stop) = process_message(Message::Process("x".to_string()));
    assert!(!stop && out.is_none());
    let mut up = Vec::new();
    assert!(!upload_message(&mut up, Message::Process("f".to_string())));
    assert!(!upload_message(&mut up, Message::Download("g".to_string())));
    assert!(upload_message(&mut up, Message::Exit));
    assert_eq!(up, vec!["f uploaded".to_string()]);
}

#[test]
fn zero_even_odd_turn_counts() {
    let z = ZeroEvenOdd::new(5);
    assert_eq!((z.zero_turns(), z.odd_turns(), z.even_turns()), (5, 3, 2));
    let z0 = ZeroEvenOdd::new(0);
    assert_eq!((z0.zero_turns(), z0.odd_turns(), z0.even_turns()), (0, 0, 0));
}
