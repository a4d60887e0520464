//! Turn-taking protocols between threads that share one state behind a lock.
//! Each method here is one attempt of a thread: it either takes its turn
//! (changing the state and saying what it prints) or reports that it must
//! wait for another thread; the waiting and the printing belong to callers.
use vstd::prelude::*;

verus! {

// ───────────── zero, odd, even: prints 0 1 0 2 0 3 ... 0 n ─────────────

#[derive(Debug, Clone, Copy, PartialEq, Eq, Structural)]
pub enum Turn {
    Zero,
    Odd,
    Even,
}

#[derive(Debug, Clone, Copy, PartialEq, Eq, Structural)]
pub struct ZeroEvenOdd {
    pub n: i32,
    pub next: i32,
    pub turn: Turn,
}

/// The one step the state allows and what it prints: on Zero's turn a 0,
/// handing the turn to Odd or Even by the parity of the next number; on
/// Odd's or Even's turn the next number, then back to Zero.
pub open spec fn zeo_step(s: ZeroEvenOdd) -> (ZeroEvenOdd, i32) {
    match s.turn {
        Turn::Zero => (ZeroEvenOdd { turn: if s.next % 2 == 1 { Turn::Odd } else { Turn::Even }, ..s }, 0),
        _ => (ZeroEvenOdd { next: (s.next + 1) as i32, turn: Turn::Zero, ..s }, s.next),
    }
}

/// What `k` steps print.
pub open spec fn zeo_trace(s: ZeroEvenOdd, k: nat) -> Seq<i32>
    decreases k,
{
    if k == 0 {
        Seq::empty()
    } else {
        seq![zeo_step(s).1] + zeo_trace(zeo_step(s).0, (k - 1) as nat)
    }
}

/// 0, m, 0, m + 1, ..., 0, m + k - 1.
pub open spec fn zeo_expected(m: int, k: nat) -> Seq<i32> {
    Seq::new(2 * k, |i: int| if i % 2 == 0 { 0i32 } else { (m + i / 2) as i32 })
}

impl ZeroEvenOdd {
    pub open spec fn wf(&self) -> bool {
        &&& self.n >= 0
        &&& self.next >= 1
        &&& (self.turn == Turn::Odd ==> self.next % 2 == 1)
        &&& (self.turn == Turn::Even ==> self.next % 2 == 0)
    }

    pub fn new(n: i32) -> (z: ZeroEvenOdd)
        requires
            n >= 0,
        ensures
            z.wf(),
            z == (ZeroEvenOdd { n, next: 1, turn: Turn::Zero }),
    {
        ZeroEvenOdd { n, next: 1, turn: Turn::Zero }
    }

    /// How many turns the zero thread takes in a whole run: n.
    pub fn zero_turns(&self) -> (r: usize)
        requires
            self.wf(),
        ensures
            r == self.n,
    {
        self.n as usize
    }

    /// How many turns the odd thread takes in a whole run: the odd numbers
    /// of 1..=n, (n + 1) / 2 of them.
    pub fn odd_turns(&self) -> (r: usize)
        requires
            self.wf(),
        ensures
            r == (self.n + 1) / 2,
    {
        ((self.n as i64 + 1) / 2) as usize
    }

    /// How many turns the even thread takes in a whole run: the even numbers
    /// of 1..=n, n / 2 of them.
    pub fn even_turns(&self) -> (r: usize)
        requires
            self.wf(),
        ensures
            r == self.n / 2,
    {
        (self.n / 2) as usize
    }

    /// Zero's attempt: on its turn it prints 0 and passes the turn on.
    pub fn zero(&mut self) -> (r: Option<i32>)
        requires
            old(self).wf(),
        ensures
            final(self).wf(),
            old(self).turn == Turn::Zero ==> r == Some(zeo_step(*old(self)).1) && *final(self) == zeo_step(
                *old(self),
            ).0,
            old(self).turn != Turn::Zero ==> r is None && *final(self) == *old(self),
    {
        if self.turn != Turn::Zero {
            return None;
        }
        if self.next % 2 == 1 {
            self.turn = Turn::Odd;
        } else {
            self.turn = Turn::Even;
        }
        Some(0)
    }

    /// Odd's attempt: on its turn it prints the next (odd) number.
    pub fn odd(&mut self) -> (r: Option<i32>)
        requires
            old(self).wf(),
            old(self).next < i32::MAX,
        ensures
            final(self).wf(),
            old(self).turn == Turn::Odd ==> r == Some(zeo_step(*old(self)).1) && *final(self) == zeo_step(
                *old(self),
            ).0 && r->0 % 2 == 1,
            old(self).turn != Turn::Odd ==> r is None && *final(self) == *old(self),
    {
        if self.turn != Turn::Odd {
            return None;
        }
        let v = self.next;
        self.next = self.next + 1;
        self.turn = Turn::Zero;
        Some(v)
    }

    /// Even's attempt: on its turn it prints the next (even) number.
    pub fn even(&mut self) -> (r: Option<i32>)
        requires
            old(self).wf(),
            old(self).next < i32::MAX,
        ensures
            final(self).wf(),
            old(self).turn == Turn::Even ==> r == Some(zeo_step(*old(self)).1) && *final(self) == zeo_step(
                *old(self),
            ).0 && r->0 % 2 == 0,
            old(self).turn != Turn::Even ==> r is None && *final(self) == *old(self),
    {
        if self.turn != Turn::Even {
            return None;
        }
        let v = self.next;
        self.next = self.next + 1;
        self.turn = Turn::Zero;
        Some(v)
    }
}

/// How many of the first `k` steps from `s` the thread `who` takes.
pub open spec fn zeo_turns(s: ZeroEvenOdd, k: nat, who: Turn) -> nat
    decreases k,
{
    if k == 0 {
        0
    } else {
        (if s.turn == who { 1nat } else { 0nat }) + zeo_turns(zeo_step(s).0, (k - 1) as nat, who)
    }
}

proof fn lemma_zeo_turns_from(s: ZeroEvenOdd, k: nat)
    requires
        s.turn == Turn::Zero,
        s.next >= 1,
        s.next + k <= i32::MAX,
    ensures
        zeo_turns(s, 2 * k, Turn::Zero) == k,
        zeo_turns(s, 2 * k, Turn::Odd) == (s.next + k) / 2 - s.next / 2,
        zeo_turns(s, 2 * k, Turn::Even) == (s.next + k + 1) / 2 - (s.next + 1) / 2,
    decreases k,
{
    if k > 0 {
        let s1 = zeo_step(s).0;
        let s2 = zeo_step(s1).0;
        assert(s2 == ZeroEvenOdd { next: (s.next + 1) as i32, turn: Turn::Zero, ..s });
        lemma_zeo_turns_from(s2, (k - 1) as nat);
        assert forall|w: Turn| #[trigger] zeo_turns(s, 2 * k, w) == (if w == Turn::Zero { 1nat } else { 0nat })
            + (if s1.turn == w { 1nat } else { 0nat }) + zeo_turns(s2, (2 * k - 2) as nat, w) by {
            assert(zeo_turns(s1, (2 * k - 1) as nat, w) == (if s1.turn == w { 1nat } else { 0nat })
                + zeo_turns(s2, (2 * k - 2) as nat, w));
        }
        assert(zeo_turns(s, 2 * k, Turn::Zero) == k);
        assert(zeo_turns(s, 2 * k, Turn::Odd) == (s.next + k) / 2 - s.next / 2);
        assert(zeo_turns(s, 2 * k, Turn::Even) == (s.next + k + 1) / 2 - (s.next + 1) / 2);
    }
}

proof fn lemma_zeo_from(s: ZeroEvenOdd, k: nat)
    requires
        s.turn == Turn::Zero,
        s.next >= 1,
        s.next + k <= i32::MAX,
    ensures
        zeo_trace(s, 2 * k) == zeo_expected(s.next as int, k),
    decreases k,
{
    if k > 0 {
        let s1 = zeo_step(s).0;
        let s2 = zeo_step(s1).0;
        assert(s2 == ZeroEvenOdd { next: (s.next + 1) as i32, turn: Turn::Zero, ..s });
        lemma_zeo_from(s2, (k - 1) as nat);
        assert(zeo_trace(s1, (2 * k - 1) as nat) == seq![s.next] + zeo_trace(s2, (2 * k - 2) as nat));
        assert(zeo_trace(s, 2 * k) == seq![0i32] + zeo_trace(s1, (2 * k - 1) as nat));
        let e = zeo_expected(s.next as int, k);
        let e2 = zeo_expected(s2.next as int, (k - 1) as nat);
        assert forall|i: int| 0 <= i < e2.len() implies #[trigger] e2[i] == e[i + 2] by {
            assert((i + 2) % 2 == i % 2);
            assert((i + 2) / 2 == i / 2 + 1);
        }
        assert(e =~= seq![0i32, s.next] + e2);
    } else {
        assert(zeo_expected(s.next as int, 0) =~= Seq::<i32>::empty());
    }
}

/// From a fresh state for `n`, the 2n steps the protocol allows print
/// 0 1 0 2 ... 0 n: the zero thread acts n times, odd and even alternate
/// after it, and every state reached lets exactly one thread proceed.
pub proof fn lemma_zero_even_odd_prints_in_order(n: i32)
    requires
        0 <= n < i32::MAX,
    ensures
        zeo_trace(ZeroEvenOdd { n, next: 1, turn: Turn::Zero }, 2 * (n as nat)) == zeo_expected(1, n as nat),
{
    lemma_zeo_from(ZeroEvenOdd { n, next: 1, turn: Turn::Zero }, n as nat);
}

/// In a whole run from a fresh state for `n` (its 2n steps), the zero
/// thread takes n turns, the odd thread (n + 1) / 2 and the even thread
/// n / 2: exactly the counts `zero_turns`, `odd_turns` and `even_turns` give.
pub proof fn lemma_zero_even_odd_turn_counts(n: i32)
    requires
        0 <= n < i32::MAX,
    ensures
        zeo_turns(ZeroEvenOdd { n, next: 1, turn: Turn::Zero }, 2 * (n as nat), Turn::Zero) == n,
        zeo_turns(ZeroEvenOdd { n, next: 1, turn: Turn::Zero }, 2 * (n as nat), Turn::Odd) == (n + 1) / 2,
        zeo_turns(ZeroEvenOdd { n, next: 1, turn: Turn::Zero }, 2 * (n as nat), Turn::Even) == n / 2,
{
    lemma_zeo_turns_from(ZeroEvenOdd { n, next: 1, turn: Turn::Zero }, n as nat);
}

// ───────────── fizz, buzz, fizzbuzz, number ─────────────

/// Which thread prints for the number `c`.
#[derive(Debug, Clone, Copy, PartialEq, Eq, Structural)]
pub enum Word {
    Fizz,
    Buzz,
    FizzBuzz,
    Number,
}

pub open spec fn fizz_turn(c: int) -> bool {
    c % 3 == 0 && c % 5 != 0
}

pub open spec fn buzz_turn(c: int) -> bool {
    c % 5 == 0 && c % 3 != 0
}

pub open spec fn fizzbuzz_turn(c: int) -> bool {
    c % 15 == 0
}

pub open spec fn number_turn(c: int) -> bool {
    c % 3 != 0 && c % 5 != 0
}

/// The outcome of one attempt of a fizzbuzz thread.
#[derive(Debug, Clone, Copy, PartialEq, Eq, Structural)]
pub enum Attempt {
    /// It was this thread's number; prints its word (or the number itself).
    Printed(i32),
    /// Another thread's number; wait.
    Wait,
    /// All numbers up to n are done; the thread ends.
    Done,
}

#[derive(Debug, Clone, Copy, PartialEq, Eq, Structural)]
pub struct FizzBuzz {
    pub n: i32,
    pub current: i32,
}

/// The outcome of a thread whose numbers satisfy `mine`.
pub open spec fn attempt_outcome(s: FizzBuzz, mine: bool) -> Attempt {
    if s.current > s.n {
        Attempt::Done
    } else if mine {
        Attempt::Printed(s.current)
    } else {
        Attempt::Wait
    }
}

/// The state after an attempt: the number advances only when printed.
pub open spec fn after_attempt(s: FizzBuzz, a: Attempt) -> FizzBuzz {
    match a {
        Attempt::Printed(_) => FizzBuzz { current: (s.current + 1) as i32, ..s },
        _ => s,
    }
}

impl FizzBuzz {
    pub open spec fn wf(&self) -> bool {
        self.current >= 1 && self.n < i32::MAX
    }

    pub fn new(n: i32) -> (f: FizzBuzz)
        requires
            n < i32::MAX,
        ensures
            f.wf(),
            f == (FizzBuzz { n, current: 1 }),
    {
        FizzBuzz { n, current: 1 }
    }

    /// Fizz's attempt: prints for multiples of 3 that are not multiples of 5.
    pub fn fizz(&mut self) -> (r: Attempt)
        requires
            old(self).wf(),
        ensures
            final(self).wf(),
            r == attempt_outcome(*old(self), fizz_turn(old(self).current as int)),
            *final(self) == after_attempt(*old(self), r),
    {
        if self.current > self.n {
            return Attempt::Done;
        }
        if !(self.current % 3 == 0 && self.current % 5 != 0) {
            return Attempt::Wait;
        }
        let c = self.current;
        self.current = self.current + 1;
        Attempt::Printed(c)
    }

    /// Buzz's attempt: prints for multiples of 5 that are not multiples of 3.
    pub fn buzz(&mut self) -> (r: Attempt)
        requires
            old(self).wf(),
        ensures
            final(self).wf(),
            r == attempt_outcome(*old(self), buzz_turn(old(self).current as int)),
            *final(self) == after_attempt(*old(self), r),
    {
        if self.current > self.n {
            return Attempt::Done;
        }
        if !(self.current % 5 == 0 && self.current % 3 != 0) {
            return Attempt::Wait;
        }
        let c = self.current;
        self.current = self.current + 1;
        Attempt::Printed(c)
    }

    /// FizzBuzz's attempt: prints for multiples of 15.
    pub fn fizzbuzz(&mut self) -> (r: Attempt)
        requires
            old(self).wf(),
        ensures
            final(self).wf(),
            r == attempt_outcome(*old(self), fizzbuzz_turn(old(self).current as int)),
            *final(self) == after_attempt(*old(self), r),
    {
        if self.current > self.n {
            return Attempt::Done;
        }
        if !(self.current % 15 == 0) {
            return Attempt::Wait;
        }
        let c = self.current;
        self.current = self.current + 1;
        Attempt::Printed(c)
    }

    /// Number's attempt: prints numbers that are multiples of neither 3 nor 5.
    pub fn number(&mut self) -> (r: Attempt)
        requires
            old(self).wf(),
        ensures
            final(self).wf(),
            r == attempt_outcome(*old(self), number_turn(old(self).current as int)),
            *final(self) == after_attempt(*old(self), r),
    {
        if self.current > self.n {
            return Attempt::Done;
        }
        if !(self.current % 3 != 0 && self.current % 5 != 0) {
            return Attempt::Wait;
        }
        let c = self.current;
        self.current = self.current + 1;
        Attempt::Printed(c)
    }
}

/// For every positive number exactly one of the four threads prints it, so
/// the threads together print 1..n in order, each number once.
pub proof fn lemma_exactly_one_thread_prints(c: int)
    requires
        c >= 1,
    ensures
        fizz_turn(c) || buzz_turn(c) || fizzbuzz_turn(c) || number_turn(c),
        !(fizz_turn(c) && buzz_turn(c)),
        !(fizz_turn(c) && fizzbuzz_turn(c)),
        !(fizz_turn(c) && number_turn(c)),
        !(buzz_turn(c) && fizzbuzz_turn(c)),
        !(buzz_turn(c) && number_turn(c)),
        !(fizzbuzz_turn(c) && number_turn(c)),
{
    let q = c / 15;
    let r = c % 15;
    assert(c == 15 * q + r);
    assert(c % 3 == r % 3) by (nonlinear_arith)
        requires c == 15 * q + r, 0 <= r < 15;
    assert(c % 5 == r % 5) by (nonlinear_arith)
        requires c == 15 * q + r, 0 <= r < 15;
}

/// Whose turn number `c` is.
pub open spec fn word_turn(w: Word, c: int) -> bool {
    match w {
        Word::Fizz => fizz_turn(c),
        Word::Buzz => buzz_turn(c),
        Word::FizzBuzz => fizzbuzz_turn(c),
        Word::Number => number_turn(c),
    }
}

/// The thread that prints number `c`.
pub open spec fn word_of(c: int) -> Word {
    if fizzbuzz_turn(c) {
        Word::FizzBuzz
    } else if fizz_turn(c) {
        Word::Fizz
    } else if buzz_turn(c) {
        Word::Buzz
    } else {
        Word::Number
    }
}

/// The state after the threads make their attempts in this order (each
/// attempt as the method of that thread specifies it), and what was printed
/// on the way: the printing thread and the number.
pub open spec fn fizzbuzz_run(s: FizzBuzz, attempts: Seq<Word>) -> (FizzBuzz, Seq<(Word, i32)>)
    decreases attempts.len(),
{
    if attempts.len() == 0 {
        (s, Seq::empty())
    } else {
        let a = attempt_outcome(s, word_turn(attempts[0], s.current as int));
        let rest = fizzbuzz_run(after_attempt(s, a), attempts.drop_first());
        if a is Printed {
            (rest.0, seq![(attempts[0], s.current)] + rest.1)
        } else {
            rest
        }
    }
}

proof fn lemma_turn_is_word_of(w: Word, c: int)
    requires
        c >= 1,
        word_turn(w, c),
    ensures
        w == word_of(c),
{
    lemma_exactly_one_thread_prints(c);
}

proof fn lemma_fizzbuzz_run_from(s: FizzBuzz, attempts: Seq<Word>)
    requires
        s.wf(),
    ensures
        ({
            let (f, p) = fizzbuzz_run(s, attempts);
            &&& f.wf()
            &&& f.n == s.n
            &&& f.current == s.current + p.len()
            &&& f.current <= if s.current > s.n + 1 { s.current as int } else { s.n + 1 }
            &&& forall|j: int|
                0 <= j < p.len() ==> #[trigger] p[j] == (word_of(s.current + j), (s.current + j) as i32)
        }),
    decreases attempts.len(),
{
    if attempts.len() > 0 {
        let a = attempt_outcome(s, word_turn(attempts[0], s.current as int));
        let s1 = after_attempt(s, a);
        lemma_fizzbuzz_run_from(s1, attempts.drop_first());
        let rest = fizzbuzz_run(s1, attempts.drop_first());
        let p = fizzbuzz_run(s, attempts).1;
        if a is Printed {
            lemma_turn_is_word_of(attempts[0], s.current as int);
            assert(p == seq![(attempts[0], s.current)] + rest.1);
            assert forall|j: int| 0 <= j < p.len() implies #[trigger] p[j] == (
                word_of(s.current + j),
                (s.current + j) as i32,
            ) by {
                if j > 0 {
                    assert(p[j] == rest.1[j - 1]);
                }
            }
        }
    }
}

/// Whatever the interleaving of the four threads' attempts, starting from
/// `FizzBuzz::new(n)` the numbers printed so far are 1, 2, 3, ... in order,
/// each by the one thread whose turn it is (fizz the multiples of 3 only,
/// buzz those of 5 only, fizzbuzz those of 15, number the rest), never
/// past n, and nothing at all when n < 1.
pub proof fn lemma_fizzbuzz_run(n: i32, attempts: Seq<Word>)
    requires
        n < i32::MAX,
    ensures
        ({
            let (f, p) = fizzbuzz_run(FizzBuzz { n, current: 1 }, attempts);
            &&& f.current == 1 + p.len()
            &&& (n >= 0 ==> p.len() <= n)
            &&& (n < 1 ==> p.len() == 0)
            &&& forall|j: int| 0 <= j < p.len() ==> #[trigger] p[j] == (word_of(j + 1), (j + 1) as i32)
        }),
{
    lemma_fizzbuzz_run_from(FizzBuzz { n, current: 1 }, attempts);
}

/// In every state, all four threads are done exactly once the count has
/// passed n; until then the thread whose turn the current number is prints
/// it and the other three wait.
pub proof fn lemma_fizzbuzz_progress(s: FizzBuzz, w: Word)
    requires
        s.wf(),
    ensures
        s.current > s.n ==> attempt_outcome(s, word_turn(w, s.current as int)) == Attempt::Done,
        s.current <= s.n ==> (attempt_outcome(s, word_turn(w, s.current as int)) is Printed <==> w == word_of(
            s.current as int,
        )),
{
    lemma_exactly_one_thread_prints(s.current as int);
}

// ───────────── foo, bar: prints foobar n times ─────────────

/// The outcome of one attempt of foo or bar.
#[derive(Debug, Clone, Copy, PartialEq, Eq, Structural)]
pub enum FooBarStep {
    /// It was this thread's turn: it printed its word.
    Printed,
    /// The other thread's turn: wait for it.
    Wait,
    /// This thread has printed its word n times and is finished.
    Done,
}

#[derive(Debug, Clone, Copy, PartialEq, Eq, Structural)]
pub struct FooBar {
    pub n: usize,
    /// true: foo's turn; false: bar's turn.
    pub foo_turn: bool,
    /// How many times foo has printed.
    pub foos: usize,
    /// How many times bar has printed.
    pub bars: usize,
}

/// One attempt of foo (`is_foo`) or bar on state `s`: the outcome and the
/// state after it. A thread that has printed n times is done; otherwise it
/// prints on its turn (counting the print and handing the turn over) and
/// waits on the other's.
pub open spec fn foobar_step(s: FooBar, is_foo: bool) -> (FooBarStep, FooBar) {
    if is_foo {
        if s.foos >= s.n {
            (FooBarStep::Done, s)
        } else if !s.foo_turn {
            (FooBarStep::Wait, s)
        } else {
            (FooBarStep::Printed, FooBar { foo_turn: false, foos: (s.foos + 1) as usize, ..s })
        }
    } else {
        if s.bars >= s.n {
            (FooBarStep::Done, s)
        } else if s.foo_turn {
            (FooBarStep::Wait, s)
        } else {
            (FooBarStep::Printed, FooBar { foo_turn: true, bars: (s.bars + 1) as usize, ..s })
        }
    }
}

impl FooBar {
    /// Foo prints first and the two alternate: foo is one print ahead of bar
    /// exactly when it is bar's turn, and neither prints more than n times.
    pub open spec fn wf(&self) -> bool {
        &&& self.foos <= self.n
        &&& self.bars <= self.n
        &&& (self.foo_turn ==> self.foos == self.bars)
        &&& (!self.foo_turn ==> self.foos == self.bars + 1)
    }

    pub fn new(n: usize) -> (f: FooBar)
        ensures
            f.wf(),
            f == (FooBar { n, foo_turn: true, foos: 0, bars: 0 }),
    {
        FooBar { n, foo_turn: true, foos: 0, bars: 0 }
    }

    /// Foo's attempt (see `foobar_step`).
    pub fn foo(&mut self) -> (r: FooBarStep)
        requires
            old(self).wf(),
        ensures
            final(self).wf(),
            (r, *final(self)) == foobar_step(*old(self), true),
    {
        if self.foos >= self.n {
            return FooBarStep::Done;
        }
        if !self.foo_turn {
            return FooBarStep::Wait;
        }
        self.foo_turn = false;
        self.foos = self.foos + 1;
        FooBarStep::Printed
    }

    /// Bar's attempt (see `foobar_step`).
    pub fn bar(&mut self) -> (r: FooBarStep)
        requires
            old(self).wf(),
        ensures
            final(self).wf(),
            (r, *final(self)) == foobar_step(*old(self), false),
    {
        if self.bars >= self.n {
            return FooBarStep::Done;
        }
        if self.foo_turn {
            return FooBarStep::Wait;
        }
        self.foo_turn = true;
        self.bars = self.bars + 1;
        FooBarStep::Printed
    }
}

/// The state after foo (`true`) and bar (`false`) make their attempts in
/// this order, and the words printed on the way (`true` for "foo").
pub open spec fn foobar_run(s: FooBar, attempts: Seq<bool>) -> (FooBar, Seq<bool>)
    decreases attempts.len(),
{
    if attempts.len() == 0 {
        (s, Seq::empty())
    } else {
        let (r, s1) = foobar_step(s, attempts[0]);
        let rest = foobar_run(s1, attempts.drop_first());
        if r == FooBarStep::Printed {
            (rest.0, seq![attempts[0]] + rest.1)
        } else {
            rest
        }
    }
}

proof fn lemma_foobar_run_from(s: FooBar, attempts: Seq<bool>)
    requires
        s.wf(),
    ensures
        foobar_run(s, attempts).0.wf(),
        foobar_run(s, attempts).0.n == s.n,
        foobar_run(s, attempts).1.len() == foobar_run(s, attempts).0.foos + foobar_run(s, attempts).0.bars
            - s.foos - s.bars,
        forall|i: int|
            0 <= i < foobar_run(s, attempts).1.len() ==> #[trigger] foobar_run(s, attempts).1[i] == (s.foo_turn == (
            i % 2 == 0)),
    decreases attempts.len(),
{
    if attempts.len() > 0 {
        let (r, s1) = foobar_step(s, attempts[0]);
        lemma_foobar_run_from(s1, attempts.drop_first());
        let rest = foobar_run(s1, attempts.drop_first());
        let p = foobar_run(s, attempts).1;
        if r == FooBarStep::Printed {
            assert(attempts[0] == s.foo_turn);
            assert(s1.foo_turn == !s.foo_turn);
            assert(p == seq![attempts[0]] + rest.1);
            assert forall|i: int| 0 <= i < p.len() implies #[trigger] p[i] == (s.foo_turn == (i % 2 == 0)) by {
                if i > 0 {
                    assert(p[i] == rest.1[i - 1]);
                    assert((i - 1) % 2 == 0 <==> i % 2 != 0);
                }
            }
        }
    }
}

/// Whatever the interleaving of attempts, starting from `FooBar::new(n)`
/// the printed words alternate foo, bar, foo, bar, ..., foo has printed
/// `foos` and bar `bars` of them, and neither more than n times.
pub proof fn lemma_foobar_alternates(n: usize, attempts: Seq<bool>)
    ensures
        ({
            let (f, p) = foobar_run(FooBar { n, foo_turn: true, foos: 0, bars: 0 }, attempts);
            &&& f.wf()
            &&& f.n == n
            &&& p.len() == f.foos + f.bars
            &&& forall|i: int| 0 <= i < p.len() ==> #[trigger] p[i] == (i % 2 == 0)
        }),
{
    lemma_foobar_run_from(FooBar { n, foo_turn: true, foos: 0, bars: 0 }, attempts);
}

/// In every state reached, until both have printed n times one of the two
/// threads can print (no deadlock), and both are done exactly when each has
/// printed n times: a run in which each thread attempts until it is done
/// prints foo bar n times.
pub proof fn lemma_foobar_finishes(s: FooBar)
    requires
        s.wf(),
    ensures
        (foobar_step(s, true).0 == FooBarStep::Done && foobar_step(s, false).0 == FooBarStep::Done) <==> (s.foos
            == s.n && s.bars == s.n),
        !(s.foos == s.n && s.bars == s.n) ==> (foobar_step(s, true).0 == FooBarStep::Printed || foobar_step(
            s,
            false,
        ).0 == FooBarStep::Printed),
{
}

// ───────────── first, second, third: prints in that order ─────────────

#[derive(Debug, Clone, Copy, PartialEq, Eq, Structural)]
pub struct Foo {
    /// 1: first may run; 2: second may run; 3: third may run.
    pub state: u8,
}

impl Foo {
    pub fn new() -> (f: Foo)
        ensures
            f.state == 1,
    {
        Foo { state: 1 }
    }

    /// First never waits; afterwards second may run.
    pub fn first(&mut self)
        ensures
            final(self).state == foo_after(old(self).state, Call::First),
    {
        self.state = 2;
    }

    /// Second runs only after first; afterwards third may run.
    pub fn second(&mut self) -> (ran: bool)
        ensures
            ran == foo_runs(old(self).state, Call::Second),
            final(self).state == foo_after(old(self).state, Call::Second),
    {
        if self.state != 2 {
            return false;
        }
        self.state = 3;
        true
    }

    /// Third runs only after second.
    pub fn third(&self) -> (ran: bool)
        ensures
            ran == foo_runs(self.state, Call::Third),
    {
        self.state == 3
    }
}

/// One attempt by one of the three threads.
#[derive(Debug, Clone, Copy, PartialEq, Eq, Structural)]
pub enum Call {
    First,
    Second,
    Third,
}

/// The state after an attempt (see `Foo::first`, `second`, `third`).
pub open spec fn foo_after(state: u8, c: Call) -> u8 {
    match c {
        Call::First => 2,
        Call::Second => if state == 2 { 3 } else { state },
        Call::Third => state,
    }
}

/// Whether an attempt runs (prints) in this state.
pub open spec fn foo_runs(state: u8, c: Call) -> bool {
    match c {
        Call::First => true,
        Call::Second => state == 2,
        Call::Third => state == 3,
    }
}

/// The calls that print, in order, when the attempts are made in this order.
pub open spec fn foo_printed(state: u8, calls: Seq<Call>) -> Seq<Call>
    decreases calls.len(),
{
    if calls.len() == 0 {
        Seq::empty()
    } else {
        let c = calls[0];
        let rest = foo_printed(foo_after(state, c), calls.drop_first());
        if foo_runs(state, c) { seq![c] + rest } else { rest }
    }
}

/// Nothing, or first, or first then second followed only by thirds.
pub open spec fn printed_in_order(p: Seq<Call>) -> bool {
    ||| p.len() == 0
    ||| p == seq![Call::First]
    ||| (p.len() >= 2 && p[0] == Call::First && p[1] == Call::Second && forall|i: int| 2 <= i < p.len() ==> #[trigger] p[i]
        == Call::Third)
}

proof fn lemma_foo_printed(state: u8, calls: Seq<Call>, before: Seq<Call>)
    requires
        (state == 1 && before.len() == 0) || (state == 2 && before == seq![Call::First]) || (state == 3
            && printed_in_order(before) && before.len() >= 2),
        state != 1 ==> !calls.contains(Call::First),
        forall|i: int, j: int| 0 <= i < j < calls.len() && calls[i] == Call::First ==> calls[j] != Call::First,
    ensures
        printed_in_order(before + foo_printed(state, calls)),
    decreases calls.len(),
{
    if calls.len() > 0 {
        let c = calls[0];
        let next = foo_after(state, c);
        let now: Seq<Call> = if foo_runs(state, c) { before.push(c) } else { before };
        assert forall|i: int, j: int|
            0 <= i < j < calls.drop_first().len() && calls.drop_first()[i] == Call::First implies calls.drop_first()[j]
            != Call::First by {
            assert(calls.drop_first()[i] == calls[i + 1]);
            assert(calls.drop_first()[j] == calls[j + 1]);
        }
        if c == Call::First {
            assert forall|k: int| 0 <= k < calls.drop_first().len() implies calls.drop_first()[k] != Call::First by {
                assert(calls.drop_first()[k] == calls[k + 1]);
            }
            assert(!calls.drop_first().contains(Call::First));
        } else {
            if calls.drop_first().contains(Call::First) {
                let k = choose|k: int| 0 <= k < calls.drop_first().len() && calls.drop_first()[k] == Call::First;
                assert(calls[k + 1] == Call::First);
                assert(calls.contains(Call::First));
            }
        }
        if state == 3 && c == Call::Third {
            assert forall|i: int| 2 <= i < now.len() implies #[trigger] now[i] == Call::Third by {
                if i < before.len() {
                    assert(now[i] == before[i]);
                }
            }
        }
        if state == 2 && c == Call::Second {
            assert(now =~= seq![Call::First, Call::Second]);
        }
        if state == 1 && c == Call::First {
            assert(now =~= seq![Call::First]);
        }
        lemma_foo_printed(next, calls.drop_first(), now);
        if foo_runs(state, c) {
            assert(before + foo_printed(state, calls) =~= now + foo_printed(next, calls.drop_first()));
        } else {
            assert(before + foo_printed(state, calls) =~= now + foo_printed(next, calls.drop_first()));
        }
    } else {
        assert(before + foo_printed(state, calls) =~= before);
    }
}

/// Whatever the interleaving of the threads' attempts, as long as first is
/// attempted at most once, what gets printed starting from `Foo::new` is
/// first, then second, then third: second never prints before first and
/// third never before second.
pub proof fn lemma_print_in_order(calls: Seq<Call>)
    requires
        forall|i: int, j: int| 0 <= i < j < calls.len() && calls[i] == Call::First ==> calls[j] != Call::First,
    ensures
        printed_in_order(foo_printed(1, calls)),
{
    lemma_foo_printed(1, calls, Seq::empty());
    assert(Seq::<Call>::empty() + foo_printed(1, calls) =~= foo_printed(1, calls));
}

} // verus!
