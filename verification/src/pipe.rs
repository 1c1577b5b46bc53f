//! A queue of messages with priorities and optional recipients.
//!
//! `Sender` owns the queue of pending messages; a `Receiver` is a named
//! endpoint that takes, from that queue, the message meant for it.  Which
//! message a receiver takes is the rule of this module: among the messages
//! that are addressed to nobody in particular or to that receiver, the one of
//! the highest priority, and among those the one that was put first.
use vstd::prelude::*;

verus! {

/// Priority of a message.  `High` is taken before `Normal`, `Normal` before `Min`.
#[derive(PartialEq, Eq, Structural, PartialOrd, Clone, Copy, Debug)]
pub enum Priority {
    Min,
    Normal,
    High,
}

impl Priority {
    /// The numeric level of a priority: -1, 0 or 1.
    pub open spec fn rank(self) -> int {
        match self {
            Priority::Min => -1,
            Priority::Normal => 0,
            Priority::High => 1,
        }
    }

    /// The numeric level of this priority.
    pub fn level(&self) -> (r: i8)
        ensures
            r == self.rank(),
    {
        match self {
            Priority::Min => -1,
            Priority::Normal => 0,
            Priority::High => 1,
        }
    }
}

/// The decimal digit `d` (`0 <= d < 10`) as a character.
pub open spec fn digit_char(d: int) -> char {
    (48 + d) as char
}

/// The decimal digits of `n`, most significant first, without leading zeros.
pub open spec fn digits(n: nat) -> Seq<char>
    decreases n,
{
    if n < 10 {
        seq![digit_char(n as int)]
    } else {
        digits(n / 10) + seq![digit_char((n % 10) as int)]
    }
}

/// `n` written in decimal, with a leading `-` when negative.
pub open spec fn decimal(n: int) -> Seq<char> {
    if n < 0 {
        seq!['-'] + digits((-n) as nat)
    } else {
        digits(n as nat)
    }
}

/// The one-character text of the digit `d`.
fn digit_text(d: u64) -> (t: &'static str)
    requires
        d < 10,
    ensures
        t@ == seq![digit_char(d as int)],
{
    proof {
        reveal_strlit("0");
        reveal_strlit("1");
        reveal_strlit("2");
        reveal_strlit("3");
        reveal_strlit("4");
        reveal_strlit("5");
        reveal_strlit("6");
        reveal_strlit("7");
        reveal_strlit("8");
        reveal_strlit("9");
    }
    if d == 0 {
        "0"
    } else if d == 1 {
        "1"
    } else if d == 2 {
        "2"
    } else if d == 3 {
        "3"
    } else if d == 4 {
        "4"
    } else if d == 5 {
        "5"
    } else if d == 6 {
        "6"
    } else if d == 7 {
        "7"
    } else if d == 8 {
        "8"
    } else {
        "9"
    }
}

/// The characters of the digits `ds`, taken last first.
pub open spec fn reversed_digits(ds: Seq<u64>) -> Seq<char>
    decreases ds.len(),
{
    if ds.len() == 0 {
        Seq::empty()
    } else {
        seq![digit_char(ds.last() as int)] + reversed_digits(ds.drop_last())
    }
}

/// Appends `n` in decimal to `s`, `-` first where `n` is negative.
fn append_decimal(s: &mut String, n: i64)
    ensures
        final(s)@ == old(s)@ + decimal(n as int),
{
    let magnitude: u64 = if n < 0 {
        (0i128 - (n as i128)) as u64
    } else {
        n as u64
    };
    let ghost whole = magnitude as nat;
    let mut m: u64 = magnitude;
    let mut low: Vec<u64> = Vec::new();
    while m >= 10
        invariant
            digits(whole) == digits(m as nat) + reversed_digits(low@),
            forall|i: int| 0 <= i < low@.len() ==> #[trigger] low@[i] < 10,
        decreases m,
    {
        let d = m % 10;
        proof {
            assert(digits(m as nat) == digits((m / 10) as nat) + seq![digit_char(d as int)]);
            assert(reversed_digits(low@.push(d)) == seq![digit_char(d as int)] + reversed_digits(
                low@,
            )) by {
                assert(low@.push(d).drop_last() =~= low@);
            }
            assert(digits(whole) =~= digits((m / 10) as nat) + reversed_digits(low@.push(d)));
        }
        low.push(d);
        m = m / 10;
    }
    let ghost start = s@;
    if n < 0 {
        proof {
            reveal_strlit("-");
        }
        s.append("-");
    }
    let ghost sign = if n < 0 {
        seq!['-']
    } else {
        Seq::<char>::empty()
    };
    assert(s@ =~= start + sign);
    s.append(digit_text(m));
    assert(digits(m as nat) == seq![digit_char(m as int)]);
    let mut i: usize = low.len();
    proof {
        lemma_reversed_digits_len(low@);
        assert(low@.take(i as int) =~= low@);
        assert(digits(whole).take(1) =~= seq![digit_char(m as int)]);
        assert(s@ =~= start + sign + digits(whole).take(1));
    }
    while i > 0
        invariant
            i <= low@.len(),
            s@ == start + sign + digits(whole).take(digits(whole).len() - reversed_digits(
                low@.take(i as int),
            ).len()),
            digits(whole) == digits(m as nat) + reversed_digits(low@),
            m < 10,
            forall|j: int| 0 <= j < low@.len() ==> #[trigger] low@[j] < 10,
        decreases i,
    {
        i = i - 1;
        proof {
            lemma_reversed_digits_len(low@.take(i as int));
            lemma_reversed_digits_len(low@.take(i + 1));
            lemma_reversed_digits_len(low@);
            lemma_reversed_digits_split(low@, i as int);
        }
        s.append(digit_text(low[i]));
        proof {
            let total = digits(whole);
            let before = total.len() - reversed_digits(low@.take(i + 1)).len();
            assert(total[before] == digit_char(low@[i as int] as int));
            assert(total.take(before + 1) =~= total.take(before).push(total[before]));
        }
    }
    proof {
        assert(low@.take(0) =~= Seq::<u64>::empty());
        assert(digits(whole).take(digits(whole).len() as int) =~= digits(whole));
        if n < 0 {
            assert(magnitude == -(n as int));
        } else {
            assert(magnitude == n as int);
        }
        assert(s@ =~= start + decimal(n as int));
    }
}

/// The number of characters of `reversed_digits(ds)` is the number of digits.
proof fn lemma_reversed_digits_len(ds: Seq<u64>)
    ensures
        reversed_digits(ds).len() == ds.len(),
    decreases ds.len(),
{
    if ds.len() > 0 {
        lemma_reversed_digits_len(ds.drop_last());
    }
}

/// `reversed_digits(ds)` is `reversed_digits` of the digits from `i` on,
/// then the characters of the first `i` digits, last first.
proof fn lemma_reversed_digits_split(ds: Seq<u64>, i: int)
    requires
        0 <= i < ds.len(),
    ensures
        reversed_digits(ds) =~= reversed_digits(ds.skip(i + 1)) + seq![digit_char(ds[i] as int)]
            + reversed_digits(ds.take(i)),
    decreases ds.len(),
{
    if i == ds.len() - 1 {
        assert(ds.drop_last() =~= ds.take(i));
        assert(ds.skip(i + 1) =~= Seq::<u64>::empty());
    } else {
        lemma_reversed_digits_split(ds.drop_last(), i);
        assert(ds.drop_last().take(i) =~= ds.take(i));
        assert(ds.skip(i + 1).drop_last() =~= ds.drop_last().skip(i + 1));
        assert(ds.skip(i + 1).last() == ds.last());
    }
}

/// The name of a receiver; receivers created by one sender get distinct names.
#[derive(PartialEq, Eq, Structural, Clone, Copy, Debug)]
pub struct ReceiverHandle {
    id: i64,
}

impl ReceiverHandle {
    /// The number that names this handle.
    pub closed spec fn number(self) -> int {
        self.id as int
    }

    /// Two handles are equal exactly when their numbers are.
    pub proof fn lemma_eq_iff_number(a: ReceiverHandle, b: ReceiverHandle)
        ensures
            (a == b) <==> (a.number() == b.number()),
    {
    }

    /// The handle numbered zero.
    fn new() -> (r: ReceiverHandle)
        ensures
            r.number() == 0,
    {
        ReceiverHandle { id: 0 }
    }

    /// Returns this handle, and moves it on to the next number.
    fn next(&mut self) -> (r: ReceiverHandle)
        requires
            old(self).number() < i64::MAX,
        ensures
            r == *old(self),
            final(self).number() == old(self).number() + 1,
    {
        let result = *self;
        self.id = self.id + 1;
        result
    }

    /// The text of this handle: `Receiver handle: ` and its number in decimal.
    pub fn to_string(&self) -> (s: String)
        ensures
            s@ == "Receiver handle: "@ + decimal(self.number()),
    {
        let mut s = String::from_str("Receiver handle: ");
        append_decimal(&mut s, self.id);
        s
    }

    /// The number that names this handle.
    pub fn id(&self) -> (r: i64)
        ensures
            r == self.number(),
    {
        self.id
    }
}

/// A pending message: its recipient (`None`: any receiver), its priority and its payload.
pub struct Message<T> {
    pub target: Option<ReceiverHandle>,
    pub priority: Priority,
    pub data: T,
}

/// Which receivers a sender should wake after a put.
#[derive(PartialEq, Eq, Structural, Clone, Copy, Debug)]
pub enum Wake {
    /// Wake one waiting receiver: any of them may take the message.
    One,
    /// Wake every waiting receiver: only the addressed one may take the message.
    All,
}

/// Whether the receiver `h` may take message `m`.
pub open spec fn visible_to<T>(m: Message<T>, h: ReceiverHandle) -> bool {
    match m.target {
        Some(t) => t == h,
        None => true,
    }
}

/// Whether some message of `q` may be taken by `h`.
pub open spec fn has_visible<T>(q: Seq<Message<T>>, h: ReceiverHandle) -> bool {
    exists|i: int| 0 <= i < q.len() && visible_to(#[trigger] q[i], h)
}

/// Whether `q[i]` is the message that `h` takes next: visible to `h`, of the
/// highest priority among those visible to `h`, and the first such one.
pub open spec fn is_selected<T>(q: Seq<Message<T>>, h: ReceiverHandle, i: int) -> bool {
    &&& 0 <= i < q.len()
    &&& visible_to(q[i], h)
    &&& forall|j: int|
        0 <= j < i && visible_to(#[trigger] q[j], h) ==> q[j].priority.rank() < q[i].priority.rank()
    &&& forall|j: int|
        i < j < q.len() && visible_to(#[trigger] q[j], h) ==> q[j].priority.rank()
            <= q[i].priority.rank()
}

/// The index of the message that `h` takes next (meaningful when `has_visible(q, h)`).
pub open spec fn selected_index<T>(q: Seq<Message<T>>, h: ReceiverHandle) -> int {
    choose|i: int| is_selected(q, h, i)
}

/// The payloads of a sequence of messages, in order.
pub open spec fn payloads<T>(q: Seq<Message<T>>) -> Seq<T> {
    q.map_values(|m: Message<T>| m.data)
}

/// At most one message is the one a receiver takes next.
pub proof fn lemma_selected_unique<T>(q: Seq<Message<T>>, h: ReceiverHandle, i: int, j: int)
    requires
        is_selected(q, h, i),
        is_selected(q, h, j),
    ensures
        i == j,
{
    if i < j {
        assert(visible_to(q[i], h));
    } else if j < i {
        assert(visible_to(q[j], h));
    }
}

/// Among the first `n` messages, the first one of the highest priority visible to `h`.
proof fn lemma_best_in_prefix<T>(q: Seq<Message<T>>, h: ReceiverHandle, n: int) -> (b: int)
    requires
        0 <= n <= q.len(),
        exists|k: int| 0 <= k < n && visible_to(#[trigger] q[k], h),
    ensures
        0 <= b < n,
        visible_to(q[b], h),
        forall|j: int|
            0 <= j < b && visible_to(#[trigger] q[j], h) ==> q[j].priority.rank() < q[b].priority.rank(),
        forall|j: int|
            b < j < n && visible_to(#[trigger] q[j], h) ==> q[j].priority.rank() <= q[b].priority.rank(),
    decreases n,
{
    if exists|k: int| 0 <= k < n - 1 && visible_to(#[trigger] q[k], h) {
        let b0 = lemma_best_in_prefix(q, h, n - 1);
        if visible_to(q[n - 1], h) && q[b0].priority.rank() < q[n - 1].priority.rank() {
            n - 1
        } else {
            b0
        }
    } else {
        let k = choose|k: int| 0 <= k < n && visible_to(#[trigger] q[k], h);
        assert(k == n - 1);
        n - 1
    }
}

/// Whenever some message is visible to a receiver, one of them is the one it takes next.
pub proof fn lemma_selected_exists<T>(q: Seq<Message<T>>, h: ReceiverHandle)
    requires
        has_visible(q, h),
    ensures
        is_selected(q, h, selected_index(q, h)),
{
    let b = lemma_best_in_prefix(q, h, q.len() as int);
    assert(is_selected(q, h, b));
}

/// Receivers created by one sender never share a handle: a receiver gets
/// the sender's coming handle, `create_receiver` moves that handle on by one,
/// and no other operation of the sender moves it back.  Here `r1` is created
/// from `s0`, leaving `s1`, and `r2` later from `s2`.
pub proof fn lemma_created_handles_distinct<T>(
    s0: Sender<T>,
    r1: Receiver<T>,
    s1: Sender<T>,
    s2: Sender<T>,
    r2: Receiver<T>,
)
    requires
        r1.handle_spec() == s0.coming_handle(),
        s1.coming_handle().number() == s0.coming_handle().number() + 1,
        s2.coming_handle().number() >= s1.coming_handle().number(),
        r2.handle_spec() == s2.coming_handle(),
    ensures
        r1.handle_spec() != r2.handle_spec(),
{
}

/// How one call changed a queue: `1` for a put, `-1` for a get that took a
/// message, `0` for a get that found none.
pub open spec fn step_matches<T>(before: Seq<Message<T>>, after: Seq<Message<T>>, kind: int) -> bool {
    ||| kind == 1 && exists|m: Message<T>| after == #[trigger] before.push(m)
    ||| kind == -1 && exists|h: ReceiverHandle|
        has_visible(before, h) && after == before.remove(#[trigger] selected_index(before, h))
    ||| kind == 0 && after == before
}

/// The sum of a sequence of steps: puts less the messages taken.
pub open spec fn net(kinds: Seq<int>) -> int
    decreases kinds.len(),
{
    if kinds.len() == 0 {
        0
    } else {
        net(kinds.drop_last()) + kinds.last()
    }
}

/// Over any run of puts and gets on a sender, the number of pending
/// messages grows by the puts and shrinks by the messages taken:
/// `states[i + 1]` is the queue after the `i`-th call, of kind `kinds[i]`.
pub proof fn lemma_size_counts<T>(states: Seq<Seq<Message<T>>>, kinds: Seq<int>)
    requires
        states.len() == kinds.len() + 1,
        forall|i: int| 0 <= i < kinds.len() ==> step_matches(states[i], states[i + 1], #[trigger] kinds[i]),
    ensures
        states.last().len() == states[0].len() + net(kinds),
    decreases kinds.len(),
{
    if kinds.len() > 0 {
        let n = kinds.len() - 1;
        lemma_size_counts(states.drop_last(), kinds.drop_last());
        assert(step_matches(states[n], states[n + 1], kinds[n]));
        if kinds[n] == -1 {
            let h = choose|h: ReceiverHandle|
                has_visible(states[n], h) && states[n + 1] == states[n].remove(
                    #[trigger] selected_index(states[n], h),
                );
            lemma_selected_exists(states[n], h);
        } else if kinds[n] == 1 {
            let m = choose|m: Message<T>| states[n + 1] == #[trigger] states[n].push(m);
        }
        assert(states.drop_last().last() == states[n]);
    }
}

/// A message of `Min` priority is taken only when no message of a higher
/// priority is waiting for that receiver: a close request sent with `Min`
/// priority reaches a worker after every task it could still take.
pub proof fn lemma_min_taken_last<T>(q: Seq<Message<T>>, h: ReceiverHandle, i: int)
    requires
        is_selected(q, h, i),
        q[i].priority == Priority::Min,
    ensures
        forall|j: int|
            0 <= j < q.len() && visible_to(#[trigger] q[j], h) ==> q[j].priority == Priority::Min,
{
    assert forall|j: int| 0 <= j < q.len() && visible_to(#[trigger] q[j], h) implies q[j].priority
        == Priority::Min by {
        if j != i {
            assert(q[j].priority.rank() <= -1);
        }
    }
}

/// A message of `High` priority waiting for a receiver is taken before any
/// message of lower priority: a close request sent with `High` priority
/// reaches a worker before any task still in the queue.
pub proof fn lemma_high_taken_first<T>(q: Seq<Message<T>>, h: ReceiverHandle, i: int, k: int)
    requires
        is_selected(q, h, i),
        0 <= k < q.len(),
        visible_to(q[k], h),
        q[k].priority == Priority::High,
    ensures
        q[i].priority == Priority::High,
        i <= k,
{
    if k < i {
        assert(visible_to(q[k], h));
    }
    if i != k {
        assert(q[k].priority.rank() <= q[i].priority.rank());
    }
}

/// Messages visible to a receiver and of one priority are taken in the order
/// in which they were put.
pub proof fn lemma_fifo_within_priority<T>(q: Seq<Message<T>>, h: ReceiverHandle, i: int, j: int)
    requires
        is_selected(q, h, i),
        0 <= j < q.len(),
        visible_to(q[j], h),
        q[j].priority == q[i].priority,
    ensures
        i <= j,
{
    if j < i {
        assert(visible_to(q[j], h));
    }
}

/// Taking a message out of the queue loses no other message and duplicates none:
/// the payloads left, together with the one taken, are those that were there.
pub proof fn lemma_take_conserves<T>(q: Seq<Message<T>>, i: int)
    requires
        0 <= i < q.len(),
    ensures
        payloads(q).to_multiset() =~= payloads(q.remove(i)).to_multiset().insert(q[i].data),
{
    broadcast use vstd::seq_lib::group_to_multiset_ensures;

    assert(payloads(q.remove(i)) =~= payloads(q).remove(i));
    assert(payloads(q)[i] == q[i].data);
    assert(payloads(q).to_multiset().count(q[i].data) > 0) by {
        assert(payloads(q).contains(q[i].data));
    }
}

/// The owner of a queue of pending messages, and the source of receiver names.
pub struct Sender<T> {
    messages: Vec<Message<T>>,
    last_handle: ReceiverHandle,
}

impl<T> View for Sender<T> {
    type V = Seq<Message<T>>;

    /// The pending messages, oldest first.
    closed spec fn view(&self) -> Seq<Message<T>> {
        self.messages@
    }
}

impl<T> Sender<T> {
    /// The handle that the next receiver created by this sender gets.
    pub closed spec fn coming_handle(&self) -> ReceiverHandle {
        self.last_handle
    }

    /// A sender with no pending message; its first receiver gets the handle numbered zero.
    pub fn new() -> (s: Sender<T>)
        ensures
            s@ == Seq::<Message<T>>::empty(),
            s.coming_handle().number() == 0,
    {
        Sender { messages: Vec::new(), last_handle: ReceiverHandle::new() }
    }

    /// The handle that the next receiver created by this sender gets.
    pub fn next_handle(&self) -> (r: ReceiverHandle)
        ensures
            r == self.coming_handle(),
    {
        self.last_handle
    }

    /// Creates a receiver with a fresh handle; the queue is unchanged.
    pub fn create_receiver(&mut self) -> (r: Receiver<T>)
        requires
            old(self).coming_handle().number() < i64::MAX,
        ensures
            r.handle_spec() == old(self).coming_handle(),
            r.issued_by(&*final(self)),
            final(self).coming_handle().number() == old(self).coming_handle().number() + 1,
            final(self)@ == old(self)@,
    {
        Receiver::new(self)
    }

    /// Puts a message for any receiver, with `Normal` priority.
    pub fn put(&mut self, data: T) -> (w: Wake)
        ensures
            final(self)@ == old(self)@.push(
                Message { target: None, priority: Priority::Normal, data: data },
            ),
            final(self).coming_handle() == old(self).coming_handle(),
            w == Wake::One,
    {
        self.put_with_priority(None, Priority::Normal, data)
    }

    /// Puts a message at the end of the queue.  Returns whom to wake: every
    /// waiting receiver when the message is addressed, one of them otherwise.
    pub fn put_with_priority(&mut self, target: Option<ReceiverHandle>, priority: Priority, data: T) -> (w: Wake)
        ensures
            final(self)@ == old(self)@.push(
                Message { target: target, priority: priority, data: data },
            ),
            final(self).coming_handle() == old(self).coming_handle(),
            w == (if target is Some { Wake::All } else { Wake::One }),
    {
        let msg = Message { target: target, priority: priority, data: data };
        self.messages.push(msg);
        if target.is_some() {
            Wake::All
        } else {
            Wake::One
        }
    }

    /// Removes every pending message and returns their payloads, oldest first.
    pub fn cancel_all(&mut self) -> (r: Vec<T>)
        ensures
            r@ == payloads(old(self)@),
            final(self)@ == Seq::<Message<T>>::empty(),
            final(self).coming_handle() == old(self).coming_handle(),
    {
        let mut pending: Vec<Message<T>> = Vec::new();
        std::mem::swap(&mut pending, &mut self.messages);
        let ghost all = pending@;
        let mut rest: Vec<Message<T>> = Vec::new();
        // Take the messages from the back, then hand out their payloads from the front.
        while pending.len() > 0
            invariant
                all == pending@ + rest@.reverse(),
            decreases pending.len(),
        {
            let m = pending.pop().unwrap();
            rest.push(m);
            proof {
                assert(all =~= pending@ + rest@.reverse());
            }
        }
        assert(all =~= rest@.reverse());
        let mut result: Vec<T> = Vec::new();
        while rest.len() > 0
            invariant
                payloads(all) == result@ + payloads(rest@.reverse()),
            decreases rest.len(),
        {
            let ghost before = rest@;
            let m = rest.pop().unwrap();
            proof {
                assert(before.reverse() =~= seq![m].add(rest@.reverse()));
                assert(payloads(before.reverse()) =~= seq![m.data].add(payloads(rest@.reverse())));
            }
            result.push(m.data);
            proof {
                assert(payloads(all) =~= result@ + payloads(rest@.reverse()));
            }
        }
        assert(payloads(all) =~= result@);
        result
    }

    /// The pending messages, oldest first.
    pub fn messages(&self) -> (r: &Vec<Message<T>>)
        ensures
            r@ == self@,
    {
        &self.messages
    }

    /// The number of pending messages.
    pub fn size(&self) -> (n: usize)
        ensures
            n == self@.len(),
    {
        self.messages.len()
    }
}

/// An endpoint that takes the messages meant for its handle from a sender's queue.
pub struct Receiver<T> {
    handle: ReceiverHandle,
    marker: std::marker::PhantomData<T>,
}

impl<T> Receiver<T> {
    /// The handle of this receiver.
    pub closed spec fn handle_spec(&self) -> ReceiverHandle {
        self.handle
    }

    /// Whether `sender` issued this receiver's handle: every handle a sender
    /// issued is numbered below its coming handle.
    pub open spec fn issued_by(&self, sender: &Sender<T>) -> bool {
        self.handle_spec().number() < sender.coming_handle().number()
    }

    fn new(sender: &mut Sender<T>) -> (r: Receiver<T>)
        requires
            old(sender).coming_handle().number() < i64::MAX,
        ensures
            r.handle_spec() == old(sender).coming_handle(),
            final(sender).coming_handle().number() == old(sender).coming_handle().number() + 1,
            final(sender)@ == old(sender)@,
    {
        Receiver { handle: sender.last_handle.next(), marker: std::marker::PhantomData }
    }

    /// Takes the message meant for this receiver: of the messages addressed to
    /// nobody or to this receiver, the first one of the highest priority.
    /// Returns `None`, and leaves the queue as it is, when there is none.
    pub fn get(&self, sender: &mut Sender<T>) -> (r: Option<T>)
        requires
            self.issued_by(&*old(sender)),
        ensures
            final(sender).coming_handle() == old(sender).coming_handle(),
            !has_visible(old(sender)@, self.handle_spec()) ==> r is None && final(sender)@ == old(
                sender,
            )@,
            has_visible(old(sender)@, self.handle_spec()) ==> {
                let i = selected_index(old(sender)@, self.handle_spec());
                &&& is_selected(old(sender)@, self.handle_spec(), i)
                &&& r == Some(old(sender)@[i].data)
                &&& final(sender)@ == old(sender)@.remove(i)
            },
    {
        let ghost q = sender.messages@;
        let mut index: Option<usize> = None;
        let mut priority = Priority::Normal;
        let len = sender.messages.len();
        let mut i: usize = 0;
        while i < len
            invariant
                q == sender.messages@,
                len == q.len(),
                i <= len,
                index is None ==> forall|j: int| 0 <= j < i ==> !visible_to(#[trigger] q[j], self.handle),
                index matches Some(k) ==> {
                    &&& k < i
                    &&& visible_to(q[k as int], self.handle)
                    &&& priority == q[k as int].priority
                    &&& forall|j: int|
                        0 <= j < k && visible_to(#[trigger] q[j], self.handle) ==> q[j].priority.rank()
                            < q[k as int].priority.rank()
                    &&& forall|j: int|
                        k < j < i && visible_to(#[trigger] q[j], self.handle) ==> q[j].priority.rank()
                            <= q[k as int].priority.rank()
                },
            decreases len - i,
        {
            let msg = &sender.messages[i];
            let mine = match msg.target {
                Some(t) => t == self.handle,
                None => true,
            };
            if mine {
                if index.is_none() {
                    index = Some(i);
                    priority = msg.priority;
                } else if priority.level() < msg.priority.level() {
                    index = Some(i);
                    priority = msg.priority;
                }
            }
            i = i + 1;
        }
        match index {
            Some(k) => {
                proof {
                    assert(is_selected(q, self.handle, k as int));
                    lemma_selected_exists(q, self.handle);
                    lemma_selected_unique(q, self.handle, k as int, selected_index(q, self.handle));
                }
                let msg = sender.messages.remove(k);
                Some(msg.data)
            },
            None => {
                proof {
                    if has_visible(q, self.handle) {
                        let w = choose|w: int| 0 <= w < q.len() && visible_to(#[trigger] q[w], self.handle);
                        assert(!visible_to(q[w], self.handle));
                    }
                }
                None
            },
        }
    }

    /// The handle of this receiver.
    pub fn handle(&self) -> (h: ReceiverHandle)
        ensures
            h == self.handle_spec(),
    {
        self.handle
    }
}

} // verus!
