//! Runtime support shared by hyperware processes: state persistence policy,
//! the task executor's bookkeeping, response correlation and send outcomes.
use vstd::prelude::*;
use crate::registry::Registry;
use crate::bindgen::join;
use crate::text::{chars_eq, chars_of, lossy_text, push_chars, push_decimal, extend_chars, string_of, utf8_decode, utf8_lossy};
use vstd::utf8::{decode_utf8, encode_utf8, valid_utf8};

verus! {

/// How often the process state is persisted.
#[derive(Clone, Copy, Debug, PartialEq, Eq, Structural)]
pub enum SaveOptions {
    /// Never persist state.
    Never,
    /// Persist state after every message.
    EveryMessage,
    /// Persist state every N messages.
    EveryNMessage(u64),
    /// Persist state every N seconds.
    EveryNSeconds(u64),
}

/// One message under `EveryNMessage(n)`: the counter after it, and whether it saves.
pub open spec fn every_n_step(n: u64, count: u64) -> (u64, bool) {
    if count + 1 >= n {
        (0u64, true)
    } else {
        ((count + 1) as u64, false)
    }
}

/// Whether a save is due under `EveryNSeconds(n)` at time `now` (in seconds): no
/// save was made yet, or at least `n` seconds passed since the last one.
pub open spec fn seconds_due(n: u64, last_save: Option<u64>, now: u64) -> bool {
    match last_save {
        None => true,
        Some(t) => now >= t + n,
    }
}

/// One check of the persistence policy after a handled message at time `now`: from
/// the message counter and the time of the last save before it, the counter and the
/// time of the last save after it, and whether the state is saved.
pub open spec fn save_step(config: SaveOptions, count: u64, last_save: Option<u64>, now: u64) -> (u64, Option<u64>, bool) {
    match config {
        SaveOptions::Never => (count, last_save, false),
        SaveOptions::EveryMessage => (count, last_save, true),
        SaveOptions::EveryNMessage(n) => (every_n_step(n, count).0, last_save, every_n_step(n, count).1),
        SaveOptions::EveryNSeconds(n) => {
            if seconds_due(n, last_save, now) {
                (count, Some(now), true)
            } else {
                (count, last_save, false)
            }
        },
    }
}

/// The counter of `EveryNMessage(n)` after `k` messages, starting from a fresh state.
pub open spec fn count_after(n: u64, k: nat) -> u64
    decreases k,
{
    if k == 0 {
        0
    } else {
        every_n_step(n, count_after(n, (k - 1) as nat)).0
    }
}

/// Whether the `k`-th message (counting from 1) of a fresh state saves it under
/// `EveryNMessage(n)`.
pub open spec fn saves_at(n: u64, k: nat) -> bool
    recommends
        k >= 1,
{
    every_n_step(n, count_after(n, (k - 1) as nat)).1
}

/// Persistence bookkeeping kept next to the user state.
pub struct HiddenState {
    save_config: SaveOptions,
    message_count: u64,
    last_save: Option<u64>,
}

impl HiddenState {
    /// The configured policy.
    pub closed spec fn config(&self) -> SaveOptions {
        self.save_config
    }

    /// Messages seen since the last save (only counted for `EveryNMessage`).
    pub closed spec fn count(&self) -> u64 {
        self.message_count
    }

    /// When the state was last saved, in seconds (only kept for `EveryNSeconds`).
    pub closed spec fn last_save(&self) -> Option<u64> {
        self.last_save
    }

    /// The counter never reaches the period, so counting cannot overflow.
    pub closed spec fn wf(&self) -> bool {
        match self.save_config {
            SaveOptions::EveryNMessage(n) => self.message_count == 0 || self.message_count < n,
            _ => self.message_count == 0,
        }
    }

    /// A fresh state with the given policy: nothing counted, nothing saved yet.
    pub fn new(save_config: SaveOptions) -> (s: Self)
        ensures
            s.wf(),
            s.config() == save_config,
            s.count() == 0,
            s.last_save() is None,
    {
        HiddenState { save_config, message_count: 0, last_save: None }
    }

    /// Records one handled message at time `now_secs` and says whether the state is
    /// to be saved now.
    pub fn should_save_state(&mut self, now_secs: u64) -> (b: bool)
        requires
            old(self).wf(),
        ensures
            final(self).wf(),
            final(self).config() == old(self).config(),
            (final(self).count(), final(self).last_save(), b)
                == save_step(old(self).config(), old(self).count(), old(self).last_save(), now_secs),
    {
        match self.save_config {
            SaveOptions::Never => false,
            SaveOptions::EveryMessage => true,
            SaveOptions::EveryNMessage(n) => {
                self.message_count = self.message_count + 1;
                if self.message_count >= n {
                    self.message_count = 0;
                    true
                } else {
                    false
                }
            },
            SaveOptions::EveryNSeconds(n) => {
                let due = match self.last_save {
                    None => true,
                    Some(t) => now_secs >= t && now_secs - t >= n,
                };
                if due {
                    self.last_save = Some(now_secs);
                }
                due
            },
        }
    }
}

/// Under `EveryNMessage(n)` with `n >= 1`, after `k` messages the counter is
/// `k % n`, and the `k`-th message saves the state exactly when `n` divides `k`.
pub proof fn lemma_every_n_messages(n: u64, k: nat)
    requires
        n >= 1,
    ensures
        count_after(n, k) == k % (n as nat),
        k >= 1 ==> (saves_at(n, k) <==> k % (n as nat) == 0),
    decreases k,
{
    if k == 0 {
    } else {
        lemma_every_n_messages(n, (k - 1) as nat);
        let km: int = k - 1;
        let nn: int = n as int;
        let prev: int = km % nn;
        let q: int = km / nn;
        vstd::arithmetic::div_mod::lemma_fundamental_div_mod(km, nn);
        assert(km == nn * q + prev);
        vstd::arithmetic::mul::lemma_mul_is_commutative(nn, q);
        assert(0 <= prev < nn);
        if prev + 1 >= nn {
            assert(k == (q + 1) * nn + 0) by (nonlinear_arith)
                requires
                    km == q * nn + prev,
                    prev + 1 == nn,
                    k == km + 1,
            {
            }
            vstd::arithmetic::div_mod::lemma_fundamental_div_mod_converse(k as int, nn, q + 1, 0);
        } else {
            vstd::arithmetic::div_mod::lemma_fundamental_div_mod_converse(k as int, nn, q, prev + 1);
        }
    }
}

/// `Never` never saves and `EveryMessage` always does, whatever was counted, saved
/// before or the time.
pub proof fn lemma_fixed_policies(count: u64, last_save: Option<u64>, now: u64)
    ensures
        !save_step(SaveOptions::Never, count, last_save, now).2,
        save_step(SaveOptions::EveryMessage, count, last_save, now).2,
{
}

/// Under `EveryNSeconds(n)` a check at time `now` saves exactly when no save was
/// made yet or at least `n` seconds passed since the last save; a save records
/// `now` as the time of the last save, and a check that does not save keeps it.
/// So two saves are always at least `n` seconds apart, and the first check after
/// `n` seconds have passed since the last save saves.
pub proof fn lemma_every_n_seconds(n: u64, count: u64, last_save: Option<u64>, now: u64)
    ensures
        ({
            let (c, l, b) = save_step(SaveOptions::EveryNSeconds(n), count, last_save, now);
            &&& c == count
            &&& b <==> (last_save is None || now >= last_save->0 + n)
            &&& b ==> l == Some(now)
            &&& !b ==> l == last_save
        }),
        last_save matches Some(t) && now < t + n ==> !save_step(SaveOptions::EveryNSeconds(n), count, last_save, now).2,
{
}

/// The time of the last save under `EveryNSeconds(n)` after checks at the given
/// times, starting from a fresh state.
pub open spec fn seconds_run(n: u64, times: Seq<u64>) -> Option<u64>
    decreases times.len(),
{
    if times.len() == 0 {
        None
    } else {
        save_step(SaveOptions::EveryNSeconds(n), 0, seconds_run(n, times.drop_last()), times.last()).1
    }
}

/// Under `EveryNSeconds(n)`, over any run of handled messages whose clock readings
/// do not go back, the state is saved at the first message, and after each message
/// the last save is at most `n` seconds old: it was made at that message, or less
/// than `n` seconds before it, at an earlier message. (Between messages nothing is
/// checked, so nothing is saved there.)
pub proof fn lemma_seconds_run(n: u64, times: Seq<u64>)
    requires
        times.len() > 0,
        forall|i: int, j: int| 0 <= i <= j < times.len() ==> times[i] <= times[j],
    ensures
        seconds_run(n, seq![times[0]]) == Some(times[0]),
        seconds_run(n, times) matches Some(t) && {
            &&& t <= times.last()
            &&& (t == times.last() || times.last() < t + n)
            &&& exists|j: int| 0 <= j < times.len() && times[j] == t
        },
    decreases times.len(),
{
    assert(seq![times[0]].drop_last() =~= Seq::<u64>::empty());
    if times.len() == 1 {
        assert(times =~= seq![times[0]]);
        assert(times[0] == times[0]);
    } else {
        let p = times.drop_last();
        lemma_seconds_run(n, p);
        let t0 = seconds_run(n, p)->0;
        let j0 = choose|j: int| 0 <= j < p.len() && p[j] == t0;
        assert(times[j0] == t0);
        assert(p.last() == times[times.len() - 2]);
        assert(times[times.len() - 2] <= times.last());
        if times.last() >= t0 + n {
            assert(times[times.len() - 1] == times.last());
        }
    }
}

/// The spawned tasks of the single-threaded executor, in spawn order.
pub struct Executor<T> {
    tasks: Vec<T>,
}

/// The tasks that remain after those marked ready are dropped, in their order.
pub open spec fn keep_pending<T>(tasks: Seq<T>, ready: Seq<bool>) -> Seq<T>
    decreases tasks.len(),
{
    if tasks.len() == 0 {
        Seq::empty()
    } else {
        let rest = keep_pending(tasks.drop_last(), ready.drop_last());
        if ready.last() {
            rest
        } else {
            rest.push(tasks.last())
        }
    }
}

impl<T> Executor<T> {
    /// The pending tasks in spawn order.
    pub closed spec fn tasks(&self) -> Seq<T> {
        self.tasks@
    }

    /// An executor with no tasks.
    pub fn new() -> (e: Self)
        ensures
            e.tasks() == Seq::<T>::empty(),
    {
        Executor { tasks: Vec::new() }
    }

    /// Adds a task after all pending ones.
    pub fn spawn(&mut self, fut: T)
        ensures
            final(self).tasks() == old(self).tasks().push(fut),
    {
        self.tasks.push(fut);
    }

    /// The pending tasks, in spawn order, taken out of the executor.
    pub fn into_tasks(self) -> (v: Vec<T>)
        ensures
            v@ == self.tasks(),
    {
        self.tasks
    }

    /// Number of pending tasks.
    pub fn len(&self) -> (n: usize)
        ensures
            n == self.tasks().len(),
    {
        self.tasks.len()
    }

    /// Mutable access to the `i`-th pending task, so that it can be polled.
    pub fn task_mut(&mut self, i: usize) -> (t: &mut T)
        requires
            i < old(self).tasks().len(),
        ensures
            *t == old(self).tasks()[i as int],
            final(self).tasks() == old(self).tasks().update(i as int, *final(t)),
    {
        &mut self.tasks[i]
    }

    /// Drops the tasks that completed during a polling round (`ready[i]` for
    /// task `i`), keeping the others in their order.
    pub fn remove_completed(&mut self, ready: &Vec<bool>)
        requires
            ready@.len() == old(self).tasks().len(),
        ensures
            final(self).tasks() == keep_pending(old(self).tasks(), ready@),
    {
        let ghost orig = self.tasks@;
        let mut i: usize = self.tasks.len();
        while i > 0
            invariant
                i <= orig.len(),
                ready@.len() == orig.len(),
                self.tasks@ == orig.take(i as int) + keep_pending(orig.skip(i as int), ready@.skip(i as int)),
            decreases i,
        {
            i = i - 1;
            proof {
                lemma_keep_pending_cons(orig.skip(i as int), ready@.skip(i as int));
                assert(orig.skip(i as int).drop_first() =~= orig.skip(i + 1));
                assert(ready@.skip(i as int).drop_first() =~= ready@.skip(i + 1));
                assert(orig.take(i + 1) =~= orig.take(i as int).push(orig[i as int]));
            }
            if ready[i] {
                self.tasks.remove(i);
                assert(self.tasks@ =~= orig.take(i as int) + keep_pending(orig.skip(i as int), ready@.skip(i as int)));
            } else {
                assert(self.tasks@ =~= orig.take(i as int) + keep_pending(orig.skip(i as int), ready@.skip(i as int)));
            }
        }
        assert(orig.skip(0) =~= orig);
        assert(ready@.skip(0) =~= ready@);
        assert(orig.take(0) + keep_pending(orig, ready@) =~= keep_pending(orig, ready@));
    }
}

/// Dropping ready tasks, seen from the front of the list.
pub proof fn lemma_keep_pending_cons<T>(tasks: Seq<T>, ready: Seq<bool>)
    requires
        tasks.len() > 0,
        ready.len() == tasks.len(),
    ensures
        keep_pending(tasks, ready) == if ready[0] {
            keep_pending(tasks.drop_first(), ready.drop_first())
        } else {
            seq![tasks[0]] + keep_pending(tasks.drop_first(), ready.drop_first())
        },
    decreases tasks.len(),
{
    if tasks.len() == 1 {
        assert(tasks.drop_first().len() == 0);
        assert(tasks.drop_last().len() == 0);
        assert(keep_pending(tasks.drop_last(), ready.drop_last()) == Seq::<T>::empty());
        assert(keep_pending(tasks.drop_first(), ready.drop_first()) == Seq::<T>::empty());
        assert(seq![tasks[0]] + Seq::<T>::empty() =~= Seq::<T>::empty().push(tasks[0]));
    } else {
        lemma_keep_pending_cons(tasks.drop_last(), ready.drop_last());
        assert(tasks.drop_last().drop_first() =~= tasks.drop_first().drop_last());
        assert(ready.drop_last().drop_first() =~= ready.drop_first().drop_last());
        assert(tasks.drop_first().last() == tasks.last());
        assert(ready.drop_first().last() == ready.last());
        let a = keep_pending(tasks.drop_first().drop_last(), ready.drop_first().drop_last());
        if ready[0] {
        } else {
            if ready.last() {
            } else {
                assert(seq![tasks[0]] + a.push(tasks.last()) =~= (seq![tasks[0]] + a).push(tasks.last()));
            }
        }
    }
}

/// Why a request could not be answered.
#[derive(Clone, Copy, Debug, PartialEq, Eq, Structural)]
pub enum SendErrorKind {
    Offline,
    Timeout,
}

/// The outcome of a request sent with `send`.
pub enum SendResult<R> {
    /// The response, decoded as the expected type.
    Success(R),
    /// No response in time.
    Timeout,
    /// The target could not be reached.
    Offline,
    /// A response that is neither the expected type nor a send error, as text.
    DeserializationError(String),
}

/// What arrives for a request: the bytes of its response, or the send error that
/// took its place. A send error travels apart from any response bytes, so no
/// response can be taken for an error and no error for a response.
#[derive(Debug, PartialEq, Eq)]
pub enum Delivery {
    /// The response's body.
    Response(Vec<u8>),
    /// The request could not be answered.
    Failed(SendErrorKind),
}

/// The outcome `send` gives for what arrived, where `decoded` is the response body
/// decoded as the expected type, if it decodes, and `error_kind` the body decoded as
/// a send-error kind, if it decodes so. A recorded send error gives its own outcome
/// whatever the expected type. A response gives the decoded value; when it does not
/// decode as the expected type but as a send-error kind, that error's outcome; else a
/// deserialization error carrying its bytes as text.
pub open spec fn send_outcome<R>(
    delivery: Delivery,
    decoded: Option<R>,
    error_kind: Option<SendErrorKind>,
    r: SendResult<R>,
) -> bool {
    match delivery {
        Delivery::Failed(SendErrorKind::Offline) => r == SendResult::<R>::Offline,
        Delivery::Failed(SendErrorKind::Timeout) => r == SendResult::<R>::Timeout,
        Delivery::Response(bytes) => match decoded {
            Some(v) => r == SendResult::Success(v),
            None => match error_kind {
                Some(SendErrorKind::Offline) => r == SendResult::<R>::Offline,
                Some(SendErrorKind::Timeout) => r == SendResult::<R>::Timeout,
                None => r matches SendResult::DeserializationError(m) && m@ == lossy_text(bytes@),
            },
        },
    }
}

/// What `send` makes of what arrived for its request (see `send_outcome`).
pub fn send_result_from<R>(delivery: &Delivery, decoded: Option<R>, error_kind: Option<SendErrorKind>) -> (r: SendResult<R>)
    ensures
        send_outcome(*delivery, decoded, error_kind, r),
{
    match delivery {
        Delivery::Failed(SendErrorKind::Offline) => SendResult::Offline,
        Delivery::Failed(SendErrorKind::Timeout) => SendResult::Timeout,
        Delivery::Response(bytes) => match decoded {
            Some(v) => SendResult::Success(v),
            None => match error_kind {
                Some(SendErrorKind::Offline) => SendResult::Offline,
                Some(SendErrorKind::Timeout) => SendResult::Timeout,
                None => SendResult::DeserializationError(utf8_lossy(bytes)),
            },
        },
    }
}

/// The context bytes a request carries: its correlation id in UTF-8.
pub fn correlation_context(correlation_id: &String) -> (b: Vec<u8>)
    ensures
        b@ == encode_utf8(correlation_id@),
{
    vstd::slice::slice_to_vec(correlation_id.as_str().as_bytes())
}

/// A response awaited under a correlation id.
pub struct ResponseFuture {
    correlation_id: String,
}

impl ResponseFuture {
    /// The correlation id waited on.
    pub closed spec fn id(&self) -> Seq<char> {
        self.correlation_id@
    }

    /// A future waiting for the response with this correlation id.
    pub fn new(correlation_id: String) -> (f: Self)
        ensures
            f.id() == correlation_id@,
    {
        ResponseFuture { correlation_id }
    }

    /// Takes what arrived for this id out of the table, if anything did.
    pub fn poll(&self, registry: &mut Registry<Delivery>) -> (r: Option<Delivery>)
        requires
            old(registry).wf(),
        ensures
            final(registry).wf(),
            final(registry).view() == old(registry).view().remove(self.id()),
            r == (if old(registry).view().dom().contains(self.id()) {
                Some(old(registry).view()[self.id()])
            } else {
                None::<Delivery>
            }),
    {
        registry.remove(&self.correlation_id)
    }
}

/// The response table after a send error of kind `kind` whose context is `context`
/// is recorded: the waiter on the correlation id the context spells, if it is
/// UTF-8, receives the failure.
pub open spec fn recorded(m: Map<Seq<char>, Delivery>, context: Option<Seq<u8>>, kind: SendErrorKind) -> Map<Seq<char>, Delivery> {
    match context {
        Some(c) if valid_utf8(c) => m.insert(decode_utf8(c), Delivery::Failed(kind)),
        _ => m,
    }
}

/// Hands a send error to whoever waits on the correlation id in its context.
pub fn record_send_error(registry: &mut Registry<Delivery>, context: Option<&Vec<u8>>, kind: SendErrorKind)
    requires
        old(registry).wf(),
    ensures
        final(registry).wf(),
        final(registry).view() == recorded(old(registry).view(), match context {
            Some(c) => Some(c@),
            None => None,
        }, kind),
{
    match context {
        Some(c) => {
            let bytes = vstd::slice::slice_to_vec(c.as_slice());
            match utf8_decode(bytes) {
                Some(cid) => registry.insert(cid, Delivery::Failed(kind)),
                None => {},
            }
        },
        None => {},
    }
}

/// A send error recorded for a request reaches the future waiting on its
/// correlation id, once: the first poll receives the failure and a second poll
/// finds nothing.
pub proof fn lemma_send_error_reaches_waiter(m: Map<Seq<char>, Delivery>, cid: Seq<char>, kind: SendErrorKind)
    ensures
        ({
            let after = recorded(m, Some(encode_utf8(cid)), kind);
            &&& after.dom().contains(cid)
            &&& after[cid] == Delivery::Failed(kind)
            &&& !after.remove(cid).dom().contains(cid)
        }),
{
    vstd::utf8::encode_utf8_valid_utf8(cid);
    vstd::utf8::encode_utf8_decode_utf8(cid);
}

/// A request whose send error was recorded ends with that error, whatever type its
/// response was expected to have and whatever a response would have decoded to
/// (as that type or as a send-error kind): a
/// recorded timeout gives `Timeout` and a recorded offline target gives `Offline`.
pub proof fn lemma_recorded_error_is_outcome<R>(
    m: Map<Seq<char>, Delivery>,
    cid: Seq<char>,
    kind: SendErrorKind,
    decoded: Option<R>,
    error_kind: Option<SendErrorKind>,
    r: SendResult<R>,
)
    ensures
        send_outcome(recorded(m, Some(encode_utf8(cid)), kind)[cid], decoded, error_kind, r) <==> r == match kind {
            SendErrorKind::Timeout => SendResult::<R>::Timeout,
            SendErrorKind::Offline => SendResult::<R>::Offline,
        },
{
    lemma_send_error_reaches_waiter(m, cid, kind);
}

/// Process-wide state of a hyperware process: persistence bookkeeping, spawned
/// tasks, responses that arrived, and the path of the HTTP request being handled.
pub struct AppContext<T> {
    pub hidden_state: Option<HiddenState>,
    pub executor: Executor<T>,
    pub response_registry: Registry<Delivery>,
    pub current_path: Option<String>,
}

impl<T> AppContext<T> {
    /// A context with no persistence policy yet, no tasks, no responses and no path.
    pub fn new() -> (c: Self)
        ensures
            c.hidden_state is None,
            c.executor.tasks() == Seq::<T>::empty(),
            c.response_registry.wf(),
            c.response_registry.view() == Map::<Seq<char>, Delivery>::empty(),
            c.current_path is None,
    {
        AppContext {
            hidden_state: None,
            executor: Executor::new(),
            response_registry: Registry::new(),
            current_path: None,
        }
    }
}

/// The path of the HTTP request being handled, if any.
pub fn get_path<T>(ctx: &AppContext<T>) -> (r: Option<String>)
    ensures
        match ctx.current_path {
            Some(p) => r matches Some(q) && q@ == p@,
            None => r is None,
        },
{
    match &ctx.current_path {
        Some(p) => Some(p.clone()),
        None => None,
    }
}

/// Records one handled message at time `now_secs` with the persistence policy, if
/// one is set, and says whether the state is to be persisted now.
pub fn save_due<T>(ctx: &mut AppContext<T>, now_secs: u64) -> (b: bool)
    requires
        old(ctx).hidden_state matches Some(h) ==> h.wf(),
    ensures
        final(ctx).executor == old(ctx).executor,
        final(ctx).response_registry == old(ctx).response_registry,
        final(ctx).current_path == old(ctx).current_path,
        match old(ctx).hidden_state {
            None => !b && final(ctx).hidden_state is None,
            Some(h) => final(ctx).hidden_state matches Some(h2) && {
                &&& h2.wf()
                &&& h2.config() == h.config()
                &&& (h2.count(), h2.last_save(), b) == save_step(h.config(), h.count(), h.last_save(), now_secs)
            },
        },
{
    match &mut ctx.hidden_state {
        Some(h) => h.should_save_state(now_secs),
        None => false,
    }
}

/// `std::time::SystemTime::elapsed` on `UNIX_EPOCH`: the whole seconds since the
/// epoch by the system clock, or `None` when the clock reads earlier than the epoch.
/// Nothing is stated of the reading: it is the time.
#[verifier::external_body]
fn clock_secs() -> (r: Option<u64>) {
    match std::time::UNIX_EPOCH.elapsed() {
        Ok(d) => Some(d.as_secs()),
        Err(_) => None,
    }
}

/// Records one handled message with the persistence policy, if one is set, at the
/// time the system clock reads now (the epoch when it reads earlier), and says
/// whether the state is to be persisted now.
pub fn save_due_now<T>(ctx: &mut AppContext<T>) -> (b: bool)
    requires
        old(ctx).hidden_state matches Some(h) ==> h.wf(),
    ensures
        final(ctx).executor == old(ctx).executor,
        final(ctx).response_registry == old(ctx).response_registry,
        final(ctx).current_path == old(ctx).current_path,
        match old(ctx).hidden_state {
            None => !b && final(ctx).hidden_state is None,
            Some(h) => final(ctx).hidden_state matches Some(h2) && {
                &&& h2.wf()
                &&& h2.config() == h.config()
                &&& exists|now: u64| (h2.count(), h2.last_save(), b) == #[trigger] save_step(h.config(), h.count(), h.last_save(), now)
            },
        },
{
    let now = match clock_secs() {
        Some(t) => t,
        None => 0,
    };
    save_due(ctx, now)
}

/// Finds the first endpoint path that repeats an earlier one (a server cannot bind both).
pub fn first_duplicate_path(paths: &Vec<String>) -> (r: Option<usize>)
    ensures
        match r {
            Some(j) => {
                &&& j < paths@.len()
                &&& exists|i: int| 0 <= i < j && paths@[i]@ == paths@[j as int]@
                &&& forall|j2: int, i: int| 0 <= i < j2 < j ==> paths@[i]@ != paths@[j2]@
            },
            None => forall|j: int, i: int| 0 <= i < j < paths@.len() ==> paths@[i]@ != paths@[j]@,
        },
{
    let mut j: usize = 0;
    while j < paths.len()
        invariant
            j <= paths@.len(),
            forall|j2: int, i: int| 0 <= i < j2 < j ==> paths@[i]@ != paths@[j2]@,
        decreases paths@.len() - j,
    {
        let pj = chars_of(paths[j].as_str());
        let mut i: usize = 0;
        while i < j
            invariant
                i <= j < paths@.len(),
                pj@ == paths@[j as int]@,
                forall|j2: int, i2: int| 0 <= i2 < j2 < j ==> paths@[i2]@ != paths@[j2]@,
                forall|i2: int| 0 <= i2 < i ==> paths@[i2]@ != paths@[j as int]@,
            decreases j - i,
        {
            if chars_eq(&chars_of(paths[i].as_str()), &pj) {
                assert(paths@[i as int]@ == paths@[j as int]@);
                return Some(j);
            }
            i = i + 1;
        }
        j = j + 1;
    }
    None
}

/// The bytes as `{:?}` prints a byte slice: decimal values in brackets, comma separated.
pub open spec fn bytes_debug(b: Seq<u8>) -> Seq<char> {
    "["@ + join(b.map_values(|x: u8| crate::text::decimal(x as nat)), ", "@) + "]"@
}

/// How a message body is shown: quoted when it is UTF-8, else as bytes.
pub open spec fn body_shown(b: Seq<u8>) -> Seq<char> {
    if valid_utf8(b) {
        "\""@ + decode_utf8(b) + "\""@
    } else {
        bytes_debug(b)
    }
}

/// How a context is shown: quoted lossy text, or `None`.
pub open spec fn context_shown(c: Option<Seq<u8>>) -> Seq<char> {
    match c {
        Some(b) => "\""@ + lossy_text(b) + "\""@,
        None => "None"@,
    }
}

/// The report printed for a send error, from the printed error kind and target.
pub open spec fn send_error_text(kind: Seq<char>, target: Seq<char>, body: Seq<u8>, context: Option<Seq<u8>>) -> Seq<char> {
    "SendError {\n    kind: "@ + kind + ",\n    target: "@ + target + ",\n    body: "@ + body_shown(body)
        + ",\n    context: "@ + context_shown(context) + "\n}"@
}

/// Writes `{:?}` of a byte slice.
fn push_bytes_debug(out: &mut Vec<char>, b: &Vec<u8>)
    ensures
        final(out)@ == old(out)@ + bytes_debug(b@),
{
    let ghost start = out@;
    let ghost items = b@.map_values(|x: u8| crate::text::decimal(x as nat));
    extend_chars(out, "[");
    let mut i: usize = 0;
    while i < b.len()
        invariant
            i <= b@.len(),
            items == b@.map_values(|x: u8| crate::text::decimal(x as nat)),
            out@ == start + "["@ + join(items.take(i as int), ", "@),
        decreases b@.len() - i,
    {
        if i > 0 {
            extend_chars(out, ", ");
        }
        push_decimal(out, b[i] as u64);
        proof {
            let t = items.take(i + 1);
            assert(t.drop_last() =~= items.take(i as int));
            assert(t.last() == crate::text::decimal(b@[i as int] as nat));
            if i == 0 {
                assert(join(t, ", "@) == t[0]);
            }
            assert(out@ =~= start + "["@ + join(t, ", "@));
        }
        i = i + 1;
    }
    assert(items.take(b@.len() as int) =~= items);
    extend_chars(out, "]");
    assert(out@ =~= start + bytes_debug(b@));
}

/// The report that is printed for a send error: its kind and target as printed, its
/// body (quoted text when UTF-8, else bytes) and its context (quoted text or `None`).
pub fn send_error_report(kind: &str, target: &str, body: &Vec<u8>, context: Option<&Vec<u8>>) -> (r: String)
    ensures
        r@ == send_error_text(kind@, target@, body@, match context {
            Some(c) => Some(c@),
            None => None,
        }),
{
    let mut out: Vec<char> = Vec::new();
    extend_chars(&mut out, "SendError {\n    kind: ");
    extend_chars(&mut out, kind);
    extend_chars(&mut out, ",\n    target: ");
    extend_chars(&mut out, target);
    extend_chars(&mut out, ",\n    body: ");
    match utf8_decode(vstd::slice::slice_to_vec(body.as_slice())) {
        Some(text) => {
            extend_chars(&mut out, "\"");
            extend_chars(&mut out, text.as_str());
            extend_chars(&mut out, "\"");
        },
        None => push_bytes_debug(&mut out, body),
    }
    extend_chars(&mut out, ",\n    context: ");
    match context {
        Some(c) => {
            let text = utf8_lossy(c);
            extend_chars(&mut out, "\"");
            extend_chars(&mut out, text.as_str());
            extend_chars(&mut out, "\"");
        },
        None => extend_chars(&mut out, "None"),
    }
    extend_chars(&mut out, "\n}");
    string_of(&out)
}

/// Pairs each target with the message at the same position; extra items on either
/// side are dropped.
pub fn pair_requests<A, B>(targets: Vec<A>, messages: Vec<B>) -> (r: Vec<(A, B)>)
    ensures
        r@.len() == if targets@.len() <= messages@.len() { targets@.len() } else { messages@.len() },
        forall|k: int| 0 <= k < r@.len() ==> #[trigger] r@[k] == (targets@[k], messages@[k]),
{
    let ghost ts = targets@;
    let ghost ms = messages@;
    let mut r: Vec<(A, B)> = Vec::new();
    let mut t = targets;
    let mut m = messages;
    while t.len() > 0 && m.len() > 0
        invariant
            r@.len() + t@.len() == ts.len(),
            r@.len() + m@.len() == ms.len(),
            t@ == ts.skip(r@.len() as int),
            m@ == ms.skip(r@.len() as int),
            forall|k: int| 0 <= k < r@.len() ==> #[trigger] r@[k] == (ts[k], ms[k]),
        decreases t@.len(),
    {
        let a = t.remove(0);
        let b = m.remove(0);
        r.push((a, b));
        assert(t@ =~= ts.skip(r@.len() as int));
        assert(m@ =~= ms.skip(r@.len() as int));
    }
    r
}

/// Application state types: a fresh state to start from.
pub trait State: Sized {
    /// A fresh state.
    fn new() -> Self;
}

/// The initialisation used when an application gives none: leaves the state as it is.
pub fn no_init_fn<S>(_state: &mut S)
    ensures
        *final(_state) == *old(_state),
{
}

/// The HTTP handler used when an application gives none: leaves the state as it is.
pub fn no_http_api_call<S>(_state: &mut S, _req: ())
    ensures
        *final(_state) == *old(_state),
{
}

/// The WebSocket handler used when an application gives none: leaves the state as it is.
pub fn no_ws_handler<S>(_state: &mut S, _channel_id: u32, _message: Vec<u8>)
    ensures
        *final(_state) == *old(_state),
{
}

/// The local-request handler used when an application gives none: leaves the state as it is.
pub fn no_local_request<S>(_state: &mut S, _req: ())
    ensures
        *final(_state) == *old(_state),
{
}

/// The remote-request handler used when an application gives none: leaves the state as it is.
pub fn no_remote_request<S>(_state: &mut S, _req: ())
    ensures
        *final(_state) == *old(_state),
{
}

/// A response filed under a correlation id reaches the future waiting on that id,
/// once: the poll after filing returns it, and a second poll finds nothing.
pub proof fn lemma_response_delivered_once(m: Map<Seq<char>, Delivery>, cid: Seq<char>, body: Vec<u8>)
    ensures
        ({
            let filed = m.insert(cid, Delivery::Response(body));
            &&& filed.dom().contains(cid)
            &&& filed[cid] == Delivery::Response(body)
            &&& !filed.remove(cid).dom().contains(cid)
            &&& filed.remove(cid) == m.remove(cid)
        }),
{
    assert(m.insert(cid, Delivery::Response(body)).remove(cid) =~= m.remove(cid));
}

/// A polling round in which no task completed keeps every task; one in which all
/// completed leaves none.
pub proof fn lemma_polling_round_extremes<T>(tasks: Seq<T>)
    ensures
        keep_pending(tasks, Seq::new(tasks.len(), |i: int| false)) == tasks,
        keep_pending(tasks, Seq::new(tasks.len(), |i: int| true)) == Seq::<T>::empty(),
    decreases tasks.len(),
{
    if tasks.len() > 0 {
        lemma_polling_round_extremes(tasks.drop_last());
        assert(Seq::new(tasks.len(), |i: int| false).drop_last() =~= Seq::new(tasks.drop_last().len(), |i: int| false));
        assert(Seq::new(tasks.len(), |i: int| true).drop_last() =~= Seq::new(tasks.drop_last().len(), |i: int| true));
        assert(tasks.drop_last().push(tasks.last()) =~= tasks);
    }
}

} // verus!
