//! Runtime core of kinode processes: fan-out aggregation of sub-responses, the
//! table of pending callbacks, correlation ids of fan-out requests, and the
//! decisions the message loop takes for each incoming message or send error.
use vstd::prelude::*;
use crate::registry::Registry;
use crate::text::{decimal, digit_char, find, find_from, matches_at, chars_of, chars_eq_str, lossy_text, slice_chars, split, split_exec, utf8_lossy, seqs_of, string_of};

verus! {

/// The error type that handlers and callbacks report.
#[verifier::external_type_specification]
#[verifier::external_body]
pub struct ExAnyhowError(anyhow::Error);

/// An error carrying `message`, made by `anyhow::Error::msg`. Nothing is stated
/// of the value: it is only handed on.
#[verifier::external_body]
pub(crate) fn error_from_message(message: String) -> anyhow::Error {
    anyhow::Error::msg(message)
}

/// The number of filled slots.
pub open spec fn count_filled<T>(rs: Seq<Option<T>>) -> nat
    decreases rs.len(),
{
    if rs.len() == 0 {
        0
    } else {
        count_filled(rs.drop_last()) + if rs.last() is Some { 1nat } else { 0nat }
    }
}

/// The slots after a result for slot `i` arrives: only an empty slot in range takes it.
pub open spec fn with_result<T>(rs: Seq<Option<T>>, i: int, r: T) -> Seq<Option<T>> {
    if 0 <= i < rs.len() && rs[i] is None {
        rs.update(i, Some(r))
    } else {
        rs
    }
}

/// `v` is the final vector for the slots `rs`: filled slots give their result, empty
/// ones an error.
pub open spec fn finalized<T>(rs: Seq<Option<Result<T, anyhow::Error>>>, v: Seq<Result<T, anyhow::Error>>) -> bool {
    &&& v.len() == rs.len()
    &&& forall|k: int| 0 <= k < rs.len() ==> match #[trigger] rs[k] {
        Some(r) => v[k] == r,
        None => v[k] is Err,
    }
}

/// Collects the results of `total` parallel requests, slot by slot, and hands them
/// to `on_done` once.
pub struct FanOutAggregator<T, F> {
    total: usize,
    results: Vec<Option<Result<T, anyhow::Error>>>,
    completed: usize,
    on_done: F,
}

impl<T, F> FanOutAggregator<T, F> {
    /// Number of expected results.
    pub closed spec fn total(&self) -> nat {
        self.total as nat
    }

    /// The result slots, by request index.
    pub closed spec fn results(&self) -> Seq<Option<Result<T, anyhow::Error>>> {
        self.results@
    }

    /// Number of results received.
    pub closed spec fn completed(&self) -> nat {
        self.completed as nat
    }

    /// The final callback.
    pub closed spec fn on_done(&self) -> F {
        self.on_done
    }

    /// One slot per request, and the count of received results is the number of
    /// filled slots.
    pub closed spec fn wf(&self) -> bool {
        &&& self.results@.len() == self.total
        &&& self.completed == count_filled(self.results@)
    }

    /// An aggregator waiting for `total` results.
    pub fn new(total: usize, on_done: F) -> (a: Self)
        ensures
            a.wf(),
            a.total() == total,
            a.results() == Seq::new(total as nat, |k: int| None::<Result<T, anyhow::Error>>),
            a.completed() == 0,
            a.completed() == count_filled(a.results()),
            a.on_done() == on_done,
    {
        let mut results: Vec<Option<Result<T, anyhow::Error>>> = Vec::new();
        let mut k: usize = 0;
        while k < total
            invariant
                k <= total,
                results@ == Seq::new(k as nat, |j: int| None::<Result<T, anyhow::Error>>),
                count_filled(results@) == 0,
            decreases total - k,
        {
            let ghost before = results@;
            results.push(None);
            k = k + 1;
            assert(results@.drop_last() =~= before);
            assert(results@ =~= Seq::new(k as nat, |j: int| None::<Result<T, anyhow::Error>>));
        }
        FanOutAggregator { total, results, completed: 0, on_done }
    }

    /// Stores the result of request `i`, unless `i` is out of range or its result
    /// already arrived (the first result stays).
    pub fn set_result(&mut self, i: usize, result: Result<T, anyhow::Error>)
        requires
            old(self).wf(),
        ensures
            final(self).wf(),
            final(self).total() == old(self).total(),
            final(self).on_done() == old(self).on_done(),
            final(self).results() == with_result(old(self).results(), i as int, result),
            final(self).results().len() == final(self).total(),
            final(self).completed() == count_filled(final(self).results()),
            final(self).completed() == if i < old(self).results().len() && old(self).results()[i as int] is None {
                old(self).completed() + 1
            } else {
                old(self).completed()
            },
    {
        if i < self.results.len() && self.results[i].is_none() {
            let ghost before = self.results@;
            self.results.set(i, Some(result));
            proof {
                lemma_count_update(before, i as int, self.results@[i as int]);
                lemma_count_le(self.results@);
            }
            self.completed = self.completed + 1;
        }
    }

    /// Whether every result arrived.
    pub fn is_done(&self) -> (b: bool)
        requires
            self.wf(),
        ensures
            b == (self.completed() >= self.total()),
            b == (forall|k: int| 0 <= k < self.results().len() ==> #[trigger] self.results()[k] is Some),
    {
        proof {
            lemma_all_filled(self.results@);
        }
        self.completed >= self.total
    }

    /// Hands the results, in request order, to `on_done` together with the user
    /// state; a request whose result never arrived gives an error. Returns the
    /// state and the outcome that `on_done` gives back.
    pub fn finalize<S>(self, user_state: S) -> (r: (S, Result<(), anyhow::Error>))
        where F: FnOnce(Vec<Result<T, anyhow::Error>>, S) -> (S, Result<(), anyhow::Error>),
        requires
            self.wf(),
            forall|v: Vec<Result<T, anyhow::Error>>, s: S| #[trigger] call_requires(self.on_done(), (v, s)),
        ensures
            exists|v: Vec<Result<T, anyhow::Error>>|
                finalized(self.results(), v@) && #[trigger] call_ensures(self.on_done(), (v, user_state), r),
    {
        let ghost me = self;
        let FanOutAggregator { total, results, completed, on_done } = self;
        let ghost rs = results@;
        let mut final_vec: Vec<Result<T, anyhow::Error>> = Vec::new();
        let mut rest = results;
        while rest.len() > 0
            invariant
                final_vec@.len() + rest@.len() == rs.len(),
                rest@ == rs.skip(final_vec@.len() as int),
                forall|k: int| 0 <= k < final_vec@.len() ==> match #[trigger] rs[k] {
                    Some(r) => final_vec@[k] == r,
                    None => final_vec@[k] is Err,
                },
            decreases rest@.len(),
        {
            let ghost n = final_vec@.len();
            let item = rest.remove(0);
            assert(item == rs[n as int]);
            match item {
                Some(r) => final_vec.push(r),
                None => final_vec.push(Err(error_from_message(chars_to_string("missing subresponse")))),
            }
            assert(rest@ =~= rs.skip(final_vec@.len() as int));
        }
        proof {
            assert(on_done == me.on_done());
            assert(call_requires(me.on_done(), (final_vec, user_state)));
            assert(finalized(rs, final_vec@));
        }
        let r = (on_done)(final_vec, user_state);
        assert(call_ensures(me.on_done(), (final_vec, user_state), r));
        r
    }
}

/// In a well-formed aggregator there is one slot per expected result, the count of
/// received results is the number of filled slots and at most the total, and every
/// result arrived exactly when the count reaches the total.
pub proof fn lemma_aggregator_count<T, F>(a: FanOutAggregator<T, F>)
    requires
        a.wf(),
    ensures
        a.results().len() == a.total(),
        a.completed() == count_filled(a.results()),
        a.completed() <= a.total(),
        (a.completed() == a.total()) <==> (forall|k: int| 0 <= k < a.results().len() ==> #[trigger] a.results()[k] is Some),
{
    lemma_all_filled(a.results());
}

/// A result for an empty slot in range adds one to the count, any other leaves it;
/// so when one result is missing, the result for the missing slot fills every slot.
pub proof fn lemma_result_count<T>(rs: Seq<Option<T>>, i: int, r: T)
    ensures
        count_filled(with_result(rs, i, r)) == count_filled(rs) + if 0 <= i < rs.len() && rs[i] is None { 1nat } else { 0nat },
        count_filled(rs) + 1 == rs.len() && 0 <= i < rs.len() && rs[i] is None ==> forall|k: int|
            0 <= k < rs.len() ==> #[trigger] with_result(rs, i, r)[k] is Some,
{
    if 0 <= i < rs.len() && rs[i] is None {
        lemma_count_update(rs, i, Some(r));
    }
    lemma_all_filled(with_result(rs, i, r));
}

/// A string with the characters of `s`.
fn chars_to_string(s: &str) -> (r: String)
    ensures
        r@ == s@,
{
    crate::text::string_of(&chars_of(s))
}

/// Filling one empty slot adds one to the count.
pub proof fn lemma_count_update<T>(rs: Seq<Option<T>>, i: int, x: Option<T>)
    requires
        0 <= i < rs.len(),
        rs[i] is None,
        x is Some,
    ensures
        count_filled(rs.update(i, x)) == count_filled(rs) + 1,
    decreases rs.len(),
{
    let u = rs.update(i, x);
    if i == rs.len() - 1 {
        assert(u.drop_last() =~= rs.drop_last());
    } else {
        lemma_count_update(rs.drop_last(), i, x);
        assert(u.drop_last() =~= rs.drop_last().update(i, x));
    }
}

/// The count is at most the number of slots.
pub proof fn lemma_count_le<T>(rs: Seq<Option<T>>)
    ensures
        count_filled(rs) <= rs.len(),
    decreases rs.len(),
{
    if rs.len() > 0 {
        lemma_count_le(rs.drop_last());
    }
}

/// All slots are filled exactly when the count reaches the number of slots.
pub proof fn lemma_all_filled<T>(rs: Seq<Option<T>>)
    ensures
        count_filled(rs) <= rs.len(),
        (count_filled(rs) >= rs.len()) == (forall|k: int| 0 <= k < rs.len() ==> #[trigger] rs[k] is Some),
    decreases rs.len(),
{
    if rs.len() > 0 {
        let p = rs.drop_last();
        lemma_all_filled(p);
        if count_filled(rs) >= rs.len() {
            assert forall|k: int| 0 <= k < rs.len() implies #[trigger] rs[k] is Some by {
                if k < rs.len() - 1 {
                    assert(p[k] == rs[k]);
                }
            }
        }
        if forall|k: int| 0 <= k < rs.len() ==> #[trigger] rs[k] is Some {
            assert forall|k: int| 0 <= k < p.len() implies #[trigger] p[k] is Some by {
                assert(p[k] == rs[k]);
            }
            assert(rs[rs.len() - 1] is Some);
        }
    }
}

/// The value of a decimal digit character.
pub open spec fn digit_value(c: char) -> nat {
    (c as nat - '0' as nat) as nat
}

/// Whether every character is an ASCII decimal digit.
pub open spec fn all_digits(s: Seq<char>) -> bool {
    forall|k: int| 0 <= k < s.len() ==> '0' <= #[trigger] s[k] <= '9'
}

/// The number a string of decimal digits spells.
pub open spec fn digits_value(s: Seq<char>) -> nat
    decreases s.len(),
{
    if s.len() == 0 {
        0
    } else {
        digits_value(s.drop_last()) * 10 + digit_value(s.last())
    }
}

/// What `str::parse::<usize>` gives: an optional `+` then at least one decimal
/// digit, with a value that fits in `usize`.
pub open spec fn usize_text(s: Seq<char>) -> Option<nat> {
    let d = if s.len() > 0 && s[0] == '+' { s.drop_first() } else { s };
    if d.len() > 0 && all_digits(d) && digits_value(d) <= usize::MAX {
        Some(digits_value(d))
    } else {
        None
    }
}

/// A prefix of a digit string never spells a larger number.
proof fn lemma_digits_prefix(s: Seq<char>, k: int)
    requires
        0 <= k <= s.len(),
        all_digits(s),
    ensures
        digits_value(s.take(k)) <= digits_value(s),
    decreases s.len() - k,
{
    if k < s.len() {
        lemma_digits_prefix(s, k + 1);
        let t = s.take(k + 1);
        assert(t.drop_last() =~= s.take(k));
        assert('0' <= t.last() <= '9');
    } else {
        assert(s.take(k) =~= s);
    }
}

/// Parses a `usize` as `str::parse::<usize>` does.
#[verifier::spinoff_prover]
pub fn parse_usize(s: &Vec<char>) -> (r: Option<usize>)
    ensures
        match r {
            Some(n) => usize_text(s@) == Some(n as nat),
            None => usize_text(s@) is None,
        },
{
    let start: usize = if s.len() > 0 && s[0] == '+' { 1 } else { 0 };
    let ghost d = if s@.len() > 0 && s@[0] == '+' { s@.drop_first() } else { s@ };
    assert(d =~= s@.skip(start as int));
    if start >= s.len() {
        assert(d.len() == 0);
        return None;
    }
    let mut value: usize = 0;
    let mut i: usize = start;
    while i < s.len()
        invariant
            start <= i <= s@.len(),
            d == s@.skip(start as int),
            d == (if s@.len() > 0 && s@[0] == '+' { s@.drop_first() } else { s@ }),
            all_digits(d.take(i - start)),
            value as nat == digits_value(d.take(i - start)),
        decreases s@.len() - i,
    {
        let c = s[i];
        if c < '0' || c > '9' {
            assert(d[i - start] == c);
            assert(!all_digits(d));
            return None;
        }
        let digit: usize = ((c as u32) - ('0' as u32)) as usize;
        let ghost t = d.take(i - start + 1);
        proof {
            assert(t.drop_last() =~= d.take(i - start));
            assert(t.last() == c);
            assert(all_digits(t));
        }
        match value.checked_mul(10) {
            None => {
                proof {
                    lemma_all_digits_or_not(d, t);
                }
                return None;
            },
            Some(m) => match m.checked_add(digit) {
                None => {
                    proof {
                        lemma_all_digits_or_not(d, t);
                    }
                    return None;
                },
                Some(v) => {
                    value = v;
                },
            },
        }
        i = i + 1;
    }
    assert(d.take(i - start) =~= d);
    Some(value)
}

/// A digit prefix whose value exceeds `usize::MAX` rules out a `usize` value.
proof fn lemma_all_digits_or_not(d: Seq<char>, t: Seq<char>)
    requires
        t.len() <= d.len(),
        t == d.take(t.len() as int),
        all_digits(t),
        digits_value(t) > usize::MAX,
    ensures
        !(all_digits(d) && digits_value(d) <= usize::MAX),
{
    if all_digits(d) {
        lemma_digits_prefix(d, t.len() as int);
    }
}

/// The aggregator id and request index that a fan-out correlation id
/// `"<id>:<index>"` carries: the text before the first `:` and the number between
/// it and the next `:` (or the end).
pub open spec fn aggregator_cid(corr: Seq<char>) -> Option<(Seq<char>, nat)> {
    let parts = split(corr, ":"@);
    if parts.len() < 2 {
        None
    } else {
        match usize_text(parts[1]) {
            Some(n) => Some((parts[0], n)),
            None => None,
        }
    }
}

/// Splits a fan-out correlation id into aggregator id and request index.
pub fn parse_aggregator_cid(corr: &str) -> (r: Option<(String, usize)>)
    ensures
        match r {
            Some((id, n)) => aggregator_cid(corr@) == Some((id@, n as nat)),
            None => aggregator_cid(corr@) is None,
        },
{
    proof {
        reveal_strlit(":");
    }
    let colon = chars_of(":");
    let parts = split_exec(&chars_of(corr), &colon);
    assert(split(corr@, ":"@).len() >= 1);
    assert(seqs_of(parts@)[0] == parts@[0]@);
    if parts.len() < 2 {
        return None;
    }
    assert(seqs_of(parts@)[1] == parts@[1]@);
    match parse_usize(&parts[1]) {
        Some(n) => Some((string_of(&parts[0]), n)),
        None => None,
    }
}

/// Callbacks waiting for a response, and running fan-out aggregations, by correlation id.
pub struct HiddenState<C, A> {
    pub pending_callbacks: Registry<C>,
    pub accumulators: Registry<A>,
}

impl<C, A> HiddenState<C, A> {
    /// Both tables are well formed.
    pub open spec fn wf(&self) -> bool {
        self.pending_callbacks.wf() && self.accumulators.wf()
    }

    /// No pending callback and no aggregation.
    pub fn new() -> (h: Self)
        ensures
            h.wf(),
            h.pending_callbacks.view() == Map::<Seq<char>, C>::empty(),
            h.accumulators.view() == Map::<Seq<char>, A>::empty(),
    {
        HiddenState { pending_callbacks: Registry::new(), accumulators: Registry::new() }
    }
}

/// What to run when the response to a request arrives, and optionally when it times out.
pub struct PendingCallback<FS, FT> {
    pub on_success: FS,
    pub on_timeout: Option<FT>,
}

/// The seconds a timer request of `duration_ms` milliseconds waits for its answer:
/// the whole seconds of the delay, plus one.
pub open spec fn timer_timeout_secs(duration_ms: u64) -> u64 {
    (duration_ms / 1000 + 1) as u64
}

/// Arms a timer: registers `on_fire` under the correlation id the timer request
/// will carry, with no timeout handler, and gives the seconds that request waits
/// for its answer.
pub fn arm_timer<FS, FT, A>(
    hidden: &mut HiddenState<PendingCallback<FS, FT>, A>,
    correlation_id: String,
    on_fire: FS,
    duration_ms: u64,
) -> (timeout_secs: u64)
    requires
        old(hidden).wf(),
    ensures
        final(hidden).wf(),
        final(hidden).accumulators.view() == old(hidden).accumulators.view(),
        final(hidden).pending_callbacks.view() == old(hidden).pending_callbacks.view().insert(
            correlation_id@,
            (PendingCallback { on_success: on_fire, on_timeout: None::<FT> }),
        ),
        timeout_secs == timer_timeout_secs(duration_ms),
{
    hidden.pending_callbacks.insert(correlation_id, PendingCallback { on_success: on_fire, on_timeout: None });
    duration_ms / 1000 + 1
}

/// Where an incoming message goes.
pub enum Route<C> {
    /// To the callback registered under its correlation id (taken out of the table).
    Callback(C),
    /// To slot `index` of the fan-out aggregation `id`.
    Aggregator(String, usize),
    /// To the HTTP handler (a local message from the HTTP server).
    Http,
    /// To the local-request handler.
    Local,
    /// To the remote-request handler.
    Remote,
}

/// The correlation id read from a message context.
pub open spec fn context_cid(context: Option<Seq<u8>>) -> Option<Seq<char>> {
    match context {
        Some(c) => Some(lossy_text(c)),
        None => None,
    }
}

/// Whether a context is present and valid UTF-8.
pub open spec fn utf8_context(context: Option<Seq<u8>>) -> bool {
    context matches Some(c) && vstd::utf8::valid_utf8(c)
}

/// The text a context decodes to as UTF-8.
pub open spec fn decoded_context(context: Option<Seq<u8>>) -> Option<Seq<char>> {
    match context {
        Some(c) => Some(vstd::utf8::decode_utf8(c)),
        None => None,
    }
}

/// Abstract form of an optional byte buffer.
pub open spec fn opt_bytes(o: Option<&Vec<u8>>) -> Option<Seq<u8>> {
    match o {
        Some(b) => Some(b@),
        None => None,
    }
}

/// Decides where an incoming message goes: to the callback registered under the
/// correlation id in its context (which is taken out of the table), else to a
/// fan-out aggregation when the id has the form `"<id>:<index>"`, else by origin:
/// local messages from `http-server:distro:sys` to the HTTP handler, other local
/// ones to the local handler, the rest to the remote handler.
#[verifier::spinoff_prover]
pub fn route_message<C, A>(
    hidden: &mut HiddenState<C, A>,
    context: Option<&Vec<u8>>,
    is_local: bool,
    source_process: &str,
) -> (r: Route<C>)
    requires
        old(hidden).wf(),
    ensures
        final(hidden).wf(),
        final(hidden).accumulators.view() == old(hidden).accumulators.view(),
        utf8_context(opt_bytes(context)) ==> context_cid(opt_bytes(context)) == decoded_context(opt_bytes(context)),
        match context_cid(opt_bytes(context)) {
            Some(k) if old(hidden).pending_callbacks.view().dom().contains(k) => {
                &&& r == Route::Callback(old(hidden).pending_callbacks.view()[k])
                &&& final(hidden).pending_callbacks.view() == old(hidden).pending_callbacks.view().remove(k)
            },
            Some(k) if aggregator_cid(k) is Some => {
                &&& final(hidden).pending_callbacks.view() == old(hidden).pending_callbacks.view()
                &&& r matches Route::Aggregator(id, n) && aggregator_cid(k) == Some((id@, n as nat))
            },
            _ => {
                &&& final(hidden).pending_callbacks.view() == old(hidden).pending_callbacks.view()
                &&& r == if is_local {
                    if source_process@ == "http-server:distro:sys"@ { Route::<C>::Http } else { Route::<C>::Local }
                } else {
                    Route::<C>::Remote
                }
            },
        },
{
    match context {
        Some(bytes) => {
            let cid = utf8_lossy(bytes);
            match hidden.pending_callbacks.remove(&cid) {
                Some(cb) => {
                    return Route::Callback(cb);
                },
                None => {},
            }
            assert(hidden.pending_callbacks.view() =~= old(hidden).pending_callbacks.view());
            match parse_aggregator_cid(cid.as_str()) {
                Some((id, n)) => {
                    return Route::Aggregator(id, n);
                },
                None => {},
            }
        },
        None => {},
    }
    if is_local {
        if chars_eq_str(&chars_of(source_process), "http-server:distro:sys") {
            Route::Http
        } else {
            Route::Local
        }
    } else {
        Route::Remote
    }
}

/// What a send error touches: the callback registered under its correlation id
/// (taken out of the table; its timeout handler, if any, is to run), and the
/// fan-out slot its correlation id names (which is to receive a timeout error).
pub struct SendErrorRoute<C> {
    pub callback: Option<C>,
    pub aggregator: Option<(String, usize)>,
}

/// Decides what a send error with the given context touches.
pub fn route_send_error<C, A>(hidden: &mut HiddenState<C, A>, context: Option<&Vec<u8>>) -> (r: SendErrorRoute<C>)
    requires
        old(hidden).wf(),
    ensures
        final(hidden).wf(),
        final(hidden).accumulators.view() == old(hidden).accumulators.view(),
        utf8_context(opt_bytes(context)) ==> context_cid(opt_bytes(context)) == decoded_context(opt_bytes(context)),
        match context_cid(opt_bytes(context)) {
            None => {
                &&& r.callback is None
                &&& r.aggregator is None
                &&& final(hidden).pending_callbacks.view() == old(hidden).pending_callbacks.view()
            },
            Some(k) => {
                &&& final(hidden).pending_callbacks.view() == old(hidden).pending_callbacks.view().remove(k)
                &&& r.callback == (if old(hidden).pending_callbacks.view().dom().contains(k) {
                    Some(old(hidden).pending_callbacks.view()[k])
                } else {
                    None::<C>
                })
                &&& match r.aggregator {
                    Some((id, n)) => aggregator_cid(k) == Some((id@, n as nat)),
                    None => aggregator_cid(k) is None,
                }
            },
        },
{
    match context {
        None => SendErrorRoute { callback: None, aggregator: None },
        Some(bytes) => {
            let cid = utf8_lossy(bytes);
            let callback = hidden.pending_callbacks.remove(&cid);
            let aggregator = parse_aggregator_cid(cid.as_str());
            SendErrorRoute { callback, aggregator }
        },
    }
}

/// Every aggregation in the table is well formed and accepts any final vector and state.
pub open spec fn aggregators_ready<T, F, S, C>(h: HiddenState<C, FanOutAggregator<T, F>>) -> bool
    where F: FnOnce(Vec<Result<T, anyhow::Error>>, S) -> (S, Result<(), anyhow::Error>),
{
    forall|k: Seq<char>| #[trigger] h.accumulators.view().dom().contains(k) ==> {
        &&& h.accumulators.view()[k].wf()
        &&& forall|v: Vec<Result<T, anyhow::Error>>, s: S| #[trigger] call_requires(h.accumulators.view()[k].on_done(), (v, s))
    }
}

/// Whether every slot is filled.
pub open spec fn all_filled<T>(rs: Seq<Option<T>>) -> bool {
    forall|k: int| 0 <= k < rs.len() ==> #[trigger] rs[k] is Some
}

/// Delivers the result for slot `i` of aggregation `aggregator_id`. When that
/// completes the aggregation, it leaves the table and its final callback runs with
/// the user state; the state and the callback's outcome come back. Otherwise the
/// state comes back unchanged with no outcome.
#[verifier::spinoff_prover]
pub fn aggregator_mark_result<T, F, S, C>(
    hidden: &mut HiddenState<C, FanOutAggregator<T, F>>,
    aggregator_id: &String,
    i: usize,
    result: Result<T, anyhow::Error>,
    user_state: S,
) -> (r: (S, Option<Result<(), anyhow::Error>>))
    where F: FnOnce(Vec<Result<T, anyhow::Error>>, S) -> (S, Result<(), anyhow::Error>),
    requires
        old(hidden).wf(),
        aggregators_ready::<T, F, S, C>(*old(hidden)),
    ensures
        final(hidden).wf(),
        aggregators_ready::<T, F, S, C>(*final(hidden)),
        final(hidden).pending_callbacks.view() == old(hidden).pending_callbacks.view(),
        !old(hidden).accumulators.view().dom().contains(aggregator_id@) ==> {
            &&& final(hidden).accumulators.view() == old(hidden).accumulators.view()
            &&& r.0 == user_state
            &&& r.1 is None
        },
        old(hidden).accumulators.view().dom().contains(aggregator_id@) ==> {
            let a = old(hidden).accumulators.view()[aggregator_id@];
            let rs = with_result(a.results(), i as int, result);
            if all_filled(rs) {
                &&& final(hidden).accumulators.view() == old(hidden).accumulators.view().remove(aggregator_id@)
                &&& r.1 matches Some(outcome) && exists|v: Vec<Result<T, anyhow::Error>>|
                    finalized(rs, v@) && #[trigger] call_ensures(a.on_done(), (v, user_state), (r.0, outcome))
            } else {
                let b = final(hidden).accumulators.view()[aggregator_id@];
                &&& final(hidden).accumulators.view().dom() == old(hidden).accumulators.view().dom()
                &&& final(hidden).accumulators.view().remove(aggregator_id@)
                    == old(hidden).accumulators.view().remove(aggregator_id@)
                &&& b.results() == rs
                &&& b.total() == a.total()
                &&& b.on_done() == a.on_done()
                &&& r.0 == user_state
                &&& r.1 is None
            }
        },
{
    let ghost old_map = hidden.accumulators.view();
    match hidden.accumulators.remove(aggregator_id) {
        None => {
            assert(hidden.accumulators.view() =~= old_map);
            (user_state, None)
        },
        Some(mut agg) => {
            let ghost a = agg;
            assert(agg == old_map[aggregator_id@]);
            agg.set_result(i, result);
            if agg.is_done() {
                proof {
                    assert forall|k: Seq<char>| #[trigger] hidden.accumulators.view().dom().contains(k)
                        implies hidden.accumulators.view()[k] == old_map[k] by {}
                }
                let (st, outcome) = agg.finalize(user_state);
                (st, Some(outcome))
            } else {
                hidden.accumulators.insert(aggregator_id.clone(), agg);
                proof {
                    assert(hidden.accumulators.view().remove(aggregator_id@) =~= old_map.remove(aggregator_id@));
                    assert(hidden.accumulators.view().dom() =~= old_map.dom());
                    assert forall|k: Seq<char>| #[trigger] hidden.accumulators.view().dom().contains(k)
                        implies hidden.accumulators.view()[k] == old_map[k] || k == aggregator_id@ by {}
                }
                (user_state, None)
            }
        },
    }
}

/// Application state types: a fresh state to start from.
pub trait State: Sized {
    /// A fresh state.
    fn new() -> Self;
}

/// The initialisation used when an application gives none: leaves the state as it is.
pub fn no_init_fn<S>(_state: &mut S)
    ensures
        *final(_state) == *old(_state),
{
}

/// The API handler used when an application gives none: status 200 and an empty body.
pub fn no_http_api_call<S>(_state: &mut S, _req: ()) -> (r: (u16, Vec<u8>))
    ensures
        *final(_state) == *old(_state),
        r.0 == 200,
        r.1@ == Seq::<u8>::empty(),
{
    (200, Vec::new())
}

/// What becomes of a local request: handled when its body parsed as the request
/// type; otherwise, for the body `debug`, the state is printed; else it is dropped.
pub enum LocalAction {
    Handle,
    PrintState,
    Ignore,
}

/// Decides what becomes of a local request.
pub fn local_request_action(parsed: bool, body: &Vec<u8>) -> (r: LocalAction)
    ensures
        parsed ==> r == LocalAction::Handle,
        !parsed ==> r == (if body@ == seq![100u8, 101u8, 98u8, 117u8, 103u8] {
            LocalAction::PrintState
        } else {
            LocalAction::Ignore
        }),
{
    if parsed {
        return LocalAction::Handle;
    }
    if body.len() == 5 && body[0] == 100u8 && body[1] == 101u8 && body[2] == 98u8 && body[3] == 117u8
        && body[4] == 103u8 {
        assert(body@ =~= seq![100u8, 101u8, 98u8, 117u8, 103u8]);
        LocalAction::PrintState
    } else {
        LocalAction::Ignore
    }
}

/// The status an API request is answered with before its handler runs: 400 when it
/// has no body or the body did not parse as the call type; `None` when the handler
/// is to answer.
pub fn api_precheck(has_blob: bool, parsed: bool) -> (r: Option<u16>)
    ensures
        r == (if !has_blob || !parsed { Some(400u16) } else { None::<u16> }),
{
    if !has_blob || !parsed {
        Some(400)
    } else {
        None
    }
}

/// A later result for a slot never replaces the first one.
pub proof fn lemma_first_result_stays<T>(rs: Seq<Option<T>>, i: int, first: T, later: T)
    ensures
        with_result(with_result(rs, i, first), i, later) == with_result(rs, i, first),
{
}

/// Filled slots keep their results whatever arrives.
pub proof fn lemma_filled_slots_stay<T>(rs: Seq<Option<T>>, i: int, r: T)
    ensures
        with_result(rs, i, r).len() == rs.len(),
        forall|k: int| 0 <= k < rs.len() && (#[trigger] rs[k]) is Some ==> with_result(rs, i, r)[k] == rs[k],
{
}

/// Once every slot of a fresh aggregation has received a result, in whatever
/// order, the aggregation is done.
pub proof fn lemma_all_results_complete<T>(total: nat, order: Seq<int>, results: Seq<T>)
    requires
        order.len() == results.len(),
        forall|k: int| 0 <= k < total ==> #[trigger] order.contains(k),
    ensures
        all_filled(fill_in(Seq::new(total, |k: int| None::<T>), order, results)),
        fill_in(Seq::new(total, |k: int| None::<T>), order, results).len() == total,
{
    lemma_fill_in_keeps(Seq::new(total, |k: int| None::<T>), order, results);
    let f = fill_in(Seq::new(total, |k: int| None::<T>), order, results);
    assert forall|k: int| 0 <= k < f.len() implies #[trigger] f[k] is Some by {
        assert(order.contains(k));
        let j = choose|j: int| 0 <= j < order.len() && order[j] == k;
        lemma_fill_in_sets(Seq::new(total, |k: int| None::<T>), order, results, j);
    }
}

/// The slots after results arrive for the slots in `order`, one after another.
pub open spec fn fill_in<T>(rs: Seq<Option<T>>, order: Seq<int>, results: Seq<T>) -> Seq<Option<T>>
    decreases order.len(),
{
    if order.len() == 0 || results.len() == 0 {
        rs
    } else {
        with_result(fill_in(rs, order.drop_last(), results.drop_last()), order.last(), results.last())
    }
}

/// Delivering results keeps the slot count and every filled slot.
proof fn lemma_fill_in_keeps<T>(rs: Seq<Option<T>>, order: Seq<int>, results: Seq<T>)
    requires
        order.len() == results.len(),
    ensures
        fill_in(rs, order, results).len() == rs.len(),
        forall|k: int| 0 <= k < rs.len() && (#[trigger] rs[k]) is Some ==> fill_in(rs, order, results)[k] is Some,
    decreases order.len(),
{
    if order.len() > 0 {
        lemma_fill_in_keeps(rs, order.drop_last(), results.drop_last());
    }
}

/// A slot that received a result stays filled.
proof fn lemma_fill_in_sets<T>(rs: Seq<Option<T>>, order: Seq<int>, results: Seq<T>, j: int)
    requires
        order.len() == results.len(),
        0 <= j < order.len(),
        0 <= order[j] < rs.len(),
    ensures
        fill_in(rs, order, results)[order[j]] is Some,
    decreases order.len(),
{
    if j == order.len() - 1 {
        lemma_fill_in_keeps(rs, order.drop_last(), results.drop_last());
    } else {
        lemma_fill_in_sets(rs, order.drop_last(), results.drop_last(), j);
        let prev = fill_in(rs, order.drop_last(), results.drop_last());
        lemma_fill_in_keeps(rs, order.drop_last(), results.drop_last());
        assert(prev[order[j]] is Some);
    }
}

/// The first match of a pattern is found.
proof fn lemma_find_first(s: Seq<char>, p: Seq<char>, i: int, k: int)
    requires
        0 <= i <= k,
        matches_at(s, k, p),
        forall|j: int| i <= j < k ==> !matches_at(s, j, p),
    ensures
        find_from(s, p, i) == Some(k),
    decreases k - i,
{
    if i < k {
        lemma_find_first(s, p, i + 1, k);
    }
}

/// Without a match, nothing is found.
proof fn lemma_find_none(s: Seq<char>, p: Seq<char>, i: int)
    requires
        0 <= i,
        forall|j: int| i <= j ==> !matches_at(s, j, p),
    ensures
        find_from(s, p, i) is None,
    decreases s.len() + 1 - i,
{
    if i + p.len() <= s.len() {
        lemma_find_none(s, p, i + 1);
    }
}

/// The decimal text of a number is digits only, spells the number, and starts with a digit.
proof fn lemma_decimal_digits(n: nat)
    ensures
        decimal(n).len() > 0,
        all_digits(decimal(n)),
        digits_value(decimal(n)) == n,
        decimal(n)[0] != '+',
    decreases n,
{
    if n < 10 {
        assert(decimal(n) =~= seq![digit_char(n)]);
        assert(decimal(n).drop_last() =~= Seq::<char>::empty());
        assert(digit_value(digit_char(n)) == n);
        assert(digits_value(decimal(n).drop_last()) == 0);
        assert(digits_value(decimal(n)) == digits_value(decimal(n).drop_last()) * 10 + digit_value(decimal(n).last()));
    } else {
        lemma_decimal_digits(n / 10);
        let d = decimal(n);
        assert(d.drop_last() =~= decimal(n / 10));
        assert(d.last() == digit_char(n % 10));
        assert(digit_value(digit_char(n % 10)) == n % 10);
        assert((n / 10) * 10 + n % 10 == n) by (nonlinear_arith);
        assert(digits_value(d) == digits_value(d.drop_last()) * 10 + digit_value(d.last()));
        assert forall|k: int| 0 <= k < d.len() implies '0' <= #[trigger] d[k] <= '9' by {
            if k < d.len() - 1 {
                assert(d[k] == decimal(n / 10)[k]);
            }
        }
        assert(d[0] == decimal(n / 10)[0]);
    }
}

/// The correlation id of request `n` of fan-out aggregation `id`, `"<id>:<n>"`, names
/// that aggregation and slot, when `id` holds no `:`.
pub proof fn lemma_aggregator_cid_roundtrip(id: Seq<char>, n: nat)
    requires
        forall|k: int| 0 <= k < id.len() ==> id[k] != ':',
        n <= usize::MAX,
    ensures
        aggregator_cid(id + ":"@ + decimal(n)) == Some((id, n)),
{
    reveal_strlit(":");
    lemma_decimal_digits(n);
    let d = decimal(n);
    let s = id + ":"@ + d;
    let p = ":"@;
    assert forall|j: int| 0 <= j < id.len() implies !matches_at(s, j, p) by {
        if matches_at(s, j, p) {
            assert(s.subrange(j, j + 1)[0] == s[j]);
        }
    }
    assert(s.subrange(id.len() as int, id.len() + 1int) =~= p);
    lemma_find_first(s, p, 0, id.len() as int);
    assert(s.take(id.len() as int) =~= id);
    assert(s.skip(id.len() + 1int) =~= d);
    assert forall|j: int| 0 <= j implies !matches_at(d, j, p) by {
        if matches_at(d, j, p) {
            assert(d.subrange(j, j + 1)[0] == d[j]);
        }
    }
    lemma_find_none(d, p, 0);
    assert(split(d, p) == seq![d]);
    assert(split(s, p) =~= seq![id] + seq![d]);
}

/// The context a request carries (its correlation id in UTF-8) reads back as that
/// id, so the response is routed to what was registered under it.
pub proof fn lemma_context_names_its_id(cid: Seq<char>)
    ensures
        utf8_context(Some(vstd::utf8::encode_utf8(cid))),
        decoded_context(Some(vstd::utf8::encode_utf8(cid))) == Some(cid),
{
    vstd::utf8::encode_utf8_valid_utf8(cid);
    vstd::utf8::encode_utf8_decode_utf8(cid);
}

} // verus!
