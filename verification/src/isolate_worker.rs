//! The loop of an isolate worker: when an isolate is used again, and when it is made anew.
//!
//! An isolate never serves two clients. A worker tells the scheduler that it is done only when its
//! isolate is ready for the next request.
use vstd::prelude::*;
use vstd::string::*;

use crate::context_cache::CachedContexts;
use crate::metric_log::{counter, MetricLog, UpdateView};
use crate::metrics::log_recreate_isolate;
use crate::text::same_text;
use crate::time::Duration;

verus! {

pub open spec fn recreate_update(reason: Seq<char>) -> UpdateView {
    counter("recreate_isolate_total"@, 1, seq![("reason"@, reason)])
}

/// Why an isolate that served a request is made anew, if it is.
pub open spec fn recreate_reason(
    reuse_isolates: bool,
    unclean: Option<Seq<char>>,
    age: nat,
    max_lifetime: nat,
) -> Option<Seq<char>> {
    if !reuse_isolates {
        Some("env_disabled"@)
    } else if unclean is Some {
        unclean
    } else if age > max_lifetime {
        Some("max_lifetime"@)
    } else {
        None
    }
}

/// What a request left behind in an isolate.
#[derive(Clone, Copy, Debug)]
pub struct IsolateState {
    pub reuse_isolates: bool,
    /// Why the isolate is not clean, if it is not.
    pub unclean: Option<&'static str>,
    pub age: Duration,
    pub max_lifetime: Duration,
}

impl IsolateState {
    pub open spec fn reason(self) -> Option<Seq<char>> {
        recreate_reason(
            self.reuse_isolates,
            match self.unclean {
                Some(reason) => Some(reason@),
                None => None,
            },
            self.age@,
            self.max_lifetime@,
        )
    }
}

/// Whether an isolate that served a request is made anew.
pub fn should_recreate_isolate(state: &IsolateState, log: &mut MetricLog) -> (recreate: bool)
    ensures
        match state.reason() {
            Some(reason) => recreate && final(log)@ == old(log)@.push(recreate_update(reason)),
            None => !recreate && final(log)@ == old(log)@,
        },
{
    if !state.reuse_isolates {
        log_recreate_isolate(log, "env_disabled");
        return true;
    }
    if let Some(reason) = state.unclean {
        log_recreate_isolate(log, reason);
        return true;
    }
    if state.age.as_nanos() > state.max_lifetime.as_nanos() {
        log_recreate_isolate(log, "max_lifetime");
        return true;
    }
    false
}

/// What a worker does before it waits.
#[derive(Clone, Copy, Debug, PartialEq, Eq, Structural)]
pub enum PrepareStep {
    /// It makes its isolate anew.
    Recreate,
    /// It tells the scheduler that it is done with its last request.
    Announce,
    /// It waits for a request.
    Wait,
}

/// What a worker does when a request is there.
#[derive(Clone, Copy, Debug, PartialEq, Eq, Structural)]
pub enum PeekStep {
    /// It ends: no more requests will come.
    End,
    /// It makes its isolate anew, and looks at the request again.
    Recreate,
    /// It serves the request.
    Accept { reused: bool },
}

/// What a worker remembers of its isolate.
pub struct WorkerLoop {
    last_client_id: Option<String>,
    last_request: Option<String>,
    announcement_due: bool,
}

/// What a `WorkerLoop` holds.
pub struct WorkerModel {
    /// The client that the isolate is for, once it is known.
    pub client: Option<Seq<char>>,
    /// The request that the isolate served last.
    pub last_request: Option<Seq<char>>,
    /// Whether the scheduler has still to be told that a request is done with.
    pub announcement_due: bool,
}

pub open spec fn text_of(text: Option<String>) -> Option<Seq<char>> {
    match text {
        Some(text) => Some(text@),
        None => None,
    }
}

impl View for WorkerLoop {
    type V = WorkerModel;

    closed spec fn view(&self) -> WorkerModel {
        WorkerModel {
            client: text_of(self.last_client_id),
            last_request: text_of(self.last_request),
            announcement_due: self.announcement_due,
        }
    }
}

impl WorkerModel {
    /// The worker with an isolate that was made anew. What the scheduler has to be told stays due.
    pub open spec fn with_new_isolate(self) -> WorkerModel {
        WorkerModel { client: None, last_request: None, ..self }
    }

    /// What the worker does when a request of a client is there, and the worker afterwards.
    pub open spec fn peek(self, client: Seq<char>) -> (PeekStep, WorkerModel) {
        if self.client is Some && self.client != Some(client) {
            (PeekStep::Recreate, self.with_new_isolate())
        } else {
            (
                PeekStep::Accept { reused: self.client is Some },
                WorkerModel { client: Some(client), announcement_due: true, ..self },
            )
        }
    }

    /// What the worker does before it waits, and the worker afterwards.
    pub open spec fn prepared(self, reason: Option<Seq<char>>) -> (PrepareStep, WorkerModel) {
        if self.last_request is Some && reason is Some {
            (PrepareStep::Recreate, self.with_new_isolate())
        } else if self.announcement_due {
            (PrepareStep::Announce, WorkerModel { announcement_due: false, ..self })
        } else {
            (PrepareStep::Wait, self)
        }
    }

    /// The worker after it served a request.
    pub open spec fn after_request(self, request: Seq<char>, isolate_clean: bool) -> WorkerModel {
        if isolate_clean {
            WorkerModel { last_request: Some(request), ..self }
        } else {
            self.with_new_isolate()
        }
    }
}

impl WorkerLoop {
    pub fn new() -> (worker: WorkerLoop)
        ensures
            worker@ == (WorkerModel { client: None, last_request: None, announcement_due: false }),
    {
        WorkerLoop { last_client_id: None, last_request: None, announcement_due: false }
    }

    fn recreate(&mut self)
        ensures
            final(self)@ == old(self)@.with_new_isolate(),
    {
        self.last_client_id = None;
        self.last_request = None;
    }

    /// Whether the isolate has to be looked at before it is used again.
    pub fn served_before(&self) -> (served: bool)
        ensures
            served == (self@.last_request is Some),
    {
        self.last_request.is_some()
    }

    /// Decides what to do before waiting. An isolate that served a request is looked at first.
    pub fn prepare(&mut self, state: &IsolateState, log: &mut MetricLog) -> (step: PrepareStep)
        ensures
            (step, final(self)@) == old(self)@.prepared(state.reason()),
            if old(self)@.last_request is Some && state.reason() is Some {
                &&& step == PrepareStep::Recreate
                &&& final(self)@ == old(self)@.with_new_isolate()
                &&& final(log)@ == old(log)@.push(recreate_update(state.reason()->0))
            } else {
                &&& step == (if old(self)@.announcement_due {
                    PrepareStep::Announce
                } else {
                    PrepareStep::Wait
                })
                &&& final(self)@ == (WorkerModel { announcement_due: false, ..old(self)@ })
                &&& final(log)@ == old(log)@
            },
    {
        if self.last_request.is_some() && should_recreate_isolate(state, log) {
            self.recreate();
            return PrepareStep::Recreate;
        }
        if self.announcement_due {
            self.announcement_due = false;
            PrepareStep::Announce
        } else {
            PrepareStep::Wait
        }
    }

    /// Whether the worker makes its isolate anew when no request comes for long. An isolate that
    /// served no client need not be.
    pub fn has_idle_timeout(&self) -> (has: bool)
        ensures
            has == (self@.client is Some),
    {
        self.last_client_id.is_some()
    }

    /// No request came for long. The isolate is made anew, and its contexts are destroyed with it;
    /// what is returned are those of the new one, which the scheduler has to be told of, for it
    /// holds the worker to be idle.
    pub fn idle_timeout(&mut self, log: &mut MetricLog) -> (contexts: CachedContexts)
        requires
            old(self)@.client is Some,
        ensures
            final(self)@ == old(self)@.with_new_isolate(),
            final(log)@ == old(log)@.push(recreate_update("idle_timeout"@)),
            contexts@.len() == 0,
    {
        log_recreate_isolate(log, "idle_timeout");
        self.recreate();
        CachedContexts { saved_contexts: Vec::new() }
    }

    /// A request of a client is there, or none will come. A request of another client needs an
    /// isolate that was made anew.
    pub fn peeked(&mut self, client_id: Option<&str>, log: &mut MetricLog) -> (step: PeekStep)
        ensures
            client_id matches Some(client_id) ==> (step, final(self)@) == old(self)@.peek(client_id@),
            match client_id {
                None => step == PeekStep::End && final(self)@ == old(self)@ && final(log)@ == old(
                    log)@,
                Some(client_id) => match old(self)@.client {
                    None => {
                        &&& step == (PeekStep::Accept { reused: false })
                        &&& final(self)@ == (WorkerModel {
                            client: Some(client_id@),
                            announcement_due: true,
                            ..old(self)@
                        })
                        &&& final(log)@ == old(log)@
                    },
                    Some(client) => if client == client_id@ {
                        &&& step == (PeekStep::Accept { reused: true })
                        &&& final(self)@ == (WorkerModel { announcement_due: true, ..old(self)@ })
                        &&& final(log)@ == old(log)@
                    } else {
                        &&& step == PeekStep::Recreate
                        &&& final(self)@ == old(self)@.with_new_isolate()
                        &&& final(log)@ == old(log)@.push(recreate_update("client_id_changed"@))
                    },
                },
            },
    {
        let client_id = match client_id {
            Some(client_id) => client_id,
            None => {
                return PeekStep::End;
            },
        };
        let same = match &self.last_client_id {
            Some(last) => Some(same_text(last.as_str(), client_id)),
            None => None,
        };
        match same {
            None => {
                self.last_client_id = Some(client_id.to_owned());
                self.announcement_due = true;
                PeekStep::Accept { reused: false }
            },
            Some(true) => {
                self.announcement_due = true;
                PeekStep::Accept { reused: true }
            },
            Some(false) => {
                log_recreate_isolate(log, "client_id_changed");
                self.recreate();
                PeekStep::Recreate
            },
        }
    }

    /// A request was served. An isolate that it did not leave clean is made anew.
    pub fn served(&mut self, debug_str: String, isolate_clean: bool) -> (recreate: bool)
        ensures
            recreate == !isolate_clean,
            final(self)@ == old(self)@.after_request(debug_str@, isolate_clean),
            final(self)@ == (if isolate_clean {
                WorkerModel { last_request: Some(debug_str@), ..old(self)@ }
            } else {
                old(self)@.with_new_isolate()
            }),
    {
        if !isolate_clean {
            self.recreate();
            return true;
        }
        self.last_request = Some(debug_str);
        false
    }
}

/// What a worker is told when a request is there.
pub open spec fn accepts(worker: WorkerModel, client: Seq<char>) -> bool {
    worker.client is None || worker.client == Some(client)
}

/// An isolate serves the requests of one client: once it accepted a request, it accepts none of
/// another client until it is made anew.
pub proof fn isolates_serve_one_client(worker: WorkerModel, first: Seq<char>, second: Seq<char>)
    requires
        worker.client == Some(first),
        accepts(worker, second),
    ensures
        first == second,
{
}

/// An isolate that was made anew accepts every client, and the scheduler is still told of the
/// request that was served before.
pub proof fn new_isolates_accept_every_client(worker: WorkerModel, client: Seq<char>)
    ensures
        accepts(worker.with_new_isolate(), client),
        worker.with_new_isolate().announcement_due == worker.announcement_due,
{
}

/// The parts of a text between spaces, without empty ones, from position `i` on; `word` is the part
/// that was begun.
pub open spec fn flags_from(text: Seq<char>, i: int, word: Seq<char>) -> Seq<Seq<char>>
    decreases text.len() - i,
{
    let done = if word.len() > 0 {
        seq![word]
    } else {
        Seq::empty()
    };
    if i >= text.len() {
        done
    } else if text[i] == ' ' {
        done + flags_from(text, i + 1, Seq::empty())
    } else {
        flags_from(text, i + 1, word.push(text[i]))
    }
}

/// The flags that every isolate runs with. The first one is ignored.
pub open spec fn default_flags() -> Seq<Seq<char>> {
    seq![
        ""@,
        "--no-wasm-async-compilation"@,
        "--disallow-code-generation-from-strings"@,
        "--stack-size=2048"@,
        "--js-base-64"@,
    ]
}

pub open spec fn flag_texts(flags: Seq<String>) -> Seq<Seq<char>> {
    flags.map_values(|flag: String| flag@)
}

/// The flags that isolates run with: those that all have, and those that were asked for.
pub fn v8_flags(extra: Option<&str>) -> (flags: Vec<String>)
    ensures
        flag_texts(flags@) == default_flags() + (match extra {
            Some(extra) => flags_from(extra@, 0, Seq::empty()),
            None => Seq::empty(),
        }),
{
    let mut flags: Vec<String> = Vec::new();
    flags.push("".to_owned());
    flags.push("--no-wasm-async-compilation".to_owned());
    flags.push("--disallow-code-generation-from-strings".to_owned());
    flags.push("--stack-size=2048".to_owned());
    flags.push("--js-base-64".to_owned());
    assert(flag_texts(flags@) =~= default_flags());
    if let Some(extra) = extra {
        let chars = crate::text::chars_of(extra);
        let mut start: usize = 0;
        let mut i: usize = 0;
        assert(chars@.subrange(0, 0) =~= Seq::<char>::empty());
        while i < chars.len()
            invariant
                start <= i <= chars.len(),
                chars@ == extra@,
                flag_texts(flags@) + flags_from(
                    chars@,
                    i as int,
                    chars@.subrange(start as int, i as int),
                ) == default_flags() + flags_from(extra@, 0, Seq::empty()),
            decreases chars.len() - i,
        {
            let ghost shown = flag_texts(flags@);
            let ghost begun = chars@.subrange(start as int, i as int);
            if chars[i] == ' ' {
                if start < i {
                    flags.push(extra.substring_char(start, i).to_owned());
                    assert(flag_texts(flags@) =~= shown.push(begun));
                }
                start = i + 1;
                assert(chars@.subrange(start as int, i + 1) =~= Seq::<char>::empty());
                assert(flag_texts(flags@) + flags_from(chars@, i + 1, Seq::empty()) =~= shown
                    + flags_from(chars@, i as int, begun));
            } else {
                assert(chars@.subrange(start as int, i + 1) =~= begun.push(chars@[i as int]));
            }
            i = i + 1;
        }
        let ghost shown = flag_texts(flags@);
        let ghost begun = chars@.subrange(start as int, i as int);
        if start < i {
            flags.push(extra.substring_char(start, i).to_owned());
            assert(flag_texts(flags@) =~= shown + seq![begun]);
        } else {
            assert(flag_texts(flags@) =~= shown + Seq::<Seq<char>>::empty());
        }
    } else {
        assert(flag_texts(flags@) =~= default_flags() + Seq::<Seq<char>>::empty());
    }
    flags
}

/// An isolate that served a request is made anew if isolates are not used again, if it is not clean,
/// or if it is older than it may be, and otherwise not. What made it unclean is told before its age.
pub proof fn isolates_are_made_anew_for_a_reason(
    reuse_isolates: bool,
    unclean: Option<Seq<char>>,
    age: nat,
    max_lifetime: nat,
)
    ensures
        ({
            let reason = recreate_reason(reuse_isolates, unclean, age, max_lifetime);
            &&& reason is None <==> reuse_isolates && unclean is None && age <= max_lifetime
            &&& reuse_isolates && unclean is Some ==> reason == unclean
            &&& !reuse_isolates ==> reason == Some("env_disabled"@)
            &&& reuse_isolates && unclean is None && age > max_lifetime ==> reason == Some(
                "max_lifetime"@,
            )
        }),
{
}

/// A request is accepted by an isolate of its own client, or by one that has none yet. A request of
/// another client is accepted only after the isolate was made anew, and then by one that served
/// nobody; either way the scheduler will be told.
pub proof fn another_client_gets_another_isolate(worker: WorkerModel, client: Seq<char>)
    ensures
        ({
            let (step, after) = worker.peek(client);
            &&& step is Accept <==> worker.client is None || worker.client == Some(client)
            &&& step is Accept || step is Recreate
            &&& step is Accept ==> after.client == Some(client) && after.announcement_due
                && after.last_request == worker.last_request
            &&& step matches PeekStep::Accept { reused } ==> reused == (worker.client
                == Some(client))
            &&& step is Recreate ==> after.client is None && after.last_request is None
                && after.announcement_due == worker.announcement_due
            &&& step is Recreate ==> after.peek(client).0 == (PeekStep::Accept { reused: false })
        }),
{
}

/// The scheduler is told that a worker is done only when its isolate can be used again: one that
/// served a request and has to be made anew is made anew first, and the scheduler is told after
/// that. It is told once for each request.
pub proof fn workers_announce_usable_isolates(worker: WorkerModel, reason: Option<Seq<char>>)
    ensures
        ({
            let (step, after) = worker.prepared(reason);
            &&& step is Recreate <==> worker.last_request is Some && reason is Some
            &&& step is Announce ==> worker.announcement_due && !after.announcement_due && (
            worker.last_request is None || reason is None)
            &&& step is Announce || step is Wait ==> after.client == worker.client
                && after.last_request == worker.last_request
            &&& step is Wait ==> !worker.announcement_due && after == worker
            &&& step is Recreate ==> after.client is None && after.last_request is None
                && after.announcement_due == worker.announcement_due
            &&& step is Recreate && worker.announcement_due ==> after.prepared(reason).0
                == PrepareStep::Announce
            &&& step is Announce ==> after.prepared(reason).0 == PrepareStep::Wait
        }),
{
}

/// An isolate that a request did not leave clean serves no further request; one that it left clean
/// goes on serving the same client, and the request is remembered as its last.
pub proof fn unclean_isolates_are_not_used_again(
    worker: WorkerModel,
    request: Seq<char>,
    isolate_clean: bool,
)
    ensures
        ({
            let after = worker.after_request(request, isolate_clean);
            &&& isolate_clean ==> after.client == worker.client && after.last_request == Some(request)
            &&& !isolate_clean ==> after.client is None && after.last_request is None
            &&& after.announcement_due == worker.announcement_due
        }),
{
}

proof fn lemma_flags_shift(head: Seq<char>, tail: Seq<char>, j: int, word: Seq<char>)
    requires
        0 <= j <= tail.len(),
    ensures
        flags_from(head + tail, head.len() + j, word) == flags_from(tail, j, word),
    decreases tail.len() - j,
{
    if j < tail.len() {
        assert((head + tail)[head.len() + j] == tail[j]);
        lemma_flags_shift(head, tail, j + 1, Seq::empty());
        lemma_flags_shift(head, tail, j + 1, word.push(tail[j]));
    }
}

proof fn lemma_flags_split(first: Seq<char>, second: Seq<char>, i: int, word: Seq<char>)
    requires
        0 <= i <= first.len(),
    ensures
        flags_from(first + seq![' '] + second, i, word) == flags_from(first, i, word) + flags_from(
            second,
            0,
            Seq::empty(),
        ),
    decreases first.len() - i,
{
    let text = first + seq![' '] + second;
    if i < first.len() {
        assert(text[i] == first[i]);
        if first[i] == ' ' {
            lemma_flags_split(first, second, i + 1, Seq::empty());
            let done = if word.len() > 0 {
                seq![word]
            } else {
                Seq::empty()
            };
            assert(done + (flags_from(first, i + 1, Seq::empty()) + flags_from(
                second,
                0,
                Seq::empty(),
            )) =~= done + flags_from(first, i + 1, Seq::empty()) + flags_from(
                second,
                0,
                Seq::empty(),
            ));
        } else {
            lemma_flags_split(first, second, i + 1, word.push(first[i]));
        }
    } else {
        assert(text[i] == ' ');
        lemma_flags_shift(first + seq![' '], second, 0, Seq::empty());
    }
}

/// A space parts two lists of flags: the flags of both together are those of the first and then
/// those of the second.
pub proof fn spaces_part_flags(first: Seq<char>, second: Seq<char>)
    ensures
        flags_from(first + seq![' '] + second, 0, Seq::empty()) == flags_from(
            first,
            0,
            Seq::empty(),
        ) + flags_from(second, 0, Seq::empty()),
{
    lemma_flags_split(first, second, 0, Seq::empty());
}

/// A text without a space is one flag, if it is not empty.
pub proof fn texts_without_spaces_are_one_flag(text: Seq<char>, i: int)
    requires
        0 <= i <= text.len(),
        forall|k: int| 0 <= k < text.len() ==> #[trigger] text[k] != ' ',
    ensures
        flags_from(text, i, text.take(i)) == (if text.len() > 0 {
            seq![text]
        } else {
            Seq::empty()
        }),
        i == 0 ==> flags_from(text, 0, Seq::empty()) == (if text.len() > 0 {
            seq![text]
        } else {
            Seq::empty()
        }),
    decreases text.len() - i,
{
    if i < text.len() {
        texts_without_spaces_are_one_flag(text, i + 1);
        assert(text.take(i).push(text[i]) =~= text.take(i + 1));
    }
    assert(text.take(text.len() as int) =~= text);
    assert(text.take(0) =~= Seq::empty());
}

} // verus!
