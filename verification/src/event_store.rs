use vstd::prelude::*;
use sqlx::types::Uuid;
use crate::event::Event;

verus! {

broadcast use vstd::string::to_string_from_display_ensures_for_str;

/// Why storing or loading events failed.
#[derive(Clone, Copy, PartialEq, Eq, Debug)]
pub enum EventStoreError {
    AggregateInsertError,
    EventInsertError,
    TrxError,
    DbError,
    EventJsonConversionError,
}

impl EventStoreError {
    pub open spec fn spec_message(&self) -> Seq<char> {
        match self {
            EventStoreError::AggregateInsertError => "Error inserting/updating aggregate"@,
            EventStoreError::EventInsertError => "Error inserting event"@,
            EventStoreError::TrxError => "Error create/commit transaction"@,
            EventStoreError::DbError => "Error make query to database"@,
            EventStoreError::EventJsonConversionError => "Error converting event to JSON"@,
        }
    }

    /// The message that describes the error.
    pub fn message(&self) -> (r: String)
        ensures
            r@ == self.spec_message(),
    {
        match self {
            EventStoreError::AggregateInsertError => "Error inserting/updating aggregate".to_string(),
            EventStoreError::EventInsertError => "Error inserting event".to_string(),
            EventStoreError::TrxError => "Error create/commit transaction".to_string(),
            EventStoreError::DbError => "Error make query to database".to_string(),
            EventStoreError::EventJsonConversionError => "Error converting event to JSON".to_string(),
        }
    }
}

/// What is written to the store for one event: the aggregate it belongs to,
/// the version it brings the aggregate to, and the type names of the event
/// and of the aggregate.
pub struct EventRecord {
    pub aggregate_id: Uuid,
    pub version: i32,
    pub event_type: String,
    pub aggregate_type: String,
}

impl EventRecord {
    pub fn of<E: Event>(event: &E) -> (r: EventRecord)
        ensures
            r.aggregate_id == event.spec_aggregate_id(),
            r.version == event.spec_version(),
            r.event_type@ == event.spec_event_type(),
            r.aggregate_type@ == E::spec_aggregate_type(),
    {
        EventRecord {
            aggregate_id: event.aggregate_id(),
            version: event.version(),
            event_type: event.event_type(),
            aggregate_type: E::aggregate_type(),
        }
    }
}

/// Turns the rows read back for an aggregate into its events, in row order.
/// `decoded` is `Err` when the query failed, and otherwise holds for each row
/// its event, or `None` when the row's data could not be decoded.
pub fn collect_events<E>(decoded: Result<Vec<Option<E>>, ()>) -> (r: Result<Vec<E>, EventStoreError>)
    ensures
        decoded is Err ==> r == Err::<Vec<E>, EventStoreError>(EventStoreError::DbError),
        decoded is Ok && (exists|i: int| 0 <= i < decoded->Ok_0@.len() && #[trigger] decoded->Ok_0@[i] is None)
            ==> r == Err::<Vec<E>, EventStoreError>(EventStoreError::EventJsonConversionError),
        decoded is Ok && (forall|i: int| 0 <= i < decoded->Ok_0@.len() ==> #[trigger] decoded->Ok_0@[i] is Some)
            ==> r is Ok && r->Ok_0@.len() == decoded->Ok_0@.len()
                && forall|i: int| 0 <= i < r->Ok_0@.len() ==> Some(#[trigger] r->Ok_0@[i]) == decoded->Ok_0@[i],
{
    let rows = match decoded {
        Ok(rows) => rows,
        Err(()) => {
            return Err(EventStoreError::DbError);
        },
    };
    let ghost all = rows@;
    assert(all == decoded->Ok_0@);
    let mut events: Vec<E> = Vec::new();
    for row in it: rows.into_iter()
        invariant
            decoded is Ok,
            all == decoded->Ok_0@,
            it.seq() == all,
            events@.len() == it.index(),
            forall|j: int| 0 <= j < it.index() ==> Some(#[trigger] events@[j]) == all[j],
    {
        match row {
            Some(event) => {
                events.push(event);
            },
            None => {
                assert(all[it.index() as int] is None);
                return Err(EventStoreError::EventJsonConversionError);
            },
        }
    }
    assert forall|j: int| 0 <= j < all.len() implies #[trigger] all[j] is Some by {
        assert(Some(events@[j]) == all[j]);
    }
    Ok(events)
}

} // verus!

verus! {

/// The next piece of outside work while a batch of events is saved, or the
/// outcome of the whole save. Indices refer to the batch, in order.
#[derive(Clone, Copy, PartialEq, Eq, Debug)]
pub enum SaveAction {
    /// Open the database transaction.
    BeginTransaction,
    /// Convert the event to its stored JSON form.
    SerializeEvent(usize),
    /// Look up the aggregate row that the event belongs to.
    FindAggregate(usize),
    /// The aggregate row exists: set its version to the event's version.
    UpdateAggregate(usize),
    /// The aggregate row is missing: insert it with the event's aggregate id,
    /// version and aggregate type.
    InsertAggregate(usize),
    /// Insert the event row.
    InsertEvent(usize),
    /// Commit the transaction.
    Commit,
    /// The save is over, with this result.
    Finish(Result<(), EventStoreError>),
}

/// The error that ends a save when the given piece of work fails.
pub open spec fn failure_of(action: SaveAction) -> EventStoreError {
    match action {
        SaveAction::BeginTransaction => EventStoreError::TrxError,
        SaveAction::SerializeEvent(_) => EventStoreError::EventJsonConversionError,
        SaveAction::FindAggregate(_) => EventStoreError::DbError,
        SaveAction::UpdateAggregate(_) => EventStoreError::AggregateInsertError,
        SaveAction::InsertAggregate(_) => EventStoreError::AggregateInsertError,
        SaveAction::InsertEvent(_) => EventStoreError::EventInsertError,
        SaveAction::Commit => EventStoreError::TrxError,
        SaveAction::Finish(_) => EventStoreError::TrxError,
    }
}

/// The work that follows `pending` in a save of `count` events, given how
/// `pending` went: `Err` when it failed, `Ok(exists)` when it succeeded, where
/// `exists` tells, for a lookup, whether the aggregate row was found (and is
/// ignored otherwise). The first failure ends the save with its error; after
/// the last event row the transaction is committed.
pub open spec fn next_action(count: nat, pending: SaveAction, reply: Result<bool, ()>) -> SaveAction {
    match pending {
        SaveAction::Finish(result) => SaveAction::Finish(result),
        _ => {
            if reply is Err {
                SaveAction::Finish(Err(failure_of(pending)))
            } else {
                match pending {
                    SaveAction::BeginTransaction => if count == 0 {
                        SaveAction::Commit
                    } else {
                        SaveAction::SerializeEvent(0)
                    },
                    SaveAction::SerializeEvent(i) => SaveAction::FindAggregate(i),
                    SaveAction::FindAggregate(i) => if reply->Ok_0 {
                        SaveAction::UpdateAggregate(i)
                    } else {
                        SaveAction::InsertAggregate(i)
                    },
                    SaveAction::UpdateAggregate(i) => SaveAction::InsertEvent(i),
                    SaveAction::InsertAggregate(i) => SaveAction::InsertEvent(i),
                    SaveAction::InsertEvent(i) => if i + 1 < count {
                        SaveAction::SerializeEvent((i + 1) as usize)
                    } else {
                        SaveAction::Commit
                    },
                    _ => SaveAction::Finish(Ok(())),
                }
            }
        },
    }
}

/// The decisions of saving a batch of events in one transaction: for each
/// event in order, convert it, write its aggregate row (update or insert) and
/// its event row; then commit. The caller performs each action and reports
/// back how it went.
pub struct SaveEvents {
    count: usize,
    pending: SaveAction,
}

/// What a save in progress holds: the size of the batch and the work whose
/// outcome it awaits.
pub struct SaveEventsView {
    pub count: nat,
    pub pending: SaveAction,
}

impl View for SaveEvents {
    type V = SaveEventsView;

    closed spec fn view(&self) -> SaveEventsView {
        SaveEventsView { count: self.count as nat, pending: self.pending }
    }
}

/// Every event index that an action names lies in the batch.
pub open spec fn action_in_batch(count: nat, action: SaveAction) -> bool {
    match action {
        SaveAction::SerializeEvent(i) => i < count,
        SaveAction::FindAggregate(i) => i < count,
        SaveAction::UpdateAggregate(i) => i < count,
        SaveAction::InsertAggregate(i) => i < count,
        SaveAction::InsertEvent(i) => i < count,
        _ => true,
    }
}

impl SaveEvents {
    #[verifier::type_invariant]
    closed spec fn in_batch(self) -> bool {
        action_in_batch(self.count as nat, self.pending)
    }

    /// Starts the save of `count` events: the first work is to open the
    /// transaction.
    pub fn start(count: usize) -> (r: SaveEvents)
        ensures
            r@ == (SaveEventsView { count: count as nat, pending: SaveAction::BeginTransaction }),
    {
        SaveEvents { count, pending: SaveAction::BeginTransaction }
    }

    /// The work whose outcome the save awaits, or its result once it is over.
    pub fn pending(&self) -> (r: SaveAction)
        ensures
            r == self@.pending,
            action_in_batch(self@.count, r),
    {
        proof {
            use_type_invariant(self);
        }
        self.pending
    }

    /// Takes the outcome of the pending work and returns what comes next.
    pub fn step(&mut self, reply: Result<bool, ()>) -> (r: SaveAction)
        ensures
            final(self)@.count == old(self)@.count,
            final(self)@.pending == r,
            r == next_action(old(self)@.count, old(self)@.pending, reply),
            action_in_batch(old(self)@.count, r),
    {
        proof {
            use_type_invariant(&*self);
        }
        let next = match self.pending {
            SaveAction::Finish(result) => SaveAction::Finish(result),
            pending => match reply {
                Err(()) => SaveAction::Finish(Err(Self::failure(pending))),
                Ok(exists) => match pending {
                    SaveAction::BeginTransaction => if self.count == 0 {
                        SaveAction::Commit
                    } else {
                        SaveAction::SerializeEvent(0)
                    },
                    SaveAction::SerializeEvent(i) => SaveAction::FindAggregate(i),
                    SaveAction::FindAggregate(i) => if exists {
                        SaveAction::UpdateAggregate(i)
                    } else {
                        SaveAction::InsertAggregate(i)
                    },
                    SaveAction::UpdateAggregate(i) => SaveAction::InsertEvent(i),
                    SaveAction::InsertAggregate(i) => SaveAction::InsertEvent(i),
                    SaveAction::InsertEvent(i) => if i + 1 < self.count {
                        SaveAction::SerializeEvent(i + 1)
                    } else {
                        SaveAction::Commit
                    },
                    _ => SaveAction::Finish(Ok(())),
                },
            },
        };
        self.pending = next;
        next
    }

    fn failure(action: SaveAction) -> (r: EventStoreError)
        ensures
            r == failure_of(action),
    {
        match action {
            SaveAction::BeginTransaction => EventStoreError::TrxError,
            SaveAction::SerializeEvent(_) => EventStoreError::EventJsonConversionError,
            SaveAction::FindAggregate(_) => EventStoreError::DbError,
            SaveAction::UpdateAggregate(_) => EventStoreError::AggregateInsertError,
            SaveAction::InsertAggregate(_) => EventStoreError::AggregateInsertError,
            SaveAction::InsertEvent(_) => EventStoreError::EventInsertError,
            SaveAction::Commit => EventStoreError::TrxError,
            SaveAction::Finish(_) => EventStoreError::TrxError,
        }
    }
}

} // verus!

verus! {

/// The actions that a save issues, one per reply, starting from `pending`.
pub open spec fn trace(count: nat, pending: SaveAction, replies: Seq<Result<bool, ()>>) -> Seq<SaveAction>
    decreases replies.len(),
{
    if replies.len() == 0 {
        Seq::empty()
    } else {
        let next = next_action(count, pending, replies[0]);
        seq![next] + trace(count, next, replies.drop_first())
    }
}

/// The pending action after the replies, starting from `pending`.
pub open spec fn run(count: nat, pending: SaveAction, replies: Seq<Result<bool, ()>>) -> SaveAction
    decreases replies.len(),
{
    if replies.len() == 0 {
        pending
    } else {
        run(count, next_action(count, pending, replies[0]), replies.drop_first())
    }
}

/// The replies of a save in which every piece of work for the first `k`
/// events succeeds, `found[i]` telling whether event `i`'s aggregate row
/// already existed.
pub open spec fn successful_replies(found: Seq<bool>, k: nat) -> Seq<Result<bool, ()>>
    decreases k,
{
    if k == 0 {
        Seq::empty()
    } else {
        successful_replies(found, (k - 1) as nat) + seq![
            Ok(false),
            Ok(found[k - 1]),
            Ok(false),
            Ok(false),
        ]
    }
}

/// The actions issued for event `i` of `count` once its conversion succeeded:
/// look up its aggregate, write the aggregate row, write the event row, then
/// go on to the next event or commit.
pub open spec fn event_actions(count: nat, i: nat, found: bool) -> Seq<SaveAction> {
    seq![
        SaveAction::FindAggregate(i as usize),
        if found {
            SaveAction::UpdateAggregate(i as usize)
        } else {
            SaveAction::InsertAggregate(i as usize)
        },
        SaveAction::InsertEvent(i as usize),
        if i + 1 < count {
            SaveAction::SerializeEvent((i + 1) as usize)
        } else {
            SaveAction::Commit
        },
    ]
}

/// The actions issued for the first `k` events, in order.
pub open spec fn events_actions(count: nat, found: Seq<bool>, k: nat) -> Seq<SaveAction>
    decreases k,
{
    if k == 0 {
        Seq::empty()
    } else {
        events_actions(count, found, (k - 1) as nat) + event_actions(count, (k - 1) as nat, found[k - 1])
    }
}

proof fn lemma_trace_concat(count: nat, pending: SaveAction, first: Seq<Result<bool, ()>>, second: Seq<Result<bool, ()>>)
    ensures
        trace(count, pending, first + second) == trace(count, pending, first) + trace(count, run(count, pending, first), second),
        run(count, pending, first + second) == run(count, run(count, pending, first), second),
    decreases first.len(),
{
    if first.len() == 0 {
        assert(first + second =~= second);
    } else {
        let next = next_action(count, pending, first[0]);
        assert((first + second).drop_first() =~= first.drop_first() + second);
        lemma_trace_concat(count, next, first.drop_first(), second);
        assert(trace(count, pending, first + second) =~= trace(count, pending, first) + trace(count, run(count, pending, first), second));
    }
}

proof fn lemma_one_event(count: nat, i: nat, found: bool)
    requires
        i < count <= usize::MAX,
    ensures
        trace(count, SaveAction::SerializeEvent(i as usize), seq![Ok(false), Ok(found), Ok(false), Ok(false)])
            == event_actions(count, i, found),
        run(count, SaveAction::SerializeEvent(i as usize), seq![Ok(false), Ok(found), Ok(false), Ok(false)])
            == (if i + 1 < count { SaveAction::SerializeEvent((i + 1) as usize) } else { SaveAction::Commit }),
{
    let rs: Seq<Result<bool, ()>> = seq![Ok(false), Ok(found), Ok(false), Ok(false)];
    let p0 = SaveAction::SerializeEvent(i as usize);
    let r1 = rs.drop_first();
    let r2 = r1.drop_first();
    let r3 = r2.drop_first();
    let r4 = r3.drop_first();
    assert(r1 =~= seq![Ok(found), Ok(false), Ok(false)]);
    assert(r2 =~= seq![Ok(false), Ok(false)]);
    assert(r3 =~= seq![Ok(false)]);
    assert(r4 =~= Seq::<Result<bool, ()>>::empty());
    let p1 = next_action(count, p0, rs[0]);
    let p2 = next_action(count, p1, r1[0]);
    let p3 = next_action(count, p2, r2[0]);
    let p4 = next_action(count, p3, r3[0]);
    assert(p1 == SaveAction::FindAggregate(i as usize));
    assert(p2 == (if found { SaveAction::UpdateAggregate(i as usize) } else { SaveAction::InsertAggregate(i as usize) }));
    assert(p3 == SaveAction::InsertEvent(i as usize));
    assert(trace(count, p3, r3) == seq![p4] + trace(count, p4, r4));
    assert(trace(count, p3, r3) =~= seq![p4]);
    assert(trace(count, p2, r2) =~= seq![p3, p4]);
    assert(trace(count, p1, r1) =~= seq![p2, p3, p4]);
    assert(trace(count, p0, rs) =~= seq![p1, p2, p3, p4]);
    assert(run(count, p3, r3) == run(count, p4, r4));
    assert(run(count, p2, r2) == run(count, p3, r3));
    assert(run(count, p1, r1) == run(count, p2, r2));
    assert(run(count, p0, rs) == run(count, p1, r1));
    assert(run(count, p0, rs) == p4);
}

proof fn lemma_events(count: nat, found: Seq<bool>, k: nat)
    requires
        found.len() == count,
        0 < count <= usize::MAX,
        k <= count,
    ensures
        trace(count, SaveAction::SerializeEvent(0), successful_replies(found, k)) == events_actions(count, found, k),
        run(count, SaveAction::SerializeEvent(0), successful_replies(found, k))
            == (if k < count { SaveAction::SerializeEvent(k as usize) } else { SaveAction::Commit }),
    decreases k,
{
    if k == 0 {
        assert(trace(count, SaveAction::SerializeEvent(0), Seq::empty()) =~= Seq::<SaveAction>::empty());
    } else {
        let prev = (k - 1) as nat;
        lemma_events(count, found, prev);
        let four: Seq<Result<bool, ()>> = seq![Ok(false), Ok(found[k - 1]), Ok(false), Ok(false)];
        lemma_trace_concat(count, SaveAction::SerializeEvent(0), successful_replies(found, prev), four);
        lemma_one_event(count, prev, found[k - 1]);
    }
}

/// A save in which every piece of work succeeds opens the transaction, then
/// for each event in order converts it, looks up its aggregate, updates the
/// aggregate row if it was found and inserts it otherwise, inserts the event
/// row; then commits, and ends with success.
pub proof fn law_save_success(found: Seq<bool>)
    requires
        found.len() <= usize::MAX,
    ensures
        trace(
            found.len(),
            SaveAction::BeginTransaction,
            seq![Ok(false)] + successful_replies(found, found.len()) + seq![Ok(false)],
        ) == seq![
            if found.len() == 0 { SaveAction::Commit } else { SaveAction::SerializeEvent(0) },
        ] + events_actions(found.len(), found, found.len()) + seq![SaveAction::Finish(Ok(()))],
{
    let n = found.len();
    let begin: Seq<Result<bool, ()>> = seq![Ok(false)];
    let middle = successful_replies(found, n);
    let end: Seq<Result<bool, ()>> = seq![Ok(false)];
    lemma_trace_concat(n, SaveAction::BeginTransaction, begin, middle + end);
    assert(begin + (middle + end) =~= begin + middle + end);
    assert(begin.drop_first().len() == 0);
    let first = if n == 0 { SaveAction::Commit } else { SaveAction::SerializeEvent(0) };
    assert(next_action(n, SaveAction::BeginTransaction, begin[0]) == first);
    assert(trace(n, SaveAction::BeginTransaction, begin) == seq![first] + trace(n, first, begin.drop_first()));
    assert(trace(n, SaveAction::BeginTransaction, begin) =~= seq![first]);
    assert(run(n, SaveAction::BeginTransaction, begin) == run(n, first, begin.drop_first()));
    lemma_trace_concat(n, first, middle, end);
    assert(end.drop_first().len() == 0);
    if n == 0 {
        assert(middle.len() == 0);
        assert(trace(n, first, middle) =~= Seq::<SaveAction>::empty());
        assert(run(n, first, middle) == first);
        assert(events_actions(n, found, n) =~= Seq::<SaveAction>::empty());
    } else {
        lemma_events(n, found, n);
    }
    assert(run(n, first, middle) == SaveAction::Commit);
    assert(next_action(n, SaveAction::Commit, end[0]) == SaveAction::Finish(Ok(())));
    assert(trace(n, SaveAction::Commit, end) == seq![SaveAction::Finish(Ok(()))] + trace(n, SaveAction::Finish(Ok(())), end.drop_first()));
    assert(trace(n, run(n, first, middle), end) =~= seq![SaveAction::Finish(Ok(()))]);
}

/// The first failure ends the save with the error that belongs to the failed
/// work, and nothing is done after it: every later reply leaves the result as
/// it is, so the transaction is never committed.
pub proof fn law_save_failure_is_final(count: nat, pending: SaveAction, later: Seq<Result<bool, ()>>)
    requires
        !(pending is Finish),
    ensures
        next_action(count, pending, Err(())) == SaveAction::Finish(Err(failure_of(pending))),
        run(count, SaveAction::Finish(Err(failure_of(pending))), later) == SaveAction::Finish(Err(failure_of(pending))),
        forall|j: int| 0 <= j < later.len() ==>
            #[trigger] trace(count, SaveAction::Finish(Err(failure_of(pending))), later)[j]
                == SaveAction::Finish(Err(failure_of(pending))),
{
    lemma_finished_stays(count, Err(failure_of(pending)), later);
}

proof fn lemma_finished_stays(count: nat, result: Result<(), EventStoreError>, replies: Seq<Result<bool, ()>>)
    ensures
        run(count, SaveAction::Finish(result), replies) == SaveAction::Finish(result),
        trace(count, SaveAction::Finish(result), replies).len() == replies.len(),
        forall|j: int| 0 <= j < replies.len() ==>
            #[trigger] trace(count, SaveAction::Finish(result), replies)[j] == SaveAction::Finish(result),
    decreases replies.len(),
{
    if replies.len() > 0 {
        lemma_finished_stays(count, result, replies.drop_first());
        let t = trace(count, SaveAction::Finish(result), replies);
        assert forall|j: int| 0 <= j < replies.len() implies #[trigger] t[j] == SaveAction::Finish(result) by {
            if j > 0 {
                assert(t[j] == trace(count, SaveAction::Finish(result), replies.drop_first())[j - 1]);
            }
        }
    }
}

} // verus!

verus! {

proof fn lemma_trace_len(count: nat, pending: SaveAction, replies: Seq<Result<bool, ()>>)
    ensures
        trace(count, pending, replies).len() == replies.len(),
    decreases replies.len(),
{
    if replies.len() > 0 {
        lemma_trace_len(count, next_action(count, pending, replies[0]), replies.drop_first());
    }
}

/// A save ends with success only if every piece of work succeeded: if the
/// save has not finished before step `k` and finishes there with success,
/// every reply up to `k` was a success.
pub proof fn law_save_ok_only_if_all_succeeded(count: nat, pending: SaveAction, replies: Seq<Result<bool, ()>>, k: int)
    requires
        !(pending is Finish),
        0 <= k < replies.len(),
        trace(count, pending, replies)[k] == SaveAction::Finish(Ok(())),
        forall|j: int| 0 <= j < k ==> !(#[trigger] trace(count, pending, replies)[j] is Finish),
    ensures
        forall|j: int| 0 <= j <= k ==> #[trigger] replies[j] is Ok,
    decreases k,
{
    let t = trace(count, pending, replies);
    let next = next_action(count, pending, replies[0]);
    let rest = replies.drop_first();
    assert(t == seq![next] + trace(count, next, rest));
    lemma_trace_len(count, next, rest);
    if replies[0] is Err {
        lemma_finished_stays(count, Err(failure_of(pending)), rest);
        if k > 0 {
            assert(t[0] is Finish);
        }
    } else if k > 0 {
        assert(!(t[0] is Finish));
        assert forall|j: int| 0 <= j < k - 1 implies !(#[trigger] trace(count, next, rest)[j] is Finish) by {
            assert(trace(count, next, rest)[j] == t[j + 1]);
        }
        assert(trace(count, next, rest)[k - 1] == t[k]);
        law_save_ok_only_if_all_succeeded(count, next, rest, k - 1);
        assert forall|j: int| 0 <= j <= k implies #[trigger] replies[j] is Ok by {
            if j > 0 {
                assert(replies[j] == rest[j - 1]);
            }
        }
    }
}

} // verus!

verus! {

/// Each kind of work fails with one error, whichever event it concerns:
/// opening or committing the transaction gives `TrxError`, converting an event
/// `EventJsonConversionError`, looking up an aggregate `DbError`, writing an
/// aggregate row (update or insert) `AggregateInsertError`, and writing an
/// event row `EventInsertError`.
pub proof fn law_save_failure_errors(count: nat, i: usize)
    ensures
        next_action(count, SaveAction::BeginTransaction, Err(()))
            == SaveAction::Finish(Err(EventStoreError::TrxError)),
        next_action(count, SaveAction::SerializeEvent(i), Err(()))
            == SaveAction::Finish(Err(EventStoreError::EventJsonConversionError)),
        next_action(count, SaveAction::FindAggregate(i), Err(()))
            == SaveAction::Finish(Err(EventStoreError::DbError)),
        next_action(count, SaveAction::UpdateAggregate(i), Err(()))
            == SaveAction::Finish(Err(EventStoreError::AggregateInsertError)),
        next_action(count, SaveAction::InsertAggregate(i), Err(()))
            == SaveAction::Finish(Err(EventStoreError::AggregateInsertError)),
        next_action(count, SaveAction::InsertEvent(i), Err(()))
            == SaveAction::Finish(Err(EventStoreError::EventInsertError)),
        next_action(count, SaveAction::Commit, Err(()))
            == SaveAction::Finish(Err(EventStoreError::TrxError)),
{
}

} // verus!
