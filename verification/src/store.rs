//! The conversation store: document mapping and a verified model of
//! the keyed record collection.
//!
//! A conversation is persisted as one document per `(user_id,
//! context_id)` key holding an array of `{role, message, timestamp}`
//! entries and a `last_updated` stamp.  Encoding assigns every entry
//! the save-time timestamp; decoding reads the role labels back and
//! treats an unknown label as a malformed document.  [`StoreState`] is
//! the model of the collection the orchestrator is verified against:
//! at most one record per key, and saving is a replace-or-insert.

use vstd::prelude::*;
use crate::turn::{Turn, TurnView, decode_role, parse_role, role_label, role_label_text,
    turns_view};

verus! {

/// One persisted entry of a conversation document.
#[derive(Debug)]
pub struct StoredTurn {
    pub role: String,
    pub message: String,
    pub timestamp: i64,
}

/// Mathematical model of a [`StoredTurn`].
pub struct StoredTurnView {
    pub role: Seq<char>,
    pub message: Seq<char>,
    pub timestamp: int,
}

impl View for StoredTurn {
    type V = StoredTurnView;

    open spec fn view(&self) -> StoredTurnView {
        StoredTurnView { role: self.role@, message: self.message@, timestamp: self.timestamp as int }
    }
}

/// The model of a stored entry array.
pub open spec fn stored_view(s: Seq<StoredTurn>) -> Seq<StoredTurnView> {
    s.map_values(|t: StoredTurn| t@)
}

/// How one turn is persisted at time `now`.
pub open spec fn encoded_turn(t: TurnView, now: int) -> StoredTurnView {
    StoredTurnView { role: role_label(t.role), message: t.content, timestamp: now }
}

/// How a whole history is persisted at time `now`: every turn encoded,
/// order kept, all entries sharing the save-time timestamp.
pub open spec fn encode_all(ts: Seq<TurnView>, now: int) -> Seq<StoredTurnView> {
    ts.map_values(|t: TurnView| encoded_turn(t, now))
}

/// What a stored entry array decodes to: the turns in stored order, or
/// nothing when some entry carries an unknown role label.
pub open spec fn decode_all(s: Seq<StoredTurnView>) -> Option<Seq<TurnView>>
    decreases s.len(),
{
    if s.len() == 0 {
        Some(Seq::<TurnView>::empty())
    } else {
        match decode_all(s.drop_last()) {
            Some(ts) => match decode_role(s.last().role) {
                Some(r) => Some(ts.push(TurnView { role: r, content: s.last().message })),
                None => None,
            },
            None => None,
        }
    }
}

/// The history a load yields under the tolerant policy: the decoded
/// turns, or the empty history when the document is malformed.
pub open spec fn tolerant_decode(s: Seq<StoredTurnView>) -> Seq<TurnView> {
    match decode_all(s) {
        Some(ts) => ts,
        None => Seq::<TurnView>::empty(),
    }
}

/// Encodes a history for persistence at time `now`.
pub fn encode_turns(turns: &Vec<Turn>, now: i64) -> (r: Vec<StoredTurn>)
    ensures
        stored_view(r@) == encode_all(turns_view(turns@), now as int),
{
    let mut out: Vec<StoredTurn> = Vec::new();
    let n = turns.len();
    let mut i: usize = 0;
    while i < n
        invariant
            i <= n,
            n == turns@.len(),
            stored_view(out@) =~= encode_all(turns_view(turns@.subrange(0, i as int)), now as int),
        decreases n - i,
    {
        let t = &turns[i];
        out.push(StoredTurn {
            role: role_label_text(t.role),
            message: t.content.clone(),
            timestamp: now,
        });
        proof {
            assert(turns_view(turns@.subrange(0, i + 1 as int)) =~= turns_view(
                turns@.subrange(0, i as int),
            ).push(turns@[i as int]@));
            assert(stored_view(out@) =~= encode_all(
                turns_view(turns@.subrange(0, i as int)),
                now as int,
            ).push(encoded_turn(turns@[i as int]@, now as int)));
            assert(encode_all(
                turns_view(turns@.subrange(0, i as int)).push(turns@[i as int]@),
                now as int,
            ) =~= encode_all(turns_view(turns@.subrange(0, i as int)), now as int).push(
                encoded_turn(turns@[i as int]@, now as int),
            ));
        }
        i = i + 1;
    }
    proof {
        assert(turns@.subrange(0, n as int) =~= turns@);
    }
    out
}

/// Relies on `chrono::Utc::now` and `DateTime::timestamp_millis`: the
/// wall-clock time as milliseconds since the Unix epoch.  Nothing is
/// assumed of the value.
#[verifier::external_body]
fn now_millis() -> i64 {
    chrono::Utc::now().timestamp_millis()
}

/// Encodes a history stamped with the current wall-clock time, and
/// hands that time back with the entries.
pub fn encode_turns_now(turns: &Vec<Turn>) -> (r: (Vec<StoredTurn>, i64))
    ensures
        stored_view(r.0@) == encode_all(turns_view(turns@), r.1 as int),
{
    let now = now_millis();
    (encode_turns(turns, now), now)
}

/// An unknown role label anywhere makes the whole array undecodable.
proof fn lemma_decode_all_bad(s: Seq<StoredTurnView>, i: int)
    requires
        0 <= i < s.len(),
        decode_role(s[i].role) is None,
    ensures
        decode_all(s) is None,
    decreases s.len(),
{
    if i < s.len() - 1 {
        assert(s.drop_last()[i] == s[i]);
        lemma_decode_all_bad(s.drop_last(), i);
    }
}

/// Decodes a stored entry array back into turns, in stored order.
pub fn decode_turns(stored: &Vec<StoredTurn>) -> (r: Option<Vec<Turn>>)
    ensures
        match r {
            Some(ts) => decode_all(stored_view(stored@)) == Some(turns_view(ts@)),
            None => decode_all(stored_view(stored@)) is None,
        },
{
    let mut out: Vec<Turn> = Vec::new();
    let n = stored.len();
    let mut i: usize = 0;
    while i < n
        invariant
            i <= n,
            n == stored@.len(),
            decode_all(stored_view(stored@).subrange(0, i as int)) == Some(turns_view(out@)),
        decreases n - i,
    {
        let st = &stored[i];
        let role = match parse_role(&st.role) {
            Some(role) => role,
            None => {
                proof {
                    lemma_decode_all_bad(stored_view(stored@), i as int);
                }
                return None;
            },
        };
        out.push(Turn { role, content: st.message.clone() });
        proof {
            let sv = stored_view(stored@);
            assert(sv.subrange(0, i + 1 as int).drop_last() =~= sv.subrange(0, i as int));
            assert(sv.subrange(0, i + 1 as int).last() == sv[i as int]);
            assert(turns_view(out@) =~= turns_view(out@.drop_last()).push(out@.last()@));
        }
        i = i + 1;
    }
    proof {
        assert(stored_view(stored@).subrange(0, n as int) =~= stored_view(stored@));
    }
    Some(out)
}

/// Encoding a history and decoding it again gives the history back:
/// the save-time timestamp is the only information the round trip
/// drops, and it is no part of a turn.
pub proof fn lemma_encode_decode(ts: Seq<TurnView>, now: int)
    ensures
        decode_all(encode_all(ts, now)) == Some(ts),
    decreases ts.len(),
{
    let e = encode_all(ts, now);
    if ts.len() == 0 {
        assert(e.len() == 0);
        assert(ts =~= Seq::<TurnView>::empty());
    } else {
        assert(e.drop_last() =~= encode_all(ts.drop_last(), now));
        lemma_encode_decode(ts.drop_last(), now);
        assert(e.last() == encoded_turn(ts.last(), now));
        crate::turn::lemma_role_label_decodes(ts.last().role);
        assert((TurnView { role: ts.last().role, content: ts.last().content }) == ts.last());
        assert(ts.drop_last().push(ts.last()) =~= ts);
    }
}

/// One persisted conversation document.
#[derive(Debug)]
pub struct ConversationRecord {
    pub user_id: String,
    pub context_id: String,
    pub turns: Vec<StoredTurn>,
    pub last_updated: i64,
}

/// Mathematical model of a [`ConversationRecord`].
pub struct RecordView {
    pub user_id: Seq<char>,
    pub context_id: Seq<char>,
    pub turns: Seq<StoredTurnView>,
    pub last_updated: int,
}

impl View for ConversationRecord {
    type V = RecordView;

    open spec fn view(&self) -> RecordView {
        RecordView {
            user_id: self.user_id@,
            context_id: self.context_id@,
            turns: stored_view(self.turns@),
            last_updated: self.last_updated as int,
        }
    }
}

/// Whether a record belongs to the given key.
pub open spec fn key_matches(r: RecordView, user_id: Seq<char>, context_id: Seq<char>) -> bool {
    r.user_id == user_id && r.context_id == context_id
}

/// At most one record per key.
pub open spec fn wf_records(recs: Seq<RecordView>) -> bool {
    forall|i: int, j: int|
        0 <= i < j < recs.len() ==> !key_matches(#[trigger] recs[i], #[trigger] recs[j].user_id,
            recs[j].context_id)
}

/// Whether some record holds the key.
pub open spec fn has_key(recs: Seq<RecordView>, user_id: Seq<char>, context_id: Seq<char>) -> bool {
    exists|i: int| 0 <= i < recs.len() && key_matches(#[trigger] recs[i], user_id, context_id)
}

/// The position of the key's record (meaningful when the key is held).
pub open spec fn index_of_key(recs: Seq<RecordView>, user_id: Seq<char>, context_id: Seq<char>) -> int {
    choose|i: int| 0 <= i < recs.len() && key_matches(#[trigger] recs[i], user_id, context_id)
}

/// The entry array stored under the key (meaningful when the key is held).
pub open spec fn stored_turns_of(recs: Seq<RecordView>, user_id: Seq<char>, context_id: Seq<char>) -> Seq<StoredTurnView> {
    recs[index_of_key(recs, user_id, context_id)].turns
}

/// The history a load of the key yields: the decoded record, the empty
/// history when the key is absent or its document malformed.
pub open spec fn loaded_turns(recs: Seq<RecordView>, user_id: Seq<char>, context_id: Seq<char>) -> Seq<TurnView> {
    if has_key(recs, user_id, context_id) {
        tolerant_decode(stored_turns_of(recs, user_id, context_id))
    } else {
        Seq::<TurnView>::empty()
    }
}

/// What saving `rec` does to the collection: replace the key's record
/// if the key is held, append a new record otherwise.
pub open spec fn upsert_recs(recs: Seq<RecordView>, rec: RecordView) -> Seq<RecordView> {
    if has_key(recs, rec.user_id, rec.context_id) {
        recs.update(index_of_key(recs, rec.user_id, rec.context_id), rec)
    } else {
        recs.push(rec)
    }
}

/// Under well-formedness the key's record position is unique.
pub proof fn lemma_key_unique(recs: Seq<RecordView>, user_id: Seq<char>, context_id: Seq<char>, i: int, j: int)
    requires
        wf_records(recs),
        0 <= i < recs.len(),
        0 <= j < recs.len(),
        key_matches(recs[i], user_id, context_id),
        key_matches(recs[j], user_id, context_id),
    ensures
        i == j,
{
    if i < j {
        assert(!key_matches(recs[i], recs[j].user_id, recs[j].context_id));
    } else if j < i {
        assert(!key_matches(recs[j], recs[i].user_id, recs[i].context_id));
    }
}

/// Saving preserves well-formedness.
pub proof fn lemma_upsert_wf(recs: Seq<RecordView>, rec: RecordView)
    requires
        wf_records(recs),
    ensures
        wf_records(upsert_recs(recs, rec)),
{
    let r2 = upsert_recs(recs, rec);
    if has_key(recs, rec.user_id, rec.context_id) {
        let k = index_of_key(recs, rec.user_id, rec.context_id);
        assert(0 <= k < recs.len() && key_matches(recs[k], rec.user_id, rec.context_id));
        assert forall|i: int, j: int| 0 <= i < j < r2.len() implies !key_matches(
            #[trigger] r2[i],
            #[trigger] r2[j].user_id,
            r2[j].context_id,
        ) by {
            if i != k && j != k {
                assert(r2[i] == recs[i] && r2[j] == recs[j]);
                assert(!key_matches(recs[i], recs[j].user_id, recs[j].context_id));
            } else if i == k {
                assert(r2[j] == recs[j]);
                if key_matches(r2[i], r2[j].user_id, r2[j].context_id) {
                    assert(key_matches(recs[j], rec.user_id, rec.context_id));
                    lemma_key_unique(recs, rec.user_id, rec.context_id, k, j);
                }
            } else {
                assert(r2[i] == recs[i]);
                if key_matches(r2[i], r2[j].user_id, r2[j].context_id) {
                    assert(key_matches(recs[i], rec.user_id, rec.context_id));
                    lemma_key_unique(recs, rec.user_id, rec.context_id, k, i);
                }
            }
        }
    } else {
        assert forall|i: int, j: int| 0 <= i < j < r2.len() implies !key_matches(
            #[trigger] r2[i],
            #[trigger] r2[j].user_id,
            r2[j].context_id,
        ) by {
            if j < r2.len() - 1 {
                assert(r2[i] == recs[i] && r2[j] == recs[j]);
                assert(!key_matches(recs[i], recs[j].user_id, recs[j].context_id));
            } else {
                assert(r2[j] == rec && r2[i] == recs[i]);
                if key_matches(r2[i], r2[j].user_id, r2[j].context_id) {
                    assert(key_matches(recs[i], rec.user_id, rec.context_id));
                    assert(has_key(recs, rec.user_id, rec.context_id));
                }
            }
        }
    }
}

/// After a save the key is held and its record reads back as saved.
pub proof fn lemma_upsert_reads_back(recs: Seq<RecordView>, rec: RecordView)
    requires
        wf_records(recs),
    ensures
        has_key(upsert_recs(recs, rec), rec.user_id, rec.context_id),
        stored_turns_of(upsert_recs(recs, rec), rec.user_id, rec.context_id) == rec.turns,
{
    let r2 = upsert_recs(recs, rec);
    lemma_upsert_wf(recs, rec);
    if has_key(recs, rec.user_id, rec.context_id) {
        let k = index_of_key(recs, rec.user_id, rec.context_id);
        assert(r2[k] == rec);
        assert(key_matches(r2[k], rec.user_id, rec.context_id));
        let c = index_of_key(r2, rec.user_id, rec.context_id);
        lemma_key_unique(r2, rec.user_id, rec.context_id, k, c);
    } else {
        let k = r2.len() - 1;
        assert(r2[k] == rec);
        assert(key_matches(r2[k], rec.user_id, rec.context_id));
        let c = index_of_key(r2, rec.user_id, rec.context_id);
        lemma_key_unique(r2, rec.user_id, rec.context_id, k, c);
    }
}

/// How many records hold the key.
pub open spec fn key_count(recs: Seq<RecordView>, user_id: Seq<char>, context_id: Seq<char>) -> nat
    decreases recs.len(),
{
    if recs.len() == 0 {
        0
    } else {
        key_count(recs.drop_last(), user_id, context_id) + (if key_matches(
            recs.last(),
            user_id,
            context_id,
        ) {
            1nat
        } else {
            0nat
        })
    }
}

/// A key nobody holds is counted zero times.
pub proof fn lemma_no_key_count_zero(recs: Seq<RecordView>, user_id: Seq<char>, context_id: Seq<char>)
    requires
        !has_key(recs, user_id, context_id),
    ensures
        key_count(recs, user_id, context_id) == 0,
    decreases recs.len(),
{
    if recs.len() > 0 {
        assert(!key_matches(recs.last(), user_id, context_id)) by {
            if key_matches(recs[recs.len() - 1], user_id, context_id) {
                assert(has_key(recs, user_id, context_id));
            }
        }
        assert(!has_key(recs.drop_last(), user_id, context_id)) by {
            if has_key(recs.drop_last(), user_id, context_id) {
                let i = choose|i: int|
                    0 <= i < recs.drop_last().len() && key_matches(
                        #[trigger] recs.drop_last()[i],
                        user_id,
                        context_id,
                    );
                assert(recs.drop_last()[i] == recs[i]);
                assert(has_key(recs, user_id, context_id));
            }
        }
        lemma_no_key_count_zero(recs.drop_last(), user_id, context_id);
    }
}

/// A held key is counted at least once.
pub proof fn lemma_has_key_count_pos(recs: Seq<RecordView>, user_id: Seq<char>, context_id: Seq<char>)
    requires
        has_key(recs, user_id, context_id),
    ensures
        key_count(recs, user_id, context_id) >= 1,
    decreases recs.len(),
{
    let i = choose|i: int|
        0 <= i < recs.len() && key_matches(#[trigger] recs[i], user_id, context_id);
    if i == recs.len() - 1 {
        assert(key_matches(recs.last(), user_id, context_id));
    } else {
        assert(recs.drop_last()[i] == recs[i]);
        assert(has_key(recs.drop_last(), user_id, context_id));
        lemma_has_key_count_pos(recs.drop_last(), user_id, context_id);
    }
}

/// Under well-formedness no key is counted twice.
pub proof fn lemma_wf_count_le_one(recs: Seq<RecordView>, user_id: Seq<char>, context_id: Seq<char>)
    requires
        wf_records(recs),
    ensures
        key_count(recs, user_id, context_id) <= 1,
    decreases recs.len(),
{
    if recs.len() > 0 {
        let prefix = recs.drop_last();
        assert(wf_records(prefix)) by {
            assert forall|i: int, j: int| 0 <= i < j < prefix.len() implies !key_matches(
                #[trigger] prefix[i],
                #[trigger] prefix[j].user_id,
                prefix[j].context_id,
            ) by {
                assert(prefix[i] == recs[i] && prefix[j] == recs[j]);
                assert(!key_matches(recs[i], recs[j].user_id, recs[j].context_id));
            }
        }
        if key_matches(recs.last(), user_id, context_id) {
            assert(!has_key(prefix, user_id, context_id)) by {
                if has_key(prefix, user_id, context_id) {
                    let i = choose|i: int|
                        0 <= i < prefix.len() && key_matches(#[trigger] prefix[i], user_id, context_id);
                    assert(prefix[i] == recs[i]);
                    lemma_key_unique(recs, user_id, context_id, i, recs.len() - 1);
                }
            }
            lemma_no_key_count_zero(prefix, user_id, context_id);
        } else {
            lemma_wf_count_le_one(prefix, user_id, context_id);
        }
    }
}

/// The model of the record collection: its records, in insertion order.
pub struct StoreState {
    pub records: Vec<ConversationRecord>,
}

impl View for StoreState {
    type V = Seq<RecordView>;

    open spec fn view(&self) -> Seq<RecordView> {
        self.records@.map_values(|r: ConversationRecord| r@)
    }
}

impl StoreState {
    /// The collection invariant: at most one record per key.
    pub open spec fn wf(&self) -> bool {
        wf_records(self@)
    }

    /// An empty collection.
    pub fn new() -> (s: Self)
        ensures
            s@ =~= Seq::<RecordView>::empty(),
            s.wf(),
    {
        StoreState { records: Vec::new() }
    }

    /// The position of the key's record, if any.
    fn find_index(&self, user_id: &String, context_id: &String) -> (r: Option<usize>)
        ensures
            match r {
                Some(i) => i < self@.len() && key_matches(self@[i as int], user_id@, context_id@),
                None => !has_key(self@, user_id@, context_id@),
            },
    {
        let n = self.records.len();
        let mut i: usize = 0;
        while i < n
            invariant
                i <= n,
                n == self@.len(),
                forall|j: int| 0 <= j < i ==> !key_matches(#[trigger] self@[j], user_id@, context_id@),
            decreases n - i,
        {
            let rec = &self.records[i];
            if rec.user_id == *user_id && rec.context_id == *context_id {
                return Some(i);
            }
            i = i + 1;
        }
        None
    }

    /// The entry array stored under the key, if the key is held.
    pub fn stored_turns(&self, user_id: &String, context_id: &String) -> (r: Option<&Vec<StoredTurn>>)
        requires
            self.wf(),
        ensures
            match r {
                Some(ts) => has_key(self@, user_id@, context_id@) && stored_view(ts@)
                    == stored_turns_of(self@, user_id@, context_id@),
                None => !has_key(self@, user_id@, context_id@),
            },
    {
        match self.find_index(user_id, context_id) {
            Some(i) => {
                proof {
                    let c = index_of_key(self@, user_id@, context_id@);
                    lemma_key_unique(self@, user_id@, context_id@, i as int, c);
                }
                Some(&self.records[i].turns)
            },
            None => None,
        }
    }

    /// Saves the key's record: replaces it when the key is held,
    /// appends a new record otherwise.
    pub fn save(&mut self, user_id: String, context_id: String, turns: Vec<StoredTurn>, now: i64)
        requires
            old(self).wf(),
        ensures
            final(self).wf(),
            final(self)@ == upsert_recs(
                old(self)@,
                (RecordView {
                    user_id: user_id@,
                    context_id: context_id@,
                    turns: stored_view(turns@),
                    last_updated: now as int,
                }),
            ),
    {
        let ghost rec_v = RecordView {
            user_id: user_id@,
            context_id: context_id@,
            turns: stored_view(turns@),
            last_updated: now as int,
        };
        proof {
            lemma_upsert_wf(old(self)@, rec_v);
        }
        let found = self.find_index(&user_id, &context_id);
        let rec = ConversationRecord { user_id, context_id, turns, last_updated: now };
        match found {
            Some(i) => {
                proof {
                    let c = index_of_key(self@, rec_v.user_id, rec_v.context_id);
                    lemma_key_unique(self@, rec_v.user_id, rec_v.context_id, i as int, c);
                }
                self.records.remove(i);
                self.records.insert(i, rec);
                proof {
                    assert(self@ =~= upsert_recs(old(self)@, rec_v));
                }
            },
            None => {
                self.records.push(rec);
                proof {
                    assert(self@ =~= upsert_recs(old(self)@, rec_v));
                }
            },
        }
    }

    /// How many records hold the key.
    pub fn count_for_key(&self, user_id: &String, context_id: &String) -> (n: u64)
        requires
            self@.len() <= u64::MAX,
        ensures
            n == key_count(self@, user_id@, context_id@),
    {
        let len = self.records.len();
        let mut i: usize = 0;
        let mut n: u64 = 0;
        while i < len
            invariant
                i <= len,
                len == self@.len(),
                len <= u64::MAX,
                n == key_count(self@.subrange(0, i as int), user_id@, context_id@),
                n <= i,
            decreases len - i,
        {
            let rec = &self.records[i];
            let hit = rec.user_id == *user_id && rec.context_id == *context_id;
            proof {
                assert(self@.subrange(0, i + 1 as int).drop_last() =~= self@.subrange(0, i as int));
                assert(self@.subrange(0, i + 1 as int).last() == self@[i as int]);
            }
            if hit {
                n = n + 1;
            }
            i = i + 1;
        }
        proof {
            assert(self@.subrange(0, len as int) =~= self@);
        }
        n
    }
}

} // verus!
