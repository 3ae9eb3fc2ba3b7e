use vstd::prelude::*;
use crate::dedup::{InMemoryDedupCache, dedup_key, dedup_key_text, observe};
use crate::event::{BatchedEvent, EventContext, IngestBatch, copy_text};
use crate::pii::{PiiRedactor, sanitize_event, is_sanitized};

verus! {

/// What the edge learns of the client from the request: address, user agent and country.
#[derive(Debug, Clone)]
pub struct ClientInfo {
    pub ip: Option<String>,
    pub user_agent: Option<String>,
    pub country: Option<String>,
}

/// Why a batch was refused.
#[derive(Debug, Clone, Copy, PartialEq, Eq, Structural)]
pub enum IngestError {
    /// The batch holds no event.
    EmptyBatch,
}

/// `e` with the client's address, user agent and country recorded in its context.
pub open spec fn enrich(e: BatchedEvent, client: ClientInfo) -> BatchedEvent {
    BatchedEvent {
        context: EventContext {
            ip: client.ip,
            user_agent: client.user_agent,
            country: client.country,
            ..e.context
        },
        ..e
    }
}

/// The cache after looking up `keys` in turn at time `now`.
pub open spec fn seen_after(seen: Seq<(Seq<char>, int)>, keys: Seq<Seq<char>>, now: int, ttl: int) -> Seq<
    (Seq<char>, int),
>
    decreases keys.len(),
{
    if keys.len() == 0 {
        seen
    } else {
        observe(seen_after(seen, keys.drop_last(), now, ttl), keys.last(), now, ttl).0
    }
}

/// For each of `keys` in turn, whether it was a duplicate.
pub open spec fn duplicates(seen: Seq<(Seq<char>, int)>, keys: Seq<Seq<char>>, now: int, ttl: int) -> Seq<bool>
    decreases keys.len(),
{
    if keys.len() == 0 {
        Seq::empty()
    } else {
        duplicates(seen, keys.drop_last(), now, ttl).push(
            observe(seen_after(seen, keys.drop_last(), now, ttl), keys.last(), now, ttl).1,
        )
    }
}

/// The positions of the `false` flags, in order.
pub open spec fn kept_positions(flags: Seq<bool>) -> Seq<int>
    decreases flags.len(),
{
    if flags.len() == 0 {
        Seq::empty()
    } else if flags.last() {
        kept_positions(flags.drop_last())
    } else {
        kept_positions(flags.drop_last()).push(flags.len() - 1)
    }
}

/// The dedup keys of the events of a batch once enriched.
pub open spec fn batch_keys(batch: Seq<BatchedEvent>, client: ClientInfo) -> Seq<Seq<char>> {
    batch.map_values(|e: BatchedEvent| dedup_key_text(enrich(e, client)))
}

pub proof fn lemma_duplicates_len(seen: Seq<(Seq<char>, int)>, keys: Seq<Seq<char>>, now: int, ttl: int)
    ensures
        duplicates(seen, keys, now, ttl).len() == keys.len(),
    decreases keys.len(),
{
    if keys.len() > 0 {
        lemma_duplicates_len(seen, keys.drop_last(), now, ttl);
    }
}

/// Takes an ingest batch in: refuses an empty one; otherwise records the client's details in
/// each event, drops the events whose dedup key the cache holds at time `now`, and strips
/// personal data from the others, keeping their order.
pub fn prepare_batch(
    batch: IngestBatch,
    client: &ClientInfo,
    cache: &mut InMemoryDedupCache,
    redactor: &PiiRedactor,
    now: u128,
) -> (r: Result<Vec<BatchedEvent>, IngestError>)
    ensures
        batch.batch@.len() == 0 ==> r == Err::<Vec<BatchedEvent>, IngestError>(IngestError::EmptyBatch) && final(cache).entries() == old(cache).entries(),
        batch.batch@.len() > 0 ==> r is Ok,
        final(cache).ttl() == old(cache).ttl(),
        r matches Ok(events) ==> {
            let keys = batch_keys(batch.batch@, *client);
            let flags = duplicates(old(cache).entries(), keys, now as int, old(cache).ttl());
            let kept = kept_positions(flags);
            &&& final(cache).entries() == seen_after(old(cache).entries(), keys, now as int, old(cache).ttl())
            &&& events@.len() == kept.len()
            &&& forall|k: int| 0 <= k < kept.len() ==> is_sanitized(#[trigger] events@[k], enrich(batch.batch@[kept[k]], *client))
        },
{
    let IngestBatch { batch } = batch;
    if batch.len() == 0 {
        return Err(IngestError::EmptyBatch);
    }
    let ghost all = batch@;
    let ghost keys = batch_keys(all, *client);
    let ghost seen0 = cache.entries();
    let ghost ttl = cache.ttl();
    let mut rest = batch;
    let mut events: Vec<BatchedEvent> = Vec::new();
    let mut i: usize = 0;
    let n = rest.len();
    let mut rev: Vec<BatchedEvent> = Vec::new();
    while rest.len() > 0
        invariant
            rev@.len() + rest@.len() == n,
            n == all.len(),
            rest@ == all.take(rest@.len() as int),
            forall|k: int| 0 <= k < rev@.len() ==> #[trigger] rev@[k] == all[n - 1 - k],
        decreases rest.len(),
    {
        let e = rest.pop().unwrap();
        rev.push(e);
        proof {
            assert(rest@ =~= all.take(rest@.len() as int));
        }
    }
    while i < n
        invariant
            i <= n,
            n == all.len(),
            rev@.len() == n - i,
            forall|k: int| 0 <= k < rev@.len() ==> #[trigger] rev@[k] == all[n - 1 - k],
            keys == batch_keys(all, *client),
            cache.ttl() == ttl,
            cache.entries() == seen_after(seen0, keys.take(i as int), now as int, ttl),
            events@.len() == kept_positions(duplicates(seen0, keys.take(i as int), now as int, ttl)).len(),
            forall|k: int| 0 <= k < events@.len() ==> is_sanitized(
                #[trigger] events@[k],
                enrich(all[kept_positions(duplicates(seen0, keys.take(i as int), now as int, ttl))[k]], *client),
            ),
        decreases n - i,
    {
        let e = rev.pop().unwrap();
        proof {
            assert(e == all[i as int]);
        }
        let mut e = e;
        e.context.ip = copy_text(&client.ip);
        e.context.user_agent = copy_text(&client.user_agent);
        e.context.country = copy_text(&client.country);
        let key = dedup_key(&e);
        proof {
            assert(key@ == keys[i as int]);
            assert(keys.take(i + 1).drop_last() =~= keys.take(i as int));
            assert(keys.take(i + 1).last() == keys[i as int]);
        }
        let dup = cache.observe(key.as_str(), now);
        let ghost flags0 = duplicates(seen0, keys.take(i as int), now as int, ttl);
        let ghost flags1 = duplicates(seen0, keys.take(i + 1), now as int, ttl);
        proof {
            lemma_duplicates_len(seen0, keys.take(i + 1), now as int, ttl);
            assert(flags1 == flags0.push(dup));
            assert(flags1.drop_last() =~= flags0);
            assert(e == enrich(all[i as int], *client));
        }
        if !dup {
            let s = sanitize_event(redactor, e);
            proof {
                assert(kept_positions(flags1) == kept_positions(flags0).push(i as int));
            }
            events.push(s);
        } else {
            proof {
                assert(kept_positions(flags1) == kept_positions(flags0));
            }
        }
        i = i + 1;
    }
    proof {
        assert(keys.take(n as int) =~= keys);
    }
    Ok(events)
}

} // verus!
