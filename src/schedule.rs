//! Expanding a configuration into the deliveries still to come.
use crate::time::{resolve, timestamp_delay, TimeError, Timestamp};
use vstd::prelude::*;

verus! {

/// A message to send `before` seconds ahead of every target instant.
#[derive(Clone, Debug)]
pub struct Reminder {
    pub before: u64,
    pub message: String,
}

/// A recipient key and the instants it is reminded of.
#[derive(Clone, Debug)]
pub struct Target {
    /// Looked up elsewhere to find the endpoint URL.
    pub recipient: String,
    pub timestamps: Vec<Timestamp>,
}

/// Reminders apply to every timestamp of every target.
#[derive(Clone, Debug)]
pub struct Configuration {
    pub reminders: Vec<Reminder>,
    pub targets: Vec<Target>,
}

/// One message to post to `endpoint` after `delay` seconds.
#[derive(Clone, Debug)]
pub struct ScheduledDelivery {
    pub endpoint: String,
    pub message: String,
    pub delay: u64,
}

/// What a delivery is, as values.
pub struct DeliveryModel {
    pub endpoint: Seq<char>,
    pub message: Seq<char>,
    pub delay: int,
}

impl View for ScheduledDelivery {
    type V = DeliveryModel;

    open spec fn view(&self) -> DeliveryModel {
        DeliveryModel { endpoint: self.endpoint@, message: self.message@, delay: self.delay as int }
    }
}

/// Why part of a configuration produced no deliveries.
#[derive(Clone, Copy, Debug, PartialEq, Eq, Structural)]
pub enum ScheduleError {
    /// No endpoint was found for the target's recipient key.
    UnresolvedRecipient,
    /// The timestamp at this index of the target could not be read.
    BadTimestamp(usize, TimeError),
}

/// A problem found in the target at index `target`.
#[derive(Clone, Copy, Debug, PartialEq, Eq, Structural)]
pub struct ScheduleIssue {
    pub target: usize,
    pub error: ScheduleError,
}

/// The deliveries of one configuration, and the parts of it that were skipped.
#[derive(Clone, Debug)]
pub struct Expansion {
    pub deliveries: Vec<ScheduledDelivery>,
    pub issues: Vec<ScheduleIssue>,
}

pub open spec fn views(ds: Seq<ScheduledDelivery>) -> Seq<DeliveryModel> {
    ds.map_values(|d: ScheduledDelivery| d@)
}

/// Deliveries of the first `n` reminders for an instant `base` seconds away:
/// one per reminder whose fire time has not passed.
pub open spec fn reminder_deliveries(
    endpoint: Seq<char>,
    base: int,
    rs: Seq<Reminder>,
    n: int,
) -> Seq<DeliveryModel>
    decreases n,
{
    if n <= 0 {
        seq![]
    } else {
        let prev = reminder_deliveries(endpoint, base, rs, n - 1);
        let r = rs[n - 1];
        if base - r.before >= 0 {
            prev.push(
                DeliveryModel { endpoint, message: r.message@, delay: base - r.before },
            )
        } else {
            prev
        }
    }
}

/// Deliveries of the first `n` timestamps of one target; a timestamp that
/// cannot be read contributes none.
pub open spec fn timestamp_deliveries(
    endpoint: Seq<char>,
    ts: Seq<Timestamp>,
    rs: Seq<Reminder>,
    now: int,
    n: int,
) -> Seq<DeliveryModel>
    decreases n,
{
    if n <= 0 {
        seq![]
    } else {
        let prev = timestamp_deliveries(endpoint, ts, rs, now, n - 1);
        match timestamp_delay(ts[n - 1], now) {
            Ok(base) => prev + reminder_deliveries(endpoint, base, rs, rs.len() as int),
            Err(_) => prev,
        }
    }
}

pub open spec fn target_deliveries(
    t: Target,
    endpoint: Option<String>,
    rs: Seq<Reminder>,
    now: int,
) -> Seq<DeliveryModel> {
    match endpoint {
        Some(e) => timestamp_deliveries(e@, t.timestamps@, rs, now, t.timestamps@.len() as int),
        None => seq![],
    }
}

/// Deliveries of the first `n` targets, `endpoints[i]` being the endpoint
/// found for target `i`.
pub open spec fn config_deliveries(
    c: Configuration,
    endpoints: Seq<Option<String>>,
    now: int,
    n: int,
) -> Seq<DeliveryModel>
    decreases n,
{
    if n <= 0 {
        seq![]
    } else {
        config_deliveries(c, endpoints, now, n - 1) + target_deliveries(
            c.targets@[n - 1],
            endpoints[n - 1],
            c.reminders@,
            now,
        )
    }
}

/// Issues of the first `n` timestamps of the target at index `target`.
pub open spec fn timestamp_issues(target: int, ts: Seq<Timestamp>, now: int, n: int) -> Seq<
    ScheduleIssue,
>
    decreases n,
{
    if n <= 0 {
        seq![]
    } else {
        let prev = timestamp_issues(target, ts, now, n - 1);
        match timestamp_delay(ts[n - 1], now) {
            Ok(_) => prev,
            Err(e) => prev.push(
                ScheduleIssue {
                    target: target as usize,
                    error: ScheduleError::BadTimestamp((n - 1) as usize, e),
                },
            ),
        }
    }
}

pub open spec fn target_issues(target: int, t: Target, endpoint: Option<String>, now: int) -> Seq<
    ScheduleIssue,
> {
    match endpoint {
        Some(_) => timestamp_issues(target, t.timestamps@, now, t.timestamps@.len() as int),
        None => seq![
            ScheduleIssue { target: target as usize, error: ScheduleError::UnresolvedRecipient },
        ],
    }
}

/// Issues of the first `n` targets.
pub open spec fn config_issues(
    c: Configuration,
    endpoints: Seq<Option<String>>,
    now: int,
    n: int,
) -> Seq<ScheduleIssue>
    decreases n,
{
    if n <= 0 {
        seq![]
    } else {
        config_issues(c, endpoints, now, n - 1) + target_issues(
            n - 1,
            c.targets@[n - 1],
            endpoints[n - 1],
            now,
        )
    }
}

/// Appends the deliveries of every reminder for an instant `base` seconds away.
fn push_reminders(
    out: &mut Vec<ScheduledDelivery>,
    endpoint: &String,
    base: i128,
    reminders: &Vec<Reminder>,
)
    requires
        i64::MIN - i64::MAX <= base <= i64::MAX - i64::MIN,
    ensures
        views(final(out)@) == views(old(out)@) + reminder_deliveries(
            endpoint@,
            base as int,
            reminders@,
            reminders@.len() as int,
        ),
{
    let ghost start = views(out@);
    let mut k: usize = 0;
    while k < reminders.len()
        invariant
            k <= reminders@.len(),
            i64::MIN - i64::MAX <= base <= i64::MAX - i64::MIN,
            views(out@) == start + reminder_deliveries(endpoint@, base as int, reminders@, k as int),
        decreases reminders@.len() - k,
    {
        let r = &reminders[k];
        let left: i128 = base - r.before as i128;
        if left >= 0 {
            let d = ScheduledDelivery {
                endpoint: endpoint.clone(),
                message: r.message.clone(),
                delay: left as u64,
            };
            let ghost before_push = out@;
            out.push(d);
            assert(views(out@) =~= views(before_push).push(d@));
        }
        k = k + 1;
    }
}

/// Expands a configuration against the epoch second `now`.
///
/// `endpoints[i]` is the endpoint found for the recipient key of target `i`,
/// or `None` where none was found. For each target with an endpoint, each of
/// its timestamps in order, and each reminder in order, a delivery is made with
/// delay `base - before`, where `base` is the timestamp's delay from `now`;
/// deliveries whose delay would be negative are dropped. A target without an
/// endpoint, and a timestamp that cannot be read, give an issue instead and
/// leave the rest of the configuration untouched.
pub fn expand(c: &Configuration, endpoints: &Vec<Option<String>>, now: i64) -> (r: Expansion)
    requires
        endpoints@.len() == c.targets@.len(),
    ensures
        views(r.deliveries@) == config_deliveries(
            *c,
            endpoints@,
            now as int,
            c.targets@.len() as int,
        ),
        r.issues@ == config_issues(*c, endpoints@, now as int, c.targets@.len() as int),
{
    let mut deliveries: Vec<ScheduledDelivery> = Vec::new();
    let mut issues: Vec<ScheduleIssue> = Vec::new();
    let mut i: usize = 0;
    while i < c.targets.len()
        invariant
            i <= c.targets@.len(),
            endpoints@.len() == c.targets@.len(),
            views(deliveries@) == config_deliveries(*c, endpoints@, now as int, i as int),
            issues@ == config_issues(*c, endpoints@, now as int, i as int),
        decreases c.targets@.len() - i,
    {
        let t = &c.targets[i];
        match &endpoints[i] {
            None => {
                issues.push(ScheduleIssue { target: i, error: ScheduleError::UnresolvedRecipient });
                assert(views(deliveries@) =~= config_deliveries(
                    *c,
                    endpoints@,
                    now as int,
                    i as int + 1,
                ));
            },
            Some(endpoint) => {
                let ghost d0 = views(deliveries@);
                let ghost i0 = issues@;
                let mut j: usize = 0;
                while j < t.timestamps.len()
                    invariant
                        j <= t.timestamps@.len(),
                        *t == c.targets@[i as int],
                        views(deliveries@) == d0 + timestamp_deliveries(
                            endpoint@,
                            t.timestamps@,
                            c.reminders@,
                            now as int,
                            j as int,
                        ),
                        issues@ == i0 + timestamp_issues(i as int, t.timestamps@, now as int, j as int),
                    decreases t.timestamps@.len() - j,
                {
                    let res = resolve(&t.timestamps[j], now);
                    match res {
                        Ok(base) => {
                            push_reminders(&mut deliveries, endpoint, base, &c.reminders);
                            assert(views(deliveries@) =~= d0 + timestamp_deliveries(
                                endpoint@,
                                t.timestamps@,
                                c.reminders@,
                                now as int,
                                j as int + 1,
                            ));
                        },
                        Err(e) => {
                            issues.push(
                                ScheduleIssue { target: i, error: ScheduleError::BadTimestamp(j, e) },
                            );
                            assert(issues@ =~= i0 + timestamp_issues(
                                i as int,
                                t.timestamps@,
                                now as int,
                                j as int + 1,
                            ));
                        },
                    }
                    j = j + 1;
                }
            },
        }
        i = i + 1;
    }
    Expansion { deliveries, issues }
}

/// A reminder is kept for an instant `base` seconds away when its fire time
/// has not passed.
pub open spec fn reminder_included(base: int) -> spec_fn(Reminder) -> bool {
    |r: Reminder| base - r.before >= 0
}

/// The number of (timestamp, reminder) pairs among the first `n` timestamps
/// that can be read and whose fire time has not passed.
pub open spec fn timestamp_triples(ts: Seq<Timestamp>, rs: Seq<Reminder>, now: int, n: int) -> int
    decreases n,
{
    if n <= 0 {
        0
    } else {
        timestamp_triples(ts, rs, now, n - 1) + match timestamp_delay(ts[n - 1], now) {
            Ok(base) => rs.filter(reminder_included(base)).len() as int,
            Err(_) => 0,
        }
    }
}

/// The number of (target, timestamp, reminder) triples among the first `n`
/// targets, over targets with an endpoint and timestamps that can be read,
/// whose fire time has not passed.
pub open spec fn config_triples(c: Configuration, endpoints: Seq<Option<String>>, now: int, n: int) -> int
    decreases n,
{
    if n <= 0 {
        0
    } else {
        config_triples(c, endpoints, now, n - 1) + match endpoints[n - 1] {
            Some(_) => timestamp_triples(
                c.targets@[n - 1].timestamps@,
                c.reminders@,
                now,
                c.targets@[n - 1].timestamps@.len() as int,
            ),
            None => 0,
        }
    }
}

proof fn lemma_reminder_count(endpoint: Seq<char>, base: int, rs: Seq<Reminder>, n: int)
    requires
        0 <= n <= rs.len(),
    ensures
        reminder_deliveries(endpoint, base, rs, n).len() == rs.take(n).filter(
            reminder_included(base),
        ).len(),
    decreases n,
{
    reveal(Seq::filter);
    if n == 0 {
        assert(rs.take(0) =~= Seq::<Reminder>::empty());
    } else {
        lemma_reminder_count(endpoint, base, rs, n - 1);
        assert(rs.take(n).drop_last() =~= rs.take(n - 1));
        assert(rs.take(n).last() == rs[n - 1]);
    }
}

proof fn lemma_timestamp_count(
    endpoint: Seq<char>,
    ts: Seq<Timestamp>,
    rs: Seq<Reminder>,
    now: int,
    n: int,
)
    ensures
        timestamp_deliveries(endpoint, ts, rs, now, n).len() == timestamp_triples(ts, rs, now, n),
    decreases n,
{
    if n > 0 {
        lemma_timestamp_count(endpoint, ts, rs, now, n - 1);
        if let Ok(base) = timestamp_delay(ts[n - 1], now) {
            lemma_reminder_count(endpoint, base, rs, rs.len() as int);
            assert(rs.take(rs.len() as int) =~= rs);
        }
    }
}

proof fn lemma_config_count(c: Configuration, endpoints: Seq<Option<String>>, now: int, n: int)
    ensures
        config_deliveries(c, endpoints, now, n).len() == config_triples(c, endpoints, now, n),
    decreases n,
{
    if n > 0 {
        lemma_config_count(c, endpoints, now, n - 1);
        if let Some(e) = endpoints[n - 1] {
            let t = c.targets@[n - 1];
            lemma_timestamp_count(e@, t.timestamps@, c.reminders@, now, t.timestamps@.len() as int);
        }
    }
}

/// An expansion holds exactly one delivery per (target, timestamp, reminder)
/// triple whose fire time has not passed, counting targets with an endpoint
/// and timestamps that can be read.
pub proof fn lemma_delivery_count(c: Configuration, endpoints: Seq<Option<String>>, now: int)
    ensures
        config_deliveries(c, endpoints, now, c.targets@.len() as int).len() == config_triples(
            c,
            endpoints,
            now,
            c.targets@.len() as int,
        ),
{
    lemma_config_count(c, endpoints, now, c.targets@.len() as int);
}

proof fn lemma_issues_ignore_reminders_upto(
    a: Configuration,
    b: Configuration,
    endpoints: Seq<Option<String>>,
    now: int,
    n: int,
)
    requires
        a.targets@ == b.targets@,
    ensures
        config_issues(a, endpoints, now, n) == config_issues(b, endpoints, now, n),
    decreases n,
{
    if n > 0 {
        lemma_issues_ignore_reminders_upto(a, b, endpoints, now, n - 1);
    }
}

/// A reminder whose fire time has passed is dropped, never reported: two
/// configurations with the same targets report the same issues, whatever
/// their reminders.
pub proof fn lemma_issues_ignore_reminders(
    a: Configuration,
    b: Configuration,
    endpoints: Seq<Option<String>>,
    now: int,
)
    requires
        a.targets@ == b.targets@,
    ensures
        config_issues(a, endpoints, now, a.targets@.len() as int) == config_issues(
            b,
            endpoints,
            now,
            b.targets@.len() as int,
        ),
{
    lemma_issues_ignore_reminders_upto(a, b, endpoints, now, a.targets@.len() as int);
}

/// Expanding the same configuration against the same "now" twice gives the
/// same deliveries, in the same order, and the same issues.
pub proof fn lemma_expansion_deterministic(
    c: Configuration,
    endpoints: Seq<Option<String>>,
    now: int,
    first: Expansion,
    second: Expansion,
)
    requires
        views(first.deliveries@) == config_deliveries(c, endpoints, now, c.targets@.len() as int),
        first.issues@ == config_issues(c, endpoints, now, c.targets@.len() as int),
        views(second.deliveries@) == config_deliveries(c, endpoints, now, c.targets@.len() as int),
        second.issues@ == config_issues(c, endpoints, now, c.targets@.len() as int),
    ensures
        views(first.deliveries@) == views(second.deliveries@),
        first.issues@ == second.issues@,
{
}

/// A reminder with no offset fires exactly at the target instant: for an
/// instant that has not passed, its delivery has the instant's own delay.
pub proof fn lemma_zero_offset_fires_at_target(
    endpoint: Seq<char>,
    base: int,
    rs: Seq<Reminder>,
    k: int,
)
    requires
        0 <= k < rs.len(),
        rs[k].before == 0,
        base >= 0,
    ensures
        reminder_deliveries(endpoint, base, rs, rs.len() as int).contains(
            DeliveryModel { endpoint, message: rs[k].message@, delay: base },
        ),
{
    lemma_zero_offset_upto(endpoint, base, rs, k, rs.len() as int);
}

proof fn lemma_zero_offset_upto(endpoint: Seq<char>, base: int, rs: Seq<Reminder>, k: int, n: int)
    requires
        0 <= k < n <= rs.len(),
        rs[k].before == 0,
        base >= 0,
    ensures
        reminder_deliveries(endpoint, base, rs, n).contains(
            DeliveryModel { endpoint, message: rs[k].message@, delay: base },
        ),
    decreases n,
{
    let d = DeliveryModel { endpoint, message: rs[k].message@, delay: base };
    let prev = reminder_deliveries(endpoint, base, rs, n - 1);
    if n - 1 == k {
        assert(reminder_deliveries(endpoint, base, rs, n) == prev.push(d));
        assert(prev.push(d)[prev.len() as int] == d);
    } else {
        lemma_zero_offset_upto(endpoint, base, rs, k, n - 1);
        let i = choose|i: int| 0 <= i < prev.len() && prev[i] == d;
        let r = rs[n - 1];
        if base - r.before >= 0 {
            let cur = prev.push(
                DeliveryModel { endpoint, message: r.message@, delay: base - r.before },
            );
            assert(cur[i] == d);
        }
    }
}

/// Deliveries of the targets at indexes `lo` up to `hi`, in order.
pub open spec fn deliveries_range(
    c: Configuration,
    endpoints: Seq<Option<String>>,
    now: int,
    lo: int,
    hi: int,
) -> Seq<DeliveryModel>
    decreases hi - lo,
{
    if hi <= lo {
        seq![]
    } else {
        deliveries_range(c, endpoints, now, lo, hi - 1) + target_deliveries(
            c.targets@[hi - 1],
            endpoints[hi - 1],
            c.reminders@,
            now,
        )
    }
}

proof fn lemma_split(c: Configuration, endpoints: Seq<Option<String>>, now: int, m: int, n: int)
    requires
        0 <= m <= n,
    ensures
        config_deliveries(c, endpoints, now, n) == config_deliveries(c, endpoints, now, m)
            + deliveries_range(c, endpoints, now, m, n),
    decreases n - m,
{
    if n > m {
        lemma_split(c, endpoints, now, m, n - 1);
        let t = target_deliveries(c.targets@[n - 1], endpoints[n - 1], c.reminders@, now);
        assert(config_deliveries(c, endpoints, now, m) + deliveries_range(c, endpoints, now, m, n - 1)
            + t =~= config_deliveries(c, endpoints, now, m) + (deliveries_range(
            c,
            endpoints,
            now,
            m,
            n - 1,
        ) + t));
    } else {
        assert(config_deliveries(c, endpoints, now, m) + seq![] =~= config_deliveries(
            c,
            endpoints,
            now,
            m,
        ));
    }
}

proof fn lemma_prefix_same(
    a: Configuration,
    b: Configuration,
    endpoints: Seq<Option<String>>,
    now: int,
    m: int,
)
    requires
        a.reminders@ == b.reminders@,
        m <= a.targets@.len(),
        m <= b.targets@.len(),
        forall|i: int| 0 <= i < m ==> a.targets@[i] == b.targets@[i],
    ensures
        config_deliveries(a, endpoints, now, m) == config_deliveries(b, endpoints, now, m),
    decreases m,
{
    if m > 0 {
        lemma_prefix_same(a, b, endpoints, now, m - 1);
    }
}

proof fn lemma_range_same(
    a: Configuration,
    b: Configuration,
    endpoints: Seq<Option<String>>,
    now: int,
    lo: int,
    hi: int,
)
    requires
        a.reminders@ == b.reminders@,
        hi <= a.targets@.len(),
        hi <= b.targets@.len(),
        forall|i: int| lo <= i < hi ==> a.targets@[i] == b.targets@[i],
    ensures
        deliveries_range(a, endpoints, now, lo, hi) == deliveries_range(b, endpoints, now, lo, hi),
    decreases hi - lo,
{
    if hi > lo {
        lemma_range_same(a, b, endpoints, now, lo, hi - 1);
    }
}

/// Targets are expanded in isolation. Where two configurations share their
/// reminders and differ in the target at index `k` alone (one of them may
/// hold a timestamp there that cannot be read), their deliveries share the
/// part from the targets before `k` and the part from the targets after it;
/// only target `k`'s own deliveries differ.
pub proof fn lemma_target_isolation(
    a: Configuration,
    b: Configuration,
    endpoints: Seq<Option<String>>,
    now: int,
    k: int,
)
    requires
        a.reminders@ == b.reminders@,
        a.targets@.len() == b.targets@.len(),
        0 <= k < a.targets@.len(),
        forall|i: int| 0 <= i < a.targets@.len() && i != k ==> a.targets@[i] == b.targets@[i],
    ensures
        config_deliveries(a, endpoints, now, a.targets@.len() as int) == config_deliveries(
            a,
            endpoints,
            now,
            k,
        ) + target_deliveries(a.targets@[k], endpoints[k], a.reminders@, now) + deliveries_range(
            a,
            endpoints,
            now,
            k + 1,
            a.targets@.len() as int,
        ),
        config_deliveries(b, endpoints, now, b.targets@.len() as int) == config_deliveries(
            a,
            endpoints,
            now,
            k,
        ) + target_deliveries(b.targets@[k], endpoints[k], b.reminders@, now) + deliveries_range(
            a,
            endpoints,
            now,
            k + 1,
            a.targets@.len() as int,
        ),
{
    let n = a.targets@.len() as int;
    lemma_split(a, endpoints, now, k + 1, n);
    lemma_split(b, endpoints, now, k + 1, n);
    lemma_prefix_same(a, b, endpoints, now, k);
    lemma_range_same(a, b, endpoints, now, k + 1, n);
}

proof fn lemma_bad_timestamp_reported_upto(target: int, ts: Seq<Timestamp>, now: int, j: int, n: int)
    requires
        0 <= j < n <= ts.len(),
        timestamp_delay(ts[j], now) is Err,
    ensures
        timestamp_issues(target, ts, now, n).contains(
            ScheduleIssue {
                target: target as usize,
                error: ScheduleError::BadTimestamp(j as usize, timestamp_delay(ts[j], now)->Err_0),
            },
        ),
    decreases n,
{
    let issue = ScheduleIssue {
        target: target as usize,
        error: ScheduleError::BadTimestamp(j as usize, timestamp_delay(ts[j], now)->Err_0),
    };
    let prev = timestamp_issues(target, ts, now, n - 1);
    if n - 1 == j {
        assert(timestamp_issues(target, ts, now, n) == prev.push(issue));
        assert(prev.push(issue)[prev.len() as int] == issue);
    } else {
        lemma_bad_timestamp_reported_upto(target, ts, now, j, n - 1);
        let i = choose|i: int| 0 <= i < prev.len() && prev[i] == issue;
        if let Err(e) = timestamp_delay(ts[n - 1], now) {
            let cur = prev.push(
                ScheduleIssue {
                    target: target as usize,
                    error: ScheduleError::BadTimestamp((n - 1) as usize, e),
                },
            );
            assert(cur[i] == issue);
        }
    }
}

/// A timestamp that cannot be read, of a target with an endpoint, is
/// reported with its target, its index and its error.
pub proof fn lemma_bad_timestamp_reported(
    target: int,
    t: Target,
    endpoint: Option<String>,
    now: int,
    j: int,
)
    requires
        endpoint is Some,
        0 <= j < t.timestamps@.len(),
        timestamp_delay(t.timestamps@[j], now) is Err,
    ensures
        target_issues(target, t, endpoint, now).contains(
            ScheduleIssue {
                target: target as usize,
                error: ScheduleError::BadTimestamp(
                    j as usize,
                    timestamp_delay(t.timestamps@[j], now)->Err_0,
                ),
            },
        ),
{
    lemma_bad_timestamp_reported_upto(target, t.timestamps@, now, j, t.timestamps@.len() as int);
}

} // verus!
