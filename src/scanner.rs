//! The scan engine's decisions: how a probe's reply becomes an outcome, what
//! a worker reports for each host, how the addresses are split between the
//! workers, and how their findings are gathered and written out.
use vstd::prelude::*;
use vstd::seq_lib::lemma_flatten_concat;
use crate::devices::NetworkDevice;
use crate::elements::classify;
use crate::threads::{AppendMessage, ProgressBarMessage};
use crate::util::{IpWrapper, ScanError};

verus! {

/// What a probe of one host brought back.
pub enum ProbeReply {
    /// The host answered, with any status; the body as text, empty where it
    /// could not be decoded.
    Body(String),
    /// The request failed: by running out of time, by failing to connect, or
    /// otherwise, with the transport's details.
    Failed { timed_out: bool, connect_failed: bool, detail: String },
}

/// The outcome of probing `ip` that answered with `reply`.
pub open spec fn probe_outcome(ip: Seq<char>, reply: ProbeReply) -> Result<NetworkDevice, ScanError> {
    match reply {
        ProbeReply::Body(text) => Ok(classify(ip, text@)),
        ProbeReply::Failed { timed_out, connect_failed, detail } => if timed_out {
            Err(ScanError::Timeout)
        } else if connect_failed {
            Err(ScanError::Connection)
        } else {
            Err(ScanError::OtherError(detail))
        },
    }
}

/// Maps the reply of a probe of `ip` to its outcome: an answer is always
/// classified; a failure is a timeout before a refused connection before
/// anything else.
pub fn scan(ip: &IpWrapper, reply: ProbeReply) -> (r: Result<NetworkDevice, ScanError>)
    ensures
        r == probe_outcome(ip@, reply),
{
    match reply {
        ProbeReply::Body(text) => Ok(NetworkDevice::from_response(ip, text)),
        ProbeReply::Failed { timed_out, connect_failed, detail } => {
            if timed_out {
                Err(ScanError::Timeout)
            } else if connect_failed {
                Err(ScanError::Connection)
            } else {
                Err(ScanError::OtherError(detail))
            }
        },
    }
}

/// The line that records `device` found at `ip`.
pub open spec fn device_line(ip: Seq<char>, device: NetworkDevice) -> Seq<char> {
    ip + ":"@ + device.name()
}

/// The log line for the outcome of probing `server`; empty where nothing is logged.
pub open spec fn log_line(
    server: Seq<char>,
    outcome: Result<NetworkDevice, ScanError>,
    verbose: bool,
) -> Seq<char> {
    match outcome {
        Ok(d) => "Valid device type of "@ + d.name() + " on "@ + ("https://"@ + server),
        Err(e) => if (e is Timeout || e is Connection) && !verbose {
            Seq::empty()
        } else {
            server + " "@ + e.message()
        },
    }
}

/// The progress events for one probed host: its log line if there is one,
/// then one increment.
pub open spec fn reports_progress(events: Seq<ProgressBarMessage>, log: Seq<char>) -> bool {
    if log.len() == 0 {
        events.len() == 1 && events[0] is Increment
    } else {
        &&& events.len() == 2
        &&& events[0] matches ProgressBarMessage::Message(m) && m@ == log
        &&& events[1] is Increment
    }
}

/// The finding that an outcome adds for `server`: one entry on success, none otherwise.
pub open spec fn found_entry(server: Seq<char>, outcome: Result<NetworkDevice, ScanError>) -> Seq<
    (Seq<char>, NetworkDevice),
> {
    match outcome {
        Ok(d) => seq![(server, d)],
        Err(_) => Seq::empty(),
    }
}

/// Findings as addresses and devices.
pub open spec fn found_views(v: Seq<(IpWrapper, NetworkDevice)>) -> Seq<(Seq<char>, NetworkDevice)> {
    v.map_values(|p: (IpWrapper, NetworkDevice)| (p.0@, p.1))
}

/// The events a worker sends for one probed host.
pub struct HostEvents {
    /// For the progress reporter, in order.
    pub progress: Vec<ProgressBarMessage>,
    /// For the result appender.
    pub amendment: Option<AppendMessage>,
}

/// One probing worker: it probes its hosts in order and keeps what it found.
pub struct ScanWorker {
    /// Also log timeouts and refused connections.
    pub verbose: bool,
    /// A progress reporter is listening.
    pub progress: bool,
    /// A result appender is listening.
    pub append: bool,
    /// The devices found so far, in probing order.
    pub found: Vec<(IpWrapper, NetworkDevice)>,
}

impl ScanWorker {
    /// A worker that has found nothing yet.
    pub fn new(verbose: bool, progress: bool, append: bool) -> (r: ScanWorker)
        ensures
            r.verbose == verbose,
            r.progress == progress,
            r.append == append,
            r.found@.len() == 0,
    {
        ScanWorker { verbose, progress, append, found: Vec::new() }
    }

    /// Records the outcome of probing `server`, and says what to send: with a
    /// progress reporter, the log line (if any) and one increment; with an
    /// appender, the line of a found device.
    pub fn record(&mut self, server: &IpWrapper, outcome: Result<NetworkDevice, ScanError>) -> (r:
        HostEvents)
        ensures
            final(self).verbose == old(self).verbose,
            final(self).progress == old(self).progress,
            final(self).append == old(self).append,
            found_views(final(self).found@) == found_views(old(self).found@) + found_entry(
                server@,
                outcome,
            ),
            old(self).progress ==> reports_progress(
                r.progress@,
                log_line(server@, outcome, old(self).verbose),
            ),
            !old(self).progress ==> r.progress@.len() == 0,
            match outcome {
                Ok(d) => if old(self).append {
                    r.amendment matches Some(AppendMessage::Amendment(a)) && a@ == device_line(
                        server@,
                        d,
                    ) + "\n"@
                } else {
                    r.amendment is None
                },
                Err(_) => r.amendment is None,
            },
    {
        let ghost before = self.found@;
        let mut amendment: Option<AppendMessage> = None;
        let log = match &outcome {
            Ok(t) => {
                let name = t.to_string();
                let mut m = String::from_str("Valid device type of ");
                m.append(name.as_str());
                m.append(" on ");
                let url = server.url();
                m.append(url.as_str());
                if self.append {
                    let mut line = server.to_string();
                    line.append(":");
                    line.append(name.as_str());
                    line.append("\n");
                    amendment = Some(AppendMessage::Amendment(line));
                }
                self.found.push((server.duplicate(), *t));
                proof {
                    assert(found_views(self.found@) =~= found_views(before) + found_entry(
                        server@,
                        outcome,
                    ));
                }
                m
            },
            Err(e) => {
                let quiet = match e {
                    ScanError::Timeout | ScanError::Connection => !self.verbose,
                    _ => false,
                };
                proof {
                    assert(found_views(self.found@) =~= found_views(before) + found_entry(
                        server@,
                        outcome,
                    ));
                }
                if quiet {
                    String::new()
                } else {
                    let mut m = server.to_string();
                    m.append(" ");
                    let text = e.to_string();
                    m.append(text.as_str());
                    m
                }
            },
        };
        let mut progress: Vec<ProgressBarMessage> = Vec::new();
        if self.progress {
            if log.unicode_len() > 0 {
                progress.push(ProgressBarMessage::Message(log));
            }
            progress.push(ProgressBarMessage::Increment);
        }
        HostEvents { progress, amendment }
    }
}

/// The addresses of a list of hosts.
pub open spec fn ips_of(v: Seq<IpWrapper>) -> Seq<Seq<char>> {
    v.map_values(|h: IpWrapper| h@)
}

/// Where chunk `i` of `n` addresses split between `t` workers starts: every
/// chunk holds `n / t` addresses, and the first `n % t` chunks one more.
pub open spec fn chunk_start(n: int, t: int, i: int) -> int {
    i * (n / t) + if i < n % t {
        i
    } else {
        n % t
    }
}

/// Chunk `i` of `hosts` split between `t` workers.
pub open spec fn chunk_of<A>(hosts: Seq<A>, t: int, i: int) -> Seq<A> {
    hosts.subrange(chunk_start(hosts.len() as int, t, i), chunk_start(hosts.len() as int, t, i + 1))
}

/// Chunk starts grow by the chunk's size, from 0 up to `n`.
proof fn lemma_chunk_start_step(n: int, t: int, i: int)
    requires
        1 <= t <= n,
        0 <= i < t,
    ensures
        chunk_start(n, t, i + 1) == chunk_start(n, t, i) + n / t + if i < n % t {
            1int
        } else {
            0int
        },
        0 <= chunk_start(n, t, i) < chunk_start(n, t, i + 1) <= n,
        chunk_start(n, t, 0) == 0,
        chunk_start(n, t, t) == n,
{
    let q = n / t;
    let r = n % t;
    assert(n == t * q + r && 0 <= r < t) by {
        vstd::arithmetic::div_mod::lemma_fundamental_div_mod(n, t);
    }
    assert(q >= 1) by {
        vstd::arithmetic::div_mod::lemma_div_is_ordered(t, n, t);
        vstd::arithmetic::div_mod::lemma_div_basics(t);
    }
    assert((i + 1) * q == i * q + q) by (nonlinear_arith);
    assert(0 <= i * q) by (nonlinear_arith)
        requires
            0 <= i,
            q >= 1,
    ;
    assert(i * q + q <= t * q) by (nonlinear_arith)
        requires
            i + 1 <= t,
            q >= 1,
    ;
    assert(0 * q == 0);
}

/// Splits `hosts` into `threads` contiguous chunks of as equal sizes as can
/// be, which together hold every address once, in order. More workers than
/// addresses, or none, is a configuration error.
pub fn chunk_hosts(hosts: &Vec<IpWrapper>, threads: usize) -> (r: Result<
    Vec<Vec<IpWrapper>>,
    ScanError,
>)
    ensures
        r is Err <==> threads == 0 || threads > hosts@.len(),
        r matches Err(e) ==> e is Configuration,
        r matches Ok(chunks) ==> chunks@.len() == threads && forall|i: int|
            0 <= i < threads ==> ips_of(#[trigger] chunks@[i]@) == chunk_of(
                ips_of(hosts@),
                threads as int,
                i,
            ),
{
    let n = hosts.len();
    if threads == 0 || threads > n {
        return Err(ScanError::Configuration);
    }
    let q = n / threads;
    let rem = n % threads;
    let ghost all = ips_of(hosts@);
    let mut chunks: Vec<Vec<IpWrapper>> = Vec::new();
    let mut start: usize = 0;
    let mut i: usize = 0;
    while i < threads
        invariant
            1 <= threads <= n,
            n == hosts@.len(),
            all == ips_of(hosts@),
            q == n / threads,
            rem == n % threads,
            i <= threads,
            start == chunk_start(n as int, threads as int, i as int),
            chunks@.len() == i,
            forall|k: int|
                0 <= k < i ==> ips_of(#[trigger] chunks@[k]@) == chunk_of(all, threads as int, k),
        decreases threads - i,
    {
        proof {
            lemma_chunk_start_step(n as int, threads as int, i as int);
        }
        let end: usize = if i < rem {
            start + q + 1
        } else {
            start + q
        };
        let mut chunk: Vec<IpWrapper> = Vec::new();
        let mut j: usize = start;
        while j < end
            invariant
                start <= j <= end <= n,
                n == hosts@.len(),
                all == ips_of(hosts@),
                all.len() == n,
                ips_of(chunk@) == all.subrange(start as int, j as int),
            decreases end - j,
        {
            let h = hosts[j].duplicate();
            assert(all[j as int] == h@);
            let ghost prior = chunk@;
            chunk.push(h);
            assert(ips_of(chunk@) =~= ips_of(prior).push(h@));
            j = j + 1;
            assert(ips_of(chunk@) =~= all.subrange(start as int, j as int));
        }
        chunks.push(chunk);
        start = end;
        i = i + 1;
    }
    Ok(chunks)
}

proof fn lemma_chunks_prefix<A>(hosts: Seq<A>, t: int, k: int)
    requires
        1 <= t <= hosts.len(),
        0 <= k <= t,
    ensures
        Seq::new(k as nat, |i: int| chunk_of(hosts, t, i)).flatten() == hosts.subrange(
            0,
            chunk_start(hosts.len() as int, t, k),
        ),
    decreases k,
{
    let n = hosts.len() as int;
    let f = |i: int| chunk_of(hosts, t, i);
    lemma_chunk_start_step(n, t, 0);
    if k == 0 {
        assert(Seq::new(0nat, f).flatten() =~= hosts.subrange(0, 0));
    } else {
        lemma_chunks_prefix(hosts, t, k - 1);
        lemma_chunk_start_step(n, t, k - 1);
        assert(Seq::new(k as nat, f) =~= Seq::new((k - 1) as nat, f).push(f(k - 1)));
        Seq::new((k - 1) as nat, f).lemma_flatten_push(f(k - 1));
        assert(hosts.subrange(0, chunk_start(n, t, k - 1)) + hosts.subrange(
            chunk_start(n, t, k - 1),
            chunk_start(n, t, k),
        ) =~= hosts.subrange(0, chunk_start(n, t, k)));
    }
}

/// Every address of `hosts` lies in exactly one of the `t` chunks, and the
/// chunks, in order, hold the addresses in their order; each chunk holds
/// `n / t` or `n / t + 1` of them, so none is empty.
pub proof fn lemma_chunks_partition<A>(hosts: Seq<A>, t: int)
    requires
        1 <= t <= hosts.len(),
    ensures
        Seq::new(t as nat, |i: int| chunk_of(hosts, t, i)).flatten() == hosts,
        forall|i: int|
            0 <= i < t ==> #[trigger] chunk_of(hosts, t, i).len() == hosts.len() as int / t || chunk_of(
                hosts,
                t,
                i,
            ).len() == hosts.len() as int / t + 1,
        forall|i: int| 0 <= i < t ==> #[trigger] chunk_of(hosts, t, i).len() >= 1,
{
    let n = hosts.len() as int;
    lemma_chunks_prefix(hosts, t, t);
    lemma_chunk_start_step(n, t, 0);
    assert(hosts.subrange(0, n) =~= hosts);
    assert forall|i: int| 0 <= i < t implies #[trigger] chunk_of(hosts, t, i).len() == hosts.len() as int
        / t || chunk_of(hosts, t, i).len() == hosts.len() as int / t + 1 by {
        lemma_chunk_start_step(n, t, i);
    }
    assert forall|i: int| 0 <= i < t implies #[trigger] chunk_of(hosts, t, i).len() >= 1 by {
        lemma_chunk_start_step(n, t, i);
    }
}

/// The findings of every worker, one list after another in the order given.
pub open spec fn gathered(per_task: Seq<Vec<(IpWrapper, NetworkDevice)>>) -> Seq<
    (Seq<char>, NetworkDevice),
> {
    per_task.map_values(|v: Vec<(IpWrapper, NetworkDevice)>| found_views(v@)).flatten()
}

/// Concatenates the workers' findings in the order the workers finished.
pub fn gather(per_task: Vec<Vec<(IpWrapper, NetworkDevice)>>) -> (r: Vec<(IpWrapper, NetworkDevice)>)
    ensures
        found_views(r@) == gathered(per_task@),
{
    let ghost whole = per_task@;
    let mut rest = per_task;
    let mut out: Vec<(IpWrapper, NetworkDevice)> = Vec::new();
    assert(whole.subrange(0, whole.len() as int) =~= rest@);
    assert(gathered(whole.subrange(0, 0)) =~= Seq::empty());
    assert(found_views(out@) =~= Seq::empty());
    while rest.len() > 0
        invariant
            exists|k: int| 0 <= k <= whole.len() && #[trigger] whole.subrange(k, whole.len() as int) == rest@
                && found_views(out@) == gathered(whole.subrange(0, k)),
        decreases rest@.len(),
    {
        let ghost k = choose|k: int| 0 <= k <= whole.len() && #[trigger] whole.subrange(k, whole.len() as int) == rest@
                && found_views(out@) == gathered(whole.subrange(0, k));
        let ghost before = out@;
        let mut v = rest.remove(0);
        let ghost taken = v@;
        out.append(&mut v);
        proof {
            let f = |v: Vec<(IpWrapper, NetworkDevice)>| found_views(v@);
            assert(whole.subrange(0, k + 1) =~= whole.subrange(0, k).push(whole[k]));
            assert(whole.subrange(0, k + 1).map_values(f) =~= whole.subrange(0, k).map_values(f).push(f(whole[k])));
            whole.subrange(0, k).map_values(f).lemma_flatten_push(f(whole[k]));
            assert(whole[k]@ == taken);
            assert(found_views(out@) =~= found_views(before) + found_views(taken));
            assert(whole.subrange(k + 1, whole.len() as int) =~= rest@);
        }
    }
    proof {
        let k = choose|k: int| 0 <= k <= whole.len() && #[trigger] whole.subrange(k, whole.len() as int) == rest@
                && found_views(out@) == gathered(whole.subrange(0, k));
        assert(whole.subrange(k, whole.len() as int).len() == 0);
        assert(whole.subrange(0, k) =~= whole);
    }
    out
}

/// The results file for `found`: one `address:device` line each, joined by newlines.
pub open spec fn report_text(found: Seq<(Seq<char>, NetworkDevice)>) -> Seq<char>
    decreases found.len(),
{
    if found.len() == 0 {
        Seq::empty()
    } else if found.len() == 1 {
        device_line(found[0].0, found[0].1)
    } else {
        report_text(found.drop_last()) + "\n"@ + device_line(found.last().0, found.last().1)
    }
}

/// Writes the results file for `devices`.
pub fn devices_report(devices: &Vec<(IpWrapper, NetworkDevice)>) -> (r: String)
    ensures
        r@ == report_text(found_views(devices@)),
{
    let ghost all = found_views(devices@);
    let mut out = String::new();
    let mut i: usize = 0;
    while i < devices.len()
        invariant
            all == found_views(devices@),
            i <= devices@.len(),
            out@ == report_text(all.subrange(0, i as int)),
        decreases devices@.len() - i,
    {
        if i > 0 {
            out.append("\n");
        }
        let (ip, device) = &devices[i];
        out.append(ip.0.as_str());
        out.append(":");
        let name = device.to_string();
        out.append(name.as_str());
        proof {
            let prefix = all.subrange(0, i + 1);
            assert(prefix.drop_last() =~= all.subrange(0, i as int));
            assert(prefix.last() == all[i as int]);
            if i == 0 {
                assert(out@ =~= device_line(all[0].0, all[0].1));
            } else {
                assert(out@ =~= report_text(all.subrange(0, i as int)) + "\n"@ + device_line(
                    all[i as int].0,
                    all[i as int].1,
                ));
            }
        }
        i = i + 1;
    }
    assert(all.subrange(0, i as int) =~= all);
    out
}

/// What one worker finds probing `hosts` in order, where probing address `h`
/// has the outcome `outcome(h)`.
pub open spec fn found_by(
    hosts: Seq<Seq<char>>,
    outcome: spec_fn(Seq<char>) -> Result<NetworkDevice, ScanError>,
) -> Seq<(Seq<char>, NetworkDevice)> {
    hosts.map_values(|h: Seq<char>| found_entry(h, outcome(h))).flatten()
}

proof fn lemma_found_by_concat(
    a: Seq<Seq<char>>,
    b: Seq<Seq<char>>,
    outcome: spec_fn(Seq<char>) -> Result<NetworkDevice, ScanError>,
)
    ensures
        found_by(a + b, outcome) == found_by(a, outcome) + found_by(b, outcome),
{
    let f = |h: Seq<char>| found_entry(h, outcome(h));
    assert((a + b).map_values(f) =~= a.map_values(f) + b.map_values(f));
    lemma_flatten_concat(a.map_values(f), b.map_values(f));
}

proof fn lemma_found_by_flatten(
    cs: Seq<Seq<Seq<char>>>,
    outcome: spec_fn(Seq<char>) -> Result<NetworkDevice, ScanError>,
)
    ensures
        found_by(cs.flatten(), outcome) == cs.map_values(
            |c: Seq<Seq<char>>| found_by(c, outcome),
        ).flatten(),
    decreases cs.len(),
{
    let g = |c: Seq<Seq<char>>| found_by(c, outcome);
    if cs.len() == 0 {
        assert(cs.map_values(g) =~= Seq::<Seq<(Seq<char>, NetworkDevice)>>::empty());
        assert(found_by(Seq::empty(), outcome) =~= Seq::empty()) by {
            let f = |h: Seq<char>| found_entry(h, outcome(h));
            assert(Seq::<Seq<char>>::empty().map_values(f) =~= Seq::empty());
        }
    } else {
        let init = cs.drop_last();
        let c = cs.last();
        assert(cs =~= init.push(c));
        lemma_found_by_flatten(init, outcome);
        init.lemma_flatten_push(c);
        lemma_found_by_concat(init.flatten(), c, outcome);
        assert(cs.map_values(g) =~= init.map_values(g).push(g(c)));
        init.map_values(g).lemma_flatten_push(g(c));
    }
}

proof fn lemma_flatten_multiset<A>(a: Seq<Seq<A>>, b: Seq<Seq<A>>)
    requires
        a.to_multiset() == b.to_multiset(),
    ensures
        a.flatten().to_multiset() == b.flatten().to_multiset(),
    decreases a.len(),
{
    broadcast use vstd::seq_lib::group_to_multiset_ensures;
    broadcast use vstd::multiset::group_multiset_axioms;

    if a.len() == 0 {
        vstd::seq_lib::to_multiset_len(b);
        assert(b.len() == 0);
        assert(a =~= b);
    } else {
        let x = a.last();
        let init = a.drop_last();
        assert(a =~= init.push(x));
        vstd::seq_lib::to_multiset_build(init, x);
        assert(b.to_multiset().count(x) > 0);
        let i = choose|i: int| 0 <= i < b.len() && b[i] == x;
        vstd::seq_lib::to_multiset_remove(b, i);
        assert(init.to_multiset() =~= b.remove(i).to_multiset());
        lemma_flatten_multiset(init, b.remove(i));
        init.lemma_flatten_push(x);
        let pre = b.subrange(0, i);
        let post = b.subrange(i + 1, b.len() as int);
        assert(b =~= pre + seq![x] + post);
        assert(b.remove(i) =~= pre + post);
        lemma_flatten_concat(pre + seq![x], post);
        lemma_flatten_concat(pre, seq![x]);
        lemma_flatten_concat(pre, post);
        seq![x].lemma_flatten_singleton();
        vstd::seq_lib::lemma_multiset_commutative(init.flatten(), x);
        vstd::seq_lib::lemma_multiset_commutative(pre.flatten() + x, post.flatten());
        vstd::seq_lib::lemma_multiset_commutative(pre.flatten(), x);
        vstd::seq_lib::lemma_multiset_commutative(pre.flatten(), post.flatten());
        assert(a.flatten().to_multiset() =~= b.flatten().to_multiset());
    }
}

/// Splitting the addresses between `t` workers finds, chunk by chunk in
/// order, exactly what one pass over all of them finds.
pub proof fn lemma_chunked_scan_is_sequential(
    hosts: Seq<Seq<char>>,
    outcome: spec_fn(Seq<char>) -> Result<NetworkDevice, ScanError>,
    t: int,
)
    requires
        1 <= t <= hosts.len(),
    ensures
        Seq::new(t as nat, |i: int| found_by(chunk_of(hosts, t, i), outcome)).flatten() == found_by(
            hosts,
            outcome,
        ),
{
    let chunks = Seq::new(t as nat, |i: int| chunk_of(hosts, t, i));
    lemma_chunks_partition(hosts, t);
    lemma_found_by_flatten(chunks, outcome);
    assert(chunks.map_values(|c: Seq<Seq<char>>| found_by(c, outcome)) =~= Seq::new(
        t as nat,
        |i: int| found_by(chunk_of(hosts, t, i), outcome),
    ));
}

/// However many workers share the addresses, and in whatever order they
/// finish, the devices gathered are the same: those of one pass over all
/// addresses, counted with multiplicity. `finished1` and `finished2` are the
/// workers' findings in the order the workers finished, for `t1` and `t2`
/// workers.
pub proof fn lemma_scan_independent_of_workers(
    hosts: Seq<Seq<char>>,
    outcome: spec_fn(Seq<char>) -> Result<NetworkDevice, ScanError>,
    t1: int,
    finished1: Seq<Seq<(Seq<char>, NetworkDevice)>>,
    t2: int,
    finished2: Seq<Seq<(Seq<char>, NetworkDevice)>>,
)
    requires
        1 <= t1 <= hosts.len(),
        1 <= t2 <= hosts.len(),
        finished1.to_multiset() == Seq::new(
            t1 as nat,
            |i: int| found_by(chunk_of(hosts, t1, i), outcome),
        ).to_multiset(),
        finished2.to_multiset() == Seq::new(
            t2 as nat,
            |i: int| found_by(chunk_of(hosts, t2, i), outcome),
        ).to_multiset(),
    ensures
        finished1.flatten().to_multiset() == found_by(hosts, outcome).to_multiset(),
        finished1.flatten().to_multiset() == finished2.flatten().to_multiset(),
{
    lemma_chunked_scan_is_sequential(hosts, outcome, t1);
    lemma_chunked_scan_is_sequential(hosts, outcome, t2);
    lemma_flatten_multiset(
        finished1,
        Seq::new(t1 as nat, |i: int| found_by(chunk_of(hosts, t1, i), outcome)),
    );
    lemma_flatten_multiset(
        finished2,
        Seq::new(t2 as nat, |i: int| found_by(chunk_of(hosts, t2, i), outcome)),
    );
}

} // verus!
