//! Addresses, wildcard expansion of address patterns, and scan errors.
use vstd::prelude::*;
use vstd::arithmetic::power::pow;
use vstd::arithmetic::div_mod::{
    lemma_fundamental_div_mod_converse_div,
    lemma_fundamental_div_mod_converse_mod,
};
use crate::text::{decimal, decimal_string};

verus! {

/// The wildcard marker of an address pattern: it stands for any octet 1..=255.
pub open spec fn is_wildcard(c: char) -> bool {
    c == 'x'
}

/// How many wildcard markers `s` holds.
pub open spec fn wildcard_count(s: Seq<char>) -> nat
    decreases s.len(),
{
    if s.len() == 0 {
        0
    } else {
        (if is_wildcard(s[0]) {
            1nat
        } else {
            0nat
        }) + wildcard_count(s.drop_first())
    }
}

/// `s` with its first wildcard marker replaced by `r`; `s` itself when it holds none.
pub open spec fn replace_first_wildcard(s: Seq<char>, r: Seq<char>) -> Seq<char>
    decreases s.len(),
{
    if s.len() == 0 {
        s
    } else if is_wildcard(s[0]) {
        r + s.drop_first()
    } else {
        seq![s[0]] + replace_first_wildcard(s.drop_first(), r)
    }
}

/// One round of expansion: every pattern of `list`, in order, gives 255
/// patterns, its first wildcard replaced by 1, 2, ..., 255 in turn.
pub open spec fn expand_step(list: Seq<Seq<char>>) -> Seq<Seq<char>> {
    Seq::new(
        list.len() * 255,
        |j: int| replace_first_wildcard(list[j / 255], decimal((j % 255 + 1) as nat)),
    )
}

/// `n` rounds of expansion applied to `list`.
pub open spec fn expand_rounds(list: Seq<Seq<char>>, n: nat) -> Seq<Seq<char>>
    decreases n,
{
    if n == 0 {
        list
    } else {
        expand_rounds(expand_step(list), (n - 1) as nat)
    }
}

/// The addresses that `pattern` stands for: one round per wildcard marker,
/// so the first marker varies slowest.
pub open spec fn subnet_expansion(pattern: Seq<char>) -> Seq<Seq<char>> {
    expand_rounds(seq![pattern], wildcard_count(pattern))
}

/// The character sequences of a list of strings.
pub open spec fn views_of(v: Seq<String>) -> Seq<Seq<char>> {
    v.map_values(|s: String| s@)
}

proof fn lemma_wildcard_count_concat(a: Seq<char>, b: Seq<char>)
    ensures
        wildcard_count(a + b) == wildcard_count(a) + wildcard_count(b),
    decreases a.len(),
{
    if a.len() == 0 {
        assert(a + b =~= b);
    } else {
        assert((a + b).drop_first() =~= a.drop_first() + b);
        lemma_wildcard_count_concat(a.drop_first(), b);
    }
}

proof fn lemma_wildcard_count_single(c: char)
    ensures
        wildcard_count(seq![c]) == if is_wildcard(c) {
            1nat
        } else {
            0nat
        },
{
    assert(seq![c][0] == c);
    assert(seq![c].drop_first() =~= Seq::<char>::empty());
    assert(wildcard_count(Seq::<char>::empty()) == 0);
}

proof fn lemma_wildcard_count_push(a: Seq<char>, c: char)
    ensures
        wildcard_count(a.push(c)) == wildcard_count(a) + if is_wildcard(c) {
            1nat
        } else {
            0nat
        },
{
    assert(a.push(c) =~= a + seq![c]);
    lemma_wildcard_count_concat(a, seq![c]);
    lemma_wildcard_count_single(c);
}

proof fn lemma_decimal_has_no_wildcard(n: nat)
    ensures
        wildcard_count(decimal(n)) == 0,
    decreases n,
{
    if n < 10 {
        lemma_wildcard_count_single(crate::text::digit_char(n));
    } else {
        lemma_decimal_has_no_wildcard(n / 10);
        lemma_wildcard_count_push(decimal(n / 10), crate::text::digit_char(n % 10));
    }
}

/// Replacing the first wildcard at position `p` splices `r` in there.
proof fn lemma_replace_at(s: Seq<char>, r: Seq<char>, p: int)
    requires
        0 <= p < s.len(),
        is_wildcard(s[p]),
        wildcard_count(s.subrange(0, p)) == 0,
    ensures
        replace_first_wildcard(s, r) == s.subrange(0, p) + r + s.subrange(p + 1, s.len() as int),
    decreases p,
{
    if p == 0 {
        assert(s.drop_first() =~= s.subrange(1, s.len() as int));
        assert(s.subrange(0, 0) + r =~= r);
    } else {
        let t = s.drop_first();
        assert(s.subrange(0, p) =~= seq![s[0]] + t.subrange(0, p - 1));
        lemma_wildcard_count_concat(seq![s[0]], t.subrange(0, p - 1));
        lemma_wildcard_count_single(s[0]);
        lemma_replace_at(t, r, p - 1);
        assert(t.subrange(p, t.len() as int) =~= s.subrange(p + 1, s.len() as int));
        assert(seq![s[0]] + (t.subrange(0, p - 1) + r + t.subrange(p, t.len() as int))
            =~= s.subrange(0, p) + r + s.subrange(p + 1, s.len() as int));
    }
}

/// Without a wildcard marker, replacing leaves the sequence as it was.
proof fn lemma_replace_none(s: Seq<char>, r: Seq<char>)
    requires
        wildcard_count(s) == 0,
    ensures
        replace_first_wildcard(s, r) == s,
    decreases s.len(),
{
    if s.len() > 0 {
        lemma_replace_none(s.drop_first(), r);
        assert(seq![s[0]] + s.drop_first() =~= s);
    }
}

/// Replacing a wildcard by a wildcard-free text removes exactly one marker.
proof fn lemma_replace_count(s: Seq<char>, r: Seq<char>)
    requires
        wildcard_count(s) > 0,
        wildcard_count(r) == 0,
    ensures
        wildcard_count(replace_first_wildcard(s, r)) == wildcard_count(s) - 1,
    decreases s.len(),
{
    if is_wildcard(s[0]) {
        lemma_wildcard_count_concat(r, s.drop_first());
    } else {
        lemma_replace_count(s.drop_first(), r);
        lemma_wildcard_count_concat(seq![s[0]], replace_first_wildcard(s.drop_first(), r));
        lemma_wildcard_count_single(s[0]);
    }
}

/// The length of `n` rounds, and that they consume `n` markers of each pattern.
proof fn lemma_expand_rounds(list: Seq<Seq<char>>, n: nat)
    requires
        forall|i: int| 0 <= i < list.len() ==> wildcard_count(#[trigger] list[i]) == n,
    ensures
        expand_rounds(list, n).len() == list.len() * pow(255, n),
        forall|i: int|
            0 <= i < expand_rounds(list, n).len() ==> wildcard_count(
                #[trigger] expand_rounds(list, n)[i],
            ) == 0,
    decreases n,
{
    reveal(pow);
    if n == 0 {
        assert(list.len() * pow(255, 0) == list.len() * 1);
    } else {
        let next = expand_step(list);
        assert forall|j: int| 0 <= j < next.len() implies wildcard_count(#[trigger] next[j]) == (n
            - 1) as nat by {
            assert(0 <= j / 255 < list.len()) by (nonlinear_arith)
                requires
                    0 <= j < list.len() * 255,
            ;
            lemma_decimal_has_no_wildcard((j % 255 + 1) as nat);
            lemma_replace_count(list[j / 255], decimal((j % 255 + 1) as nat));
        }
        lemma_expand_rounds(next, (n - 1) as nat);
        assert(list.len() * 255 * pow(255, (n - 1) as nat) == list.len() * (255 * pow(
            255,
            (n - 1) as nat,
        ))) by (nonlinear_arith);
    }
}

/// A pattern without wildcard markers expands to itself alone.
pub proof fn lemma_expansion_without_wildcard(pattern: Seq<char>)
    requires
        wildcard_count(pattern) == 0,
    ensures
        subnet_expansion(pattern) == seq![pattern],
{
}

/// A pattern with `k` wildcard markers expands to `255^k` addresses, none of
/// which holds a wildcard marker.
pub proof fn lemma_expansion_size(pattern: Seq<char>)
    ensures
        subnet_expansion(pattern).len() == pow(255, wildcard_count(pattern)),
        forall|i: int|
            0 <= i < subnet_expansion(pattern).len() ==> wildcard_count(
                #[trigger] subnet_expansion(pattern)[i],
            ) == 0,
{
    let k = wildcard_count(pattern);
    lemma_expand_rounds(seq![pattern], k);
    assert(1 * pow(255, k) == pow(255, k));
}

/// Counts the wildcard markers of `s`.
fn count_wildcards(s: &str) -> (r: usize)
    ensures
        r == wildcard_count(s@),
{
    let n = s.unicode_len();
    let mut i: usize = 0;
    let mut count: usize = 0;
    while i < n
        invariant
            n == s@.len(),
            i <= n,
            count == wildcard_count(s@.subrange(0, i as int)),
            count <= i,
        decreases n - i,
    {
        let c = s.get_char(i);
        proof {
            assert(s@.subrange(0, i + 1) =~= s@.subrange(0, i as int).push(c));
            lemma_wildcard_count_push(s@.subrange(0, i as int), c);
        }
        if c == 'x' {
            count = count + 1;
        }
        i = i + 1;
    }
    assert(s@.subrange(0, n as int) =~= s@);
    count
}

/// `s` with its first wildcard marker replaced by `r`.
fn replace_first(s: &str, r: &str) -> (out: String)
    ensures
        out@ == replace_first_wildcard(s@, r@),
{
    let n = s.unicode_len();
    let mut i: usize = 0;
    while i < n
        invariant
            n == s@.len(),
            i <= n,
            wildcard_count(s@.subrange(0, i as int)) == 0,
        decreases n - i,
    {
        let c = s.get_char(i);
        proof {
            assert(s@.subrange(0, i + 1) =~= s@.subrange(0, i as int).push(c));
            lemma_wildcard_count_push(s@.subrange(0, i as int), c);
        }
        if c == 'x' {
            proof {
                lemma_replace_at(s@, r@, i as int);
            }
            let mut out = String::from_str(s.substring_char(0, i));
            out.append(r);
            out.append(s.substring_char(i + 1, n));
            return out;
        }
        i = i + 1;
    }
    proof {
        assert(s@.subrange(0, n as int) =~= s@);
        lemma_replace_none(s@, r@);
    }
    String::from_str(s)
}

/// Expands every pattern of `list` once, in the order `expand_step` gives.
fn expand_once(list: &Vec<String>) -> (r: Vec<String>)
    ensures
        views_of(r@) == expand_step(views_of(list@)),
{
    let ghost before = views_of(list@);
    let mut out: Vec<String> = Vec::new();
    let mut p: usize = 0;
    while p < list.len()
        invariant
            before == views_of(list@),
            p <= list@.len(),
            out@.len() == p * 255,
            forall|j: int|
                0 <= j < out@.len() ==> #[trigger] out@[j]@ == replace_first_wildcard(
                    before[j / 255],
                    decimal((j % 255 + 1) as nat),
                ),
        decreases list@.len() - p,
    {
        let mut v: u16 = 1;
        while v <= 255
            invariant
                before == views_of(list@),
                p < list@.len(),
                1 <= v <= 256,
                out@.len() == p * 255 + (v - 1),
                forall|j: int|
                    0 <= j < out@.len() ==> #[trigger] out@[j]@ == replace_first_wildcard(
                        before[j / 255],
                        decimal((j % 255 + 1) as nat),
                    ),
            decreases 256 - v,
        {
            let d = decimal_string(v as u8);
            let item = replace_first(list[p].as_str(), d.as_str());
            proof {
                let j = p * 255 + (v - 1);
                lemma_fundamental_div_mod_converse_div(j, 255, p as int, (v - 1) as int);
                lemma_fundamental_div_mod_converse_mod(j, 255, p as int, (v - 1) as int);
            }
            out.push(item);
            v = v + 1;
        }
        p = p + 1;
    }
    assert(views_of(out@) =~= expand_step(before));
    out
}

/// Expands an address pattern: each wildcard marker `x`, left to right, is
/// replaced by every octet value 1..=255, the first marker varying slowest.
/// A pattern without markers gives the list holding it alone.
pub fn subnet_generator(ip: String) -> (r: Vec<String>)
    ensures
        views_of(r@) == subnet_expansion(ip@),
        r@.len() == pow(255, wildcard_count(ip@)),
        forall|i: int| 0 <= i < r@.len() ==> wildcard_count(#[trigger] r@[i]@) == 0,
        wildcard_count(ip@) == 0 ==> r@.len() == 1 && r@[0]@ == ip@,
{
    let k = count_wildcards(ip.as_str());
    let ghost seed = seq![ip@];
    let mut current: Vec<String> = Vec::new();
    current.push(ip);
    assert(views_of(current@) =~= seed);
    let mut round: usize = 0;
    while round < k
        invariant
            round <= k,
            k == wildcard_count(seed[0]),
            expand_rounds(views_of(current@), (k - round) as nat) == expand_rounds(seed, k as nat),
        decreases k - round,
    {
        current = expand_once(&current);
        round = round + 1;
    }
    proof {
        lemma_expansion_size(seed[0]);
        assert(views_of(current@) == subnet_expansion(seed[0]));
        assert forall|i: int| 0 <= i < current@.len() implies wildcard_count(
            #[trigger] current@[i]@,
        ) == 0 by {
            assert(views_of(current@)[i] == current@[i]@);
        }
    }
    current
}

/// A concrete address to probe, in its textual form.
#[derive(Clone)]
pub struct IpWrapper(pub String);

impl View for IpWrapper {
    type V = Seq<char>;

    open spec fn view(&self) -> Seq<char> {
        self.0@
    }
}

impl IpWrapper {
    /// The probe URL of this address.
    pub open spec fn url_spec(&self) -> Seq<char> {
        "https://"@ + self@
    }

    /// The URL that a probe of this address requests.
    pub fn url(&self) -> (r: String)
        ensures
            r@ == self.url_spec(),
    {
        let mut r = String::from_str("https://");
        r.append(self.0.as_str());
        r
    }

    /// The address as text.
    pub fn to_string(&self) -> (r: String)
        ensures
            r@ == self@,
    {
        String::from_str(self.0.as_str())
    }

    /// A second handle on the same address.
    pub fn duplicate(&self) -> (r: IpWrapper)
        ensures
            r@ == self@,
    {
        IpWrapper(String::from_str(self.0.as_str()))
    }
}

/// Why a probe or a scan did not give a device.
pub enum ScanError {
    /// The request did not finish within the configured time.
    Timeout,
    /// The host refused or could not be reached.
    Connection,
    /// Any other transport failure, with its details.
    OtherError(String),
    /// The scan was configured with more workers than addresses, or none.
    Configuration,
}

impl ScanError {
    /// The text that describes this error.
    pub open spec fn message(&self) -> Seq<char> {
        match self {
            ScanError::Timeout => "timeout occurred after 10s"@,
            ScanError::Connection => "connection failed"@,
            ScanError::OtherError(detail) => "other weird web error "@ + detail@,
            ScanError::Configuration => "more threads than ips to scan"@,
        }
    }

    /// Describes this error.
    pub fn to_string(&self) -> (r: String)
        ensures
            r@ == self.message(),
    {
        match self {
            ScanError::Timeout => String::from_str("timeout occurred after 10s"),
            ScanError::Connection => String::from_str("connection failed"),
            ScanError::OtherError(detail) => {
                let mut r = String::from_str("other weird web error ");
                r.append(detail.as_str());
                r
            },
            ScanError::Configuration => String::from_str("more threads than ips to scan"),
        }
    }
}

/// Wraps each address of `addresses` for probing, keeping their order.
pub fn hosts_from(addresses: Vec<String>) -> (r: Vec<IpWrapper>)
    ensures
        r@.len() == addresses@.len(),
        forall|i: int| 0 <= i < r@.len() ==> #[trigger] r@[i]@ == addresses@[i]@,
{
    let mut out: Vec<IpWrapper> = Vec::new();
    let mut i: usize = 0;
    while i < addresses.len()
        invariant
            i <= addresses@.len(),
            out@.len() == i,
            forall|k: int| 0 <= k < i ==> #[trigger] out@[k]@ == addresses@[k]@,
        decreases addresses@.len() - i,
    {
        out.push(IpWrapper(String::from_str(addresses[i].as_str())));
        i = i + 1;
    }
    out
}

} // verus!
