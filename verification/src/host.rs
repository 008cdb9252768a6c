//! Host-header parsing.
//!
//! A host is split on `.` into labels; the leftmost label is the candidate
//! subdomain. A host with fewer than three labels carries no subdomain and is
//! malformed for this service.

use vstd::prelude::*;

verus! {

/// The labels of a host: the characters split on `.`, empty labels kept,
/// exactly as an exhaustive split produces them.
pub open spec fn split_labels(s: Seq<char>) -> Seq<Seq<char>>
    decreases s.len(),
{
    if s.len() == 0 {
        seq![Seq::<char>::empty()]
    } else if s[0] == '.' {
        seq![Seq::<char>::empty()] + split_labels(s.drop_first())
    } else {
        let rest = split_labels(s.drop_first());
        seq![seq![s[0]] + rest[0]] + rest.drop_first()
    }
}

/// How many labels the host has.
pub open spec fn label_count(s: Seq<char>) -> nat {
    split_labels(s).len()
}

/// The candidate subdomain: the first label of the host.
pub open spec fn subdomain_of(s: Seq<char>) -> Seq<char> {
    split_labels(s)[0]
}

/// How many `.` characters the sequence holds.
pub open spec fn dot_count(s: Seq<char>) -> nat
    decreases s.len(),
{
    if s.len() == 0 {
        0
    } else {
        (if s[0] == '.' { 1nat } else { 0nat }) + dot_count(s.drop_first())
    }
}

/// Splitting on `.` yields one label more than there are dots.
pub proof fn lemma_label_count(s: Seq<char>)
    ensures
        label_count(s) == dot_count(s) + 1,
    decreases s.len(),
{
    if s.len() == 0 {
    } else {
        lemma_label_count(s.drop_first());
    }
}

/// Appending one character adds a dot to the count exactly when it is a dot.
pub proof fn lemma_dot_count_push(s: Seq<char>, c: char)
    ensures
        dot_count(s.push(c)) == dot_count(s) + (if c == '.' { 1nat } else { 0nat }),
    decreases s.len(),
{
    if s.len() == 0 {
        assert(s.push(c)[0] == c);
        assert(s.push(c).drop_first() =~= Seq::<char>::empty());
        assert(dot_count(Seq::<char>::empty()) == 0);
        assert(dot_count(s) == 0);
        assert(dot_count(s.push(c)) == (if c == '.' { 1nat } else { 0nat }) + dot_count(
            s.push(c).drop_first(),
        ));
    } else {
        assert(s.push(c)[0] == s[0]);
        assert(s.push(c).drop_first() =~= s.drop_first().push(c));
        lemma_dot_count_push(s.drop_first(), c);
    }
}

/// The first label runs from the start of the host to its first dot, or to
/// its end when it has none.
pub proof fn lemma_first_label(s: Seq<char>, j: int)
    requires
        0 <= j <= s.len(),
        forall|k: int| 0 <= k < j ==> s[k] != '.',
        j == s.len() || s[j] == '.',
    ensures
        subdomain_of(s) == s.subrange(0, j),
    decreases s.len(),
{
    if s.len() == 0 {
        assert(subdomain_of(s) =~= s.subrange(0, 0));
    } else if s[0] == '.' {
        assert(j == 0);
        assert(subdomain_of(s) =~= s.subrange(0, 0));
    } else {
        assert(j >= 1);
        let t = s.drop_first();
        assert(forall|k: int| 0 <= k < j - 1 ==> t[k] == s[k + 1] && t[k] != '.');
        lemma_first_label(t, j - 1);
        assert(subdomain_of(s) == seq![s[0]] + subdomain_of(t));
        assert(seq![s[0]] + t.subrange(0, j - 1) =~= s.subrange(0, j));
    }
}

/// The outcome of parsing a host header.
pub enum HostParse {
    /// Fewer than three labels: no subdomain is present.
    Malformed,
    /// At least three labels; `subdomain` is the first label.
    Valid { subdomain: String },
}

/// Parses a host header: rejects hosts with fewer than three labels and
/// otherwise extracts the subdomain, the first dot-separated label.
pub fn parse_host(host: &str) -> (r: HostParse)
    ensures
        label_count(host@) < 3 <==> r is Malformed,
        r matches HostParse::Valid { subdomain } ==> subdomain@ == subdomain_of(host@),
{
    let n: usize = host.unicode_len();
    let mut i: usize = 0;
    let mut dots: usize = 0;
    let mut first_dot: usize = n;
    while i < n
        invariant
            i <= n,
            n == host@.len(),
            dots <= i,
            dots == dot_count(host@.subrange(0, i as int)),
            if dots == 0 {
                first_dot == n
            } else {
                first_dot < i && host@[first_dot as int] == '.'
            },
            forall|k: int| 0 <= k < i && k < first_dot ==> host@[k] != '.',
        decreases n - i,
    {
        let c = host.get_char(i);
        proof {
            lemma_dot_count_push(host@.subrange(0, i as int), host@[i as int]);
            assert(host@.subrange(0, i as int + 1) =~= host@.subrange(0, i as int).push(
                host@[i as int],
            ));
        }
        if c == '.' {
            if dots == 0 {
                first_dot = i;
            }
            dots = dots + 1;
        }
        i = i + 1;
    }
    proof {
        assert(host@.subrange(0, n as int) =~= host@);
        lemma_label_count(host@);
    }
    if dots < 2 {
        HostParse::Malformed
    } else {
        proof {
            lemma_first_label(host@, first_dot as int);
        }
        let sub = host.substring_char(0, first_dot);
        HostParse::Valid { subdomain: String::from_str(sub) }
    }
}

} // verus!
