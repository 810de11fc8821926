use vstd::prelude::*;
use crate::config::NetworkInterface;
use crate::text::{digit_val, is_digit};
use crate::text::{char_digit_val, char_is_digit, str_chars};

verus! {

/// The decimal value of a digit string, most significant digit first.
pub open spec fn spec_dec_val(s: Seq<char>) -> int
    decreases s.len(),
{
    if s.len() == 0 {
        0
    } else {
        spec_dec_val(s.drop_last()) * 10 + digit_val(s.last())
    }
}

/// A decimal octet as it may appear in a dotted-quad address: one to three
/// ASCII digits whose value is at most 255.
pub open spec fn is_octet_str(s: Seq<char>) -> bool {
    1 <= s.len() <= 3 && (forall|i: int| 0 <= i < s.len() ==> is_digit(#[trigger] s[i]))
        && spec_dec_val(s) <= 255
}

/// Dot positions `i < j < k` cut `s` into four decimal octets.
pub open spec fn spec_ipv4_split(s: Seq<char>, i: int, j: int, k: int) -> bool {
    0 <= i < j < k < s.len() && s[i] == '.' && s[j] == '.' && s[k] == '.' && is_octet_str(
        s.subrange(0, i),
    ) && is_octet_str(s.subrange(i + 1, j)) && is_octet_str(s.subrange(j + 1, k))
        && is_octet_str(s.subrange(k + 1, s.len() as int))
}

/// A dotted-quad IPv4 address: four decimal octets separated by dots.
pub open spec fn is_ipv4_str(s: Seq<char>) -> bool {
    exists|i: int, j: int, k: int| spec_ipv4_split(s, i, j, k)
}

/// Parses one candidate octet: the characters of `chars` from `lo` to `hi`.
fn parse_octet(chars: &Vec<char>, lo: usize, hi: usize) -> (r: Option<u8>)
    requires
        lo <= hi <= chars@.len(),
    ensures
        r is Some <==> is_octet_str(chars@.subrange(lo as int, hi as int)),
        r is Some ==> r->0 == spec_dec_val(chars@.subrange(lo as int, hi as int)),
{
    let ghost sub = chars@.subrange(lo as int, hi as int);
    let len = hi - lo;
    if len == 0 || len > 3 {
        return None;
    }
    let mut t: usize = lo;
    while t < hi
        invariant
            lo <= t <= hi <= chars@.len(),
            sub == chars@.subrange(lo as int, hi as int),
            forall|m: int| 0 <= m < t - lo ==> is_digit(#[trigger] sub[m]),
        decreases hi - t,
    {
        if !char_is_digit(chars[t]) {
            proof {
                assert(sub[t - lo] == chars@[t as int]);
            }
            return None;
        }
        proof {
            assert(sub[t - lo] == chars@[t as int]);
        }
        t = t + 1;
    }
    proof {
        assert(sub[0] == chars@[lo as int]);
        assert(is_digit(chars@[lo as int]));
        if len >= 2 {
            assert(sub[1] == chars@[lo + 1]);
            assert(is_digit(chars@[lo + 1]));
        }
        if len >= 3 {
            assert(sub[2] == chars@[lo + 2]);
            assert(is_digit(chars@[lo + 2]));
        }
    }
    let value: u16 = if len == 1 {
        char_digit_val(chars[lo]) as u16
    } else if len == 2 {
        10 * (char_digit_val(chars[lo]) as u16) + (char_digit_val(chars[lo + 1]) as u16)
    } else {
        100 * (char_digit_val(chars[lo]) as u16) + 10 * (char_digit_val(chars[lo + 1]) as u16) + (
        char_digit_val(chars[lo + 2]) as u16)
    };
    proof {
        assert(spec_dec_val(Seq::<char>::empty()) == 0);
        if len == 1 {
            assert(sub.drop_last() =~= Seq::<char>::empty());
            assert(sub.last() == chars@[lo as int]);
            assert(spec_dec_val(sub) == spec_dec_val(sub.drop_last()) * 10 + digit_val(
                sub.last(),
            ));
        } else if len == 2 {
            let s1 = sub.drop_last();
            assert(s1 =~= chars@.subrange(lo as int, lo + 1));
            assert(s1.drop_last() =~= Seq::<char>::empty());
            assert(s1.last() == chars@[lo as int]);
            assert(sub.last() == chars@[lo + 1]);
            assert(spec_dec_val(s1) == spec_dec_val(s1.drop_last()) * 10 + digit_val(s1.last()));
            assert(spec_dec_val(sub) == spec_dec_val(s1) * 10 + digit_val(sub.last()));
        } else {
            let s2 = sub.drop_last();
            let s1 = s2.drop_last();
            assert(s2 =~= chars@.subrange(lo as int, lo + 2));
            assert(s1 =~= chars@.subrange(lo as int, lo + 1));
            assert(s1.drop_last() =~= Seq::<char>::empty());
            assert(s1.last() == chars@[lo as int]);
            assert(s2.last() == chars@[lo + 1]);
            assert(sub.last() == chars@[lo + 2]);
            assert(spec_dec_val(s1) == spec_dec_val(s1.drop_last()) * 10 + digit_val(s1.last()));
            assert(spec_dec_val(s2) == spec_dec_val(s1) * 10 + digit_val(s2.last()));
            assert(spec_dec_val(sub) == spec_dec_val(s2) * 10 + digit_val(sub.last()));
        }
        assert(value == spec_dec_val(sub));
    }
    if value > 255 {
        return None;
    }
    Some(value as u8)
}

/// The dot positions of a character sequence, in increasing order.
fn dot_positions(chars: &Vec<char>) -> (dots: Vec<usize>)
    ensures
        forall|q: int| 0 <= q < dots@.len() ==> chars@[#[trigger] dots@[q] as int] == '.',
        forall|q1: int, q2: int| 0 <= q1 < q2 < dots@.len() ==> dots@[q1] < dots@[q2],
        forall|p: int|
            0 <= p < chars@.len() && chars@[p] == '.' ==> exists|q: int|
                0 <= q < dots@.len() && #[trigger] dots@[q] as int == p,
        forall|q: int| 0 <= q < dots@.len() ==> #[trigger] dots@[q] < chars@.len(),
{
    let mut dots: Vec<usize> = Vec::new();
    let mut p: usize = 0;
    while p < chars.len()
        invariant
            p <= chars@.len(),
            forall|q: int| 0 <= q < dots@.len() ==> chars@[#[trigger] dots@[q] as int] == '.',
            forall|q1: int, q2: int| 0 <= q1 < q2 < dots@.len() ==> dots@[q1] < dots@[q2],
            forall|q: int| 0 <= q < dots@.len() ==> #[trigger] dots@[q] < p,
            forall|pp: int|
                0 <= pp < p && chars@[pp] == '.' ==> exists|q: int|
                    0 <= q < dots@.len() && #[trigger] dots@[q] as int == pp,
        decreases chars@.len() - p,
    {
        let ghost predots = dots@;
        if chars[p] == '.' {
            dots.push(p);
            proof {
                assert(dots@[dots@.len() - 1] as int == p as int);
                assert forall|pp: int| 0 <= pp < p + 1 && chars@[pp] == '.' implies exists|q: int|
                    0 <= q < dots@.len() && #[trigger] dots@[q] as int == pp by {
                    if pp < p {
                        let q = choose|q: int|
                            0 <= q < predots.len() && #[trigger] predots[q] as int == pp;
                        assert(dots@[q] as int == pp);
                    } else {
                        assert(dots@[dots@.len() - 1] as int == pp);
                    }
                }
            }
        }
        p = p + 1;
    }
    dots
}

/// In a valid split every separator index carries a dot and every octet
/// position carries a digit, so the split's dot indices are exactly the
/// dots of the string.
proof fn lemma_split_dots_exact(s: Seq<char>, i: int, j: int, k: int, p: int)
    requires
        spec_ipv4_split(s, i, j, k),
        0 <= p < s.len(),
        s[p] == '.',
    ensures
        p == i || p == j || p == k,
{
    if p != i && p != j && p != k {
        if p < i {
            assert(s.subrange(0, i)[p] == s[p]);
            assert(is_digit(s.subrange(0, i)[p]));
        } else if p < j {
            assert(s.subrange(i + 1, j)[p - (i + 1)] == s[p]);
            assert(is_digit(s.subrange(i + 1, j)[p - (i + 1)]));
        } else if p < k {
            assert(s.subrange(j + 1, k)[p - (j + 1)] == s[p]);
            assert(is_digit(s.subrange(j + 1, k)[p - (j + 1)]));
        } else {
            assert(s.subrange(k + 1, s.len() as int)[p - (k + 1)] == s[p]);
            assert(is_digit(s.subrange(k + 1, s.len() as int)[p - (k + 1)]));
        }
        assert(!is_digit('.'));
        assert(false);
    }
}

/// Parses a dotted-quad IPv4 address string into its four octets.
///
/// Returns `Some` exactly when the string is four decimal octets (each one
/// to three digits, value at most 255) separated by single dots, and then
/// the four returned bytes are the octet values in order.
pub fn parse_ipv4(s: &str) -> (r: Option<(u8, u8, u8, u8)>)
    ensures
        r is Some <==> is_ipv4_str(s@),
        forall|i: int, j: int, k: int|
            #[trigger] spec_ipv4_split(s@, i, j, k) ==> r == Some(
                (
                    (spec_dec_val(s@.subrange(0, i)) as u8),
                    (spec_dec_val(s@.subrange(i + 1, j)) as u8),
                    (spec_dec_val(s@.subrange(j + 1, k)) as u8),
                    (spec_dec_val(s@.subrange(k + 1, s@.len() as int)) as u8),
                ),
            ),
{
    let chars = str_chars(s);
    let dots = dot_positions(&chars);
    if dots.len() != 3 {
        proof {
            assert forall|i: int, j: int, k: int| !spec_ipv4_split(s@, i, j, k) by {
                if spec_ipv4_split(s@, i, j, k) {
                    lemma_split_dots_exact(s@, i, j, k, i);
                    lemma_split_dots_exact(s@, i, j, k, j);
                    lemma_split_dots_exact(s@, i, j, k, k);
                    let qi = choose|q: int|
                        0 <= q < dots@.len() && #[trigger] dots@[q] as int == i;
                    let qj = choose|q: int|
                        0 <= q < dots@.len() && #[trigger] dots@[q] as int == j;
                    let qk = choose|q: int|
                        0 <= q < dots@.len() && #[trigger] dots@[q] as int == k;
                    if dots@.len() < 3 {
                        assert(qi != qj && qj != qk && qi != qk);
                        assert(false);
                    } else {
                        assert forall|p: int|
                            0 <= p < dots@.len() implies dots@[p] as int == i || dots@[p] as int
                            == j || dots@[p] as int == k by {
                            lemma_split_dots_exact(s@, i, j, k, dots@[p] as int);
                        }
                        assert(dots@[0] < dots@[1] < dots@[2] < dots@[3]);
                        assert(false);
                    }
                }
            }
        }
        return None;
    }
    let di = dots[0];
    let dj = dots[1];
    let dk = dots[2];
    proof {
        assert(di < dj < dk < chars@.len());
        assert forall|i: int, j: int, k: int|
            #[trigger] spec_ipv4_split(s@, i, j, k) implies i == di as int && j == dj as int && k
            == dk as int by {
            lemma_split_dots_exact(s@, i, j, k, i);
            lemma_split_dots_exact(s@, i, j, k, j);
            lemma_split_dots_exact(s@, i, j, k, k);
            let qi = choose|q: int| 0 <= q < dots@.len() && #[trigger] dots@[q] as int == i;
            let qj = choose|q: int| 0 <= q < dots@.len() && #[trigger] dots@[q] as int == j;
            let qk = choose|q: int| 0 <= q < dots@.len() && #[trigger] dots@[q] as int == k;
            assert(qi != qj && qj != qk && qi != qk);
        }
    }
    let n = chars.len();
    proof {
        assert(dots@[0] < dots@[1] && dots@[1] < dots@[2]);
        assert(dots@[0] < chars@.len() && dots@[1] < chars@.len() && dots@[2] < chars@.len());
    }
    let a = parse_octet(&chars, 0, di);
    let b = parse_octet(&chars, di + 1, dj);
    let c = parse_octet(&chars, dj + 1, dk);
    let d = parse_octet(&chars, dk + 1, n);
    match (a, b, c, d) {
        (Some(a), Some(b), Some(c), Some(d)) => {
            proof {
                assert(spec_ipv4_split(s@, di as int, dj as int, dk as int));
            }
            Some((a, b, c, d))
        },
        _ => {
            proof {
                assert(!spec_ipv4_split(s@, di as int, dj as int, dk as int));
                assert forall|i: int, j: int, k: int| !spec_ipv4_split(s@, i, j, k) by {
                    if spec_ipv4_split(s@, i, j, k) {
                        assert(i == di as int && j == dj as int && k == dk as int);
                    }
                }
            }
            None
        },
    }
}

/// What an interface enumeration reports about one network interface.
#[derive(Clone, Debug)]
pub struct InterfaceInfo {
    pub name: String,
    pub ip_address: String,
    pub is_loopback: bool,
    pub is_ipv4: bool,
}

/// An interface is offered for binding when it is a non-loopback IPv4
/// interface.
pub open spec fn spec_interface_selected(c: InterfaceInfo) -> bool {
    !c.is_loopback && c.is_ipv4
}

/// The (name, address) pairs of the selected interfaces, in listing order.
pub open spec fn spec_selected_interfaces(cs: Seq<InterfaceInfo>) -> Seq<(Seq<char>, Seq<char>)>
    decreases cs.len(),
{
    if cs.len() == 0 {
        Seq::empty()
    } else {
        let rest = spec_selected_interfaces(cs.drop_last());
        if spec_interface_selected(cs.last()) {
            rest.push((cs.last().name@, cs.last().ip_address@))
        } else {
            rest
        }
    }
}

/// Keeps the non-loopback IPv4 interfaces of an enumeration, in order.
pub fn select_network_interfaces(candidates: &Vec<InterfaceInfo>) -> (r: Vec<NetworkInterface>)
    ensures
        r@.len() == spec_selected_interfaces(candidates@).len(),
        forall|q: int|
            0 <= q < r@.len() ==> ((#[trigger] r@[q]).name@, r@[q].ip_address@)
                == spec_selected_interfaces(candidates@)[q],
{
    let mut r: Vec<NetworkInterface> = Vec::new();
    let mut p: usize = 0;
    proof {
        assert(candidates@.take(0) =~= Seq::<InterfaceInfo>::empty());
    }
    while p < candidates.len()
        invariant
            p <= candidates@.len(),
            r@.len() == spec_selected_interfaces(candidates@.take(p as int)).len(),
            forall|q: int|
                0 <= q < r@.len() ==> ((#[trigger] r@[q]).name@, r@[q].ip_address@)
                    == spec_selected_interfaces(candidates@.take(p as int))[q],
        decreases candidates@.len() - p,
    {
        proof {
            assert(candidates@.take(p + 1).drop_last() =~= candidates@.take(p as int));
            assert(candidates@.take(p + 1).last() == candidates@[p as int]);
        }
        let cand = &candidates[p];
        if !cand.is_loopback && cand.is_ipv4 {
            r.push(
                NetworkInterface {
                    name: cand.name.clone(),
                    ip_address: cand.ip_address.clone(),
                },
            );
        }
        p = p + 1;
    }
    proof {
        assert(candidates@.take(candidates@.len() as int) =~= candidates@);
    }
    r
}

} // verus!
