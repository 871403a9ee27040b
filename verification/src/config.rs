//! The interface descriptions that a node is configured with: `loopback`,
//! `drain`, or `udp <local port> <remote port>`, words separated by single
//! spaces.
use vstd::prelude::*;
use vstd::string::StrSliceExecFns;

verus! {

/// The interface that a description asks for.
#[derive(Debug, Clone, Copy, PartialEq, Eq, Structural)]
pub enum InterfaceType {
    Loopback,
    Drain,
    Udp { lport: u16, rport: u16 },
}

/// The words of `s` between single spaces (two spaces in a row give an
/// empty word); there is always at least one.
pub open spec fn split_spaces(s: Seq<char>) -> Seq<Seq<char>>
    decreases s.len(),
{
    if s.len() == 0 {
        seq![Seq::<char>::empty()]
    } else {
        let t = split_spaces(s.drop_last());
        if s.last() == ' ' {
            t.push(Seq::<char>::empty())
        } else {
            t.update(t.len() - 1, t.last().push(s.last()))
        }
    }
}

pub open spec fn is_digit(c: char) -> bool {
    '0' <= c && c <= '9'
}

/// The decimal value of a string of digits.
pub open spec fn digits_value(s: Seq<char>) -> nat
    decreases s.len(),
{
    if s.len() == 0 {
        0
    } else {
        digits_value(s.drop_last()) * 10 + ((s.last() as int) - ('0' as int)) as nat
    }
}

pub open spec fn all_digits(s: Seq<char>) -> bool {
    forall|i: int| 0 <= i < s.len() ==> is_digit(#[trigger] s[i])
}

/// What parsing `s` as a `u16` gives: an optional `+`, then at least one
/// decimal digit, with a value that fits in 16 bits.
pub open spec fn spec_parse_u16(s: Seq<char>) -> Option<u16> {
    let d = if s.len() > 0 && s[0] == '+' {
        s.drop_first()
    } else {
        s
    };
    if d.len() > 0 && all_digits(d) && digits_value(d) <= 0xffff {
        Some(digits_value(d) as u16)
    } else {
        None
    }
}

/// What a description asks for; `None` when it names no known interface or
/// a UDP description lacks a valid port.
pub open spec fn spec_parse_interface(s: Seq<char>) -> Option<InterfaceType> {
    let t = split_spaces(s);
    if t[0] == seq!['l', 'o', 'o', 'p', 'b', 'a', 'c', 'k'] {
        Some(InterfaceType::Loopback)
    } else if t[0] == seq!['d', 'r', 'a', 'i', 'n'] {
        Some(InterfaceType::Drain)
    } else if t[0] == seq!['u', 'd', 'p'] && t.len() >= 3 && spec_parse_u16(t[1]) is Some
        && spec_parse_u16(t[2]) is Some {
        Some(
            InterfaceType::Udp {
                lport: spec_parse_u16(t[1])->Some_0,
                rport: spec_parse_u16(t[2])->Some_0,
            },
        )
    } else {
        None
    }
}

proof fn lemma_split_nonempty(s: Seq<char>)
    ensures
        split_spaces(s).len() >= 1,
    decreases s.len(),
{
    if s.len() > 0 {
        lemma_split_nonempty(s.drop_last());
    }
}

/// A value of digits is at least the value of any of its prefixes.
proof fn lemma_digits_prefix(s: Seq<char>, k: int)
    requires
        0 <= k <= s.len(),
        all_digits(s),
    ensures
        digits_value(s.subrange(0, k)) <= digits_value(s),
    decreases s.len(),
{
    if k < s.len() {
        let p = s.drop_last();
        assert(all_digits(p)) by {
            assert forall|i: int| 0 <= i < p.len() implies is_digit(#[trigger] p[i]) by {
                assert(p[i] == s[i]);
            }
        }
        lemma_digits_prefix(p, k);
        assert(p.subrange(0, k) =~= s.subrange(0, k));
        assert(is_digit(s[s.len() - 1]));
    } else {
        assert(s.subrange(0, k) =~= s);
    }
}

/// Splits a description into its space-separated words.
pub fn split_words(s: &str) -> (r: Vec<Vec<char>>)
    ensures
        r@.len() == split_spaces(s@).len(),
        forall|k: int| 0 <= k < r@.len() ==> #[trigger] r@[k]@ == split_spaces(s@)[k],
{
    let n = s.unicode_len();
    let mut done: Vec<Vec<char>> = Vec::new();
    let mut cur: Vec<char> = Vec::new();
    let mut i: usize = 0;
    let ghost mut g: Seq<Seq<char>> = Seq::empty();
    assert(s@.subrange(0, 0) =~= Seq::<char>::empty());
    assert(g.push(cur@) =~= split_spaces(s@.subrange(0, 0)));
    while i < n
        invariant
            n == s@.len(),
            i <= n,
            g.push(cur@) == split_spaces(s@.subrange(0, i as int)),
            done@.len() == g.len(),
            forall|k: int| 0 <= k < g.len() ==> #[trigger] done@[k]@ == g[k],
        decreases n - i,
    {
        let c = s.get_char(i);
        let ghost pre = s@.subrange(0, i as int);
        let ghost post = s@.subrange(0, i as int + 1);
        assert(post.drop_last() =~= pre);
        assert(post.last() == c);
        proof {
            lemma_split_nonempty(pre);
        }
        if c == ' ' {
            let finished = cur;
            proof {
                g = g.push(finished@);
            }
            done.push(finished);
            cur = Vec::new();
            assert(g.push(cur@) =~= split_spaces(post));
        } else {
            let ghost old_cur = cur@;
            cur.push(c);
            assert(g.push(cur@) =~= g.push(old_cur).update(g.len() as int, old_cur.push(c)));
        }
        i = i + 1;
    }
    assert(s@.subrange(0, n as int) =~= s@);
    proof {
        g = g.push(cur@);
    }
    done.push(cur);
    done
}

/// Whether a word spells the literal `b`.
fn word_is(a: &Vec<char>, b: &str) -> (r: bool)
    ensures
        r == (a@ == b@),
{
    let n = b.unicode_len();
    if a.len() != n {
        return false;
    }
    let mut i: usize = 0;
    while i < n
        invariant
            n == b@.len(),
            a@.len() == n,
            i <= n,
            forall|j: int| 0 <= j < i ==> a@[j] == b@[j],
        decreases n - i,
    {
        if a[i] != b.get_char(i) {
            return false;
        }
        i = i + 1;
    }
    assert(a@ =~= b@);
    true
}

/// Parses a word as a `u16`: an optional `+`, then decimal digits whose
/// value fits in 16 bits.
pub fn parse_u16(s: &Vec<char>) -> (r: Option<u16>)
    ensures
        r == spec_parse_u16(s@),
{
    let n = s.len();
    let mut start: usize = 0;
    if n > 0 && s[0] == '+' {
        start = 1;
    }
    let ghost d = if s@.len() > 0 && s@[0] == '+' {
        s@.drop_first()
    } else {
        s@
    };
    assert(d =~= s@.subrange(start as int, n as int));
    if start == n {
        return None;
    }
    let mut acc: u32 = 0;
    let mut i: usize = start;
    assert(d.subrange(0, 0) =~= Seq::<char>::empty());
    while i < n
        invariant
            start < n == s@.len(),
            start <= i <= n,
            d == s@.subrange(start as int, n as int),
            d == (if s@.len() > 0 && s@[0] == '+' {
                s@.drop_first()
            } else {
                s@
            }),
            acc == digits_value(d.subrange(0, i - start)),
            acc <= 0xffff,
            forall|j: int| 0 <= j < i - start ==> is_digit(#[trigger] d[j]),
        decreases n - i,
    {
        let c = s[i];
        assert(d[i - start] == c);
        if !('0' <= c && c <= '9') {
            assert(!is_digit(d[i - start]));
            assert(!all_digits(d));
            assert(spec_parse_u16(s@) is None);
            return None;
        }
        let digit: u32 = (c as u32) - ('0' as u32);
        let ghost pre = d.subrange(0, i - start);
        let ghost post = d.subrange(0, i - start + 1);
        assert(post.drop_last() =~= pre);
        assert(post.last() == c);
        assert(digits_value(post) == digits_value(pre) * 10 + ((c as int) - ('0' as int)));
        acc = acc * 10 + digit;
        i = i + 1;
        assert(acc == digits_value(post));
        if acc > 0xffff {
            proof {
                if all_digits(d) {
                    lemma_digits_prefix(d, i - start);
                }
            }
            assert(spec_parse_u16(s@) is None);
            return None;
        }
    }
    assert(d.subrange(0, n - start) =~= d);
    assert(all_digits(d));
    Some(acc as u16)
}

/// Reads an interface description.
pub fn parse_interface(s: &str) -> (r: Option<InterfaceType>)
    ensures
        r == spec_parse_interface(s@),
{
    let words = split_words(s);
    proof {
        lemma_split_nonempty(s@);
        reveal_strlit("loopback");
        reveal_strlit("drain");
        reveal_strlit("udp");
    }
    let ghost t = split_spaces(s@);
    assert(words@.len() == t.len());
    assert(words@[0]@ == t[0]);
    assert("loopback"@ =~= seq!['l', 'o', 'o', 'p', 'b', 'a', 'c', 'k']);
    assert("drain"@ =~= seq!['d', 'r', 'a', 'i', 'n']);
    assert("udp"@ =~= seq!['u', 'd', 'p']);
    if word_is(&words[0], "loopback") {
        Some(InterfaceType::Loopback)
    } else if word_is(&words[0], "drain") {
        Some(InterfaceType::Drain)
    } else if word_is(&words[0], "udp") && words.len() >= 3 {
        assert(words@[1]@ == t[1]);
        assert(words@[2]@ == t[2]);
        let lport = parse_u16(&words[1]);
        let rport = parse_u16(&words[2]);
        match (lport, rport) {
            (Some(lport), Some(rport)) => Some(InterfaceType::Udp { lport, rport }),
            _ => None,
        }
    } else {
        None
    }
}

} // verus!
